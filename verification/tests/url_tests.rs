use olist_cdn_preheat::models::{FileItem, SiteSettings};
use olist_cdn_preheat::url::{encode_path_segments, join_child_path, normalize_base_url, resolve_download_url};

fn site(api: &str, download: Option<&str>, user_base: Option<&str>) -> SiteSettings {
    let mut s = SiteSettings::default();
    s.api_base_url = api.to_string();
    s.download_base_url = download.map(|d| d.to_string());
    s.user_base_path = user_base.map(|u| u.to_string());
    s
}

fn file(path: &str) -> FileItem {
    FileItem {
        id: "f1".to_string(),
        site_id: String::new(),
        path: path.to_string(),
        name: String::new(),
        size: 0,
        is_dir: false,
        modified: None,
        retries: 0,
    }
}

#[test]
fn encodes_each_segment_and_keeps_slashes() {
    // The documented example: spaces and CJK characters are percent-encoded per segment.
    assert_eq!(encode_path_segments("/A B/结构.pdf"), "/A%20B/%E7%BB%93%E6%9E%84.pdf");
    assert_eq!(encode_path_segments("a//b"), "a//b");
    assert_eq!(encode_path_segments(""), "");
    assert_eq!(encode_path_segments("/x#y?z~_.-"), "/x%23y%3Fz~_.-");
}

#[test]
fn download_url_uses_download_base() {
    let s = site("https://api.example.com/", Some("https://cdn.example.com//"), None);
    let url = resolve_download_url(&file("/A B/结构.pdf"), &s);
    assert_eq!(url, "https://cdn.example.com/d/A%20B/%E7%BB%93%E6%9E%84.pdf");
}

#[test]
fn download_url_falls_back_to_api_base() {
    let s = site("https://api.example.com/", None, None);
    assert_eq!(resolve_download_url(&file("/movies/a.mkv"), &s), "https://api.example.com/d/movies/a.mkv");
}

#[test]
fn empty_download_base_means_api_base() {
    let s = site("https://api.example.com", Some(""), None);
    assert_eq!(resolve_download_url(&file("/x.bin"), &s), "https://api.example.com/d/x.bin");
}

#[test]
fn download_url_prepends_user_base_path() {
    let s = site("https://api.example.com", None, Some("/abc/"));
    assert_eq!(resolve_download_url(&file("/x/y z.txt"), &s), "https://api.example.com/d/abc/x/y%20z.txt");
}

#[test]
fn download_url_is_stable() {
    let s = site("https://api.example.com", Some("https://cdn.example.com"), None);
    let a = resolve_download_url(&file("/（全角）/f.bin"), &s);
    let b = resolve_download_url(&file("/（全角）/f.bin"), &s);
    assert_eq!(a, b);
    assert!(!a.contains('?'));
}

#[test]
fn child_paths() {
    assert_eq!(join_child_path("/", "a"), "/a");
    assert_eq!(join_child_path("/dir", "a"), "/dir/a");
    assert_eq!(join_child_path("/dir//", "a"), "/dir/a");
    assert_eq!(join_child_path("", "a"), "/a");
}

#[test]
fn base_urls_lose_trailing_slashes() {
    assert_eq!(normalize_base_url("https://x.org///"), "https://x.org");
    assert_eq!(normalize_base_url("https://x.org"), "https://x.org");
    assert_eq!(normalize_base_url("///"), "");
}
