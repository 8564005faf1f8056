use olist_cdn_preheat::crawl::{
    challenge_target, challenge_user_agent, crawl_tick, multi_crawl_start, is_challenge_error, list_retry, multi_crawl_tick, next_page,
    pick_round_robin, route_listing, CrawlTick, ListRetry, MultiCrawlTick, SiteLoad,
};
use olist_cdn_preheat::models::{FileItem, SiteSettings};
use std::collections::VecDeque;

fn item(path: &str, is_dir: bool) -> FileItem {
    FileItem {
        id: format!("id-{}", path),
        site_id: String::new(),
        path: path.to_string(),
        name: path.rsplit('/').next().unwrap().to_string(),
        size: 7,
        is_dir,
        modified: None,
        retries: 0,
    }
}

#[test]
fn ordinary_failures_back_off_then_give_up() {
    assert_eq!(list_retry(1, "HTTP Error: 502 Bad Gateway"), ListRetry::Retry { backoff_ms: 500 });
    assert_eq!(list_retry(2, "timeout"), ListRetry::Retry { backoff_ms: 1000 });
    assert_eq!(list_retry(5, "timeout"), ListRetry::Retry { backoff_ms: 8000 });
    assert_eq!(list_retry(6, "timeout"), ListRetry::GiveUp);
}

#[test]
fn challenge_pages_are_solved_with_longer_back_off() {
    let msg = "Failed to parse JSON: expected value. Response: <html><script>var arg1='x'</script>";
    assert!(is_challenge_error(msg));
    assert_eq!(list_retry(1, msg), ListRetry::SolveChallenge { backoff_ms: 1000 });
    assert_eq!(list_retry(3, msg), ListRetry::SolveChallenge { backoff_ms: 4000 });
    // 1000 * 16 is capped at 15 s.
    assert_eq!(list_retry(5, msg), ListRetry::SolveChallenge { backoff_ms: 15000 });
    assert_eq!(list_retry(6, msg), ListRetry::GiveUp);
}

#[test]
fn challenge_detection_needs_both_markers() {
    assert!(is_challenge_error("Failed to parse JSON: x. Response: acw_sc__v2=abc"));
    assert!(!is_challenge_error("Failed to parse JSON: x. Response: {}"));
    assert!(!is_challenge_error("<script> acw_sc__v2"));
}

#[test]
fn pagination() {
    assert_eq!(next_page(1, 100, 250, 100), Some(2));
    assert_eq!(next_page(2, 100, 250, 100), Some(3));
    assert_eq!(next_page(3, 100, 250, 50), None);
    assert_eq!(next_page(1, 100, 100, 100), None);
    assert_eq!(next_page(1, 100, 1000, 0), None);
}

#[test]
fn listings_split_into_dirs_and_tagged_files() {
    let items = vec![item("/a", true), item("/b.txt", false), item("/c", true), item("/d.bin", false)];
    let (dirs, files) = route_listing(&items, &"site-1".to_string());
    assert_eq!(dirs, vec!["/a".to_string(), "/c".to_string()]);
    assert_eq!(files.len(), 2);
    assert_eq!(files[0].path, "/b.txt");
    assert_eq!(files[1].path, "/d.bin");
    assert!(files.iter().all(|f| f.site_id == "site-1" && !f.is_dir));
    assert_eq!(files[0].id, "id-/b.txt");
}

#[test]
fn single_site_dispatcher() {
    let mut q: VecDeque<String> = VecDeque::from(vec!["/x".to_string(), "/y".to_string()]);
    assert!(matches!(crawl_tick(&mut q, 1, 0, true), CrawlTick::Wait));
    assert!(matches!(crawl_tick(&mut q, 0, 8, true), CrawlTick::Wait));
    assert_eq!(q.len(), 2);
    match crawl_tick(&mut q, 0, 3, true) {
        CrawlTick::Spawn(d) => assert_eq!(d, "/x"),
        _ => panic!("expected a spawn"),
    }
    assert_eq!(q.len(), 1);
    let mut empty: VecDeque<String> = VecDeque::new();
    assert!(matches!(crawl_tick(&mut empty, 0, 1, true), CrawlTick::Wait));
    assert!(matches!(crawl_tick(&mut empty, 0, 0, false), CrawlTick::Wait));
    assert!(matches!(crawl_tick(&mut empty, 0, 0, true), CrawlTick::Finish));
}

fn load(challenge_active: usize, active: usize, pending: usize) -> SiteLoad {
    SiteLoad { challenge_active, active, pending }
}

#[test]
fn round_robin_takes_turns() {
    let sites = vec![load(0, 0, 3), load(0, 0, 3), load(0, 0, 3)];
    let p = pick_round_robin(&sites, 0);
    assert_eq!(p.site, Some(0));
    assert_eq!(p.next_index, 1);
    let p = pick_round_robin(&sites, p.next_index);
    assert_eq!(p.site, Some(1));
    let p = pick_round_robin(&sites, p.next_index);
    assert_eq!(p.site, Some(2));
    assert_eq!(p.next_index, 0);
}

#[test]
fn round_robin_skips_ineligible_sites() {
    let sites = vec![load(1, 0, 3), load(0, 8, 3), load(0, 0, 0), load(0, 0, 1)];
    let p = pick_round_robin(&sites, 0);
    assert_eq!(p.site, Some(3));
    assert_eq!(p.next_index, 0);
    let none = vec![load(1, 0, 3), load(0, 0, 0)];
    let p = pick_round_robin(&none, 5);
    assert_eq!(p.site, None);
    assert_eq!(p.next_index, 1);
}

#[test]
fn multi_site_dispatcher() {
    let sites = vec![load(0, 0, 1), load(0, 0, 0)];
    assert_eq!(multi_crawl_tick(&sites, 0, 8, true), (MultiCrawlTick::Wait, 0));
    assert_eq!(multi_crawl_tick(&sites, 1, 0, true), (MultiCrawlTick::Spawn(0), 1));
    let idle = vec![load(0, 0, 0), load(0, 0, 0)];
    assert_eq!(multi_crawl_tick(&idle, 1, 0, true), (MultiCrawlTick::Finish, 1));
    assert_eq!(multi_crawl_tick(&idle, 1, 2, true), (MultiCrawlTick::Wait, 1));
    let blocked = vec![load(1, 0, 2)];
    assert_eq!(multi_crawl_tick(&blocked, 0, 0, true), (MultiCrawlTick::Wait, 0));
}

#[test]
fn challenge_window_user_agent() {
    assert_eq!(challenge_user_agent(Some("UA/1")), "UA/1");
    assert_eq!(challenge_user_agent(None), "olist-cdn-preheat/0.1 (Mozilla/5.0 compatible)");
}

#[test]
fn eligible_site_is_served_within_n_ticks() {
    // Site 3 stays eligible; the others change between ticks. Within four
    // ticks, each starting where the previous one said, site 3 is served.
    let rounds = vec![
        vec![load(0, 0, 5), load(0, 0, 5), load(0, 0, 5), load(0, 0, 1)],
        vec![load(0, 0, 5), load(0, 0, 5), load(0, 0, 5), load(0, 0, 1)],
        vec![load(0, 0, 5), load(0, 0, 5), load(0, 0, 5), load(0, 0, 1)],
        vec![load(0, 0, 5), load(0, 0, 5), load(0, 0, 5), load(0, 0, 1)],
    ];
    let mut start = 0;
    let mut served = false;
    for sites in &rounds {
        let p = pick_round_robin(sites, start);
        if p.site == Some(3) {
            served = true;
            break;
        }
        start = p.next_index;
    }
    assert!(served);
}

#[test]
fn multi_crawl_starts_at_each_start_path() {
    assert!(multi_crawl_start(&vec![]).is_none());
    let mut a = SiteSettings::default();
    a.start_path = "/a".to_string();
    let mut b = SiteSettings::default();
    b.start_path = "/b/c".to_string();
    assert_eq!(multi_crawl_start(&vec![a, b]).unwrap(), vec!["/a".to_string(), "/b/c".to_string()]);
}

#[test]
fn challenge_url_must_parse() {
    assert!(challenge_target("https://api.example.com").is_ok());
    match challenge_target("not a url") {
        Err(olist_cdn_preheat::models::AppError::Api(m)) => assert_eq!(m, "Invalid URL: relative URL without a base"),
        other => panic!("unexpected {:?}", other),
    }
}
