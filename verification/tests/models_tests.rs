use olist_cdn_preheat::models::{AppError, PartialModeConfig, RunSettings, SiteSettings};

#[test]
fn default_site_settings() {
    let s = SiteSettings::default();
    assert_eq!(s.id.len(), 36);
    assert_eq!(&s.id[14..15], "4");
    assert_eq!(s.name, "New Site");
    assert_eq!(s.api_base_url, "");
    assert_eq!(s.start_path, "/");
    assert_eq!(s.user_agent.as_deref(), Some("olist-cdn-preheat/0.1 (Mozilla/5.0 compatible)"));
    assert_eq!(s.timeout_ms, Some(60000));
    assert_eq!(s.follow_redirects, Some(true));
    assert!(s.token.is_none() && s.cookie.is_none() && s.proxy_url.is_none());
    assert_ne!(SiteSettings::default().id, s.id);
}

#[test]
fn default_run_settings() {
    let r = RunSettings::default();
    assert_eq!(r.min_conn, Some(2));
    assert_eq!(r.max_conn, 16);
    assert_eq!(r.rate_limit_bytes_per_sec.unwrap_or(0), 0);
    assert_eq!(r.chunk_bytes, Some(65536));
    assert_eq!(r.max_attempts, Some(3));
    assert_eq!(r.backoff_base_ms, Some(500));
    assert_eq!(r.backoff_max_ms, Some(10000));
    assert_eq!(r.partial_mode, Some(PartialModeConfig { enabled: false, max_bytes: None }));
    assert_eq!(r.warn_on_redirect, Some(true));
}

#[test]
fn error_messages() {
    assert_eq!(AppError::Api("boom".to_string()).message(), "boom");
    assert_eq!(AppError::Network("down".to_string()).message(), "down");
}
