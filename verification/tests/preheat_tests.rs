use olist_cdn_preheat::models::{AppError, FileStatus, HeaderKV, PartialModeConfig, RunSettings, SiteSettings};
use olist_cdn_preheat::preheat::{
    body_check, concurrency_limit, controller_step, cooldown_active, cooldown_until,
    download_client_plan, download_status_error, incomplete_cdn_error, retry_backoff, retry_policy,
    run_limits, expected_body, BodyCheck, DownloadFailure, DownloadOutcome, DownloadProgress, FileAttempt, FileStep,
    RefreshOutcome, RetryPolicy, UpdateContext,
};

fn msg(e: AppError) -> String {
    match e {
        AppError::Api(m) | AppError::Network(m) => m,
    }
}

fn policy(max_attempts: u32) -> RetryPolicy {
    RetryPolicy { max_attempts, backoff_base_ms: 500, backoff_max_ms: 10000 }
}

#[test]
fn limit_follows_rate_limit() {
    // No rate limit: always the maximum.
    assert_eq!(concurrency_limit(0, 32, 5), 32);
    // With a rate limit: what the controller reached, never past max_conn.
    assert_eq!(concurrency_limit(1000, 32, 5), 5);
    assert_eq!(concurrency_limit(1000, 16, 40), 16);
}

#[test]
fn controller_adds_one_below_ninety_five_percent() {
    assert_eq!(controller_step(1000, 949, 5, 32, true), 6);
    assert_eq!(controller_step(1000, 950, 5, 32, true), 5);
    assert_eq!(controller_step(1000, 0, 5, 32, false), 5);
    assert_eq!(controller_step(1000, 0, 32, 32, true), 32);
    assert_eq!(controller_step(0, 0, 5, 32, true), 5);
}

#[test]
fn body_sizes() {
    assert_eq!(body_check(4300, 1_000_000), BodyCheck::ChallengePage);
    assert_eq!(body_check(4350, 1_000_000), BodyCheck::ChallengePage);
    // A complete body of the challenge page's size is complete.
    assert_eq!(body_check(4321, 4321), BodyCheck::Complete);
    assert_eq!(body_check(4350, 4350), BodyCheck::Complete);
    assert_eq!(body_check(4351, 1_000_000), BodyCheck::Incomplete);
    assert_eq!(body_check(950, 1000), BodyCheck::Complete);
    assert_eq!(body_check(949, 1000), BodyCheck::Incomplete);
    assert_eq!(body_check(0, 0), BodyCheck::Complete);
}

#[test]
fn retry_settings() {
    let p = retry_policy(&RunSettings::default());
    assert_eq!(p, policy(3));
    let mut r = RunSettings::default();
    r.max_attempts = None;
    r.backoff_base_ms = Some(100);
    r.backoff_max_ms = None;
    assert_eq!(retry_policy(&r), RetryPolicy { max_attempts: 3, backoff_base_ms: 100, backoff_max_ms: 10000 });
}

#[test]
fn backoff_doubles_up_to_the_maximum() {
    assert_eq!(retry_backoff(500, 10000, 1), 500);
    assert_eq!(retry_backoff(500, 10000, 2), 1000);
    assert_eq!(retry_backoff(500, 10000, 5), 8000);
    assert_eq!(retry_backoff(500, 10000, 6), 10000);
    assert_eq!(retry_backoff(500, 10000, 4_000_000_000), 10000);
    assert_eq!(retry_backoff(0, 10000, 9), 0);
    assert_eq!(retry_backoff(20000, 10000, 1), 10000);
}

#[test]
fn incomplete_bodies_retry_then_fail() {
    let mut a = FileAttempt::new(policy(5));
    for i in 0..4u64 {
        a.begin_attempt();
        assert_eq!(a.after_body(10, 1000, 0), FileStep::RetryAfter { backoff_ms: 500 << i });
    }
    a.begin_attempt();
    assert_eq!(a.after_body(10, 1000, 0), FileStep::FinishIncomplete);
    assert_eq!(msg(incomplete_cdn_error(1000, 10)), "CDN缓存不完整 (预期 1000, 实际 10)，请联系网站维护者清除缓存");
}

#[test]
fn errors_retry_up_to_max_attempts() {
    let mut a = FileAttempt::new(policy(3));
    a.begin_attempt();
    assert_eq!(a.after_error(DownloadFailure::Transport), FileStep::RetryAfter { backoff_ms: 500 });
    a.begin_attempt();
    assert_eq!(a.after_error(DownloadFailure::Status(503)), FileStep::RetryAfter { backoff_ms: 1000 });
    a.begin_attempt();
    assert_eq!(a.after_error(DownloadFailure::Transport), FileStep::FinishError);
    // One attempt allowed: no retry.
    let mut one = FileAttempt::new(policy(1));
    one.begin_attempt();
    assert_eq!(one.after_error(DownloadFailure::Transport), FileStep::FinishError);
}

#[test]
fn client_errors_are_not_retried() {
    let mut a = FileAttempt::new(policy(3));
    a.begin_attempt();
    assert_eq!(a.after_error(DownloadFailure::Status(404)), FileStep::FinishError);
    assert_eq!(a.after_error(DownloadFailure::Status(403)), FileStep::FinishError);
    assert_eq!(a.after_error(DownloadFailure::Status(408)), FileStep::RetryAfter { backoff_ms: 500 });
    assert_eq!(a.after_error(DownloadFailure::Status(429)), FileStep::RetryAfter { backoff_ms: 500 });
}

#[test]
fn cancel_ends_the_task() {
    let mut a = FileAttempt::new(policy(3));
    a.begin_attempt();
    assert_eq!(a.after_error(DownloadFailure::Canceled), FileStep::FinishCanceled);
    let u = ctx().canceled(1, 7);
    assert_eq!(u.status, FileStatus::Canceled);
    assert_eq!(u.error.as_deref(), Some("Cancelled"));
    assert_eq!(u.duration_ms, Some(7));
}

#[test]
fn challenge_pages_refresh_then_requeue() {
    let mut a = FileAttempt::new(policy(5));
    a.begin_attempt();
    assert_eq!(a.after_body(4321, 1_000_000, 0), FileStep::RefreshCookie);
    a.after_refresh(RefreshOutcome::AlreadyRefreshed);
    assert_eq!(a.cookie_refreshes, 0);
    a.begin_attempt();
    a.begin_attempt();
    a.begin_attempt();
    a.after_refresh(RefreshOutcome::Solved);
    assert_eq!(a.attempts, 2);
    assert_eq!(a.cookie_refreshes, 1);
    a.after_refresh(RefreshOutcome::Failed);
    a.after_refresh(RefreshOutcome::Failed);
    assert_eq!(a.cookie_refreshes, 3);
    assert_eq!(a.after_body(4321, 1_000_000, 0), FileStep::Requeue);
    assert_eq!(a.after_body(4321, 1_000_000, 3), FileStep::FinishChallengeFailure);
    assert_eq!(a.after_body(1_000_000, 1_000_000, 3), FileStep::FinishComplete);
}

/// Runs a file's loop with the given body sizes (the last one repeats) and
/// refresh outcome; returns the downloads made and the final step.
fn run_loop(max_attempts: u32, bodies: &[u64], outcome: RefreshOutcome) -> (u32, FileStep) {
    let mut a = FileAttempt::new(policy(max_attempts));
    let mut downloads: u32 = 0;
    loop {
        a.begin_attempt();
        let body = bodies[(downloads as usize).min(bodies.len() - 1)];
        downloads += 1;
        let step = a.after_body(body, 1_000_000, 3);
        match step {
            FileStep::RefreshCookie => a.after_refresh(outcome),
            FileStep::RetryAfter { .. } => {}
            other => return (downloads, other),
        }
        assert!(downloads <= 4 * max_attempts + 4);
    }
}

#[test]
fn file_loop_ends_within_budget() {
    // Challenge pages with failed refreshes: three refreshes, then the fourth
    // download gives up.
    assert_eq!(run_loop(5, &[4321], RefreshOutcome::Failed), (4, FileStep::FinishChallengeFailure));
    // Short bodies until the attempts run out.
    assert_eq!(run_loop(5, &[10], RefreshOutcome::Solved), (5, FileStep::FinishIncomplete));
    assert_eq!(run_loop(1, &[10], RefreshOutcome::Solved), (1, FileStep::FinishIncomplete));
    // Four short bodies, then challenge pages whose refreshes are solved: each
    // solved refresh gives attempts back, but the refreshes run out.
    let bodies = [10, 10, 10, 10, 4321, 10, 10, 4321, 10, 10, 4321, 10, 10, 4321];
    let (downloads, step) = run_loop(5, &bodies, RefreshOutcome::Solved);
    assert_eq!(step, FileStep::FinishChallengeFailure);
    assert_eq!(downloads, 14);
}

fn ctx() -> UpdateContext {
    UpdateContext {
        run_id: "run".to_string(),
        site_id: "site".to_string(),
        path: "/a.bin".to_string(),
        url: "https://cdn/d/a.bin".to_string(),
    }
}

fn outcome(bytes: u64, final_url: Option<&str>) -> DownloadOutcome {
    DownloadOutcome {
        bytes,
        status: 200,
        final_url: final_url.map(|s| s.to_string()),
        content_length: Some(bytes),
        headers: vec![HeaderKV { name: "server".to_string(), value: "cdn".to_string() }],
    }
}

#[test]
fn started_and_progress_updates() {
    let u = ctx().started();
    assert_eq!(u.status, FileStatus::Running);
    assert_eq!(u.attempt, Some(1));
    assert_eq!(u.url.as_deref(), Some("https://cdn/d/a.bin"));
    assert_eq!(u.bytes_read, 0);
    let p = ctx().progress(512, 200);
    assert_eq!(p.bytes_read, 512);
    assert_eq!(p.http_status, Some(200));
}

#[test]
fn done_update_warns_on_redirect() {
    let same = ctx().finished(2, &outcome(10_000, Some("https://cdn/d/a.bin")), 10_000, true, 30);
    assert_eq!(same.status, FileStatus::Done);
    assert!(same.warning.is_none());
    assert_eq!(same.duration_ms, Some(30));
    assert_eq!(same.attempt, Some(2));
    let moved = ctx().finished(1, &outcome(10_000, Some("https://origin.example.com:8080/d/a.bin")), 10_000, true, 30);
    let w = moved.warning.unwrap();
    assert_eq!(w.code, "REDIRECT");
    assert_eq!(w.message, "Redirect detected");
    let c = w.context.unwrap();
    assert_eq!(c.original, "https://cdn/d/a.bin");
    assert_eq!(c.final_url, "https://origin.example.com:8080/d/a.bin");
    assert_eq!(c.final_host.as_deref(), Some("origin.example.com"));
    assert_eq!(moved.response_headers.unwrap()[0].value, "cdn");
    // Warnings switched off.
    let quiet = ctx().finished(1, &outcome(10_000, Some("https://origin/d/a.bin")), 10_000, false, 30);
    assert_eq!(quiet.status, FileStatus::Done);
    assert!(quiet.warning.is_none());
}

#[test]
fn complete_body_of_challenge_size_is_done() {
    let u = ctx().finished(1, &outcome(4321, None), 4321, true, 5);
    assert_eq!(u.status, FileStatus::Done);
    assert_eq!(u.bytes_read, 4321);
    assert_eq!(u.http_status, Some(200));
    assert_eq!(u.error, None);
}

#[test]
fn challenge_failure_and_error_updates() {
    let f = ctx().finished(5, &outcome(4300, None), 1_000_000, true, 9);
    assert_eq!(f.status, FileStatus::Failed);
    assert_eq!(f.error.as_deref(), Some("Auth failure (4.22KB)"));
    let i = ctx().finished(5, &outcome(10, Some("https://cdn/d/a.bin")), 1000, true, 9);
    assert_eq!(i.status, FileStatus::Failed);
    assert_eq!(i.bytes_read, 0);
    assert_eq!(i.http_status, None);
    assert_eq!(i.final_url, None);
    assert!(i.response_headers.is_none());
    assert_eq!(i.error.as_deref(), Some("CDN缓存不完整 (预期 1000, 实际 10)，请联系网站维护者清除缓存"));
    let e = ctx().failed(5, &AppError::Api("HTTP 404 Not Found".to_string()), 9);
    assert_eq!(e.status, FileStatus::Failed);
    assert_eq!(e.error.as_deref(), Some("HTTP 404 Not Found"));
    assert_eq!(e.bytes_read, 0);
    let r = ctx().refreshing(3, &outcome(4300, None));
    assert_eq!(r.error.as_deref(), Some("Auth failure, refreshing cookie..."));
    assert_eq!(r.status, FileStatus::Running);
    let q = ctx().requeued(3, &outcome(4300, None), 1);
    assert_eq!(q.status, FileStatus::Queued);
    assert_eq!(q.error.as_deref(), Some("WAF detected, re-queuing (Retry 2/3)..."));
}

#[test]
fn download_progress() {
    let mut p = DownloadProgress::start(1000, None);
    assert!(!p.record_chunk(100, 1100));
    assert!(p.record_chunk(100, 1200));
    assert!(!p.record_chunk(100, 1300));
    assert_eq!(p.total, 300);
    assert_eq!(p.finish(None).unwrap(), 300);
    assert_eq!(p.finish(Some(300)).unwrap(), 300);
    assert_eq!(msg(p.finish(Some(400)).unwrap_err()), "Incomplete download: expected 400 bytes, got 300");
}

#[test]
fn download_status() {
    assert!(download_status_error(206).is_none());
    assert_eq!(msg(download_status_error(403).unwrap()), "HTTP 403 Forbidden");
}

#[test]
fn client_plan() {
    let mut s = SiteSettings::default();
    s.api_base_url = "https://api.example.com".to_string();
    s.follow_redirects = None;
    let p = download_client_plan(&s).unwrap();
    assert_eq!(p.referer.as_deref(), Some("https://api.example.com"));
    assert!(p.follow_redirects);
    assert_eq!(p.user_agent.as_deref(), Some("olist-cdn-preheat/0.1 (Mozilla/5.0 compatible)"));
    s.api_base_url = "bad\nurl".to_string();
    s.follow_redirects = Some(false);
    s.user_agent = Some(String::new());
    let p = download_client_plan(&s).unwrap();
    assert_eq!(p.referer, None);
    assert!(!p.follow_redirects);
    assert_eq!(p.user_agent, None);
    s.proxy_url = Some("http://[::1".to_string());
    assert!(matches!(download_client_plan(&s), Err(AppError::Network(_))));
}

#[test]
fn limits_and_cooldown() {
    let l = run_limits(&RunSettings::default());
    assert_eq!(l.max_conn, 16);
    assert_eq!(l.initial_concurrency, 2);
    assert_eq!(l.rate_limit, 0);
    let mut r = RunSettings::default();
    r.min_conn = None;
    r.rate_limit_bytes_per_sec = None;
    let l = run_limits(&r);
    assert_eq!(l.initial_concurrency, 2);
    assert_eq!(l.rate_limit, 0);
    assert!(cooldown_active(Some(10), 9));
    assert!(!cooldown_active(Some(10), 10));
    assert!(!cooldown_active(None, 0));
    assert_eq!(cooldown_until(1000), 6000);
    assert_eq!(cooldown_until(u64::MAX - 1), u64::MAX);
}

#[test]
fn partial_mode_reads_up_to_the_limit() {
    let mut r = RunSettings::default();
    assert_eq!(run_limits(&r).partial_max_bytes, None);
    r.partial_mode = Some(PartialModeConfig { enabled: true, max_bytes: Some(1000) });
    let limit = run_limits(&r).partial_max_bytes;
    assert_eq!(limit, Some(1000));
    r.partial_mode = Some(PartialModeConfig { enabled: true, max_bytes: Some(0) });
    assert_eq!(run_limits(&r).partial_max_bytes, None);
    r.partial_mode = Some(PartialModeConfig { enabled: false, max_bytes: Some(1000) });
    assert_eq!(run_limits(&r).partial_max_bytes, None);

    let mut p = DownloadProgress::start(0, limit);
    p.record_chunk(600, 1);
    assert!(!p.limit_reached());
    p.record_chunk(600, 2);
    assert!(p.limit_reached());
    // The announced length of the whole file is not held against a partial read.
    assert_eq!(p.finish(Some(1_000_000)).unwrap(), 1200);
    let expected = expected_body(1_000_000, limit);
    assert_eq!(expected, 1000);
    assert_eq!(body_check(1200, expected), BodyCheck::Complete);
    let u = ctx().finished(1, &outcome(1200, None), expected, true, 3);
    assert_eq!(u.status, FileStatus::Done);
    assert_eq!(expected_body(500, limit), 500);
    assert_eq!(expected_body(500, None), 500);
}
