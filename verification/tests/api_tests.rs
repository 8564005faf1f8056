use olist_cdn_preheat::api::{
    http_status_error, interpret_list_body, interpret_login_body, login_url, FsListData,
    FsListResponse, FsObject, LoginData, LoginResponse, OpenListClient,
};
use olist_cdn_preheat::models::{AppError, Timestamp};

fn api_message(e: AppError) -> String {
    match e {
        AppError::Api(m) => m,
        AppError::Network(m) => panic!("unexpected network error {}", m),
    }
}

#[test]
fn client_settings_are_normalised() {
    let c = OpenListClient::new(
        "https://list.example.com//".to_string(),
        Some("tok".to_string()),
        Some(String::new()),
        Some(String::new()),
        Some("acw_sc__v2=1".to_string()),
    )
    .unwrap();
    assert_eq!(c.base_url, "https://list.example.com");
    assert_eq!(c.user_agent, None);
    assert_eq!(c.proxy_url, None);
    assert_eq!(c.cookie.as_deref(), Some("acw_sc__v2=1"));
    assert_eq!(c.list_url(), "https://list.example.com/api/fs/list");
    assert_eq!(c.authorization().as_deref(), Some("tok"));
}

#[test]
fn invalid_cookie_is_refused() {
    let r = OpenListClient::new("https://x".to_string(), None, None, None, Some("a\nb".to_string()));
    assert_eq!(api_message(r.unwrap_err()), "Invalid cookie: failed to parse header value");
    let ok = OpenListClient::new("https://x".to_string(), None, None, None, Some("a\tb é".to_string()));
    assert!(ok.is_ok());
}

#[test]
fn proxy_urls() {
    let ok = OpenListClient::new("https://x".to_string(), None, Some("http://127.0.0.1:7890".to_string()), None, None);
    assert_eq!(ok.unwrap().proxy_url.as_deref(), Some("http://127.0.0.1:7890"));
    let bad = OpenListClient::new("https://x".to_string(), None, Some("http://[::1".to_string()), None, None);
    assert!(matches!(bad, Err(AppError::Network(_))));
}

#[test]
fn empty_token_sends_no_authorization() {
    let c = OpenListClient::new("https://x".to_string(), Some(String::new()), None, None, None).unwrap();
    assert_eq!(c.authorization(), None);
}

#[test]
fn login_urls() {
    assert_eq!(login_url("https://x.org/"), "https://x.org/api/auth/login");
}

#[test]
fn status_errors() {
    assert!(http_status_error(200).is_none());
    assert!(http_status_error(204).is_none());
    assert_eq!(api_message(http_status_error(404).unwrap()), "HTTP Error: 404 Not Found");
    assert_eq!(api_message(http_status_error(503).unwrap()), "HTTP Error: 503 Service Unavailable");
}

fn listing(code: i32, content: Option<Vec<FsObject>>) -> FsListResponse {
    FsListResponse { code, message: "msg".to_string(), data: Some(FsListData { content, total: 42 }) }
}

#[test]
fn listing_items_get_logical_paths() {
    let content = vec![
        FsObject { name: "a.txt".to_string(), size: 10, is_dir: false, modified: Some("2024-01-02T03:04:05Z".to_string()) },
        FsObject { name: "sub".to_string(), size: 0, is_dir: true, modified: Some("not a date".to_string()) },
    ];
    let (items, total) = interpret_list_body("/root/", "{}", Ok(listing(200, Some(content)))).unwrap();
    assert_eq!(total, 42);
    assert_eq!(items.len(), 2);
    assert_eq!(items[0].path, "/root/a.txt");
    assert_eq!(items[0].name, "a.txt");
    assert_eq!(items[0].size, 10);
    assert_eq!(items[0].modified, Some(Timestamp { secs: 1704164645, nanos: 0 }));
    assert_eq!(items[0].id.len(), 36);
    assert_eq!(items[0].site_id, "");
    assert_eq!(items[0].retries, 0);
    assert_eq!(items[1].path, "/root/sub");
    assert!(items[1].is_dir);
    assert_eq!(items[1].modified, None);
    assert_ne!(items[0].id, items[1].id);
}

#[test]
fn listing_of_root() {
    let content = vec![FsObject { name: "x".to_string(), size: 1, is_dir: false, modified: None }];
    let (items, _) = interpret_list_body("/", "{}", Ok(listing(200, Some(content)))).unwrap();
    assert_eq!(items[0].path, "/x");
    let (none, total) = interpret_list_body("/", "{}", Ok(listing(200, None))).unwrap();
    assert!(none.is_empty());
    assert_eq!(total, 42);
}

#[test]
fn listing_errors() {
    let e = interpret_list_body("/", "<html>", Err("expected value at line 1".to_string())).unwrap_err();
    assert_eq!(api_message(e), "Failed to parse JSON: expected value at line 1. Response: <html>");
    let e = interpret_list_body("/", "{}", Ok(listing(403, None))).unwrap_err();
    assert_eq!(api_message(e), "API Error 403: msg");
    let e = interpret_list_body("/", "{}", Ok(listing(-1, None))).unwrap_err();
    assert_eq!(api_message(e), "API Error -1: msg");
    let no_data = FsListResponse { code: 200, message: "ok".to_string(), data: None };
    let e = interpret_list_body("/", "{}", Ok(no_data)).unwrap_err();
    assert_eq!(api_message(e), "No data in response");
}

#[test]
fn login_replies() {
    let ok = LoginResponse { code: 200, message: "success".to_string(), data: Some(LoginData { token: "jwt".to_string() }) };
    assert_eq!(interpret_login_body("{}", Ok(ok)).unwrap(), "jwt");
    let refused = LoginResponse { code: 400, message: "password is incorrect".to_string(), data: None };
    assert_eq!(api_message(interpret_login_body("{}", Ok(refused)).unwrap_err()), "Login failed: password is incorrect");
    let empty = LoginResponse { code: 200, message: "success".to_string(), data: None };
    assert_eq!(api_message(interpret_login_body("{}", Ok(empty)).unwrap_err()), "No token in login response");
    let e = interpret_login_body("oops", Err("EOF".to_string())).unwrap_err();
    assert_eq!(api_message(e), "Failed to parse login response: EOF. Response: oops");
}
