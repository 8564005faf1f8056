//! The OpenList API client: its settings, the requests it sends, and how the
//! replies of `/api/fs/list` and `/api/auth/login` are read.

use vstd::prelude::*;
use crate::models::{AppError, FileItem, Timestamp, is_uuid_v4_text, new_uuid_v4_string};
use crate::text::{decimal, push_all, push_char, push_decimal, trim_trailing_slashes, trim_trailing_slashes_of};
use crate::url::{child_path, join_child_path};

verus! {

broadcast use vstd::string::group_string_axioms;

/// Whether `reqwest::header::HeaderValue::from_str` accepts a text: every byte
/// of it is a tab or in 32..=255 except 127. For a UTF-8 text this is a
/// condition on each character, since the bytes of non-ASCII characters are all
/// at least 128.
pub open spec fn header_value_ok(s: Seq<char>) -> bool {
    forall|i: int| 0 <= i < s.len() ==> {
        let c = #[trigger] s[i];
        c == '\t' || (c as u32 >= 32 && c as u32 != 127)
    }
}

/// `reqwest::header::HeaderValue::from_str`: whether the text is a valid
/// header value (its source accepts exactly tabs and bytes 32..=255 but 127).
#[verifier::external_body]
pub(crate) fn header_value_accepted(s: &str) -> (r: bool)
    ensures
        r == header_value_ok(s@),
{
    reqwest::header::HeaderValue::from_str(s).is_ok()
}

/// Whether `reqwest::Proxy::all` accepts a proxy URL (it parses the URL; the
/// parser's rules are not restated here).
pub uninterp spec fn proxy_url_accepted(url: Seq<char>) -> bool;

/// `reqwest::Proxy::all`: `Ok` exactly when the URL is accepted; the error
/// carries reqwest's message, whose text is not stated.
#[verifier::external_body]
pub(crate) fn check_proxy_url(url: &str) -> (r: Result<(), String>)
    ensures
        r is Ok == proxy_url_accepted(url@),
{
    match reqwest::Proxy::all(url) {
        Ok(_) => Ok(()),
        Err(e) => Err(e.to_string()),
    }
}

/// The text of an HTTP status as `reqwest::StatusCode` displays it (the code and
/// its canonical reason phrase).
pub uninterp spec fn status_text(code: u16) -> Seq<char>;

/// `reqwest::StatusCode` display for a status code.
#[verifier::external_body]
pub(crate) fn status_display(code: u16) -> (r: String)
    requires
        100 <= code <= 999,
    ensures
        r@ == status_text(code),
{
    match reqwest::StatusCode::from_u16(code) {
        Ok(s) => s.to_string(),
        Err(_) => String::new(),
    }
}

/// The UTC instant of an RFC 3339 timestamp, or `None` when chrono rejects the
/// text.
pub uninterp spec fn rfc3339_instant(s: Seq<char>) -> Option<(i64, u32)>;

/// `chrono::DateTime::parse_from_rfc3339`, converted to UTC seconds and
/// nanoseconds.
#[verifier::external_body]
fn parse_rfc3339(s: &str) -> (r: Option<(i64, u32)>)
    ensures
        r == rfc3339_instant(s@),
{
    match chrono::DateTime::parse_from_rfc3339(s) {
        Ok(dt) => {
            let utc = dt.with_timezone(&chrono::Utc);
            Some((utc.timestamp(), utc.timestamp_subsec_nanos()))
        },
        Err(_) => None,
    }
}

/// The timestamp of an entry's `modified` text, when it parses.
pub open spec fn modified_of(m: Option<String>) -> Option<Timestamp> {
    match m {
        Some(t) => match rfc3339_instant(t@) {
            Some(p) => Some(Timestamp { secs: p.0, nanos: p.1 }),
            None => None,
        },
        None => None,
    }
}

/// Whether a status code means success (2xx).
pub open spec fn is_success(code: u16) -> bool {
    200 <= code && code <= 299
}

/// The settings of a client of one site's OpenList API. Empty user agent,
/// cookie and proxy settings are dropped; the base URL has no trailing slash.
#[derive(Clone, Debug)]
pub struct OpenListClient {
    pub base_url: String,
    pub token: Option<String>,
    pub user_agent: Option<String>,
    pub cookie: Option<String>,
    pub proxy_url: Option<String>,
}

/// A value that is only kept when present and not empty.
pub open spec fn non_empty(o: Option<String>) -> Option<String> {
    match o {
        Some(s) => if s@.len() > 0 { Some(s) } else { None },
        None => None,
    }
}

fn keep_non_empty(o: Option<String>) -> (r: Option<String>)
    ensures
        r == non_empty(o),
{
    match o {
        Some(s) => if !s.as_str().is_empty() { Some(s) } else { None },
        None => None,
    }
}

/// The message of a cookie that is not a valid header value.
pub open spec fn invalid_cookie_message() -> Seq<char> {
    "Invalid cookie: failed to parse header value"@
}

impl OpenListClient {
    /// Settings for a client of the API at `base_url`. A non-empty cookie must be
    /// a valid header value and a non-empty proxy URL must be accepted by
    /// reqwest.
    pub fn new(
        base_url: String,
        token: Option<String>,
        proxy_url: Option<String>,
        user_agent: Option<String>,
        cookie: Option<String>,
    ) -> (r: Result<Self, AppError>)
        ensures
            (non_empty(cookie) matches Some(c) && !header_value_ok(c@)) ==> (r matches Err(
                AppError::Api(m),
            ) && m@ == invalid_cookie_message()),
            (non_empty(cookie) matches Some(c) && !header_value_ok(c@)) || (non_empty(
                proxy_url,
            ) matches Some(p) && !proxy_url_accepted(p@)) <==> r is Err,
            (non_empty(cookie) is None || header_value_ok(non_empty(cookie)->0@)) && (non_empty(
                proxy_url,
            ) matches Some(p) && !proxy_url_accepted(p@)) ==> (r matches Err(AppError::Network(_))),
            r matches Ok(c) ==> {
                &&& c.base_url@ == trim_trailing_slashes(base_url@)
                &&& c.token == token
                &&& c.user_agent == non_empty(user_agent)
                &&& c.cookie == non_empty(cookie)
                &&& c.proxy_url == non_empty(proxy_url)
            },
    {
        let user_agent = keep_non_empty(user_agent);
        let cookie = keep_non_empty(cookie);
        let proxy_url = keep_non_empty(proxy_url);
        if let Some(c) = &cookie {
            if !header_value_accepted(c.as_str()) {
                return Err(AppError::Api("Invalid cookie: failed to parse header value".to_string()));
            }
        }
        if let Some(p) = &proxy_url {
            match check_proxy_url(p.as_str()) {
                Ok(()) => {},
                Err(e) => {
                    return Err(AppError::Network(e));
                },
            }
        }
        let base_url = trim_trailing_slashes_of(base_url.as_str());
        Ok(OpenListClient { base_url, token, user_agent, cookie, proxy_url })
    }

    /// The URL of the directory-listing endpoint.
    pub fn list_url(&self) -> (r: String)
        ensures
            r@ == self.base_url@ + "/api/fs/list"@,
    {
        let mut u = self.base_url.clone();
        push_all(&mut u, "/api/fs/list");
        u
    }

    /// The `Authorization` header to send: the token, when one is set and not
    /// empty.
    pub fn authorization(&self) -> (r: Option<String>)
        ensures
            r == non_empty(self.token),
    {
        match &self.token {
            Some(t) => if !t.as_str().is_empty() { Some(t.clone()) } else { None },
            None => None,
        }
    }
}

/// The URL of the login endpoint of the API at `base_url`.
pub fn login_url(base_url: &str) -> (r: String)
    ensures
        r@ == trim_trailing_slashes(base_url@) + "/api/auth/login"@,
{
    let mut u = trim_trailing_slashes_of(base_url);
    push_all(&mut u, "/api/auth/login");
    u
}

/// The message of a request answered with a non-success status.
pub open spec fn http_error_message(code: u16) -> Seq<char> {
    "HTTP Error: "@ + status_text(code)
}

/// The error for a reply with status `code`: none for 2xx, else
/// `HTTP Error: {status}`.
pub fn http_status_error(code: u16) -> (r: Option<AppError>)
    requires
        100 <= code <= 999,
    ensures
        is_success(code) <==> r is None,
        r matches Some(e) ==> (e matches AppError::Api(m) && m@ == http_error_message(code)),
{
    if 200 <= code && code <= 299 {
        None
    } else {
        let mut m = "HTTP Error: ".to_string();
        let s = status_display(code);
        push_all(&mut m, s.as_str());
        Some(AppError::Api(m))
    }
}

/// One entry of a directory listing, as the API returns it.
#[derive(Clone, Debug)]
pub struct FsObject {
    pub name: String,
    pub size: u64,
    pub is_dir: bool,
    pub modified: Option<String>,
}

/// The data of a directory listing.
#[derive(Clone, Debug)]
pub struct FsListData {
    pub content: Option<Vec<FsObject>>,
    pub total: u64,
}

/// The reply of `/api/fs/list`.
#[derive(Clone, Debug)]
pub struct FsListResponse {
    pub code: i32,
    pub message: String,
    pub data: Option<FsListData>,
}

/// The data of a login reply.
#[derive(Clone, Debug)]
pub struct LoginData {
    pub token: String,
}

/// The reply of `/api/auth/login`.
#[derive(Clone, Debug)]
pub struct LoginResponse {
    pub code: i32,
    pub message: String,
    pub data: Option<LoginData>,
}

/// The decimal text of a signed integer.
pub open spec fn signed_decimal(n: int) -> Seq<char> {
    if n < 0 { seq!['-'] + decimal((-n) as nat) } else { decimal(n as nat) }
}

fn push_signed(s: &mut String, n: i32)
    ensures
        final(s)@ == old(s)@ + signed_decimal(n as int),
{
    if n < 0 {
        push_char(s, '-');
        let m: u64 = (-(n as i64)) as u64;
        push_decimal(s, m);
        assert(old(s)@.push('-') + decimal(m as nat) =~= old(s)@ + (seq!['-'] + decimal(m as nat)));
    } else {
        push_decimal(s, n as u64);
    }
}

/// The message of a listing reply that could not be parsed.
pub open spec fn parse_failure_message(err: Seq<char>, body: Seq<char>) -> Seq<char> {
    "Failed to parse JSON: "@ + err + ". Response: "@ + body
}

/// The message of a listing reply with a code other than 200.
pub open spec fn api_error_message(code: i32, message: Seq<char>) -> Seq<char> {
    "API Error "@ + signed_decimal(code as int) + ": "@ + message
}

/// The error a listing reply leads to, if any.
pub open spec fn list_reply_error(body: Seq<char>, parsed: Result<FsListResponse, String>) -> Option<
    Seq<char>,
> {
    match parsed {
        Err(e) => Some(parse_failure_message(e@, body)),
        Ok(resp) => if resp.code != 200 {
            Some(api_error_message(resp.code, resp.message@))
        } else if resp.data is None {
            Some("No data in response"@)
        } else {
            None
        },
    }
}

/// The entries of a listing reply (none when its content is null).
pub open spec fn content_of(data: FsListData) -> Seq<FsObject> {
    match data.content {
        Some(v) => v@,
        None => Seq::empty(),
    }
}

/// Whether `item` is the file item made of the listing entry `obj` of directory
/// `dir`: a fresh random id, no site, the logical child path, and the entry's
/// name, size, kind and parsed modification time.
pub open spec fn item_from_entry(item: FileItem, dir: Seq<char>, obj: FsObject) -> bool {
    &&& is_uuid_v4_text(item.id@)
    &&& item.site_id@ == Seq::<char>::empty()
    &&& item.path@ == child_path(dir, obj.name@)
    &&& item.name == obj.name
    &&& item.size == obj.size
    &&& item.is_dir == obj.is_dir
    &&& item.modified == modified_of(obj.modified)
    &&& item.retries == 0
}

fn push_str_then(s: &mut String, a: &str, b: &str)
    ensures
        final(s)@ == old(s)@ + a@ + b@,
{
    push_all(s, a);
    push_all(s, b);
}

/// Reads the body of a `/api/fs/list` reply for directory `dir`; `parsed` is the
/// JSON parse of `body` (or the parser's message). A code other than 200 or a
/// missing `data` is an error; otherwise every entry becomes a file item, in
/// order, together with the reported total.
pub fn interpret_list_body(dir: &str, body: &str, parsed: Result<FsListResponse, String>) -> (r:
    Result<(Vec<FileItem>, u64), AppError>)
    ensures
        list_reply_error(body@, parsed) matches Some(m) ==> (r matches Err(AppError::Api(e)) && e@
            == m),
        list_reply_error(body@, parsed) is None ==> (r matches Ok((items, total)) && {
            let data = parsed->Ok_0.data->0;
            &&& total == data.total
            &&& items@.len() == content_of(data).len()
            &&& forall|i: int|
                0 <= i < items@.len() ==> item_from_entry(
                    #[trigger] items@[i],
                    dir@,
                    content_of(data)[i],
                )
        }),
{
    let resp = match parsed {
        Err(e) => {
            let mut m = "Failed to parse JSON: ".to_string();
            push_all(&mut m, e.as_str());
            push_str_then(&mut m, ". Response: ", body);
            return Err(AppError::Api(m));
        },
        Ok(resp) => resp,
    };
    if resp.code != 200 {
        let mut m = "API Error ".to_string();
        push_signed(&mut m, resp.code);
        push_str_then(&mut m, ": ", resp.message.as_str());
        return Err(AppError::Api(m));
    }
    let data = match resp.data {
        None => {
            return Err(AppError::Api("No data in response".to_string()));
        },
        Some(d) => d,
    };
    let total = data.total;
    let content: Vec<FsObject> = match data.content {
        Some(v) => v,
        None => Vec::new(),
    };
    let mut items: Vec<FileItem> = Vec::new();
    let n = content.len();
    for i in 0..n
        invariant
            n == content@.len(),
            items@.len() == i,
            forall|j: int| 0 <= j < i ==> item_from_entry(#[trigger] items@[j], dir@, content@[j]),
    {
        let obj = &content[i];
        let modified = match &obj.modified {
            Some(m) => match parse_rfc3339(m.as_str()) {
                Some(p) => Some(Timestamp { secs: p.0, nanos: p.1 }),
                None => None,
            },
            None => None,
        };
        let item = FileItem {
            id: new_uuid_v4_string(),
            site_id: String::new(),
            path: join_child_path(dir, obj.name.as_str()),
            name: obj.name.clone(),
            size: obj.size,
            is_dir: obj.is_dir,
            modified,
            retries: 0,
        };
        items.push(item);
    }
    Ok((items, total))
}

/// The error a login reply leads to, if any.
pub open spec fn login_reply_error(body: Seq<char>, parsed: Result<LoginResponse, String>) -> Option<
    Seq<char>,
> {
    match parsed {
        Err(e) => Some("Failed to parse login response: "@ + e@ + ". Response: "@ + body),
        Ok(resp) => if resp.code != 200 {
            Some("Login failed: "@ + resp.message@)
        } else if resp.data is None {
            Some("No token in login response"@)
        } else {
            None
        },
    }
}

/// Reads the body of a `/api/auth/login` reply: the token of a reply with code
/// 200 and data, else the matching error.
pub fn interpret_login_body(body: &str, parsed: Result<LoginResponse, String>) -> (r: Result<
    String,
    AppError,
>)
    ensures
        login_reply_error(body@, parsed) matches Some(m) ==> (r matches Err(AppError::Api(e)) && e@
            == m),
        login_reply_error(body@, parsed) is None ==> (r matches Ok(t) && t
            == parsed->Ok_0.data->0.token),
{
    let resp = match parsed {
        Err(e) => {
            let mut m = "Failed to parse login response: ".to_string();
            push_all(&mut m, e.as_str());
            push_str_then(&mut m, ". Response: ", body);
            return Err(AppError::Api(m));
        },
        Ok(resp) => resp,
    };
    if resp.code != 200 {
        let mut m = "Login failed: ".to_string();
        push_all(&mut m, resp.message.as_str());
        return Err(AppError::Api(m));
    }
    match resp.data {
        None => Err(AppError::Api("No token in login response".to_string())),
        Some(d) => Ok(d.token),
    }
}

} // verus!
