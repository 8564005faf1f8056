//! The data model shared with the user interface: site and run settings, files,
//! per-file updates and connection-test results.

use vstd::prelude::*;

verus! {

broadcast use vstd::string::group_string_axioms;

/// A lowercase hexadecimal digit.
pub open spec fn is_lower_hex(c: char) -> bool {
    ('0' <= c && c <= '9') || ('a' <= c && c <= 'f')
}

/// The hyphenated lowercase text of a random (version 4, RFC 4122 variant) UUID,
/// e.g. `67e55044-10b1-426f-9247-bb680e5fe0c8`.
pub open spec fn is_uuid_v4_text(s: Seq<char>) -> bool {
    &&& s.len() == 36
    &&& forall|i: int|
        0 <= i < 36 ==> (if i == 8 || i == 13 || i == 18 || i == 23 {
            s[i] == '-'
        } else {
            is_lower_hex(#[trigger] s[i])
        })
    &&& s[14] == '4'
    &&& (s[19] == '8' || s[19] == '9' || s[19] == 'a' || s[19] == 'b')
}

/// A fresh random identifier: `uuid::Uuid::new_v4().to_string()`.
/// The value is random; the contract states only its textual form, which the
/// uuid crate fixes (version nibble 4, RFC 4122 variant, lowercase hyphenated).
#[verifier::external_body]
pub(crate) fn new_uuid_v4_string() -> (r: String)
    ensures
        is_uuid_v4_text(r@),
{
    uuid::Uuid::new_v4().to_string()
}

/// A point in UTC time: seconds since the Unix epoch and the nanoseconds within
/// that second.
#[derive(Clone, Copy, Debug, PartialEq, Eq, Structural)]
pub struct Timestamp {
    pub secs: i64,
    pub nanos: u32,
}

/// The connection settings of one OpenList site.
#[derive(Clone, Debug)]
pub struct SiteSettings {
    pub id: String,
    pub name: String,
    pub api_base_url: String,
    pub download_base_url: Option<String>,
    pub start_path: String,
    pub token: Option<String>,
    /// User account base path (e.g. "/abc") - prepended to file paths when
    /// constructing download URLs.
    pub user_base_path: Option<String>,
    pub dir_password: Option<String>,
    pub proxy_url: Option<String>,
    pub user_agent: Option<String>,
    pub cookie: Option<String>,
    pub timeout_ms: Option<u64>,
    pub follow_redirects: Option<bool>,
}

/// Partial-download configuration (reserved: only the flag and limit are kept).
#[derive(Clone, Copy, Debug, PartialEq, Eq, Structural)]
pub struct PartialModeConfig {
    pub enabled: bool,
    pub max_bytes: Option<u64>,
}

/// The settings of a preheat run.
#[derive(Clone, Copy, Debug, PartialEq, Eq, Structural)]
pub struct RunSettings {
    pub min_conn: Option<u32>,
    pub max_conn: u32,
    pub rate_limit_bytes_per_sec: Option<u64>,
    pub chunk_bytes: Option<usize>,
    pub max_attempts: Option<u32>,
    pub backoff_base_ms: Option<u64>,
    pub backoff_max_ms: Option<u64>,
    pub partial_mode: Option<PartialModeConfig>,
    pub warn_on_redirect: Option<bool>,
}

/// The user agent sent when the settings name none.
pub open spec fn default_user_agent() -> Seq<char> {
    "olist-cdn-preheat/0.1 (Mozilla/5.0 compatible)"@
}

impl SiteSettings {
    /// The settings of a new, unconfigured site.
    pub open spec fn is_fresh(self) -> bool {
        &&& is_uuid_v4_text(self.id@)
        &&& self.name@ == "New Site"@
        &&& self.api_base_url@ == ""@
        &&& self.download_base_url is None
        &&& self.start_path@ == "/"@
        &&& self.token is None
        &&& self.user_base_path is None
        &&& self.dir_password is None
        &&& self.proxy_url is None
        &&& self.user_agent matches Some(ua) && ua@ == default_user_agent()
        &&& self.cookie is None
        &&& self.timeout_ms == Some(60000u64)
        &&& self.follow_redirects == Some(true)
    }
}

impl Default for SiteSettings {
    fn default() -> (r: Self)
        ensures
            r.is_fresh(),
    {
        SiteSettings {
            id: new_uuid_v4_string(),
            name: "New Site".to_string(),
            api_base_url: "".to_string(),
            download_base_url: None,
            start_path: "/".to_string(),
            token: None,
            user_base_path: None,
            dir_password: None,
            proxy_url: None,
            user_agent: Some("olist-cdn-preheat/0.1 (Mozilla/5.0 compatible)".to_string()),
            cookie: None,
            timeout_ms: Some(60000),
            follow_redirects: Some(true),
        }
    }
}

impl RunSettings {
    /// The run settings used when the user has changed nothing.
    pub open spec fn is_default(self) -> bool {
        &&& self.min_conn == Some(2u32)
        &&& self.max_conn == 16
        &&& self.rate_limit_bytes_per_sec == Some(0u64)
        &&& self.chunk_bytes == Some(65536usize)
        &&& self.max_attempts == Some(3u32)
        &&& self.backoff_base_ms == Some(500u64)
        &&& self.backoff_max_ms == Some(10000u64)
        &&& self.partial_mode == Some(PartialModeConfig { enabled: false, max_bytes: None })
        &&& self.warn_on_redirect == Some(true)
    }
}

impl Default for RunSettings {
    fn default() -> (r: Self)
        ensures
            r.is_default(),
    {
        RunSettings {
            min_conn: Some(2),
            max_conn: 16,
            rate_limit_bytes_per_sec: Some(0),
            chunk_bytes: Some(65536),
            max_attempts: Some(3),
            backoff_base_ms: Some(500),
            backoff_max_ms: Some(10000),
            partial_mode: Some(PartialModeConfig { enabled: false, max_bytes: None }),
            warn_on_redirect: Some(true),
        }
    }
}

/// One entry of a site's directory tree.
#[derive(Clone, Debug)]
pub struct FileItem {
    pub id: String,
    /// Which site/group this file belongs to (SiteSettings.id). Empty for legacy
    /// single-site payloads.
    pub site_id: String,
    /// Logical path.
    pub path: String,
    pub name: String,
    pub size: u64,
    pub is_dir: bool,
    pub modified: Option<Timestamp>,
    pub retries: u32,
}

/// The state of a run.
#[derive(Clone, Copy, Debug, PartialEq, Eq, Structural)]
pub enum RunState {
    Idle,
    Running,
    Paused,
    Canceling,
    Finished,
    Failed,
}

/// A progress summary of a run.
#[derive(Clone, Debug)]
pub struct RunSnapshot {
    pub run_id: String,
    pub site_id: String,
    pub state: RunState,
    pub started_at: Timestamp,
    pub updated_at: Timestamp,
    pub total_files: u64,
    pub total_known: bool,
    pub queued: u64,
    pub active: u64,
    pub desired: u64,
    pub done: u64,
    pub failed: u64,
    pub warnings: u64,
    pub bytes_read_total: u64,
    pub speed_bps: u64,
    pub eta_sec: Option<u64>,
}

/// The status of one file in a run.
#[derive(Clone, Copy, Debug, PartialEq, Eq, Structural)]
pub enum FileStatus {
    Queued,
    Running,
    Done,
    Failed,
    Canceled,
}

/// One HTTP response header.
#[derive(Clone, Debug)]
pub struct HeaderKV {
    pub name: String,
    pub value: String,
}

/// The context of a redirect warning: the URL that was requested, the URL the
/// response finally came from, and that URL's host (when it has one).
#[derive(Clone, Debug)]
pub struct RedirectContext {
    pub original: String,
    pub final_url: String,
    pub final_host: Option<String>,
}

/// A warning attached to a file update.
#[derive(Clone, Debug)]
pub struct WarningItem {
    pub code: String,
    pub message: String,
    pub context: Option<RedirectContext>,
}

/// A change of one file's state, sent to the user interface.
#[derive(Clone, Debug)]
pub struct FileUpdate {
    pub run_id: String,
    /// Which site/group this update belongs to (SiteSettings.id).
    pub site_id: String,
    pub path: String,
    pub status: FileStatus,
    pub attempt: Option<u32>,
    pub url: Option<String>,
    pub final_url: Option<String>,
    pub content_length: Option<u64>,
    pub response_headers: Option<Vec<HeaderKV>>,
    pub bytes_read: u64,
    pub http_status: Option<u16>,
    pub duration_ms: Option<u64>,
    pub warning: Option<WarningItem>,
    pub error: Option<String>,
}

/// The API half of a connection test.
#[derive(Clone, Debug)]
pub struct ApiTestResult {
    pub ok: bool,
    pub http_status: Option<u16>,
    pub latency_ms: Option<u64>,
    pub error: Option<String>,
}

/// The download half of a connection test.
#[derive(Clone, Debug)]
pub struct DownloadTestResult {
    pub ok: bool,
    pub http_status: Option<u16>,
    pub latency_ms: Option<u64>,
    pub bytes_read: Option<u64>,
    pub redirected: Option<bool>,
    pub final_url: Option<String>,
    pub final_host: Option<String>,
    pub error: Option<String>,
}

/// The file a connection test downloaded.
#[derive(Clone, Debug)]
pub struct SampleFile {
    pub path: String,
    pub url: String,
}

/// The result of a connection test.
#[derive(Clone, Debug)]
pub struct ConnectionTestResult {
    pub api: ApiTestResult,
    pub download: DownloadTestResult,
    pub sample_file: Option<SampleFile>,
    pub warnings: Vec<WarningItem>,
}

/// The errors of the library.
#[derive(Clone, Debug)]
pub enum AppError {
    /// A refusal or failure reported with a message.
    Api(String),
    /// A transport failure; the message is the transport's own.
    Network(String),
}

impl AppError {
    /// The text of the error, as shown to the user.
    pub open spec fn message_view(self) -> Seq<char> {
        match self {
            AppError::Api(m) => m@,
            AppError::Network(m) => m@,
        }
    }

    /// The text of the error, as shown to the user.
    pub fn message(&self) -> (r: String)
        ensures
            r@ == self.message_view(),
    {
        match self {
            AppError::Api(m) => m.clone(),
            AppError::Network(m) => m.clone(),
        }
    }
}

} // verus!
