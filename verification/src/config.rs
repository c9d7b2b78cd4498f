//! Configuration handling: the request and settings types, base-URL
//! normalization, connection-test validation, and the configuration
//! defaults.
//!
//! Reading and writing the settings store is the surrounding
//! application's concern; what a valid configuration is, and what the
//! defaults are, is decided here.

use vstd::prelude::*;
use vstd::string::StrSliceExecFns;
use vstd::string::StringExecFns;

use crate::strutil::has_prefix;
use crate::strutil::starts_with;
use crate::strutil::trim_str;
use crate::strutil::trimmed;

verus! {

/// A semantic-search request: the project and the query.
#[derive(Debug, PartialEq)]
pub struct AcemcpRequest {
    /// The absolute path of the project root.
    pub project_root_path: String,
    /// The natural-language search query.
    pub query: String,
}

/// The indexing service settings, each optional until configured.
#[derive(Debug, PartialEq)]
pub struct AcemcpConfig {
    /// The API endpoint base URL.
    pub base_url: Option<String>,
    /// The bearer token.
    pub token: Option<String>,
    /// Blobs per upload request.
    pub batch_size: Option<u32>,
    /// Lines per blob before a file is chunked.
    pub max_lines_per_blob: Option<u32>,
    /// File extensions to index.
    pub text_extensions: Option<Vec<String>>,
    /// Path patterns to exclude.
    pub exclude_patterns: Option<Vec<String>>,
    /// The bounds, in seconds, of the random wait before a search while
    /// indexing is in progress; unset disables the wait.
    pub smart_wait_range: Option<(u64, u64)>,
    /// Whether requests go through a proxy.
    pub proxy_enabled: Option<bool>,
    /// The proxy host.
    pub proxy_host: Option<String>,
    /// The proxy port.
    pub proxy_port: Option<u16>,
    /// The proxy protocol.
    pub proxy_type: Option<String>,
    /// The proxy user name.
    pub proxy_username: Option<String>,
    /// The proxy password.
    pub proxy_password: Option<String>,
}

/// The settings as submitted from the settings screen.
#[derive(Debug, PartialEq)]
pub struct SaveAcemcpConfigArgs {
    /// The API endpoint base URL.
    pub base_url: String,
    /// The bearer token.
    pub token: String,
    /// Blobs per upload request.
    pub batch_size: u32,
    /// Lines per blob before a file is chunked.
    pub max_lines_per_blob: u32,
    /// File extensions to index.
    pub text_extensions: Vec<String>,
    /// Path patterns to exclude.
    pub exclude_patterns: Vec<String>,
    /// The watch debounce delay in milliseconds.
    pub watch_debounce_ms: Option<u64>,
    /// Whether requests go through a proxy.
    pub proxy_enabled: Option<bool>,
    /// The proxy host.
    pub proxy_host: Option<String>,
    /// The proxy port.
    pub proxy_port: Option<u16>,
    /// The proxy protocol.
    pub proxy_type: Option<String>,
    /// The proxy user name.
    pub proxy_username: Option<String>,
    /// The proxy password.
    pub proxy_password: Option<String>,
}

/// The arguments of a connection test.
#[derive(Debug, PartialEq)]
pub struct TestAcemcpArgs {
    /// The API endpoint base URL.
    pub base_url: String,
    /// The bearer token.
    pub token: String,
}

/// The outcome of a connection test.
#[derive(Debug, PartialEq)]
pub struct TestConnectionResult {
    /// Whether the endpoint answered.
    pub success: bool,
    /// What happened, for display.
    pub message: String,
}

/// The effective configuration, with every default filled in.
#[derive(Debug, PartialEq)]
pub struct AcemcpConfigResponse {
    /// The API endpoint base URL, when configured.
    pub base_url: Option<String>,
    /// The bearer token, when configured.
    pub token: Option<String>,
    /// Blobs per upload request.
    pub batch_size: u32,
    /// Lines per blob before a file is chunked.
    pub max_lines_per_blob: u32,
    /// File extensions to index.
    pub text_extensions: Vec<String>,
    /// Path patterns to exclude.
    pub exclude_patterns: Vec<String>,
    /// The watch debounce delay in milliseconds.
    pub watch_debounce_ms: u64,
    /// Whether requests go through a proxy.
    pub proxy_enabled: bool,
    /// The proxy host.
    pub proxy_host: String,
    /// The proxy port.
    pub proxy_port: u16,
    /// The proxy protocol.
    pub proxy_type: String,
    /// The proxy user name.
    pub proxy_username: String,
    /// The proxy password.
    pub proxy_password: String,
}

/// The outcome of a one-off search run for diagnostics.
#[derive(Debug, PartialEq)]
pub struct DebugSearchResult {
    /// Whether the search succeeded.
    pub success: bool,
    /// The search result text, on success.
    pub result: Option<String>,
    /// The error, on failure.
    pub error: Option<String>,
    /// When the request was sent, RFC 3339.
    pub request_time: String,
    /// When the response arrived, RFC 3339.
    pub response_time: String,
    /// The whole call's duration in milliseconds.
    pub total_duration_ms: u64,
    /// How many result items came back.
    pub result_count: Option<usize>,
    /// The project searched.
    pub project_path: String,
    /// The query run.
    pub query: String,
}

/// A trailing-slash-free form: every trailing `/` removed.
pub open spec fn strip_trailing_slashes(s: Seq<char>) -> Seq<char>
    decreases s.len(),
{
    if s.len() > 0 && s.last() == '/' {
        strip_trailing_slashes(s.drop_last())
    } else {
        s
    }
}

/// A base URL as stored: trimmed, given an `http://` scheme when none is
/// present, and with every trailing slash removed so later joins cannot
/// produce double slashes.
pub open spec fn normalize_base_url_spec(s: Seq<char>) -> Seq<char> {
    let t = trimmed(s);
    let with_scheme = if has_prefix(t, "http://"@) || has_prefix(t, "https://"@) {
        t
    } else {
        "http://"@ + t
    };
    strip_trailing_slashes(with_scheme)
}

/// Normalizes a base URL: trims it, prefixes `http://` when no scheme is
/// given, and removes trailing slashes.
pub fn normalize_base_url(raw: &str) -> (r: String)
    ensures
        r@ == normalize_base_url_spec(raw@),
{
    let t: String = trim_str(raw);
    let mut u: String = if starts_with(t.as_str(), "http://") || starts_with(
        t.as_str(),
        "https://",
    ) {
        t
    } else {
        let mut p: String = "http://".to_owned();
        p.append(t.as_str());
        p
    };
    loop
        invariant
            strip_trailing_slashes(u@) == normalize_base_url_spec(raw@),
        decreases u@.len(),
    {
        let n: usize = u.as_str().unicode_len();
        if n == 0 {
            return u;
        }
        let last: char = u.as_str().get_char(n - 1);
        if last != '/' {
            return u;
        }
        let shorter: String = u.as_str().substring_char(0, n - 1).to_owned();
        proof {
            assert(shorter@ =~= u@.drop_last());
        }
        u = shorter;
    }
}

/// Why a connection test cannot start.
pub open spec fn connection_input_error_spec(base_url: Seq<char>, token: Seq<char>) -> Option<
    Seq<char>,
> {
    if !(has_prefix(base_url, "http://"@) || has_prefix(base_url, "https://"@)) {
        Some("the endpoint URL must start with http:// or https://"@)
    } else if trimmed(token).len() == 0 {
        Some("the authentication token must not be empty"@)
    } else {
        None
    }
}

/// Validates connection-test inputs: the URL must carry an HTTP scheme
/// and the token must not be blank.  A bad input is reported at once;
/// no request is made for it.
pub fn validate_connection_inputs(base_url: &str, token: &str) -> (r: Result<(), String>)
    ensures
        r is Ok <==> connection_input_error_spec(base_url@, token@) is None,
        r matches Err(e) ==> connection_input_error_spec(base_url@, token@) == Some(e@),
{
    if !(starts_with(base_url, "http://") || starts_with(base_url, "https://")) {
        return Err("the endpoint URL must start with http:// or https://".to_owned());
    }
    let t: String = trim_str(token);
    if t.as_str().is_empty() {
        return Err("the authentication token must not be empty".to_owned());
    }
    Ok(())
}

/// The default blobs-per-request batch size.
pub fn default_batch_size() -> (r: u32)
    ensures
        r == 10,
{
    10
}

/// The default lines-per-blob bound.
pub fn default_max_lines_per_blob() -> (r: u32)
    ensures
        r == 800,
{
    800
}

/// The default watch debounce delay, in milliseconds.
pub fn default_watch_debounce_ms() -> (r: u64)
    ensures
        r == 180000,
{
    180000
}

/// The default proxy port.
pub fn default_proxy_port() -> (r: u16)
    ensures
        r == 7890,
{
    7890
}

/// The file extensions indexed when none are configured.
pub fn default_text_extensions() -> (r: Vec<String>)
    ensures
        r@.len() == 28,
        r@[0]@ == ".py"@,
        r@[27]@ == ".bash"@,
{
    let mut v: Vec<String> = Vec::new();
    v.push(".py".to_owned());
    v.push(".js".to_owned());
    v.push(".ts".to_owned());
    v.push(".jsx".to_owned());
    v.push(".tsx".to_owned());
    v.push(".java".to_owned());
    v.push(".go".to_owned());
    v.push(".rs".to_owned());
    v.push(".cpp".to_owned());
    v.push(".c".to_owned());
    v.push(".h".to_owned());
    v.push(".hpp".to_owned());
    v.push(".cs".to_owned());
    v.push(".rb".to_owned());
    v.push(".php".to_owned());
    v.push(".md".to_owned());
    v.push(".txt".to_owned());
    v.push(".json".to_owned());
    v.push(".yaml".to_owned());
    v.push(".yml".to_owned());
    v.push(".toml".to_owned());
    v.push(".xml".to_owned());
    v.push(".html".to_owned());
    v.push(".css".to_owned());
    v.push(".scss".to_owned());
    v.push(".sql".to_owned());
    v.push(".sh".to_owned());
    v.push(".bash".to_owned());
    v
}

/// The path patterns excluded when none are configured.
pub fn default_exclude_patterns() -> (r: Vec<String>)
    ensures
        r@.len() == 4,
        r@[0]@ == "node_modules"@,
        r@[1]@ == ".git"@,
        r@[2]@ == "target"@,
        r@[3]@ == "dist"@,
{
    let mut v: Vec<String> = Vec::new();
    v.push("node_modules".to_owned());
    v.push(".git".to_owned());
    v.push("target".to_owned());
    v.push("dist".to_owned());
    v
}

} // verus!
