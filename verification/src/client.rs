//! The client's settings and the decisions it takes around each API call:
//! authentication, how responses become results, duplicate handling, retry
//! and chunking.
use vstd::prelude::*;
use vstd::string::*;

use crate::config::{
    duration_from_secs, ChunkedUploadConfig, FileTimeoutConfig, DEFAULT_CHUNK_SIZE, DEFAULT_FILE_TIMEOUT_SECS,
    LARGE_FILE_THRESHOLD,
};
use crate::error::PCloudError;
use crate::outside::{is_v4_text, new_uuid_v4};
use crate::paths::{path_file_name, spec_path_file_name};
use crate::text::{
    dec, dec_int, decimal, decimal_i64, join_remote, last_path_segment, last_segment, path_push,
    spec_join_remote, spec_path_push, trim_end_slash,
};
use crate::types::{
    items_view, opt_view, spec_region_endpoint, AccountInfo, DuplicateMode, FileItem, FileItemView,
    Region,
};

verus! {

/// Minimum number of concurrent workers allowed.
pub const MIN_WORKERS: usize = 1;

/// Maximum number of concurrent workers allowed.
pub const MAX_WORKERS: usize = 32;

#[verifier::external_type_specification]
#[verifier::external_body]
pub struct ExHttpClient(reqwest::Client);

/// How long an idle pooled connection is kept, in seconds.
pub const POOL_IDLE_TIMEOUT_SECS: u64 = 90;

/// How long establishing a connection may take, in seconds.
pub const CONNECT_TIMEOUT_SECS: u64 = 30;

/// How long a whole request may take, in seconds.
pub const REQUEST_TIMEOUT_SECS: u64 = 300;

/// The connection settings the HTTP client is built with.
#[derive(Debug, Clone, Copy, PartialEq, Eq, Structural)]
pub struct HttpSettings {
    /// Idle connections kept per host.
    pub max_idle_per_host: usize,
    /// Seconds an idle connection is kept.
    pub idle_timeout_secs: u64,
    /// Seconds allowed to connect.
    pub connect_timeout_secs: u64,
    /// Seconds allowed for a whole request.
    pub request_timeout_secs: u64,
}

/// The settings for a client with `workers` workers: one idle connection
/// per worker and the fixed timeouts.
pub open spec fn http_settings_for(workers: usize) -> HttpSettings {
    HttpSettings {
        max_idle_per_host: workers,
        idle_timeout_secs: POOL_IDLE_TIMEOUT_SECS,
        connect_timeout_secs: CONNECT_TIMEOUT_SECS,
        request_timeout_secs: REQUEST_TIMEOUT_SECS,
    }
}

/// Trusted: `reqwest::Client::builder()` with `pool_max_idle_per_host`,
/// `pool_idle_timeout`, `connect_timeout` and `timeout` set to the given
/// values, falling back to `Client::default()` if building fails. The
/// client is opaque, so nothing is stated of it; what it is asked for is
/// fixed by the arguments, which verified code chooses.
#[verifier::external_body]
fn build_http_client(
    max_idle_per_host: usize,
    idle_timeout: core::time::Duration,
    connect_timeout: core::time::Duration,
    request_timeout: core::time::Duration,
) -> reqwest::Client {
    reqwest::Client::builder().pool_max_idle_per_host(max_idle_per_host).pool_idle_timeout(
        Some(idle_timeout),
    ).connect_timeout(connect_timeout).timeout(request_timeout).build().unwrap_or_default()
}

/// Builds the HTTP client for `settings`, each timeout turned into a
/// `Duration` of that many seconds.
fn http_client_for(settings: HttpSettings) -> reqwest::Client {
    let idle = duration_from_secs(settings.idle_timeout_secs);
    let connect = duration_from_secs(settings.connect_timeout_secs);
    let request = duration_from_secs(settings.request_timeout_secs);
    build_http_client(settings.max_idle_per_host, idle, connect, request)
}

/// `n` clamped to `MIN_WORKERS..=MAX_WORKERS`.
pub open spec fn clamp_workers(n: int) -> usize {
    if n < MIN_WORKERS {
        MIN_WORKERS
    } else if n > MAX_WORKERS {
        MAX_WORKERS
    } else {
        n as usize
    }
}

/// The worker count clamped to the allowed range 1–32.
pub fn clamp_worker_count(workers: usize) -> (n: usize)
    ensures
        n == clamp_workers(workers as int),
        MIN_WORKERS <= n <= MAX_WORKERS,
{
    if workers < MIN_WORKERS {
        MIN_WORKERS
    } else if workers > MAX_WORKERS {
        MAX_WORKERS
    } else {
        workers
    }
}

/// The adaptive worker count: twice the CPU cores (at least one core
/// counted), bounded by the memory-based count, clamped to 1–32.
pub fn adaptive_workers(cpu_cores: usize, memory_based: usize) -> (n: usize)
    ensures
        n == clamp_workers(
            {
                let cores = if cpu_cores < 1 { 1 } else { cpu_cores as int };
                let cpu_based = if 2 * cores > usize::MAX { usize::MAX as int } else { 2 * cores };
                if cpu_based <= memory_based { cpu_based } else { memory_based as int }
            },
        ),
{
    let cores = if cpu_cores < 1 { 1 } else { cpu_cores };
    let cpu_based = match cores.checked_mul(2) {
        Some(c) => c,
        None => usize::MAX,
    };
    let w = if cpu_based <= memory_based { cpu_based } else { memory_based };
    clamp_worker_count(w)
}

/// The main pCloud API client. `R` is the retry policy, which the library
/// stores and hands back but does not interpret.
pub struct PCloudClient<R> {
    /// The underlying HTTP client.
    client: reqwest::Client,
    /// The settings the HTTP client was built with.
    http_settings: HttpSettings,
    /// The API region to connect to.
    region: Region,
    /// The authentication token (set after login).
    auth_token: Option<String>,
    /// Number of concurrent workers for parallel operations.
    pub workers: usize,
    /// Strategy for handling duplicate files.
    pub duplicate_mode: DuplicateMode,
    /// Configuration for automatic retries.
    pub retry_config: R,
    /// Configuration for per-file timeouts.
    pub file_timeout_config: FileTimeoutConfig,
    /// Configuration for chunked uploads.
    pub chunked_upload_config: ChunkedUploadConfig,
}

/// The settings of a [`PCloudClient`], as its contracts speak of them.
pub struct ClientView<R> {
    pub http_settings: HttpSettings,
    pub region: Region,
    pub token: Option<Seq<char>>,
    pub workers: usize,
    pub duplicate_mode: DuplicateMode,
    pub retry_config: R,
    pub file_timeout_config: FileTimeoutConfig,
    pub chunked_upload_config: ChunkedUploadConfig,
}

impl<R> View for PCloudClient<R> {
    type V = ClientView<R>;

    closed spec fn view(&self) -> ClientView<R> {
        ClientView {
            http_settings: self.http_settings,
            region: self.region,
            token: opt_view(self.auth_token),
            workers: self.workers,
            duplicate_mode: self.duplicate_mode,
            retry_config: self.retry_config,
            file_timeout_config: self.file_timeout_config,
            chunked_upload_config: self.chunked_upload_config,
        }
    }
}

impl<R> PCloudClient<R> {
    /// Creates a new client: the token from an earlier session if any, the
    /// region, the worker count clamped to 1–32, duplicates renamed, the
    /// default retry, timeout and chunking configurations, and an HTTP
    /// client keeping one idle connection per worker with the fixed
    /// timeouts.
    pub fn new(token: Option<String>, region: Region, workers: usize) -> (c: Self) where R: Default
        ensures
            c@.http_settings == http_settings_for(clamp_workers(workers as int)),
            call_ensures(R::default, (), c@.retry_config),
            c@.token == opt_view(token),
            c@.region == region,
            c@.workers == clamp_workers(workers as int),
            c@.duplicate_mode == DuplicateMode::Rename,
            c@.file_timeout_config == (FileTimeoutConfig {
                base_timeout_secs: 60,
                secs_per_mb: 2,
                max_timeout_secs: DEFAULT_FILE_TIMEOUT_SECS,
            }),
            c@.chunked_upload_config == (ChunkedUploadConfig {
                threshold_bytes: LARGE_FILE_THRESHOLD,
                chunk_size: DEFAULT_CHUNK_SIZE,
                enabled: true,
            }),
    {
        let workers = clamp_worker_count(workers);
        let http_settings = HttpSettings {
            max_idle_per_host: workers,
            idle_timeout_secs: POOL_IDLE_TIMEOUT_SECS,
            connect_timeout_secs: CONNECT_TIMEOUT_SECS,
            request_timeout_secs: REQUEST_TIMEOUT_SECS,
        };
        let client = http_client_for(http_settings);
        PCloudClient {
            client,
            http_settings,
            region,
            auth_token: token,
            workers,
            duplicate_mode: DuplicateMode::Rename,
            retry_config: R::default(),
            file_timeout_config: FileTimeoutConfig::default(),
            chunked_upload_config: ChunkedUploadConfig::default(),
        }
    }

    /// The settings the HTTP client was built with.
    pub fn http_settings(&self) -> (s: HttpSettings)
        ensures
            s == self@.http_settings,
    {
        self.http_settings
    }

    /// The HTTP client this client holds and sends every request through.
    pub closed spec fn http_client(&self) -> reqwest::Client {
        self.client
    }

    /// The underlying HTTP client, shared by all requests.
    pub fn http(&self) -> (c: &reqwest::Client)
        ensures
            *c == self.http_client(),
    {
        &self.client
    }

    /// Sets the retry configuration for transient failures.
    pub fn set_retry_config(&mut self, config: R)
        ensures
            final(self)@ == (ClientView { retry_config: config, ..old(self)@ }),
    {
        self.retry_config = config;
    }

    /// Sets the authentication token.
    pub fn set_token(&mut self, token: String)
        ensures
            final(self)@ == (ClientView { token: Some(token@), ..old(self)@ }),
    {
        self.auth_token = Some(token);
    }

    /// Returns the current authentication token, if set.
    pub fn token(&self) -> (t: Option<&str>)
        ensures
            match t {
                Some(s) => self@.token == Some(s@),
                None => self@.token is None,
            },
    {
        match &self.auth_token {
            Some(t) => Some(t.as_str()),
            None => None,
        }
    }

    /// Returns `true` if the client has an authentication token.
    pub fn is_authenticated(&self) -> (b: bool)
        ensures
            b == self@.token is Some,
    {
        self.auth_token.is_some()
    }

    /// Sets the duplicate file handling strategy.
    pub fn set_duplicate_mode(&mut self, mode: DuplicateMode)
        ensures
            final(self)@ == (ClientView { duplicate_mode: mode, ..old(self)@ }),
    {
        self.duplicate_mode = mode;
    }

    /// Sets the per-file timeout configuration.
    pub fn set_file_timeout_config(&mut self, config: FileTimeoutConfig)
        ensures
            final(self)@ == (ClientView { file_timeout_config: config, ..old(self)@ }),
    {
        self.file_timeout_config = config;
    }

    /// Sets the chunked upload configuration.
    pub fn set_chunked_upload_config(&mut self, config: ChunkedUploadConfig)
        ensures
            final(self)@ == (ClientView { chunked_upload_config: config, ..old(self)@ }),
    {
        self.chunked_upload_config = config;
    }

    /// Returns the API region this client is configured for.
    pub fn region(&self) -> (r: Region)
        ensures
            r == self@.region,
    {
        self.region
    }

    /// The full URL of an API method: the region's endpoint, a slash, the method.
    pub fn api_url(&self, method: &str) -> (u: String)
        ensures
            u@ == spec_region_endpoint(self@.region) + "/"@ + method@,
    {
        let mut u = String::from_str(self.region.endpoint());
        u.append("/");
        u.append(method);
        u
    }

    /// Returns the authentication token or `NotAuthenticated`.
    pub fn require_auth(&self) -> (r: Result<&str, PCloudError>)
        ensures
            match r {
                Ok(s) => self@.token == Some(s@),
                Err(e) => self@.token is None && e is NotAuthenticated,
            },
    {
        match &self.auth_token {
            Some(t) => Ok(t.as_str()),
            None => Err(PCloudError::NotAuthenticated),
        }
    }

    /// Whether an upload must first look for an existing file of the same
    /// name: every duplicate mode but `Rename` does.
    pub fn needs_duplicate_check(&self) -> (b: bool)
        ensures
            b == (self@.duplicate_mode != DuplicateMode::Rename),
    {
        self.duplicate_mode != DuplicateMode::Rename
    }

    /// How to upload `filename` into `remote_path`, given whether a file of
    /// that name is already there (see [`spec_upload_plan_ok`]).
    pub fn plan_upload(&self, remote_path: &str, filename: &str, remote_has_file: bool) -> (p: UploadPlan)
        ensures
            spec_upload_plan_ok(self@.duplicate_mode, remote_path@, filename@, remote_has_file, p),
    {
        if self.duplicate_mode != DuplicateMode::Rename && remote_has_file {
            match self.duplicate_mode {
                DuplicateMode::Skip => {
                    return UploadPlan::Skip;
                },
                DuplicateMode::Overwrite => {
                    let mut temp = String::from_str(filename);
                    temp.append(".tmp.");
                    let id = new_uuid_v4();
                    let ghost idv = id@;
                    temp.append(id.as_str());
                    proof {
                        reveal_strlit(".tmp.");
                        assert(temp@.skip(filename@.len() + 5int) == idv);
                    }
                    let full_remote = join_remote(remote_path, filename);
                    let temp_remote = join_remote(remote_path, temp.as_str());
                    return UploadPlan::ReplaceViaTemp {
                        temp_filename: temp,
                        temp_remote,
                        full_remote,
                    };
                },
                _ => {},
            }
        }
        UploadPlan::Direct
    }

    /// Applies the answer to a login request: on success the token it
    /// carries becomes the client's and is returned.
    pub fn apply_login_response(&mut self, resp: ApiResponse) -> (r: Result<String, PCloudError>)
        ensures
            resp.result != 0 ==> err_api(r, failure_message(resp.result, resp.error))
                && final(self)@ == old(self)@,
            resp.result == 0 && resp.auth is None ==> err_api(r, "no auth token in response"@)
                && final(self)@ == old(self)@,
            resp.result == 0 && resp.auth is Some ==> (r matches Ok(t) && t@ == resp.auth->0@)
                && final(self)@ == (ClientView { token: Some(resp.auth->0@), ..old(self)@ }),
    {
        if resp.result != 0 {
            return Err(api_failure(&resp));
        }
        match resp.auth {
            Some(token) => {
                self.auth_token = Some(token.clone());
                Ok(token)
            },
            None => Err(PCloudError::ApiError(String::from_str("no auth token in response"))),
        }
    }
}

/// The name under which a local file is uploaded: the last component of its
/// path. A file that does not exist (`exists` is false) is `FileNotFound`
/// with its path; a path without a last component is
/// `InvalidPath("Invalid filename")`.
pub fn upload_source_name(local_path: &str, exists: bool) -> (r: Result<String, PCloudError>)
    ensures
        !exists ==> (r matches Err(e) && e matches PCloudError::FileNotFound(p) && p@ == local_path@),
        exists && spec_path_file_name(local_path@) is None ==> (r matches Err(e)
            && e matches PCloudError::InvalidPath(m) && m@ == "Invalid filename"@),
        exists && spec_path_file_name(local_path@) is Some ==> (r matches Ok(n)
            && n@ == spec_path_file_name(local_path@)->0),
{
    if !exists {
        return Err(PCloudError::FileNotFound(String::from_str(local_path)));
    }
    match path_file_name(local_path) {
        Some(n) => Ok(n),
        None => Err(PCloudError::InvalidPath(String::from_str("Invalid filename"))),
    }
}

/// The name shown for a local file in progress reports: the last component
/// of its path, `unknown` when it has none.
pub fn file_label(local_path: &str) -> (r: String)
    ensures
        r@ == match spec_path_file_name(local_path@) {
            Some(n) => n,
            None => "unknown"@,
        },
{
    match path_file_name(local_path) {
        Some(n) => n,
        None => String::from_str("unknown"),
    }
}

proof fn lemma_last_segment_has_no_slash(s: Seq<char>)
    ensures
        forall|i: int| 0 <= i < last_segment(s).len() ==> last_segment(s)[i] != '/',
    decreases s.len(),
{
    if s.len() > 0 && s.last() != '/' {
        lemma_last_segment_has_no_slash(s.drop_last());
        let prev = last_segment(s.drop_last());
        assert(last_segment(s) == prev.push(s.last()));
        assert forall|i: int| 0 <= i < last_segment(s).len() implies last_segment(s)[i] != '/' by {
            if i < prev.len() {
                assert(last_segment(s)[i] == prev[i]);
            }
        }
    }
}

/// Where a remote file is downloaded to: the local folder joined with the
/// last `/`-separated part of the remote path.
pub fn download_destination(remote_path: &str, local_folder: &str) -> (r: String)
    ensures
        r@ == spec_path_push(local_folder@, last_segment(remote_path@)),
{
    let name = last_path_segment(remote_path);
    proof {
        lemma_last_segment_has_no_slash(remote_path@);
    }
    path_push(local_folder, name.as_str())
}

/// How an upload proceeds once duplicates have been looked for.
pub enum UploadPlan {
    /// Leave the remote file as it is.
    Skip,
    /// Upload under the file's own name (the server renames on conflict).
    Direct,
    /// Upload under `temp_filename`, delete `full_remote`, then rename
    /// `temp_remote` to `full_remote`.
    ReplaceViaTemp { temp_filename: String, temp_remote: String, full_remote: String },
}

/// The plan for an upload: skip an existing file in `Skip` mode; in
/// `Overwrite` mode replace an existing file through a temporary name made
/// of the file name, `.tmp.` and a fresh UUID; upload directly otherwise.
pub open spec fn spec_upload_plan_ok(
    mode: DuplicateMode,
    remote_path: Seq<char>,
    filename: Seq<char>,
    remote_has_file: bool,
    p: UploadPlan,
) -> bool {
    if remote_has_file && mode == DuplicateMode::Skip {
        p is Skip
    } else if remote_has_file && mode == DuplicateMode::Overwrite {
        p matches UploadPlan::ReplaceViaTemp { temp_filename, temp_remote, full_remote } && {
            let suffix = temp_filename@.skip(filename.len() + 5int);
            &&& temp_filename@ == filename + ".tmp."@ + suffix
            &&& is_v4_text(suffix)
            &&& temp_remote@ == spec_join_remote(remote_path, temp_filename@)
            &&& full_remote@ == spec_join_remote(remote_path, filename)
        }
    } else {
        p is Direct
    }
}

/// The generic answer of the API: a result code, an optional token and an
/// optional error message.
pub struct ApiResponse {
    pub result: i32,
    pub auth: Option<String>,
    pub error: Option<String>,
}

/// The message of a failed API answer: its error text, else `Error code: N`.
pub open spec fn failure_message(result: i32, error: Option<String>) -> Seq<char> {
    match error {
        Some(m) => m@,
        None => "Error code: "@ + dec_int(result as int),
    }
}

/// `e` is an API error with message `msg`.
pub open spec fn is_api_error(e: PCloudError, msg: Seq<char>) -> bool {
    e matches PCloudError::ApiError(m) && m@ == msg
}

/// `r` failed with an API error with message `msg`.
pub open spec fn err_api<T>(r: Result<T, PCloudError>, msg: Seq<char>) -> bool {
    r matches Err(e) && is_api_error(e, msg)
}

fn opt_string_or(o: &Option<String>, default: &str) -> (s: String)
    ensures
        s@ == match o {
            Some(m) => m@,
            None => default@,
        },
{
    match o {
        Some(m) => m.clone(),
        None => String::from_str(default),
    }
}

fn message_or_code(result: i32, error: &Option<String>) -> (s: String)
    ensures
        s@ == failure_message(result, *error),
{
    match error {
        Some(m) => m.clone(),
        None => {
            let mut s = String::from_str("Error code: ");
            s.append(decimal_i64(result as i64).as_str());
            s
        },
    }
}

/// The error a failed API answer turns into.
pub fn api_failure(resp: &ApiResponse) -> (e: PCloudError)
    ensures
        is_api_error(e, failure_message(resp.result, resp.error)),
{
    PCloudError::ApiError(message_or_code(resp.result, &resp.error))
}

/// Success when the result code is 0, else an API error with the answer's
/// message or its code.
pub fn ensure_success(resp: &ApiResponse) -> (r: Result<(), PCloudError>)
    ensures
        resp.result == 0 <==> r is Ok,
        resp.result != 0 ==> err_api(r, failure_message(resp.result, resp.error)),
{
    if resp.result == 0 {
        Ok(())
    } else {
        Err(api_failure(resp))
    }
}

/// The outcome of `createfolderifnotexists`: success also when the folder
/// already exists (code 2004).
pub fn create_folder_outcome(resp: &ApiResponse) -> (r: Result<(), PCloudError>)
    ensures
        (resp.result == 0 || resp.result == 2004) <==> r is Ok,
        !(resp.result == 0 || resp.result == 2004) ==> err_api(
            r,
            failure_message(resp.result, resp.error),
        ),
{
    if resp.result == 0 || resp.result == 2004 {
        Ok(())
    } else {
        ensure_success(resp)
    }
}

/// The contents part of a folder listing.
pub struct FolderMetadata {
    pub contents: Vec<FileItem>,
}

/// The answer to `listfolder`.
pub struct ListFolderResponse {
    pub result: i32,
    pub metadata: Option<FolderMetadata>,
    pub error: Option<String>,
}

/// The items of a folder listing: its contents on success (none when the
/// answer carries no metadata), an API error otherwise.
pub fn list_folder_outcome(resp: ListFolderResponse) -> (r: Result<Vec<FileItem>, PCloudError>)
    ensures
        resp.result == 0 <==> r is Ok,
        resp.result != 0 ==> err_api(r, failure_message(resp.result, resp.error)),
        resp.result == 0 ==> (r matches Ok(items) && items_view(items@) == match resp.metadata {
            Some(m) => items_view(m.contents@),
            None => Seq::<FileItemView>::empty(),
        }),
{
    if resp.result != 0 {
        return Err(PCloudError::ApiError(message_or_code(resp.result, &resp.error)));
    }
    match resp.metadata {
        Some(m) => Ok(m.contents),
        None => {
            let v: Vec<FileItem> = Vec::new();
            assert(items_view(v@) == Seq::<FileItemView>::empty());
            Ok(v)
        },
    }
}

/// The first item of a listing that is a file named `filename`.
pub fn find_file(items: &Vec<FileItem>, filename: &str) -> (r: Option<FileItem>)
    ensures
        match r {
            Some(it) => exists|i: int|
                0 <= i < items@.len() && items@[i]@ == it@ && !it.isfolder && it.name@ == filename@
                    && forall|j: int|
                    0 <= j < i ==> !(!items@[j].isfolder && items@[j].name@ == filename@),
            None => forall|j: int|
                0 <= j < items@.len() ==> !(!items@[j].isfolder && items@[j].name@ == filename@),
        },
{
    let name = String::from_str(filename);
    for i in 0..items.len()
        invariant
            name@ == filename@,
            forall|j: int| 0 <= j < i ==> !(!items@[j].isfolder && items@[j].name@ == filename@),
    {
        if !items[i].isfolder && items[i].name == name {
            return Some(items[i].duplicate());
        }
    }
    None
}

/// The answer to `userinfo` when asked for account details.
pub struct AccountInfoResponse {
    pub result: i32,
    pub email: Option<String>,
    pub quota: Option<u64>,
    pub usedquota: Option<u64>,
    pub premium: Option<bool>,
    pub error: Option<String>,
}

/// Account details from a `userinfo` answer; missing fields default to
/// empty, zero and not premium. A failed answer gives its message, or
/// `unknown error`.
pub fn account_info_outcome(resp: AccountInfoResponse) -> (r: Result<AccountInfo, PCloudError>)
    ensures
        resp.result == 0 <==> r is Ok,
        resp.result != 0 ==> err_api(
            r,
            match resp.error {
                Some(m) => m@,
                None => "unknown error"@,
            },
        ),
        resp.result == 0 ==> (r matches Ok(info) && info.email@ == match resp.email {
            Some(e) => e@,
            None => Seq::<char>::empty(),
        } && info.quota == match resp.quota {
            Some(q) => q,
            None => 0u64,
        } && info.used_quota == match resp.usedquota {
            Some(q) => q,
            None => 0u64,
        } && info.premium == match resp.premium {
            Some(p) => p,
            None => false,
        }),
{
    if resp.result != 0 {
        return Err(PCloudError::ApiError(opt_string_or(&resp.error, "unknown error")));
    }
    let email = match resp.email {
        Some(e) => e,
        None => String::new(),
    };
    Ok(AccountInfo {
        email,
        quota: match resp.quota {
            Some(q) => q,
            None => 0,
        },
        used_quota: match resp.usedquota {
            Some(q) => q,
            None => 0,
        },
        premium: match resp.premium {
            Some(p) => p,
            None => false,
        },
    })
}

/// The answer to `getfilelink`.
pub struct LinkResponse {
    pub result: i32,
    pub hosts: Option<Vec<String>>,
    pub path: Option<String>,
    pub error: Option<String>,
}

/// The answer carries a usable link: success, a first host and a path.
pub open spec fn link_available(resp: LinkResponse) -> bool {
    resp.result == 0 && resp.hosts is Some && resp.hosts->0@.len() > 0 && resp.path is Some
}

/// The download URL of a `getfilelink` answer: `https://`, the first host,
/// the path. Without one, the answer's error or `Unknown link error`.
pub fn download_link_outcome(resp: LinkResponse) -> (r: Result<String, PCloudError>)
    ensures
        link_available(resp) <==> r is Ok,
        link_available(resp) ==> (r matches Ok(u) && u@ == "https://"@ + resp.hosts->0@[0]@
            + resp.path->0@),
        !link_available(resp) ==> err_api(
            r,
            match resp.error {
                Some(m) => m@,
                None => "Unknown link error"@,
            },
        ),
{
    if resp.result == 0 {
        if let Some(hosts) = &resp.hosts {
            if hosts.len() > 0 {
                if let Some(p) = &resp.path {
                    let mut u = String::from_str("https://");
                    u.append(hosts[0].as_str());
                    u.append(p.as_str());
                    return Ok(u);
                }
            }
        }
    }
    Err(PCloudError::ApiError(opt_string_or(&resp.error, "Unknown link error")))
}

/// The answer to `checksumfile`.
pub struct ChecksumResponse {
    pub result: i32,
    pub sha256: Option<String>,
    pub error: Option<String>,
}

/// The remote SHA-256 of a `checksumfile` answer.
pub fn checksum_outcome(resp: ChecksumResponse) -> (r: Result<String, PCloudError>)
    ensures
        (resp.result == 0 && resp.sha256 is Some) <==> r is Ok,
        resp.result == 0 && resp.sha256 is Some ==> (r matches Ok(h) && h@ == resp.sha256->0@),
        resp.result == 0 && resp.sha256 is None ==> err_api(r, "No checksum in response"@),
        resp.result != 0 ==> err_api(r, failure_message(resp.result, resp.error)),
{
    if resp.result == 0 {
        match resp.sha256 {
            Some(h) => Ok(h),
            None => Err(PCloudError::ApiError(String::from_str("No checksum in response"))),
        }
    } else {
        Err(PCloudError::ApiError(message_or_code(resp.result, &resp.error)))
    }
}

/// The answer to `upload_create`.
pub struct UploadCreateResponse {
    pub result: i32,
    pub uploadid: Option<u64>,
    pub error: Option<String>,
}

/// The upload session id of an `upload_create` answer.
pub fn upload_id_outcome(resp: &UploadCreateResponse) -> (r: Result<u64, PCloudError>)
    ensures
        (resp.result == 0 && resp.uploadid is Some) <==> r is Ok,
        resp.result == 0 && resp.uploadid is Some ==> r == Ok::<u64, PCloudError>(resp.uploadid->0),
        resp.result == 0 && resp.uploadid is None ==> err_api(r, "No upload ID returned"@),
        resp.result != 0 ==> err_api(
            r,
            match resp.error {
                Some(m) => m@,
                None => "Failed to create upload session"@,
            },
        ),
{
    if resp.result != 0 {
        return Err(PCloudError::ApiError(opt_string_or(&resp.error, "Failed to create upload session")));
    }
    match resp.uploadid {
        Some(id) => Ok(id),
        None => Err(PCloudError::ApiError(String::from_str("No upload ID returned"))),
    }
}

/// The outcome of writing one chunk (`upload_write`): a failed write ends
/// the upload with the answer's error, or `Chunk upload failed`.
pub fn chunk_write_outcome(resp: &ApiResponse) -> (r: Result<(), PCloudError>)
    ensures
        resp.result == 0 <==> r is Ok,
        resp.result != 0 ==> err_api(
            r,
            match resp.error {
                Some(m) => m@,
                None => "Chunk upload failed"@,
            },
        ),
{
    if resp.result != 0 {
        return Err(PCloudError::ApiError(opt_string_or(&resp.error, "Chunk upload failed")));
    }
    Ok(())
}

/// The reason phrase of an HTTP status code, as `http::StatusCode` knows it.
pub uninterp spec fn spec_canonical_reason(code: u16) -> Option<Seq<char>>;

/// Trusted: `http::StatusCode::from_u16(code)` then `canonical_reason()`: a
/// fixed table lookup on the code; `None` for codes outside 100–999 and for
/// codes without a standard phrase.
#[verifier::external_body]
fn canonical_reason(code: u16) -> (r: Option<String>)
    ensures
        opt_view(r) == spec_canonical_reason(code),
{
    reqwest::StatusCode::from_u16(code).ok().and_then(|s| s.canonical_reason()).map(
        |s| s.to_string(),
    )
}

/// Success for 2xx status codes; otherwise `HTTP error: CODE REASON`, with
/// `Unknown` when the code has no standard reason phrase.
pub fn check_http_status(code: u16) -> (r: Result<(), PCloudError>)
    ensures
        (200 <= code < 300) <==> r is Ok,
        !(200 <= code < 300) ==> err_api(
            r,
            "HTTP error: "@ + dec(code as nat) + " "@ + match spec_canonical_reason(code) {
                Some(p) => p,
                None => "Unknown"@,
            },
        ),
{
    if 200 <= code && code < 300 {
        return Ok(());
    }
    let mut m = String::from_str("HTTP error: ");
    m.append(decimal(code as u128).as_str());
    m.append(" ");
    let reason = canonical_reason(code);
    m.append(opt_string_or(&reason, "Unknown").as_str());
    Err(PCloudError::ApiError(m))
}

} // verus!
