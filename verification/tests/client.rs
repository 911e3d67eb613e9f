use pcloud_rust::client::{
    account_info_outcome, adaptive_workers, api_failure, check_http_status, checksum_outcome,
    chunk_write_outcome, clamp_worker_count, create_folder_outcome, download_link_outcome,
    ensure_success, find_file, list_folder_outcome, upload_id_outcome, upload_source_name,
    AccountInfoResponse, ApiResponse, ChecksumResponse, FolderMetadata, LinkResponse,
    ListFolderResponse, HttpSettings, PCloudClient, UploadCreateResponse, UploadPlan, MAX_WORKERS,
    MIN_WORKERS,
};
use pcloud_rust::error::PCloudError;
use pcloud_rust::types::{DuplicateMode, FileItem, Region};

fn client(token: Option<&str>) -> PCloudClient<()> {
    PCloudClient::new(token.map(|t| t.to_string()), Region::US, 4)
}

fn item(name: &str, isfolder: bool, size: u64) -> FileItem {
    FileItem { name: name.to_string(), isfolder, size, created: None, modified: None }
}

fn api_message(e: PCloudError) -> String {
    match e {
        PCloudError::ApiError(m) => m,
        _ => panic!("expected an API error"),
    }
}

#[test]
fn test_client_without_auth() {
    let client = client(None);
    let result = client.require_auth();
    assert!(result.is_err());
    if let Err(PCloudError::NotAuthenticated) = result {
        // Expected
    } else {
        panic!("Expected NotAuthenticated error");
    }
}

#[test]
fn test_upload_nonexistent_file() {
    let mut client = client(Some("fake_token"));
    client.set_token("fake_token".to_string());
    let path = "/nonexistent/file.txt";
    let exists = std::path::Path::new(path).exists();
    let result = upload_source_name(path, exists);
    assert!(result.is_err());
    if let Err(PCloudError::FileNotFound(p)) = result {
        assert_eq!(p, path);
    } else {
        panic!("Expected FileNotFound error");
    }
}

#[test]
fn upload_source_name_of_existing_file() {
    assert_eq!(upload_source_name("/tmp/report.pdf", true).ok(), Some("report.pdf".to_string()));
    match upload_source_name("/", true) {
        Err(PCloudError::InvalidPath(m)) => assert_eq!(m, "Invalid filename"),
        _ => panic!("expected InvalidPath"),
    }
}

#[test]
fn new_client_settings() {
    let c = client(None);
    assert!(!c.is_authenticated());
    assert_eq!(c.token(), None);
    assert_eq!(c.region(), Region::US);
    assert_eq!(c.workers, 4);
    assert_eq!(c.duplicate_mode, DuplicateMode::Rename);
    assert_eq!(c.file_timeout_config.base_timeout_secs, 60);
    assert_eq!(c.chunked_upload_config.chunk_size, 10 * 1024 * 1024);
    let big: PCloudClient<()> = PCloudClient::new(None, Region::EU, 1000);
    assert_eq!(big.workers, MAX_WORKERS);
    let none: PCloudClient<()> = PCloudClient::new(None, Region::EU, 0);
    assert_eq!(none.workers, MIN_WORKERS);
}

#[test]
fn http_client_settings_follow_workers() {
    let big: PCloudClient<()> = PCloudClient::new(None, Region::EU, 1000);
    assert_eq!(
        big.http_settings(),
        HttpSettings {
            max_idle_per_host: 32,
            idle_timeout_secs: 90,
            connect_timeout_secs: 30,
            request_timeout_secs: 300,
        }
    );
    assert_eq!(client(None).http_settings().max_idle_per_host, 4);
}

#[derive(Debug, PartialEq, Eq)]
struct Policy(u32);

impl Default for Policy {
    fn default() -> Self {
        Policy(3)
    }
}

#[test]
fn new_client_has_the_default_retry_policy() {
    let c: PCloudClient<Policy> = PCloudClient::new(None, Region::US, 2);
    assert_eq!(c.retry_config, Policy(3));
}

#[test]
fn token_round_trip() {
    let mut c = client(None);
    c.set_token("abc".to_string());
    assert!(c.is_authenticated());
    assert_eq!(c.token(), Some("abc"));
    assert_eq!(c.require_auth().ok(), Some("abc"));
}

#[test]
fn api_urls_follow_region() {
    let us = client(None);
    assert_eq!(us.api_url("listfolder"), "https://api.pcloud.com/listfolder");
    let eu: PCloudClient<()> = PCloudClient::new(None, Region::EU, 4);
    assert_eq!(eu.api_url("userinfo"), "https://eapi.pcloud.com/userinfo");
}

#[test]
fn worker_counts() {
    assert_eq!(clamp_worker_count(0), 1);
    assert_eq!(clamp_worker_count(8), 8);
    assert_eq!(clamp_worker_count(64), 32);
    assert_eq!(adaptive_workers(4, 100), 8);
    assert_eq!(adaptive_workers(4, 3), 3);
    assert_eq!(adaptive_workers(0, 100), 2);
    assert_eq!(adaptive_workers(64, 1000), 32);
    assert_eq!(adaptive_workers(4, 0), 1);
}

#[test]
fn duplicate_plans() {
    let mut c = client(Some("t"));
    assert!(!c.needs_duplicate_check());
    assert!(matches!(c.plan_upload("/docs", "a.txt", true), UploadPlan::Direct));
    c.set_duplicate_mode(DuplicateMode::Skip);
    assert!(c.needs_duplicate_check());
    assert!(matches!(c.plan_upload("/docs", "a.txt", true), UploadPlan::Skip));
    assert!(matches!(c.plan_upload("/docs", "a.txt", false), UploadPlan::Direct));
    c.set_duplicate_mode(DuplicateMode::Overwrite);
    match c.plan_upload("/docs/", "a.txt", true) {
        UploadPlan::ReplaceViaTemp { temp_filename, temp_remote, full_remote } => {
            assert!(temp_filename.starts_with("a.txt.tmp."));
            let id = &temp_filename["a.txt.tmp.".len()..];
            assert_eq!(id.len(), 36);
            assert_eq!(&id[14..15], "4");
            assert_eq!(temp_remote, format!("/docs/{temp_filename}"));
            assert_eq!(full_remote, "/docs/a.txt");
        }
        _ => panic!("expected a replacement"),
    }
    match c.plan_upload("/", "b", true) {
        UploadPlan::ReplaceViaTemp { full_remote, .. } => assert_eq!(full_remote, "/b"),
        _ => panic!("expected a replacement"),
    }
}

#[test]
fn login_answers() {
    let mut c = client(None);
    let bad = ApiResponse { result: 2000, auth: None, error: Some("Log in failed.".to_string()) };
    assert_eq!(api_message(c.apply_login_response(bad).unwrap_err()), "Log in failed.");
    assert!(!c.is_authenticated());
    let empty = ApiResponse { result: 0, auth: None, error: None };
    assert_eq!(api_message(c.apply_login_response(empty).unwrap_err()), "no auth token in response");
    let good = ApiResponse { result: 0, auth: Some("tok".to_string()), error: None };
    assert_eq!(c.apply_login_response(good).ok(), Some("tok".to_string()));
    assert_eq!(c.token(), Some("tok"));
}

#[test]
fn api_results() {
    let ok = ApiResponse { result: 0, auth: None, error: None };
    assert!(ensure_success(&ok).is_ok());
    let coded = ApiResponse { result: 2005, auth: None, error: None };
    assert_eq!(api_message(ensure_success(&coded).unwrap_err()), "Error code: 2005");
    assert_eq!(api_message(api_failure(&coded)), "Error code: 2005");
    let negative = ApiResponse { result: -3, auth: None, error: None };
    assert_eq!(api_message(ensure_success(&negative).unwrap_err()), "Error code: -3");
    let exists = ApiResponse { result: 2004, auth: None, error: Some("exists".to_string()) };
    assert!(create_folder_outcome(&exists).is_ok());
    let denied = ApiResponse { result: 2003, auth: None, error: Some("Access denied".to_string()) };
    assert_eq!(api_message(create_folder_outcome(&denied).unwrap_err()), "Access denied");
}

#[test]
fn listings() {
    let resp = ListFolderResponse {
        result: 0,
        metadata: Some(FolderMetadata { contents: vec![item("a", false, 1), item("d", true, 0)] }),
        error: None,
    };
    let items = list_folder_outcome(resp).ok().unwrap();
    assert_eq!(items.len(), 2);
    assert_eq!(items[1].name, "d");
    let bare = ListFolderResponse { result: 0, metadata: None, error: None };
    assert_eq!(list_folder_outcome(bare).ok().unwrap().len(), 0);
    let missing = ListFolderResponse { result: 2005, metadata: None, error: Some("Directory does not exist.".to_string()) };
    assert_eq!(api_message(list_folder_outcome(missing).unwrap_err()), "Directory does not exist.");

    let listing = vec![item("x", true, 0), item("x", false, 7), item("x", false, 9)];
    assert_eq!(find_file(&listing, "x").map(|i| i.size), Some(7));
    assert!(find_file(&listing, "y").is_none());
}

#[test]
fn account_answers() {
    let resp = AccountInfoResponse {
        result: 0,
        email: Some("me@example.com".to_string()),
        quota: Some(100),
        usedquota: None,
        premium: Some(true),
        error: None,
    };
    let info = account_info_outcome(resp).ok().unwrap();
    assert_eq!(info.email, "me@example.com");
    assert_eq!(info.quota, 100);
    assert_eq!(info.used_quota, 0);
    assert!(info.premium);
    assert_eq!(info.available(), 100);
    let failed = AccountInfoResponse { result: 1000, email: None, quota: None, usedquota: None, premium: None, error: None };
    assert_eq!(api_message(account_info_outcome(failed).unwrap_err()), "unknown error");
}

#[test]
fn download_links() {
    let resp = LinkResponse {
        result: 0,
        hosts: Some(vec!["c1.pcloud.com".to_string(), "c2.pcloud.com".to_string()]),
        path: Some("/abc/file.txt".to_string()),
        error: None,
    };
    assert_eq!(download_link_outcome(resp).ok(), Some("https://c1.pcloud.com/abc/file.txt".to_string()));
    let no_hosts = LinkResponse { result: 0, hosts: Some(vec![]), path: Some("/p".to_string()), error: None };
    assert_eq!(api_message(download_link_outcome(no_hosts).unwrap_err()), "Unknown link error");
    let failed = LinkResponse { result: 2009, hosts: None, path: None, error: Some("File not found.".to_string()) };
    assert_eq!(api_message(download_link_outcome(failed).unwrap_err()), "File not found.");
}

#[test]
fn checksums_and_uploads() {
    let ok = ChecksumResponse { result: 0, sha256: Some("ab".to_string()), error: None };
    assert_eq!(checksum_outcome(ok).ok(), Some("ab".to_string()));
    let none = ChecksumResponse { result: 0, sha256: None, error: None };
    assert_eq!(api_message(checksum_outcome(none).unwrap_err()), "No checksum in response");
    let bad = ChecksumResponse { result: 2009, sha256: None, error: None };
    assert_eq!(api_message(checksum_outcome(bad).unwrap_err()), "Error code: 2009");

    assert_eq!(upload_id_outcome(&UploadCreateResponse { result: 0, uploadid: Some(77), error: None }).ok(), Some(77));
    assert_eq!(
        api_message(upload_id_outcome(&UploadCreateResponse { result: 0, uploadid: None, error: None }).unwrap_err()),
        "No upload ID returned"
    );
    assert_eq!(
        api_message(upload_id_outcome(&UploadCreateResponse { result: 1, uploadid: None, error: None }).unwrap_err()),
        "Failed to create upload session"
    );
    assert!(chunk_write_outcome(&ApiResponse { result: 0, auth: None, error: None }).is_ok());
    assert_eq!(
        api_message(chunk_write_outcome(&ApiResponse { result: 5, auth: None, error: None }).unwrap_err()),
        "Chunk upload failed"
    );
}

#[test]
fn http_statuses() {
    assert!(check_http_status(200).is_ok());
    assert!(check_http_status(204).is_ok());
    assert_eq!(api_message(check_http_status(404).unwrap_err()), "HTTP error: 404 Not Found");
    assert_eq!(api_message(check_http_status(503).unwrap_err()), "HTTP error: 503 Service Unavailable");
    assert_eq!(api_message(check_http_status(599).unwrap_err()), "HTTP error: 599 Unknown");
    assert_eq!(api_message(check_http_status(301).unwrap_err()), "HTTP error: 301 Moved Permanently");
}
