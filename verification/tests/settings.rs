use pcloud_rust::config::{ChunkCursor, ChunkedUploadConfig, FileTimeoutConfig, DEFAULT_CHUNK_SIZE, LARGE_FILE_THRESHOLD};
use pcloud_rust::error::PCloudError;
use pcloud_rust::types::{
    AccountInfo, DuplicateMode, FileItem, FileTransferInfo, Region, SyncDirection, SyncResult,
};
use std::time::Duration;

#[test]
fn region_texts() {
    assert_eq!(Region::US.endpoint(), "https://api.pcloud.com");
    assert_eq!(Region::EU.endpoint(), "https://eapi.pcloud.com");
    assert_eq!(Region::US.description(), "United States");
    assert_eq!(Region::EU.description(), "European Union");
    assert_eq!(Region::US.to_string(), "US");
    assert_eq!(Region::EU.to_string(), "EU");
    assert_eq!(Region::default(), Region::US);
}

#[test]
fn option_texts() {
    assert_eq!(DuplicateMode::Skip.to_string(), "skip");
    assert_eq!(DuplicateMode::Overwrite.to_string(), "overwrite");
    assert_eq!(DuplicateMode::Rename.to_string(), "rename");
    assert_eq!(DuplicateMode::default(), DuplicateMode::Rename);
    assert_eq!(SyncDirection::Upload.to_string(), "upload");
    assert_eq!(SyncDirection::Download.to_string(), "download");
    assert_eq!(SyncDirection::Bidirectional.to_string(), "bidirectional");
    assert_eq!(SyncDirection::default(), SyncDirection::Bidirectional);
}

#[test]
fn timeout_doc_example() {
    // 100 MB file: 60 + (100 * 2) = 260 seconds
    let config = FileTimeoutConfig::default();
    let timeout = config.timeout_for_size(100 * 1024 * 1024);
    assert_eq!(timeout.as_secs(), 260);
}

#[test]
fn timeouts_are_capped() {
    let config = FileTimeoutConfig::default();
    assert_eq!(config.timeout_for_size(0), Duration::from_secs(60));
    assert_eq!(config.timeout_for_size(1024 * 1024 - 1), Duration::from_secs(60));
    assert_eq!(config.timeout_for_size(10 * 1024 * 1024 * 1024), Duration::from_secs(600));
    assert_eq!(config.timeout_secs_for_size(u64::MAX), 600);
    let fast = FileTimeoutConfig::fast_network();
    assert_eq!((fast.base_timeout_secs, fast.secs_per_mb, fast.max_timeout_secs), (30, 1, 300));
    assert_eq!(fast.timeout_secs_for_size(50 * 1024 * 1024), 80);
    let slow = FileTimeoutConfig::slow_network();
    assert_eq!((slow.base_timeout_secs, slow.secs_per_mb, slow.max_timeout_secs), (120, 5, 3600));
    assert_eq!(slow.timeout_secs_for_size(1000 * 1024 * 1024), 3600);
    let huge = FileTimeoutConfig { base_timeout_secs: u64::MAX, secs_per_mb: u64::MAX, max_timeout_secs: u64::MAX };
    assert_eq!(huge.timeout_secs_for_size(u64::MAX), u64::MAX);
}

#[test]
fn chunking() {
    let config = ChunkedUploadConfig::default();
    assert_eq!(config.chunk_size, DEFAULT_CHUNK_SIZE);
    assert_eq!(config.threshold_bytes, LARGE_FILE_THRESHOLD);
    assert!(config.enabled);
    assert_eq!(config.chunks_for_size(0), 0);
    assert_eq!(config.chunks_for_size(1), 1);
    assert_eq!(config.chunks_for_size(DEFAULT_CHUNK_SIZE), 1);
    assert_eq!(config.chunks_for_size(DEFAULT_CHUNK_SIZE + 1), 2);
    assert_eq!(config.chunks_for_size(3 * 1024 * 1024 * 1024), 308);
    assert!(!config.use_chunked(LARGE_FILE_THRESHOLD - 1));
    assert!(config.use_chunked(LARGE_FILE_THRESHOLD));
    assert_eq!(config.next_chunk_len(25 * 1024 * 1024, 0), DEFAULT_CHUNK_SIZE);
    assert_eq!(config.next_chunk_len(25 * 1024 * 1024, 20 * 1024 * 1024), 5 * 1024 * 1024);
    let off = ChunkedUploadConfig::disabled();
    assert!(!off.enabled);
    assert_eq!(off.threshold_bytes, u64::MAX);
    assert!(!off.use_chunked(u64::MAX));
    let zero = ChunkedUploadConfig { threshold_bytes: 0, chunk_size: 0, enabled: true };
    assert_eq!(zero.chunks_for_size(1000), 1);
}

#[test]
fn chunk_count_of_the_largest_sizes() {
    let config = ChunkedUploadConfig::default();
    assert_eq!(config.chunks_for_size(u64::MAX - DEFAULT_CHUNK_SIZE + 1), 1759218604441);
    assert_eq!(config.chunks_for_size(u64::MAX), 1759218604442);
    let one = ChunkedUploadConfig { threshold_bytes: 0, chunk_size: 1, enabled: true };
    assert_eq!(one.chunks_for_size(u64::MAX), u64::MAX);
}

#[test]
fn retryable_errors() {
    assert!(PCloudError::NetworkError("reset".to_string()).is_retryable());
    assert!(PCloudError::Timeout(Duration::from_secs(1)).is_retryable());
    assert!(PCloudError::Interrupted(3).is_retryable());
    assert!(PCloudError::ApiError("HTTP error: 503 Service Unavailable".to_string()).is_retryable());
    assert!(!PCloudError::ApiError("HTTP error: 404 Not Found".to_string()).is_retryable());
    assert!(!PCloudError::ApiError("Log in failed.".to_string()).is_retryable());
    assert!(!PCloudError::NotAuthenticated.is_retryable());
    assert!(!PCloudError::FileNotFound("x".to_string()).is_retryable());
    assert!(!PCloudError::InvalidPath("x".to_string()).is_retryable());
    assert!(!PCloudError::IoError(std::io::Error::new(std::io::ErrorKind::NotFound, "x")).is_retryable());
}

#[test]
fn retry_loop_decisions() {
    let net = PCloudError::NetworkError("reset".to_string());
    assert!(net.retried_after(1, 3));
    assert!(net.retried_after(3, 3));
    assert!(!net.retried_after(4, 3));
    let server = PCloudError::ApiError("HTTP error: 500 Internal Server Error".to_string());
    assert!(server.retried_after(1, 3));
    let timeout = PCloudError::Timeout(Duration::from_secs(5));
    assert!(!timeout.retried_after(1, 3));
    assert!(!PCloudError::NotAuthenticated.retried_after(0, 3));
}

#[test]
fn sync_result_totals() {
    let mut r = SyncResult::new();
    assert!(r.is_success());
    assert_eq!(r.total_processed(), 0);
    let other = SyncResult {
        uploaded: 2,
        downloaded: 1,
        skipped: 3,
        failed: 1,
        files_to_upload: vec!["a".to_string()],
        files_to_download: vec!["/b".to_string()],
    };
    r.absorb(other);
    assert_eq!(r.total_processed(), 7);
    assert!(!r.is_success());
    assert_eq!(r.files_to_upload, vec!["a".to_string()]);
    assert_eq!(r.files_to_download, vec!["/b".to_string()]);
}

#[test]
fn account_space() {
    let info = AccountInfo { email: "a@b".to_string(), quota: 100, used_quota: 30, premium: false };
    assert_eq!(info.available(), 70);
    let over = AccountInfo { email: "a@b".to_string(), quota: 10, used_quota: 30, premium: false };
    assert_eq!(over.available(), 0);
}

#[test]
fn transfer_info_progress() {
    let mut info = FileTransferInfo {
        filename: "f".to_string(),
        local_path: "/l/f".to_string(),
        remote_path: "/r".to_string(),
        size: 10,
        transferred: 0,
        is_complete: false,
        is_failed: false,
        error_message: None,
    };
    assert!(info.is_in_progress());
    info.is_complete = true;
    assert!(!info.is_in_progress());
}

#[test]
fn file_item_copy() {
    let i = FileItem { name: "n".to_string(), isfolder: false, size: 5, created: Some("c".to_string()), modified: None };
    let d = i.duplicate();
    assert_eq!(d.name, "n");
    assert_eq!(d.size, 5);
    assert_eq!(d.created, Some("c".to_string()));
    assert_eq!(d.modified, None);
}

#[test]
fn chunk_cursor_walks_the_file() {
    let mut c = ChunkCursor::new(25, 10);
    let mut reads = Vec::new();
    while let Some(n) = c.next_read() {
        reads.push((c.position(), n));
        c.advance(n);
    }
    assert_eq!(reads, vec![(0, 10), (10, 10), (20, 5)]);
    assert_eq!(c.position(), 25);
    let empty = ChunkCursor::new(0, 10);
    assert_eq!(empty.next_read(), None);
    let mut short = ChunkCursor::new(10, 4);
    short.advance(3);
    assert_eq!(short.next_read(), Some(4));
    short.advance(4);
    assert_eq!(short.next_read(), Some(3));
}
