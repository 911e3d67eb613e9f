//! Plain data types of the client: regions, transfer options, file and
//! account information, and the results of transfers and synchronisation.
use vstd::prelude::*;
use vstd::string::*;

verus! {

/// The pCloud API region to connect to.
#[derive(Debug, Clone, Copy, PartialEq, Eq, Hash, Structural)]
#[non_exhaustive]
pub enum Region {
    /// United States data center (api.pcloud.com).
    US,
    /// European Union data center (eapi.pcloud.com).
    EU,
}

pub open spec fn spec_region_endpoint(r: Region) -> Seq<char> {
    match r {
        Region::US => "https://api.pcloud.com"@,
        Region::EU => "https://eapi.pcloud.com"@,
    }
}

pub open spec fn spec_region_description(r: Region) -> Seq<char> {
    match r {
        Region::US => "United States"@,
        Region::EU => "European Union"@,
    }
}

pub open spec fn spec_region_name(r: Region) -> Seq<char> {
    match r {
        Region::US => "US"@,
        Region::EU => "EU"@,
    }
}

impl Region {
    /// Returns the API base URL for this region.
    pub fn endpoint(&self) -> (s: &'static str)
        ensures
            s@ == spec_region_endpoint(*self),
    {
        match self {
            Region::US => "https://api.pcloud.com",
            Region::EU => "https://eapi.pcloud.com",
        }
    }

    /// Returns a human-readable description of the region.
    pub fn description(&self) -> (s: &'static str)
        ensures
            s@ == spec_region_description(*self),
    {
        match self {
            Region::US => "United States",
            Region::EU => "European Union",
        }
    }

    /// The region's display name: `"US"` or `"EU"`.
    pub fn to_string(&self) -> (s: String)
        ensures
            s@ == spec_region_name(*self),
    {
        match self {
            Region::US => String::from_str("US"),
            Region::EU => String::from_str("EU"),
        }
    }
}

impl Default for Region {
    fn default() -> (r: Self)
        ensures
            r == Region::US,
    {
        Region::US
    }
}

/// Strategy for handling duplicate files during transfers.
#[derive(Debug, Clone, Copy, PartialEq, Eq, Hash, Structural)]
#[non_exhaustive]
pub enum DuplicateMode {
    /// Skip files that already exist at the destination.
    Skip,
    /// Overwrite existing files with the new version.
    Overwrite,
    /// Allow pCloud to automatically rename the file to avoid conflicts.
    Rename,
}

pub open spec fn spec_duplicate_mode_name(m: DuplicateMode) -> Seq<char> {
    match m {
        DuplicateMode::Skip => "skip"@,
        DuplicateMode::Overwrite => "overwrite"@,
        DuplicateMode::Rename => "rename"@,
    }
}

impl DuplicateMode {
    /// The mode's display name: `"skip"`, `"overwrite"` or `"rename"`.
    pub fn to_string(&self) -> (s: String)
        ensures
            s@ == spec_duplicate_mode_name(*self),
    {
        match self {
            DuplicateMode::Skip => String::from_str("skip"),
            DuplicateMode::Overwrite => String::from_str("overwrite"),
            DuplicateMode::Rename => String::from_str("rename"),
        }
    }
}

impl Default for DuplicateMode {
    fn default() -> (r: Self)
        ensures
            r == DuplicateMode::Rename,
    {
        DuplicateMode::Rename
    }
}

/// Direction for folder synchronization operations.
#[derive(Debug, Clone, Copy, PartialEq, Eq, Hash, Structural)]
#[non_exhaustive]
pub enum SyncDirection {
    /// Upload local changes to remote storage.
    Upload,
    /// Download remote changes to local storage.
    Download,
    /// Synchronize in both directions.
    Bidirectional,
}

pub open spec fn spec_sync_direction_name(d: SyncDirection) -> Seq<char> {
    match d {
        SyncDirection::Upload => "upload"@,
        SyncDirection::Download => "download"@,
        SyncDirection::Bidirectional => "bidirectional"@,
    }
}

impl SyncDirection {
    /// The direction's display name: `"upload"`, `"download"` or `"bidirectional"`.
    pub fn to_string(&self) -> (s: String)
        ensures
            s@ == spec_sync_direction_name(*self),
    {
        match self {
            SyncDirection::Upload => String::from_str("upload"),
            SyncDirection::Download => String::from_str("download"),
            SyncDirection::Bidirectional => String::from_str("bidirectional"),
        }
    }
}

impl Default for SyncDirection {
    fn default() -> (r: Self)
        ensures
            r == SyncDirection::Bidirectional,
    {
        SyncDirection::Bidirectional
    }
}

/// Information about a single file transfer in progress.
pub struct FileTransferInfo {
    /// The filename (without path) being transferred.
    pub filename: String,
    /// The full local file path.
    pub local_path: String,
    /// The full remote file path.
    pub remote_path: String,
    /// Total size of the file in bytes.
    pub size: u64,
    /// Number of bytes transferred so far.
    pub transferred: u64,
    /// Whether the transfer completed successfully.
    pub is_complete: bool,
    /// Whether the transfer failed.
    pub is_failed: bool,
    /// Error message if the transfer failed.
    pub error_message: Option<String>,
}

impl FileTransferInfo {
    /// The record of a file whose transfer is starting: nothing transferred,
    /// neither complete nor failed.
    pub fn started(filename: String, local_path: String, remote_path: String, size: u64) -> (r: Self)
        ensures
            r.filename == filename,
            r.local_path == local_path,
            r.remote_path == remote_path,
            r.size == size,
            r.transferred == 0,
            !r.is_complete,
            !r.is_failed,
            r.error_message is None,
    {
        FileTransferInfo {
            filename,
            local_path,
            remote_path,
            size,
            transferred: 0,
            is_complete: false,
            is_failed: false,
            error_message: None,
        }
    }

    /// The record of a file whose transfer has ended, with `error` the
    /// message of its failure if it failed: a success has transferred the
    /// whole size, a failure nothing.
    pub fn finished(
        filename: String,
        local_path: String,
        remote_path: String,
        size: u64,
        error: Option<String>,
    ) -> (r: Self)
        ensures
            r.filename == filename,
            r.local_path == local_path,
            r.remote_path == remote_path,
            r.size == size,
            r.transferred == (if error is None { size } else { 0 }),
            r.is_complete == error is None,
            r.is_failed == error is Some,
            r.error_message == error,
    {
        let ok = error.is_none();
        FileTransferInfo {
            filename,
            local_path,
            remote_path,
            size,
            transferred: if ok { size } else { 0 },
            is_complete: ok,
            is_failed: !ok,
            error_message: error,
        }
    }

    /// Returns whether the transfer is currently in progress.
    pub fn is_in_progress(&self) -> (b: bool)
        ensures
            b == (!self.is_complete && !self.is_failed),
    {
        !self.is_complete && !self.is_failed
    }
}

/// A file or folder in a remote listing.
#[derive(Debug)]
pub struct FileItem {
    pub name: String,
    pub isfolder: bool,
    pub size: u64,
    pub created: Option<String>,
    pub modified: Option<String>,
}

pub open spec fn opt_view(o: Option<String>) -> Option<Seq<char>> {
    match o {
        Some(s) => Some(s@),
        None => None,
    }
}

fn clone_opt(o: &Option<String>) -> (r: Option<String>)
    ensures
        opt_view(r) == opt_view(*o),
{
    match o {
        Some(s) => Some(s.clone()),
        None => None,
    }
}

/// The content of a [`FileItem`].
pub struct FileItemView {
    pub name: Seq<char>,
    pub isfolder: bool,
    pub size: u64,
    pub created: Option<Seq<char>>,
    pub modified: Option<Seq<char>>,
}

impl View for FileItem {
    type V = FileItemView;

    open spec fn view(&self) -> FileItemView {
        FileItemView {
            name: self.name@,
            isfolder: self.isfolder,
            size: self.size,
            created: opt_view(self.created),
            modified: opt_view(self.modified),
        }
    }
}

pub open spec fn items_view(v: Seq<FileItem>) -> Seq<FileItemView> {
    v.map_values(|i: FileItem| i@)
}

impl FileItem {
    /// A field-by-field copy.
    pub fn duplicate(&self) -> (r: Self)
        ensures
            r@ == self@,
    {
        FileItem {
            name: self.name.clone(),
            isfolder: self.isfolder,
            size: self.size,
            created: clone_opt(&self.created),
            modified: clone_opt(&self.modified),
        }
    }
}

/// Result of a folder synchronization operation.
pub struct SyncResult {
    /// Number of files uploaded to remote.
    pub uploaded: u32,
    /// Number of files downloaded from remote.
    pub downloaded: u32,
    /// Number of files skipped (already in sync).
    pub skipped: u32,
    /// Number of files that failed to transfer.
    pub failed: u32,
    /// List of local file paths that were uploaded.
    pub files_to_upload: Vec<String>,
    /// List of remote file paths that were downloaded.
    pub files_to_download: Vec<String>,
}

pub open spec fn strings_view(v: Seq<String>) -> Seq<Seq<char>> {
    v.map_values(|s: String| s@)
}

pub fn append_strings(dst: &mut Vec<String>, src: Vec<String>)
    ensures
        strings_view(final(dst)@) == strings_view(old(dst)@) + strings_view(src@),
{
    let ghost d0 = strings_view(dst@);
    let mut src = src;
    let ghost s0 = strings_view(src@);
    dst.append(&mut src);
    assert(strings_view(dst@) == d0 + s0);
}

impl SyncResult {
    /// An empty result: nothing transferred, no files listed.
    pub fn new() -> (r: Self)
        ensures
            r.uploaded == 0 && r.downloaded == 0 && r.skipped == 0 && r.failed == 0,
            r.files_to_upload@.len() == 0,
            r.files_to_download@.len() == 0,
    {
        SyncResult {
            uploaded: 0,
            downloaded: 0,
            skipped: 0,
            failed: 0,
            files_to_upload: Vec::new(),
            files_to_download: Vec::new(),
        }
    }

    /// Returns the total number of files processed.
    pub fn total_processed(&self) -> (n: u32)
        requires
            self.uploaded + self.downloaded + self.skipped + self.failed <= u32::MAX,
        ensures
            n == self.uploaded + self.downloaded + self.skipped + self.failed,
    {
        self.uploaded + self.downloaded + self.skipped + self.failed
    }

    /// Returns `true` if all transfers succeeded.
    pub fn is_success(&self) -> (b: bool)
        ensures
            b == (self.failed == 0),
    {
        self.failed == 0
    }

    /// Adds the counts of `other` to this result and appends its file lists.
    pub fn absorb(&mut self, other: SyncResult)
        requires
            old(self).uploaded + other.uploaded <= u32::MAX,
            old(self).downloaded + other.downloaded <= u32::MAX,
            old(self).skipped + other.skipped <= u32::MAX,
            old(self).failed + other.failed <= u32::MAX,
        ensures
            final(self).uploaded == old(self).uploaded + other.uploaded,
            final(self).downloaded == old(self).downloaded + other.downloaded,
            final(self).skipped == old(self).skipped + other.skipped,
            final(self).failed == old(self).failed + other.failed,
            strings_view(final(self).files_to_upload@) == strings_view(old(self).files_to_upload@)
                + strings_view(other.files_to_upload@),
            strings_view(final(self).files_to_download@) == strings_view(
                old(self).files_to_download@,
            ) + strings_view(other.files_to_download@),
    {
        self.uploaded = self.uploaded + other.uploaded;
        self.downloaded = self.downloaded + other.downloaded;
        self.skipped = self.skipped + other.skipped;
        self.failed = self.failed + other.failed;
        append_strings(&mut self.files_to_upload, other.files_to_upload);
        append_strings(&mut self.files_to_download, other.files_to_download);
    }
}

/// Information about a file for synchronization comparison.
pub struct SyncFileInfo {
    /// The file path (relative or absolute).
    pub path: String,
    /// File size in bytes.
    pub size: u64,
    /// Optional SHA-256 checksum for content comparison.
    pub checksum: Option<String>,
    /// Optional modification timestamp.
    pub modified: Option<String>,
}

/// Information about the authenticated pCloud account.
#[derive(Debug)]
pub struct AccountInfo {
    /// The email address associated with the account.
    pub email: String,
    /// Total storage quota in bytes.
    pub quota: u64,
    /// Storage currently used in bytes.
    pub used_quota: u64,
    /// Whether the account has a premium subscription.
    pub premium: bool,
}

impl AccountInfo {
    /// Returns the available storage space in bytes (never negative).
    pub fn available(&self) -> (n: u64)
        ensures
            n == if self.quota >= self.used_quota {
                (self.quota - self.used_quota) as u64
            } else {
                0u64
            },
    {
        self.quota.saturating_sub(self.used_quota)
    }
}

} // verus!
