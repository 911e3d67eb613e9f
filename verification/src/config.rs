//! Configuration of per-file timeouts and chunked uploads.
use vstd::prelude::*;

verus! {

/// Default chunk size for large file uploads (10 MiB).
pub const DEFAULT_CHUNK_SIZE: u64 = 10485760;

/// File size threshold above which chunked uploads are used (2 GiB).
pub const LARGE_FILE_THRESHOLD: u64 = 2147483648;

/// Default maximum timeout for file operations in seconds (10 minutes).
pub const DEFAULT_FILE_TIMEOUT_SECS: u64 = 600;

/// The `Duration` of `secs` whole seconds, as `Duration::from_secs` builds it.
pub uninterp spec fn spec_duration_from_secs(secs: u64) -> core::time::Duration;

/// Trusted: `std::time::Duration::from_secs`, which never fails; its result is
/// named `spec_duration_from_secs` of the seconds.
#[verifier::external_body]
pub(crate) fn duration_from_secs(secs: u64) -> (d: core::time::Duration)
    ensures
        d == spec_duration_from_secs(secs),
{
    core::time::Duration::from_secs(secs)
}

/// Configuration for per-file transfer timeouts:
/// `min(base_timeout + file_size_mb * secs_per_mb, max_timeout)`.
#[derive(Debug, Clone, Copy, PartialEq, Eq, Structural)]
pub struct FileTimeoutConfig {
    /// Base timeout in seconds for any file operation.
    pub base_timeout_secs: u64,
    /// Additional seconds per megabyte of file size.
    pub secs_per_mb: u64,
    /// Maximum timeout in seconds regardless of file size.
    pub max_timeout_secs: u64,
}

pub open spec fn sat_add_u64(a: u64, b: u64) -> u64 {
    if a + b > u64::MAX { u64::MAX } else { (a + b) as u64 }
}

pub open spec fn sat_mul_u64(a: u64, b: u64) -> u64 {
    if a * b > u64::MAX { u64::MAX } else { (a * b) as u64 }
}

pub open spec fn min_u64(a: u64, b: u64) -> u64 {
    if a <= b { a } else { b }
}

/// The timeout, in seconds, for a file of `size` bytes (whole mebibytes
/// count; sums and products saturate).
pub open spec fn spec_timeout_secs(c: FileTimeoutConfig, size: u64) -> u64 {
    min_u64(
        sat_add_u64(c.base_timeout_secs, sat_mul_u64((size / 1048576) as u64, c.secs_per_mb)),
        c.max_timeout_secs,
    )
}

/// A larger file never gets a shorter timeout, and no timeout exceeds the
/// configured maximum.
pub proof fn lemma_timeout_monotone(c: FileTimeoutConfig, small: u64, large: u64)
    requires
        small <= large,
    ensures
        spec_timeout_secs(c, small) <= spec_timeout_secs(c, large),
        spec_timeout_secs(c, large) <= c.max_timeout_secs,
{
    let a = small / 1048576;
    let b = large / 1048576;
    vstd::arithmetic::div_mod::lemma_div_is_ordered(small as int, large as int, 1048576);
    let m = c.secs_per_mb;
    assert(a * m <= b * m) by (nonlinear_arith)
        requires
            a <= b,
    ;
}

impl Default for FileTimeoutConfig {
    fn default() -> (c: Self)
        ensures
            c.base_timeout_secs == 60 && c.secs_per_mb == 2 && c.max_timeout_secs
                == DEFAULT_FILE_TIMEOUT_SECS,
    {
        FileTimeoutConfig {
            base_timeout_secs: 60,
            secs_per_mb: 2,
            max_timeout_secs: DEFAULT_FILE_TIMEOUT_SECS,
        }
    }
}

impl FileTimeoutConfig {
    /// The timeout in whole seconds for a file of the given size.
    pub fn timeout_secs_for_size(&self, size_bytes: u64) -> (secs: u64)
        ensures
            secs == spec_timeout_secs(*self, size_bytes),
    {
        let size_mb = size_bytes / (1024 * 1024);
        let per_size = match size_mb.checked_mul(self.secs_per_mb) {
            Some(p) => p,
            None => u64::MAX,
        };
        let t = self.base_timeout_secs.saturating_add(per_size);
        if t <= self.max_timeout_secs {
            t
        } else {
            self.max_timeout_secs
        }
    }

    /// Calculates the appropriate timeout for a file of the given size.
    pub fn timeout_for_size(&self, size_bytes: u64) -> (d: core::time::Duration)
        ensures
            d == spec_duration_from_secs(spec_timeout_secs(*self, size_bytes)),
    {
        duration_from_secs(self.timeout_secs_for_size(size_bytes))
    }

    /// Creates a configuration optimized for fast networks.
    pub fn fast_network() -> (c: Self)
        ensures
            c.base_timeout_secs == 30 && c.secs_per_mb == 1 && c.max_timeout_secs == 300,
    {
        FileTimeoutConfig { base_timeout_secs: 30, secs_per_mb: 1, max_timeout_secs: 300 }
    }

    /// Creates a configuration optimized for slow or unreliable networks.
    pub fn slow_network() -> (c: Self)
        ensures
            c.base_timeout_secs == 120 && c.secs_per_mb == 5 && c.max_timeout_secs == 3600,
    {
        FileTimeoutConfig { base_timeout_secs: 120, secs_per_mb: 5, max_timeout_secs: 3600 }
    }
}

/// Configuration for chunked uploads of large files.
#[derive(Debug, Clone, Copy, PartialEq, Eq, Structural)]
pub struct ChunkedUploadConfig {
    /// File size threshold in bytes above which chunked uploads are used.
    pub threshold_bytes: u64,
    /// Size of each chunk in bytes.
    pub chunk_size: u64,
    /// Whether chunked uploads are enabled.
    pub enabled: bool,
}

impl Default for ChunkedUploadConfig {
    fn default() -> (c: Self)
        ensures
            c.threshold_bytes == LARGE_FILE_THRESHOLD && c.chunk_size == DEFAULT_CHUNK_SIZE
                && c.enabled,
    {
        ChunkedUploadConfig {
            threshold_bytes: LARGE_FILE_THRESHOLD,
            chunk_size: DEFAULT_CHUNK_SIZE,
            enabled: true,
        }
    }
}

impl ChunkedUploadConfig {
    /// Creates a disabled chunked upload configuration.
    pub fn disabled() -> (c: Self)
        ensures
            c.threshold_bytes == u64::MAX && c.chunk_size == DEFAULT_CHUNK_SIZE && !c.enabled,
    {
        ChunkedUploadConfig {
            threshold_bytes: u64::MAX,
            chunk_size: DEFAULT_CHUNK_SIZE,
            enabled: false,
        }
    }

    /// Returns the number of chunks needed for a file of the given size:
    /// the size divided by the chunk size, rounded up (1 when the chunk
    /// size is zero). The division is done without an intermediate sum, so
    /// every size is accepted.
    pub fn chunks_for_size(&self, size_bytes: u64) -> (n: u64)
        ensures
            self.chunk_size == 0 ==> n == 1,
            self.chunk_size > 0 ==> n == (size_bytes + self.chunk_size - 1) / (self.chunk_size as int),
            self.chunk_size > 0 ==> n * self.chunk_size >= size_bytes,
            self.chunk_size > 0 && n > 0 ==> (n - 1) * self.chunk_size < size_bytes,
    {
        if self.chunk_size == 0 {
            return 1;
        }
        let q = size_bytes / self.chunk_size;
        let r = size_bytes % self.chunk_size;
        proof {
            let c = self.chunk_size as int;
            let s = size_bytes as int;
            assert(s == q * c + r && 0 <= r < c) by (nonlinear_arith)
                requires
                    c > 0,
                    s >= 0,
                    q == s / c,
                    r == s % c,
            ;
            assert(q * c <= s) by (nonlinear_arith)
                requires
                    s == q * c + r,
                    0 <= r,
            ;
            assert(q < u64::MAX || r == 0) by (nonlinear_arith)
                requires
                    c > 0,
                    s <= u64::MAX,
                    s == q * c + r,
                    0 <= r < c,
                    q >= 0,
            {
                if q >= u64::MAX && r > 0 {
                    assert(q * c >= q);
                }
            }
        }
        let n = if r == 0 { q } else { q + 1 };
        proof {
            let c = self.chunk_size as int;
            let s = size_bytes as int;
            assert(n == (s + c - 1) / c && n * c >= s && (n > 0 ==> (n - 1) * c < s)) by (nonlinear_arith)
                requires
                    c > 0,
                    s >= 0,
                    s == q * c + r,
                    0 <= r < c,
                    q >= 0,
                    r == 0 ==> n == q,
                    r != 0 ==> n == q + 1,
            {
                if r == 0 {
                    assert(s + c - 1 == q * c + (c - 1));
                } else {
                    assert(s + c - 1 == (q + 1) * c + (r - 1));
                }
            }
        }
        n
    }

    /// Whether a file of `file_size` bytes goes through the chunked upload
    /// protocol: chunking is enabled and the file is at least the threshold.
    pub fn use_chunked(&self, file_size: u64) -> (b: bool)
        ensures
            b == (self.enabled && file_size >= self.threshold_bytes),
    {
        !(file_size < self.threshold_bytes || !self.enabled)
    }

    /// How many bytes the next chunk read asks for, at `offset` in a file of
    /// `file_size` bytes: the rest of the file, at most one chunk.
    pub fn next_chunk_len(&self, file_size: u64, offset: u64) -> (n: u64)
        requires
            offset < file_size,
        ensures
            n == min_u64((file_size - offset) as u64, self.chunk_size),
            n <= self.chunk_size,
            offset + n <= file_size,
    {
        let rest = file_size - offset;
        if rest <= self.chunk_size {
            rest
        } else {
            self.chunk_size
        }
    }
}

/// The position reached in a file uploaded chunk by chunk.
pub struct ChunkCursor {
    file_size: u64,
    chunk_size: u64,
    offset: u64,
}

impl ChunkCursor {
    /// The size of the file.
    pub closed spec fn file_size(&self) -> u64 {
        self.file_size
    }

    /// The size of a chunk.
    pub closed spec fn chunk_size(&self) -> u64 {
        self.chunk_size
    }

    /// The number of bytes uploaded so far: where the next chunk starts.
    pub closed spec fn offset(&self) -> u64 {
        self.offset
    }

    /// The cursor never passes the end of the file.
    #[verifier::type_invariant]
    closed spec fn within_file(&self) -> bool {
        self.offset <= self.file_size
    }

    /// A cursor at the start of a file of `file_size` bytes read in chunks
    /// of `chunk_size` bytes.
    pub fn new(file_size: u64, chunk_size: u64) -> (c: Self)
        ensures
            c.file_size() == file_size && c.chunk_size() == chunk_size && c.offset() == 0,
    {
        ChunkCursor { file_size, chunk_size, offset: 0 }
    }

    /// Where the next chunk starts.
    pub fn position(&self) -> (p: u64)
        ensures
            p == self.offset(),
            p <= self.file_size(),
    {
        proof {
            use_type_invariant(self);
        }
        self.offset
    }

    /// How many bytes to read next: the rest of the file, at most one
    /// chunk; `None` once the whole file is uploaded.
    pub fn next_read(&self) -> (n: Option<u64>)
        ensures
            self.offset() >= self.file_size() ==> n is None,
            self.offset() < self.file_size() ==> n == Some(
                min_u64((self.file_size() - self.offset()) as u64, self.chunk_size()),
            ),
    {
        if self.offset < self.file_size {
            let rest = self.file_size - self.offset;
            Some(if rest <= self.chunk_size { rest } else { self.chunk_size })
        } else {
            None
        }
    }

    /// Moves past a chunk of `bytes_read` bytes that was read and uploaded.
    pub fn advance(&mut self, bytes_read: u64)
        requires
            old(self).offset() + bytes_read <= old(self).file_size(),
        ensures
            final(self).file_size() == old(self).file_size(),
            final(self).chunk_size() == old(self).chunk_size(),
            final(self).offset() == old(self).offset() + bytes_read,
    {
        self.offset = self.offset + bytes_read;
    }
}

/// What the cursor asks to read next is at least one byte while the file
/// is not done and the chunk size is not zero, and never reaches past the
/// end of the file.
pub proof fn lemma_chunk_cursor_progress(file_size: u64, chunk_size: u64, offset: u64)
    requires
        offset < file_size,
        chunk_size > 0,
    ensures
        0 < min_u64((file_size - offset) as u64, chunk_size),
        offset + min_u64((file_size - offset) as u64, chunk_size) <= file_size,
{
}

} // verus!
