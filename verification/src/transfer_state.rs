//! Resumable transfer sessions: which files are done, failed or pending,
//! with an integrity checksum, validation and repair.
//!
//! Duplicates are found by searching the earlier entries of a list rather
//! than through a hash set of seen names: the outcome (which entries repeat,
//! and that the first of each is the one kept) is the same, and it can be
//! stated and proved over the lists themselves.
use vstd::prelude::*;
use vstd::string::*;
use vstd::utf8::encode_utf8;

use crate::outside::{
    current_timestamp, hex_encode, is_v4_text, new_uuid_v4, sha256, spec_hex_lower, spec_sha256,
    spec_uuid_valid, uuid_is_valid,
};
use crate::text::{dec, decimal};

verus! {

/// Current version of the transfer state file format.
pub const TRANSFER_STATE_VERSION: u32 = 1;

/// Returns the current state file version.
pub fn default_state_version() -> (v: u32)
    ensures
        v == TRANSFER_STATE_VERSION,
{
    TRANSFER_STATE_VERSION
}

/// Serializable state of a transfer session for resumption.
pub struct TransferState {
    /// Unique identifier for this transfer session (UUID v4).
    pub id: String,
    /// Transfer direction: `"upload"` or `"download"`.
    pub direction: String,
    /// Total number of files in the transfer.
    pub total_files: usize,
    /// Paths of files that completed successfully.
    pub completed_files: Vec<String>,
    /// Paths of files that failed to transfer.
    pub failed_files: Vec<String>,
    /// Files remaining to be transferred: `(source, destination)` pairs.
    pub pending_files: Vec<(String, String)>,
    /// Total bytes across all files.
    pub total_bytes: u64,
    /// Bytes successfully transferred so far.
    pub transferred_bytes: u64,
    /// Unix timestamp when the transfer was created.
    pub created_at: u64,
    /// Unix timestamp of the last update.
    pub updated_at: u64,
    /// State file format version for compatibility checking.
    pub version: u32,
    /// SHA-256 checksum for integrity validation.
    pub checksum: Option<String>,
    /// Every `(source, destination)` pair of the transfer as it was created:
    /// where a file that failed goes when it is queued again.
    pub file_destinations: Vec<(String, String)>,
}

/// The mathematical content of a [`TransferState`].
pub struct TransferStateView {
    pub id: Seq<char>,
    pub direction: Seq<char>,
    pub total_files: usize,
    pub completed: Seq<Seq<char>>,
    pub failed: Seq<Seq<char>>,
    pub pending: Seq<(Seq<char>, Seq<char>)>,
    pub total_bytes: u64,
    pub transferred_bytes: u64,
    pub created_at: u64,
    pub updated_at: u64,
    pub version: u32,
    pub checksum: Option<Seq<char>>,
    pub destinations: Seq<(Seq<char>, Seq<char>)>,
}

pub open spec fn strs_view(v: Seq<String>) -> Seq<Seq<char>> {
    v.map_values(|s: String| s@)
}

pub open spec fn pairs_view(v: Seq<(String, String)>) -> Seq<(Seq<char>, Seq<char>)> {
    v.map_values(|p: (String, String)| (p.0@, p.1@))
}

pub open spec fn opt_str_view(o: Option<String>) -> Option<Seq<char>> {
    match o {
        Some(s) => Some(s@),
        None => None,
    }
}

impl View for TransferState {
    type V = TransferStateView;

    open spec fn view(&self) -> TransferStateView {
        TransferStateView {
            id: self.id@,
            direction: self.direction@,
            total_files: self.total_files,
            completed: strs_view(self.completed_files@),
            failed: strs_view(self.failed_files@),
            pending: pairs_view(self.pending_files@),
            total_bytes: self.total_bytes,
            transferred_bytes: self.transferred_bytes,
            created_at: self.created_at,
            updated_at: self.updated_at,
            version: self.version,
            checksum: opt_str_view(self.checksum),
            destinations: pairs_view(self.file_destinations@),
        }
    }
}

/// `a` and `b` agree except, possibly, on the last-update time.
pub open spec fn same_but_updated(a: TransferStateView, b: TransferStateView) -> bool {
    TransferStateView { updated_at: b.updated_at, ..a } == b
}

/// `p` without the pairs whose source is `path`, order kept.
pub open spec fn remove_source(p: Seq<(Seq<char>, Seq<char>)>, path: Seq<char>) -> Seq<
    (Seq<char>, Seq<char>),
>
    decreases p.len(),
{
    if p.len() == 0 {
        p
    } else if p.last().0 == path {
        remove_source(p.drop_last(), path)
    } else {
        remove_source(p.drop_last(), path).push(p.last())
    }
}

/// `s` keeping only the first occurrence of each element, order kept.
pub open spec fn dedup(s: Seq<Seq<char>>) -> Seq<Seq<char>>
    decreases s.len(),
{
    if s.len() == 0 {
        s
    } else if s.drop_last().contains(s.last()) {
        dedup(s.drop_last())
    } else {
        dedup(s.drop_last()).push(s.last())
    }
}

/// Saturating addition on `u64`.
pub open spec fn sat_add(a: u64, b: u64) -> u64 {
    if a + b > u64::MAX {
        u64::MAX
    } else {
        (a + b) as u64
    }
}

pub open spec fn is_direction(d: Seq<char>) -> bool {
    d == "upload"@ || d == "download"@
}

// ----- checksum -----
/// Little-endian bytes of `x`, `n` of them.
pub open spec fn le_bytes(x: nat, n: nat) -> Seq<u8>
    decreases n,
{
    if n == 0 {
        Seq::empty()
    } else {
        seq![(x % 256) as u8] + le_bytes(x / 256, (n - 1) as nat)
    }
}

pub open spec fn utf8_concat(ss: Seq<Seq<char>>) -> Seq<u8>
    decreases ss.len(),
{
    if ss.len() == 0 {
        Seq::empty()
    } else {
        utf8_concat(ss.drop_last()) + encode_utf8(ss.last())
    }
}

pub open spec fn utf8_concat_pairs(ps: Seq<(Seq<char>, Seq<char>)>) -> Seq<u8>
    decreases ps.len(),
{
    if ps.len() == 0 {
        Seq::empty()
    } else {
        utf8_concat_pairs(ps.drop_last()) + encode_utf8(ps.last().0) + encode_utf8(ps.last().1)
    }
}

/// The bytes the checksum covers: id, direction, file count (native
/// `usize` width), the three file lists, and both byte counters.
pub open spec fn checksum_input(v: TransferStateView) -> Seq<u8> {
    encode_utf8(v.id) + encode_utf8(v.direction) + le_bytes(
        v.total_files as nat,
        (usize::BITS / 8) as nat,
    ) + utf8_concat(v.completed) + utf8_concat(v.failed) + utf8_concat_pairs(v.pending)
        + le_bytes(v.total_bytes as nat, 8) + le_bytes(v.transferred_bytes as nat, 8)
}

/// Lower-case hex SHA-256 of the checksummed bytes.
pub open spec fn spec_checksum(v: TransferStateView) -> Seq<char> {
    spec_hex_lower(spec_sha256(checksum_input(v)))
}

// ----- validation -----
pub open spec fn opt_msg(c: bool, m: Seq<char>) -> Seq<Seq<char>> {
    if c {
        seq![m]
    } else {
        Seq::empty()
    }
}

/// One message per element that occurs earlier in `s`.
pub open spec fn dup_issues(s: Seq<Seq<char>>, prefix: Seq<char>) -> Seq<Seq<char>>
    decreases s.len(),
{
    if s.len() == 0 {
        Seq::empty()
    } else {
        dup_issues(s.drop_last(), prefix) + opt_msg(
            s.drop_last().contains(s.last()),
            prefix + s.last(),
        )
    }
}

pub open spec fn accounted(v: TransferStateView) -> nat {
    v.completed.len() + v.failed.len() + v.pending.len()
}

pub open spec fn checksum_mismatch(v: TransferStateView) -> bool {
    v.checksum is Some && v.checksum->0 != spec_checksum(v)
}

pub open spec fn bytes_over(v: TransferStateView) -> bool {
    v.transferred_bytes > v.total_bytes && v.total_bytes > 0
}

/// The issues [`TransferState::validate`] reports, in order.
pub open spec fn spec_issues(v: TransferStateView) -> Seq<Seq<char>> {
    opt_msg(checksum_mismatch(v), "Checksum mismatch - state file may be corrupted"@) + opt_msg(
        accounted(v) != v.total_files,
        "File count mismatch: total="@ + dec(v.total_files as nat) + ", accounted="@ + dec(
            accounted(v),
        ),
    ) + dup_issues(v.completed, "Duplicate in completed_files: "@) + dup_issues(
        v.failed,
        "Duplicate in failed_files: "@,
    ) + opt_msg(
        bytes_over(v),
        "Transferred bytes ("@ + dec(v.transferred_bytes as nat) + ") exceeds total bytes ("@
            + dec(v.total_bytes as nat) + ")"@,
    ) + opt_msg(!is_direction(v.direction), "Invalid direction: "@ + v.direction) + opt_msg(
        !spec_uuid_valid(v.id),
        "Invalid state ID (not a valid UUID)"@,
    )
}

/// Result of validating a transfer state file.
pub struct StateValidation {
    /// Whether the state file passed all validation checks.
    pub is_valid: bool,
    /// List of issues found during validation.
    pub issues: Vec<String>,
    /// Whether automatic repair is possible.
    pub can_repair: bool,
}

impl StateValidation {
    /// Creates a new validation result indicating success.
    pub fn valid() -> (r: Self)
        ensures
            r.is_valid,
            r.issues@.len() == 0,
            r.can_repair,
    {
        StateValidation { is_valid: true, issues: Vec::new(), can_repair: true }
    }
}

// ----- repair -----
pub open spec fn removed_msg(n: nat, tail: Seq<char>) -> Seq<char> {
    "Removed "@ + dec(n) + tail
}

/// The messages [`TransferState::repair`] returns, given the state before
/// the repair and the id it ends with.
pub open spec fn spec_repairs(v: TransferStateView, new_id: Seq<char>) -> Seq<Seq<char>> {
    let c = dedup(v.completed);
    let f = dedup(v.failed);
    let actual = c.len() + f.len() + v.pending.len();
    opt_msg(
        c.len() != v.completed.len(),
        removed_msg((v.completed.len() - c.len()) as nat, " duplicate entries from completed_files"@),
    ) + opt_msg(
        f.len() != v.failed.len(),
        removed_msg((v.failed.len() - f.len()) as nat, " duplicate entries from failed_files"@),
    ) + opt_msg(
        actual != v.total_files,
        "Corrected total_files from "@ + dec(v.total_files as nat) + " to "@ + dec(actual),
    ) + opt_msg(
        bytes_over(v),
        "Capped transferred_bytes from "@ + dec(v.transferred_bytes as nat) + " to "@ + dec(
            v.total_bytes as nat,
        ),
    ) + opt_msg(
        !spec_uuid_valid(v.id),
        "Regenerated invalid state ID: "@ + v.id + " -> "@ + new_id,
    ) + seq!["Updated checksum"@]
}

/// The record after [`TransferState::repair`], given the state before, the
/// id it ends with and its last-update time.
pub open spec fn spec_repair_result(v: TransferStateView, new_id: Seq<char>, updated_at: u64) -> TransferStateView {
    let base = TransferStateView {
        id: new_id,
        completed: dedup(v.completed),
        failed: dedup(v.failed),
        total_files: (dedup(v.completed).len() + dedup(v.failed).len() + v.pending.len()) as usize,
        transferred_bytes: if bytes_over(v) {
            v.total_bytes
        } else {
            v.transferred_bytes
        },
        updated_at: updated_at,
        ..v
    };
    TransferStateView { checksum: Some(spec_checksum(base)), ..base }
}

/// The id a repair may end with: the old one when it is valid, else a
/// fresh version-4 UUID.
pub open spec fn repaired_id(old_id: Seq<char>, new_id: Seq<char>) -> bool {
    &&& spec_uuid_valid(old_id) ==> new_id == old_id
    &&& !spec_uuid_valid(old_id) ==> is_v4_text(new_id)
}

/// The completed list after marking `p` completed.
pub open spec fn completed_after(c: Seq<Seq<char>>, p: Seq<char>) -> Seq<Seq<char>> {
    if c.contains(p) {
        c
    } else {
        c.push(p)
    }
}

/// The first `(source, destination)` pair of `d` whose source is `f`.
pub open spec fn first_destination(d: Seq<(Seq<char>, Seq<char>)>, f: Seq<char>) -> Option<(Seq<char>, Seq<char>)>
    decreases d.len(),
{
    if d.len() == 0 {
        None
    } else if d[0].0 == f {
        Some(d[0])
    } else {
        first_destination(d.drop_first(), f)
    }
}

/// The pairs that failed files are queued again with: for each failed file
/// with a known destination, in order, its first pair.
pub open spec fn requeued(failed: Seq<Seq<char>>, d: Seq<(Seq<char>, Seq<char>)>) -> Seq<(Seq<char>, Seq<char>)>
    decreases failed.len(),
{
    if failed.len() == 0 {
        Seq::empty()
    } else {
        let prev = requeued(failed.drop_last(), d);
        match first_destination(d, failed.last()) {
            Some(p) => prev.push(p),
            None => prev,
        }
    }
}

/// The failed files whose destination is not known, in order: a retry
/// cannot queue them again, and they leave the failed list with the rest.
pub open spec fn unplaced(failed: Seq<Seq<char>>, d: Seq<(Seq<char>, Seq<char>)>) -> Seq<Seq<char>>
    decreases failed.len(),
{
    if failed.len() == 0 {
        Seq::empty()
    } else {
        let prev = unplaced(failed.drop_last(), d);
        match first_destination(d, failed.last()) {
            Some(_) => prev,
            None => prev.push(failed.last()),
        }
    }
}

/// The state after the failed files are queued again: each failed file
/// with a known destination becomes pending again, and the failed list is
/// cleared.
pub open spec fn retried(v: TransferStateView) -> TransferStateView {
    TransferStateView {
        pending: v.pending + requeued(v.failed, v.destinations),
        failed: Seq::empty(),
        ..v
    }
}

/// Number of pending pairs whose source is `path`.
pub open spec fn source_count(ps: Seq<(Seq<char>, Seq<char>)>, path: Seq<char>) -> nat
    decreases ps.len(),
{
    if ps.len() == 0 {
        0
    } else {
        source_count(ps.drop_last(), path) + if ps.last().0 == path {
            1nat
        } else {
            0nat
        }
    }
}

// ----- executable helpers -----
fn string_lit(s: &str) -> (r: String)
    ensures
        r@ == s@,
{
    String::from_str(s)
}

fn clone_strings(v: &Vec<String>) -> (r: Vec<String>)
    ensures
        r@ == v@,
{
    let mut r: Vec<String> = Vec::new();
    for i in 0..v.len()
        invariant
            r@ == v@.subrange(0, i as int),
    {
        r.push(v[i].clone());
    }
    assert(v@.subrange(0, v@.len() as int) == v@);
    r
}

pub(crate) fn clone_pairs(v: &Vec<(String, String)>) -> (r: Vec<(String, String)>)
    ensures
        r@ == v@,
{
    let mut r: Vec<(String, String)> = Vec::new();
    for i in 0..v.len()
        invariant
            r@ == v@.subrange(0, i as int),
    {
        let p = (v[i].0.clone(), v[i].1.clone());
        r.push(p);
    }
    assert(v@.subrange(0, v@.len() as int) == v@);
    r
}

fn contains_str_prefix(v: &Vec<String>, n: usize, s: &String) -> (b: bool)
    requires
        n <= v@.len(),
    ensures
        b == strs_view(v@).subrange(0, n as int).contains(s@),
{
    let ghost sv = strs_view(v@).subrange(0, n as int);
    for i in 0..n
        invariant
            n <= v@.len(),
            sv == strs_view(v@).subrange(0, n as int),
            forall|j: int| 0 <= j < i ==> sv[j] != s@,
    {
        if v[i] == *s {
            assert(sv[i as int] == s@);
            return true;
        }
    }
    false
}

fn contains_str(v: &Vec<String>, s: &String) -> (b: bool)
    ensures
        b == strs_view(v@).contains(s@),
{
    let b = contains_str_prefix(v, v.len(), s);
    assert(strs_view(v@).subrange(0, v@.len() as int) == strs_view(v@));
    b
}

fn remove_source_pairs(v: &Vec<(String, String)>, path: &String) -> (r: Vec<(String, String)>)
    ensures
        pairs_view(r@) == remove_source(pairs_view(v@), path@),
{
    let mut r: Vec<(String, String)> = Vec::new();
    for i in 0..v.len()
        invariant
            pairs_view(r@) == remove_source(pairs_view(v@).subrange(0, i as int), path@),
    {
        assert(pairs_view(v@).subrange(0, i + 1).drop_last() == pairs_view(v@).subrange(
            0,
            i as int,
        ));
        if v[i].0 != *path {
            let p = (v[i].0.clone(), v[i].1.clone());
            r.push(p);
            assert(pairs_view(r@) == pairs_view(r@).drop_last().push(pairs_view(r@).last()));
        }
    }
    assert(pairs_view(v@).subrange(0, v@.len() as int) == pairs_view(v@));
    r
}

fn find_destination(d: &Vec<(String, String)>, f: &String) -> (r: Option<usize>)
    ensures
        match r {
            Some(k) => k < d@.len() && first_destination(pairs_view(d@), f@) == Some(pairs_view(d@)[k as int]),
            None => first_destination(pairs_view(d@), f@) is None,
        },
{
    let ghost dv = pairs_view(d@);
    let mut i: usize = 0;
    assert(dv.skip(0) == dv);
    while i < d.len()
        invariant
            dv == pairs_view(d@),
            i <= d@.len(),
            first_destination(dv, f@) == first_destination(dv.skip(i as int), f@),
        decreases d@.len() - i,
    {
        assert(dv.skip(i as int)[0] == dv[i as int]);
        if d[i].0 == *f {
            return Some(i);
        }
        assert(dv.skip(i as int).drop_first() == dv.skip(i + 1));
        i = i + 1;
    }
    None
}

proof fn lemma_dedup_contains(s: Seq<Seq<char>>, x: Seq<char>)
    ensures
        dedup(s).contains(x) <==> s.contains(x),
    decreases s.len(),
{
    if s.len() > 0 {
        let sd = s.drop_last();
        lemma_dedup_contains(sd, x);
        assert(s == sd.push(s.last()));
        assert(s.contains(x) <==> (sd.contains(x) || x == s.last())) by {
            if s.contains(x) {
                let i = choose|i: int| 0 <= i < s.len() && s[i] == x;
                if i < s.len() - 1 {
                    assert(sd[i] == x);
                }
            }
            if sd.contains(x) {
                let i = choose|i: int| 0 <= i < sd.len() && sd[i] == x;
                assert(s[i] == x);
            }
            if x == s.last() {
                assert(s[s.len() - 1] == x);
            }
        }
        if !sd.contains(s.last()) {
            let d = dedup(sd);
            assert(d.push(s.last()).contains(x) <==> (d.contains(x) || x == s.last())) by {
                if d.push(s.last()).contains(x) {
                    let i = choose|i: int| 0 <= i < d.len() + 1 && d.push(s.last())[i] == x;
                    if i < d.len() {
                        assert(d[i] == x);
                    }
                }
                if d.contains(x) {
                    let i = choose|i: int| 0 <= i < d.len() && d[i] == x;
                    assert(d.push(s.last())[i] == x);
                }
                if x == s.last() {
                    assert(d.push(s.last())[d.len() as int] == x);
                }
            }
        }
    }
}

proof fn lemma_dedup_no_dup_issues(s: Seq<Seq<char>>, p: Seq<char>)
    ensures
        dup_issues(dedup(s), p).len() == 0,
        dedup(s).len() <= s.len(),
    decreases s.len(),
{
    if s.len() > 0 {
        lemma_dedup_no_dup_issues(s.drop_last(), p);
        if !s.drop_last().contains(s.last()) {
            let d = dedup(s.drop_last());
            lemma_dedup_contains(s.drop_last(), s.last());
            assert(d.push(s.last()).drop_last() == d);
        }
    }
}

fn dedup_strings(v: &Vec<String>) -> (r: Vec<String>)
    ensures
        strs_view(r@) == dedup(strs_view(v@)),
{
    let mut r: Vec<String> = Vec::new();
    for i in 0..v.len()
        invariant
            strs_view(r@) == dedup(strs_view(v@).subrange(0, i as int)),
    {
        let ghost pre = strs_view(v@).subrange(0, i as int);
        assert(strs_view(v@).subrange(0, i + 1).drop_last() == pre);
        assert(strs_view(v@).subrange(0, i + 1).last() == v@[i as int]@);
        let present = contains_str(&r, &v[i]);
        proof {
            lemma_dedup_contains(pre, v@[i as int]@);
        }
        if !present {
            r.push(v[i].clone());
            assert(strs_view(r@) == strs_view(r@).drop_last().push(strs_view(r@).last()));
        }
    }
    assert(strs_view(v@).subrange(0, v@.len() as int) == strs_view(v@));
    r
}

fn push_bytes(out: &mut Vec<u8>, b: &[u8])
    ensures
        final(out)@ == old(out)@ + b@,
{
    for i in 0..b.len()
        invariant
            out@ == old(out)@ + b@.subrange(0, i as int),
    {
        out.push(b[i]);
    }
    assert(b@.subrange(0, b@.len() as int) == b@);
}

fn push_str_bytes(out: &mut Vec<u8>, s: &String)
    ensures
        final(out)@ == old(out)@ + encode_utf8(s@),
{
    push_bytes(out, s.as_str().as_bytes());
}

fn push_le(out: &mut Vec<u8>, x: u64, n: u32)
    ensures
        final(out)@ == old(out)@ + le_bytes(x as nat, n as nat),
    decreases n,
{
    if n > 0 {
        out.push((x % 256) as u8);
        push_le(out, x / 256, n - 1);
        assert(old(out)@.push((x % 256) as u8) + le_bytes((x / 256) as nat, (n - 1) as nat)
            == old(out)@ + le_bytes(x as nat, n as nat));
    }
}

fn msg2(a: &str, x: u128, b: &str, y: u128, c: &str) -> (s: String)
    ensures
        s@ == a@ + dec(x as nat) + b@ + dec(y as nat) + c@,
{
    let mut s = String::from_str(a);
    s.append(decimal(x).as_str());
    s.append(b);
    s.append(decimal(y).as_str());
    s.append(c);
    s
}

fn msg1(a: &str, x: u128, b: &str) -> (s: String)
    ensures
        s@ == a@ + dec(x as nat) + b@,
{
    let mut s = String::from_str(a);
    s.append(decimal(x).as_str());
    s.append(b);
    s
}

fn msg_str(a: &str, x: &String) -> (s: String)
    ensures
        s@ == a@ + x@,
{
    let mut s = String::from_str(a);
    s.append(x.as_str());
    s
}

fn push_dup_issues(issues: &mut Vec<String>, v: &Vec<String>, prefix: &str)
    ensures
        strs_view(final(issues)@) == strs_view(old(issues)@) + dup_issues(strs_view(v@), prefix@),
{
    let ghost base = strs_view(issues@);
    for i in 0..v.len()
        invariant
            strs_view(issues@) == base + dup_issues(strs_view(v@).subrange(0, i as int), prefix@),
    {
        let ghost pre = strs_view(v@).subrange(0, i as int);
        assert(strs_view(v@).subrange(0, i + 1).drop_last() == pre);
        assert(strs_view(v@).subrange(0, i + 1).last() == v@[i as int]@);
        let seen = contains_str_prefix(v, i, &v[i]);
        let ghost before = strs_view(issues@);
        if seen {
            let m = msg_str(prefix, &v[i]);
            issues.push(m);
            assert(strs_view(issues@) == before.push(prefix@ + v@[i as int]@));
        }
        assert(dup_issues(strs_view(v@).subrange(0, i + 1), prefix@) == dup_issues(pre, prefix@)
            + opt_msg(pre.contains(v@[i as int]@), prefix@ + v@[i as int]@));
        assert(strs_view(issues@) == base + dup_issues(strs_view(v@).subrange(0, i + 1), prefix@));
    }
    assert(strs_view(v@).subrange(0, v@.len() as int) == strs_view(v@));
}

impl TransferState {
    /// Creates a new transfer state with the given `(source, destination)`
    /// files, all pending, and a fresh random id.
    pub fn new(direction: &str, files: Vec<(String, String)>, total_bytes: u64) -> (s: Self)
        ensures
            is_v4_text(s@.id),
            s@.direction == direction@,
            s@.total_files == files@.len(),
            s@.completed.len() == 0,
            s@.failed.len() == 0,
            s@.pending == pairs_view(files@),
            s@.total_bytes == total_bytes,
            s@.transferred_bytes == 0,
            s@.created_at == s@.updated_at,
            s@.version == TRANSFER_STATE_VERSION,
            s@.checksum is None,
            s@.destinations == pairs_view(files@),
    {
        let now = current_timestamp();
        TransferState {
            id: new_uuid_v4(),
            direction: String::from_str(direction),
            total_files: files.len(),
            completed_files: Vec::new(),
            failed_files: Vec::new(),
            file_destinations: clone_pairs(&files),
            pending_files: files,
            total_bytes,
            transferred_bytes: 0,
            created_at: now,
            updated_at: now,
            version: TRANSFER_STATE_VERSION,
            checksum: None,
        }
    }

    /// A field-by-field copy.
    pub fn duplicate(&self) -> (r: Self)
        ensures
            r@ == self@,
    {
        TransferState {
            id: self.id.clone(),
            direction: self.direction.clone(),
            total_files: self.total_files,
            completed_files: clone_strings(&self.completed_files),
            failed_files: clone_strings(&self.failed_files),
            pending_files: clone_pairs(&self.pending_files),
            total_bytes: self.total_bytes,
            transferred_bytes: self.transferred_bytes,
            created_at: self.created_at,
            updated_at: self.updated_at,
            version: self.version,
            checksum: match &self.checksum {
                Some(c) => Some(c.clone()),
                None => None,
            },
            file_destinations: clone_pairs(&self.file_destinations),
        }
    }

    /// Updates the `updated_at` timestamp to the current time.
    fn touch(&mut self)
        ensures
            same_but_updated(old(self)@, final(self)@),
    {
        self.updated_at = current_timestamp();
    }

    /// Marks a file as successfully completed: it leaves the pending list
    /// and, the first time only, joins the completed list and adds `bytes`
    /// (saturating) to the transferred count.
    pub fn mark_completed(&mut self, file_path: &str, bytes: u64)
        ensures
            final(self)@.pending == remove_source(old(self)@.pending, file_path@),
            final(self)@.completed == completed_after(old(self)@.completed, file_path@),
            final(self)@.transferred_bytes == if old(self)@.completed.contains(file_path@) {
                old(self)@.transferred_bytes
            } else {
                sat_add(old(self)@.transferred_bytes, bytes)
            },
            same_but_updated(
                TransferStateView {
                    pending: final(self)@.pending,
                    completed: final(self)@.completed,
                    transferred_bytes: final(self)@.transferred_bytes,
                    ..old(self)@
                },
                final(self)@,
            ),
    {
        let path = String::from_str(file_path);
        self.pending_files = remove_source_pairs(&self.pending_files, &path);
        if !contains_str(&self.completed_files, &path) {
            self.completed_files.push(path);
            self.transferred_bytes = self.transferred_bytes.saturating_add(bytes);
            assert(strs_view(self.completed_files@) == strs_view(old(self).completed_files@).push(
                file_path@,
            ));
        }
        self.touch();
    }

    /// Marks a file as failed: it leaves the pending list and, the first
    /// time only, joins the failed list.
    pub fn mark_failed(&mut self, file_path: &str)
        ensures
            final(self)@.pending == remove_source(old(self)@.pending, file_path@),
            final(self)@.failed == completed_after(old(self)@.failed, file_path@),
            same_but_updated(
                TransferStateView {
                    pending: final(self)@.pending,
                    failed: final(self)@.failed,
                    ..old(self)@
                },
                final(self)@,
            ),
    {
        let path = String::from_str(file_path);
        self.pending_files = remove_source_pairs(&self.pending_files, &path);
        if !contains_str(&self.failed_files, &path) {
            self.failed_files.push(path);
            assert(strs_view(self.failed_files@) == strs_view(old(self).failed_files@).push(
                file_path@,
            ));
        }
        self.touch();
    }

    /// Returns `true` if all files have been processed (completed or failed).
    pub fn is_complete(&self) -> (b: bool)
        ensures
            b == (self@.pending.len() == 0),
    {
        self.pending_files.len() == 0
    }

    /// Returns the number of files still pending transfer.
    pub fn pending_count(&self) -> (n: usize)
        ensures
            n == self@.pending.len(),
    {
        self.pending_files.len()
    }

    /// Moves the failed files back to the pending list, each with the first
    /// destination it was given when the transfer was created, and clears
    /// the failed list (a failed file whose destination is not known, such
    /// as one of a state saved without destinations, is only cleared).
    pub fn retry_failed(&mut self)
        ensures
            same_but_updated(retried(old(self)@), final(self)@),
    {
        let ghost v = self@;
        let ghost d = self@.destinations;
        let mut pending = clone_pairs(&self.pending_files);
        for i in 0..self.failed_files.len()
            invariant
                v == old(self)@,
                self@ == v,
                d == v.destinations,
                pairs_view(pending@) == v.pending + requeued(v.failed.subrange(0, i as int), d),
        {
            let ghost pre = v.failed.subrange(0, i as int);
            assert(v.failed.subrange(0, i + 1).drop_last() == pre);
            assert(v.failed.subrange(0, i + 1).last() == self.failed_files@[i as int]@);
            let ghost p0 = pairs_view(pending@);
            match find_destination(&self.file_destinations, &self.failed_files[i]) {
                Some(k) => {
                    let pair = (self.file_destinations[k].0.clone(), self.file_destinations[k].1.clone());
                    pending.push(pair);
                    assert(pairs_view(pending@) == p0.push(d[k as int]));
                },
                None => {},
            }
        }
        assert(v.failed.subrange(0, v.failed.len() as int) == v.failed);
        self.pending_files = pending;
        self.failed_files = Vec::new();
        assert(strs_view(self.failed_files@) == Seq::<Seq<char>>::empty());
        self.touch();
    }

    /// Checksum of the state data (all but the timestamps, version and the
    /// checksum field itself): lower-case hex of the SHA-256 digest.
    pub fn compute_checksum(&self) -> (c: String)
        ensures
            c@ == spec_checksum(self@),
    {
        let mut data: Vec<u8> = Vec::new();
        push_str_bytes(&mut data, &self.id);
        push_str_bytes(&mut data, &self.direction);
        push_le(&mut data, self.total_files as u64, usize::BITS / 8);
        let ghost s1 = data@;
        for i in 0..self.completed_files.len()
            invariant
                data@ == s1 + utf8_concat(strs_view(self.completed_files@).subrange(0, i as int)),
        {
            push_str_bytes(&mut data, &self.completed_files[i]);
            assert(strs_view(self.completed_files@).subrange(0, i + 1).drop_last() == strs_view(
                self.completed_files@,
            ).subrange(0, i as int));
        }
        assert(strs_view(self.completed_files@).subrange(0, self.completed_files@.len() as int)
            == strs_view(self.completed_files@));
        let ghost s2 = data@;
        for i in 0..self.failed_files.len()
            invariant
                data@ == s2 + utf8_concat(strs_view(self.failed_files@).subrange(0, i as int)),
        {
            push_str_bytes(&mut data, &self.failed_files[i]);
            assert(strs_view(self.failed_files@).subrange(0, i + 1).drop_last() == strs_view(
                self.failed_files@,
            ).subrange(0, i as int));
        }
        assert(strs_view(self.failed_files@).subrange(0, self.failed_files@.len() as int)
            == strs_view(self.failed_files@));
        let ghost s3 = data@;
        for i in 0..self.pending_files.len()
            invariant
                data@ == s3 + utf8_concat_pairs(
                    pairs_view(self.pending_files@).subrange(0, i as int),
                ),
        {
            push_str_bytes(&mut data, &self.pending_files[i].0);
            push_str_bytes(&mut data, &self.pending_files[i].1);
            assert(pairs_view(self.pending_files@).subrange(0, i + 1).drop_last() == pairs_view(
                self.pending_files@,
            ).subrange(0, i as int));
        }
        assert(pairs_view(self.pending_files@).subrange(0, self.pending_files@.len() as int)
            == pairs_view(self.pending_files@));
        push_le(&mut data, self.total_bytes, 8);
        push_le(&mut data, self.transferred_bytes, 8);
        assert(data@ == checksum_input(self@));
        let digest = sha256(data.as_slice());
        hex_encode(digest.as_slice())
    }

    /// Repairs a corrupted state: removes duplicate completed and failed
    /// entries (first occurrences stay), recounts the files, caps the
    /// transferred bytes at the total, replaces an invalid id with a fresh
    /// UUID, refreshes the checksum and the update time. Returns what it did.
    pub fn repair(&mut self) -> (repairs: Vec<String>)
        requires
            old(self)@.completed.len() + old(self)@.failed.len() + old(self)@.pending.len()
                <= usize::MAX,
        ensures
            repaired_id(old(self)@.id, final(self)@.id),
            final(self)@ == spec_repair_result(old(self)@, final(self)@.id, final(self)@.updated_at),
            strs_view(repairs@) == spec_repairs(old(self)@, final(self)@.id),
    {
        let ghost v = self@;
        let mut repairs: Vec<String> = Vec::new();
        proof {
            reveal_strlit("");
        }

        let completed_before = self.completed_files.len();
        self.completed_files = dedup_strings(&self.completed_files);
        proof {
            lemma_dedup_no_dup_issues(v.completed, Seq::empty());
            lemma_dedup_no_dup_issues(v.failed, Seq::empty());
        }
        if self.completed_files.len() != completed_before {
            repairs.push(
                msg1("Removed ", (completed_before - self.completed_files.len()) as u128, " duplicate entries from completed_files"),
            );
        }
        let ghost c = dedup(v.completed);
        let ghost f = dedup(v.failed);
        assert(strs_view(repairs@) == opt_msg(
            c.len() != v.completed.len(),
            removed_msg((v.completed.len() - c.len()) as nat, " duplicate entries from completed_files"@),
        ));
        let ghost r1 = strs_view(repairs@);
        let failed_before = self.failed_files.len();
        self.failed_files = dedup_strings(&self.failed_files);
        if self.failed_files.len() != failed_before {
            repairs.push(
                msg1("Removed ", (failed_before - self.failed_files.len()) as u128, " duplicate entries from failed_files"),
            );
        }
        assert(strs_view(repairs@) == r1 + opt_msg(
            f.len() != v.failed.len(),
            removed_msg((v.failed.len() - f.len()) as nat, " duplicate entries from failed_files"@),
        ));
        let ghost r2 = strs_view(repairs@);
        let actual_total = self.completed_files.len() + self.failed_files.len()
            + self.pending_files.len();
        if actual_total != self.total_files {
            repairs.push(
                msg2("Corrected total_files from ", self.total_files as u128, " to ", actual_total as u128, ""),
            );
            self.total_files = actual_total;
        }
        assert(strs_view(repairs@) == r2 + opt_msg(
            (c.len() + f.len() + v.pending.len()) != v.total_files,
            "Corrected total_files from "@ + dec(v.total_files as nat) + " to "@ + dec(
                c.len() + f.len() + v.pending.len(),
            ),
        ));
        let ghost r3 = strs_view(repairs@);
        if self.transferred_bytes > self.total_bytes && self.total_bytes > 0 {
            repairs.push(
                msg2("Capped transferred_bytes from ", self.transferred_bytes as u128, " to ", self.total_bytes as u128, ""),
            );
            self.transferred_bytes = self.total_bytes;
        }
        assert(strs_view(repairs@) == r3 + opt_msg(
            bytes_over(v),
            "Capped transferred_bytes from "@ + dec(v.transferred_bytes as nat) + " to "@ + dec(
                v.total_bytes as nat,
            ),
        ));
        let ghost r4 = strs_view(repairs@);
        if !uuid_is_valid(self.id.as_str()) {
            let new_id = new_uuid_v4();
            let mut m = String::from_str("Regenerated invalid state ID: ");
            m.append(self.id.as_str());
            m.append(" -> ");
            m.append(new_id.as_str());
            repairs.push(m);
            self.id = new_id;
        }
        assert(strs_view(repairs@) == r4 + opt_msg(
            !spec_uuid_valid(v.id),
            "Regenerated invalid state ID: "@ + v.id + " -> "@ + self@.id,
        ));
        self.checksum = Some(self.compute_checksum());
        repairs.push(string_lit("Updated checksum"));
        self.touch();
        repairs
    }

    /// A copy of the state carrying its checksum, as it is written to disk.
    pub fn with_checksum(&self) -> (r: Self)
        ensures
            r@ == (TransferStateView { checksum: Some(spec_checksum(self@)), ..self@ }),
    {
        let mut r = self.duplicate();
        r.checksum = Some(self.compute_checksum());
        r
    }

    /// Validates the state's integrity: checksum, file accounting,
    /// duplicate entries, byte counters, direction and id. Repair is
    /// possible unless the direction is invalid.
    pub fn validate(&self) -> (r: StateValidation)
        ensures
            strs_view(r.issues@) == spec_issues(self@),
            r.is_valid == (spec_issues(self@).len() == 0),
            r.can_repair == is_direction(self@.direction),
    {
        let mut issues: Vec<String> = Vec::new();
        let mut can_repair = true;

        if let Some(stored) = &self.checksum {
            let computed = self.compute_checksum();
            if computed != *stored {
                issues.push(string_lit("Checksum mismatch - state file may be corrupted"));
            }
        }
        assert(strs_view(issues@) == opt_msg(
            checksum_mismatch(self@),
            "Checksum mismatch - state file may be corrupted"@,
        ));
        let ghost i1 = strs_view(issues@);

        proof {
            reveal_strlit("");
        }
        let total_accounted = self.completed_files.len() as u128 + self.failed_files.len() as u128
            + self.pending_files.len() as u128;
        if total_accounted != self.total_files as u128 {
            issues.push(
                msg2("File count mismatch: total=", self.total_files as u128, ", accounted=", total_accounted, ""),
            );
        }
        assert(strs_view(issues@) == i1 + opt_msg(
            accounted(self@) != self@.total_files,
            "File count mismatch: total="@ + dec(self@.total_files as nat) + ", accounted="@ + dec(
                accounted(self@),
            ),
        ));

        push_dup_issues(&mut issues, &self.completed_files, "Duplicate in completed_files: ");
        push_dup_issues(&mut issues, &self.failed_files, "Duplicate in failed_files: ");
        let ghost i2 = strs_view(issues@);

        if self.transferred_bytes > self.total_bytes && self.total_bytes > 0 {
            issues.push(
                msg2("Transferred bytes (", self.transferred_bytes as u128, ") exceeds total bytes (", self.total_bytes as u128, ")"),
            );
        }
        assert(strs_view(issues@) == i2 + opt_msg(
            bytes_over(self@),
            "Transferred bytes ("@ + dec(self@.transferred_bytes as nat) + ") exceeds total bytes ("@
                + dec(self@.total_bytes as nat) + ")"@,
        ));
        let ghost i3 = strs_view(issues@);

        if self.direction != string_lit("upload") && self.direction != string_lit("download") {
            issues.push(msg_str("Invalid direction: ", &self.direction));
            can_repair = false;
        }
        assert(strs_view(issues@) == i3 + opt_msg(
            !is_direction(self@.direction),
            "Invalid direction: "@ + self@.direction,
        ));
        let ghost i4 = strs_view(issues@);

        if !uuid_is_valid(self.id.as_str()) {
            issues.push(string_lit("Invalid state ID (not a valid UUID)"));
        }
        assert(strs_view(issues@) == i4 + opt_msg(
            !spec_uuid_valid(self@.id),
            "Invalid state ID (not a valid UUID)"@,
        ));
        let is_valid = issues.len() == 0;
        StateValidation { is_valid, issues, can_repair }
    }
}

// ----- laws -----
proof fn lemma_checksum_ignores(v: TransferStateView, w: TransferStateView)
    requires
        v.id == w.id,
        v.direction == w.direction,
        v.total_files == w.total_files,
        v.completed == w.completed,
        v.failed == w.failed,
        v.pending == w.pending,
        v.total_bytes == w.total_bytes,
        v.transferred_bytes == w.transferred_bytes,
    ensures
        spec_checksum(v) == spec_checksum(w),
{
    assert(checksum_input(v) == checksum_input(w));
}

proof fn lemma_v4_is_valid(s: Seq<char>)
    requires
        is_v4_text(s),
    ensures
        spec_uuid_valid(s),
{
}

/// Repair leaves at most one issue: an invalid direction, which it cannot fix.
/// Validating a repaired state reports exactly that issue when the direction

/// The characters of the pending pairs, source then destination, in order.
pub open spec fn pending_text(ps: Seq<(Seq<char>, Seq<char>)>) -> Seq<char>
    decreases ps.len(),
{
    if ps.len() == 0 {
        Seq::empty()
    } else {
        pending_text(ps.drop_last()) + ps.last().0 + ps.last().1
    }
}

proof fn lemma_encode_utf8_concat(a: Seq<char>, b: Seq<char>)
    ensures
        encode_utf8(a + b) == encode_utf8(a) + encode_utf8(b),
    decreases a.len(),
{
    if a.len() == 0 {
        assert(a + b =~= b);
        assert(encode_utf8(a) + encode_utf8(b) =~= encode_utf8(b));
    } else {
        assert((a + b)[0] == a[0]);
        assert((a + b).drop_first() =~= a.drop_first() + b);
        lemma_encode_utf8_concat(a.drop_first(), b);
        let e = vstd::utf8::encode_scalar(a[0] as u32);
        assert(e + (encode_utf8(a.drop_first()) + encode_utf8(b)) =~= (e + encode_utf8(a.drop_first()))
            + encode_utf8(b));
    }
}

proof fn lemma_pending_bytes(ps: Seq<(Seq<char>, Seq<char>)>)
    ensures
        utf8_concat_pairs(ps) == encode_utf8(pending_text(ps)),
    decreases ps.len(),
{
    if ps.len() > 0 {
        let p = ps.drop_last();
        lemma_pending_bytes(p);
        lemma_encode_utf8_concat(pending_text(p), ps.last().0);
        lemma_encode_utf8_concat(pending_text(p) + ps.last().0, ps.last().1);
    }
}

/// The checksum covers the pending transfers: two states that differ only
/// in their pending `(source, destination)` pairs, and whose pairs spell
/// different texts, have different checksummed bytes, so altering a
/// pending source or destination (as from `("a.txt", "/r")` to
/// `("a.txt", "/other")`) changes what the checksum is taken of.
pub proof fn lemma_checksum_covers_pending(v1: TransferStateView, v2: TransferStateView)
    requires
        v2 == (TransferStateView { pending: v2.pending, ..v1 }),
        pending_text(v1.pending) != pending_text(v2.pending),
    ensures
        checksum_input(v1) != checksum_input(v2),
{
    let a = encode_utf8(v1.id) + encode_utf8(v1.direction) + le_bytes(
        v1.total_files as nat,
        (usize::BITS / 8) as nat,
    ) + utf8_concat(v1.completed) + utf8_concat(v1.failed);
    let b = le_bytes(v1.total_bytes as nat, 8) + le_bytes(v1.transferred_bytes as nat, 8);
    let x1 = utf8_concat_pairs(v1.pending);
    let x2 = utf8_concat_pairs(v2.pending);
    assert(checksum_input(v1) =~= a + x1 + b);
    assert(checksum_input(v2) =~= a + x2 + b);
    lemma_pending_bytes(v1.pending);
    lemma_pending_bytes(v2.pending);
    if checksum_input(v1) == checksum_input(v2) {
        let c = checksum_input(v1);
        assert(x1.len() == x2.len());
        assert(c.subrange(a.len() as int, (a.len() + x1.len()) as int) =~= x1);
        assert(checksum_input(v2).subrange(a.len() as int, (a.len() + x2.len()) as int) =~= x2);
        assert(x1 == x2);
        vstd::utf8::encode_utf8_decode_utf8(pending_text(v1.pending));
        vstd::utf8::encode_utf8_decode_utf8(pending_text(v2.pending));
    }
}

/// is neither `"upload"` nor `"download"`, and nothing otherwise.
pub proof fn lemma_repair_then_validate(v: TransferStateView, new_id: Seq<char>, updated_at: u64)
    requires
        repaired_id(v.id, new_id),
        v.completed.len() + v.failed.len() + v.pending.len() <= usize::MAX,
    ensures
        spec_issues(spec_repair_result(v, new_id, updated_at)) == opt_msg(
            !is_direction(v.direction),
            "Invalid direction: "@ + v.direction,
        ),
{
    let r = spec_repair_result(v, new_id, updated_at);
    let base = TransferStateView { checksum: None, ..r };
    lemma_checksum_ignores(r, base);
    lemma_dedup_no_dup_issues(v.completed, "Duplicate in completed_files: "@);
    lemma_dedup_no_dup_issues(v.failed, "Duplicate in failed_files: "@);
    if !spec_uuid_valid(v.id) {
        lemma_v4_is_valid(new_id);
    }
    assert(!checksum_mismatch(r));
    assert(accounted(r) == r.total_files);
    assert(!bytes_over(r));
    assert(spec_uuid_valid(r.id));
    assert(spec_issues(r) == opt_msg(!is_direction(v.direction), "Invalid direction: "@ + v.direction));
}

/// A state saved with its checksum validates exactly as the same state
/// without one: the stored checksum always matches.
pub proof fn lemma_checksum_roundtrip(v: TransferStateView)
    ensures
        spec_issues(TransferStateView { checksum: Some(spec_checksum(v)), ..v }) == spec_issues(
            TransferStateView { checksum: None, ..v },
        ),
{
    lemma_checksum_ignores(TransferStateView { checksum: Some(spec_checksum(v)), ..v }, v);
}

/// A freshly created state (nothing done, all files pending, a version-4 id)
/// with a valid direction passes validation.
pub proof fn lemma_fresh_state_valid(v: TransferStateView)
    requires
        v.completed.len() == 0,
        v.failed.len() == 0,
        v.total_files == v.pending.len(),
        v.transferred_bytes == 0,
        v.checksum is None,
        is_direction(v.direction),
        is_v4_text(v.id),
    ensures
        spec_issues(v).len() == 0,
{
    lemma_v4_is_valid(v.id);
}

proof fn lemma_remove_source_len(ps: Seq<(Seq<char>, Seq<char>)>, p: Seq<char>)
    ensures
        remove_source(ps, p).len() + source_count(ps, p) == ps.len(),
        forall|i: int| 0 <= i < remove_source(ps, p).len() ==> (#[trigger] remove_source(ps, p)[i]).0 != p,
        remove_source(remove_source(ps, p), p) == remove_source(ps, p),
    decreases ps.len(),
{
    if ps.len() > 0 {
        lemma_remove_source_len(ps.drop_last(), p);
        let r = remove_source(ps.drop_last(), p);
        if ps.last().0 != p {
            assert(r.push(ps.last()).drop_last() == r);
            assert(remove_source(r.push(ps.last()), p) == remove_source(r, p).push(ps.last()));
        }
    }
}

/// Marking a file completed (or failed) twice has the effect of marking it
/// once: the file is listed once, its bytes count once, and it is no longer
/// pending.
pub proof fn lemma_mark_idempotent(c: Seq<Seq<char>>, ps: Seq<(Seq<char>, Seq<char>)>, p: Seq<char>)
    ensures
        completed_after(completed_after(c, p), p) == completed_after(c, p),
        completed_after(c, p).contains(p),
        remove_source(remove_source(ps, p), p) == remove_source(ps, p),
        forall|i: int| 0 <= i < remove_source(ps, p).len() ==> (#[trigger] remove_source(ps, p)[i]).0 != p,
{
    lemma_remove_source_len(ps, p);
    if !c.contains(p) {
        assert(c.push(p)[c.len() as int] == p);
    }
}

/// Marking a file that is pending once, and neither completed nor failed,
/// keeps the accounting `completed + failed + pending == total_files`.
pub proof fn lemma_mark_keeps_accounting(v: TransferStateView, p: Seq<char>)
    requires
        source_count(v.pending, p) == 1,
        !v.completed.contains(p),
        !v.failed.contains(p),
        accounted(v) == v.total_files,
    ensures
        completed_after(v.completed, p).len() + v.failed.len() + remove_source(v.pending, p).len()
            == v.total_files,
        v.completed.len() + completed_after(v.failed, p).len() + remove_source(v.pending, p).len()
            == v.total_files,
{
    lemma_remove_source_len(v.pending, p);
}

proof fn lemma_first_destination(d: Seq<(Seq<char>, Seq<char>)>, f: Seq<char>)
    ensures
        first_destination(d, f) matches Some(p) ==> p.0 == f && d.contains(p),
        (exists|k: int| 0 <= k < d.len() && #[trigger] d[k].0 == f) ==> first_destination(d, f) is Some,
    decreases d.len(),
{
    if d.len() > 0 {
        lemma_first_destination(d.drop_first(), f);
        if d[0].0 != f {
            if exists|k: int| 0 <= k < d.len() && #[trigger] d[k].0 == f {
                let k = choose|k: int| 0 <= k < d.len() && #[trigger] d[k].0 == f;
                assert(d.drop_first()[k - 1].0 == f);
            }
            if first_destination(d, f) is Some {
                let p = first_destination(d, f)->0;
                let j = choose|j: int| 0 <= j < d.drop_first().len() && d.drop_first()[j] == p;
                assert(d[j + 1] == p);
            }
        } else {
            assert(d[0] == d[0]);
        }
    }
}

proof fn lemma_requeued(failed: Seq<Seq<char>>, d: Seq<(Seq<char>, Seq<char>)>)
    ensures
        requeued(failed, d).len() + unplaced(failed, d).len() == failed.len(),
        forall|i: int| #![trigger failed[i]] 0 <= i < failed.len() && first_destination(d, failed[i]) is Some
            ==> exists|k: int| 0 <= k < requeued(failed, d).len() && #[trigger] requeued(failed, d)[k].0 == failed[i],
        (forall|i: int| 0 <= i < failed.len() ==> first_destination(d, #[trigger] failed[i]) is Some)
            ==> unplaced(failed, d).len() == 0,
    decreases failed.len(),
{
    if failed.len() > 0 {
        let fd = failed.drop_last();
        lemma_requeued(fd, d);
        lemma_first_destination(d, failed.last());
        let r = requeued(failed, d);
        let r0 = requeued(fd, d);
        assert forall|i: int| 0 <= i < failed.len() && first_destination(d, #[trigger] failed[i]) is Some
            implies exists|k: int| 0 <= k < r.len() && #[trigger] r[k].0 == failed[i] by {
            if i < failed.len() - 1 {
                assert(fd[i] == failed[i]);
                let k = choose|k: int| 0 <= k < r0.len() && #[trigger] r0[k].0 == fd[i];
                assert(r[k] == r0[k]);
            } else {
                assert(r[r.len() - 1].0 == failed[i]);
            }
        }
        if forall|i: int| 0 <= i < failed.len() ==> first_destination(d, #[trigger] failed[i]) is Some {
            assert forall|i: int| 0 <= i < fd.len() implies first_destination(d, #[trigger] fd[i]) is Some by {
                assert(fd[i] == failed[i]);
            }
            assert(first_destination(d, failed[failed.len() - 1]) is Some);
        }
    }
}

/// Retrying moves the failed files back to pending: every failed file that
/// the transfer was created with is queued again with a destination it was
/// given, none stays failed, completed files are untouched, and the files
/// are still all accounted for.
pub proof fn lemma_retry_requeues(v: TransferStateView)
    requires
        forall|i: int| #![trigger v.failed[i]] 0 <= i < v.failed.len() ==> exists|k: int|
            0 <= k < v.destinations.len() && #[trigger] v.destinations[k].0 == v.failed[i],
    ensures
        retried(v).failed.len() == 0,
        forall|i: int| #![trigger v.failed[i]] 0 <= i < v.failed.len() ==> exists|k: int|
            0 <= k < retried(v).pending.len() && #[trigger] retried(v).pending[k].0 == v.failed[i]
            && v.destinations.contains(retried(v).pending[k]),
        retried(v).completed == v.completed,
        accounted(retried(v)) == accounted(v),
{
    let d = v.destinations;
    let f = v.failed;
    assert forall|i: int| 0 <= i < f.len() implies first_destination(d, #[trigger] f[i]) is Some by {
        lemma_first_destination(d, f[i]);
    }
    lemma_requeued(f, d);
    lemma_requeued_from(f, d);
    let r = requeued(f, d);
    assert forall|i: int| #![trigger f[i]] 0 <= i < f.len() implies exists|k: int|
        0 <= k < retried(v).pending.len() && #[trigger] retried(v).pending[k].0 == f[i]
        && d.contains(retried(v).pending[k]) by {
        let k = choose|k: int| 0 <= k < r.len() && #[trigger] r[k].0 == f[i];
        let n = v.pending.len() as int;
        assert(retried(v).pending[n + k] == r[k]);
    }
}

proof fn lemma_requeued_from(failed: Seq<Seq<char>>, d: Seq<(Seq<char>, Seq<char>)>)
    ensures
        forall|k: int| 0 <= k < requeued(failed, d).len() ==> d.contains(#[trigger] requeued(failed, d)[k]),
    decreases failed.len(),
{
    if failed.len() > 0 {
        lemma_requeued_from(failed.drop_last(), d);
        lemma_first_destination(d, failed.last());
        let r = requeued(failed, d);
        let r0 = requeued(failed.drop_last(), d);
        assert forall|k: int| 0 <= k < r.len() implies d.contains(#[trigger] r[k]) by {
            if k < r0.len() {
                assert(r[k] == r0[k]);
            }
        }
    }
}

} // verus!
