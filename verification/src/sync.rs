//! Folder synchronisation decisions: which local files go up, which remote
//! files come down, and how the outcome of the transfers is summarised.
//!
//! The listings are looked up by file name in the vectors themselves rather
//! than through a name-keyed hash map: a map walked in its own order would
//! leave the order of the resulting lists unspecified, and with `String`
//! keys vstd's map specifications prove little of lookups. A remote name
//! listed twice is resolved as a map built by inserting the listing in
//! order would resolve it: the later entry wins.
use vstd::prelude::*;

use crate::client::PCloudClient;
use crate::error::PCloudError;
use crate::outside::{
    hasher_finalize, hasher_input, hasher_new, hasher_update, hex_encode, sha256, spec_hex_lower,
    spec_sha256, Sha256Hasher,
};
use crate::text::{join_remote, spec_join_remote};
use crate::transfer_state::pairs_view;
use crate::types::{items_view, strings_view, FileItem, FileItemView, SyncDirection, SyncResult};

verus! {

/// A file found directly inside the local folder being synchronised.
pub struct LocalFile {
    /// Its file name.
    pub name: String,
    /// Its full local path.
    pub path: String,
    /// Its size in bytes.
    pub size: u64,
}

pub struct LocalFileView {
    pub name: Seq<char>,
    pub path: Seq<char>,
    pub size: u64,
}

impl View for LocalFile {
    type V = LocalFileView;

    open spec fn view(&self) -> LocalFileView {
        LocalFileView { name: self.name@, path: self.path@, size: self.size }
    }
}

pub open spec fn locals_view(v: Seq<LocalFile>) -> Seq<LocalFileView> {
    v.map_values(|f: LocalFile| f@)
}

pub open spec fn opt_pair_view(h: (Option<String>, Option<String>)) -> (Option<Seq<char>>, Option<Seq<char>>) {
    (
        match h.0 { Some(s) => Some(s@), None => None },
        match h.1 { Some(s) => Some(s@), None => None },
    )
}

pub open spec fn hashes_view(v: Seq<(Option<String>, Option<String>)>) -> Seq<(Option<Seq<char>>, Option<Seq<char>>)> {
    v.map_values(|h: (Option<String>, Option<String>)| opt_pair_view(h))
}

/// The remote file named `name`: the last item of the listing that is a
/// file with that name (a later entry replaces an earlier one).
pub open spec fn remote_file(remote: Seq<FileItemView>, name: Seq<char>) -> Option<FileItemView>
    decreases remote.len(),
{
    if remote.len() == 0 {
        None
    } else if !remote.last().isfolder && remote.last().name == name {
        Some(remote.last())
    } else {
        remote_file(remote.drop_last(), name)
    }
}

/// Whether a later local entry has the same name as entry `i` (and so
/// replaces it).
pub open spec fn later_local(local: Seq<LocalFileView>, i: int) -> bool {
    exists|j: int| #![trigger local[j]] i < j < local.len() && local[j].name == local[i].name
}

/// Whether some local entry is named `name`.
pub open spec fn local_named(local: Seq<LocalFileView>, name: Seq<char>) -> bool {
    exists|j: int| #![trigger local[j]] 0 <= j < local.len() && local[j].name == name
}

/// Whether a later remote file has the same name as item `i`.
pub open spec fn later_remote(remote: Seq<FileItemView>, i: int) -> bool {
    exists|j: int| #![trigger remote[j]] i < j < remote.len() && !remote[j].isfolder && remote[j].name == remote[i].name
}

/// Whether local entry `i` is to be uploaded: it is the entry that counts
/// for its name, and the remote side has no file of that name, or one of
/// another size, or (comparing checksums) one whose checksum differs.
pub open spec fn upload_at(
    local: Seq<LocalFileView>,
    remote: Seq<FileItemView>,
    use_checksum: bool,
    hashes: Seq<(Option<Seq<char>>, Option<Seq<char>>)>,
    i: int,
) -> bool {
    !later_local(local, i) && match remote_file(remote, local[i].name) {
        None => true,
        Some(r) => if use_checksum {
            hashes[i].0 != hashes[i].1
        } else {
            local[i].size != r.size
        },
    }
}

/// The uploads, `(local path, remote folder)`, for the first `k` local entries.
pub open spec fn upload_list(
    local: Seq<LocalFileView>,
    remote: Seq<FileItemView>,
    use_checksum: bool,
    hashes: Seq<(Option<Seq<char>>, Option<Seq<char>>)>,
    remote_path: Seq<char>,
    k: int,
) -> Seq<(Seq<char>, Seq<char>)>
    decreases k,
{
    if k <= 0 {
        Seq::empty()
    } else {
        let prev = upload_list(local, remote, use_checksum, hashes, remote_path, k - 1);
        if upload_at(local, remote, use_checksum, hashes, k - 1) {
            prev.push((local[k - 1].path, remote_path))
        } else {
            prev
        }
    }
}

/// Whether remote item `i` is to be downloaded: a file that counts for its
/// name and that no local entry has.
pub open spec fn download_at(local: Seq<LocalFileView>, remote: Seq<FileItemView>, i: int) -> bool {
    !remote[i].isfolder && !later_remote(remote, i) && !local_named(local, remote[i].name)
}

/// The downloads, `(remote path, local folder)`, for the first `k` remote items.
pub open spec fn download_list(
    local: Seq<LocalFileView>,
    remote: Seq<FileItemView>,
    remote_path: Seq<char>,
    local_path: Seq<char>,
    k: int,
) -> Seq<(Seq<char>, Seq<char>)>
    decreases k,
{
    if k <= 0 {
        Seq::empty()
    } else {
        let prev = download_list(local, remote, remote_path, local_path, k - 1);
        if download_at(local, remote, k - 1) {
            prev.push((spec_join_remote(remote_path, remote[k - 1].name), local_path))
        } else {
            prev
        }
    }
}

proof fn lemma_upload_list_has(
    local: Seq<LocalFileView>,
    remote: Seq<FileItemView>,
    use_checksum: bool,
    hashes: Seq<(Option<Seq<char>>, Option<Seq<char>>)>,
    remote_path: Seq<char>,
    k: int,
    i: int,
)
    requires
        0 <= i < k,
        upload_at(local, remote, use_checksum, hashes, i),
    ensures
        upload_list(local, remote, use_checksum, hashes, remote_path, k).contains((local[i].path, remote_path)),
    decreases k,
{
    let l = upload_list(local, remote, use_checksum, hashes, remote_path, k);
    if i == k - 1 {
        assert(l[l.len() - 1] == (local[i].path, remote_path));
    } else {
        lemma_upload_list_has(local, remote, use_checksum, hashes, remote_path, k - 1, i);
        let prev = upload_list(local, remote, use_checksum, hashes, remote_path, k - 1);
        let x = choose|x: int| 0 <= x < prev.len() && prev[x] == (local[i].path, remote_path);
        assert(l[x] == prev[x]);
    }
}

proof fn lemma_remote_file_at(remote: Seq<FileItemView>, j: int)
    requires
        0 <= j < remote.len(),
        !remote[j].isfolder,
        !later_remote(remote, j),
    ensures
        remote_file(remote, remote[j].name) == Some(remote[j]),
    decreases remote.len(),
{
    let n = remote.len() - 1;
    if j < n {
        let p = remote.drop_last();
        if !remote[n].isfolder && remote[n].name == remote[j].name {
            assert(later_remote(remote, j));
        }
        assert(p[j] == remote[j]);
        assert(!later_remote(p, j)) by {
            if later_remote(p, j) {
                let x = choose|x: int| #![trigger p[x]] j < x < p.len() && !p[x].isfolder && p[x].name == p[j].name;
                assert(remote[x] == p[x]);
            }
        }
        lemma_remote_file_at(p, j);
    }
}

proof fn lemma_remote_file_none(remote: Seq<FileItemView>, name: Seq<char>)
    requires
        forall|j: int| 0 <= j < remote.len() ==> (#[trigger] remote[j]).isfolder || remote[j].name != name,
    ensures
        remote_file(remote, name) is None,
    decreases remote.len(),
{
    if remote.len() > 0 {
        let p = remote.drop_last();
        assert forall|j: int| 0 <= j < p.len() implies (#[trigger] p[j]).isfolder || p[j].name != name by {
            assert(p[j] == remote[j]);
        }
        assert(remote[remote.len() - 1] == remote.last());
        lemma_remote_file_none(p, name);
    }
}

/// Comparing by size, a local file whose remote copy (the remote file of
/// its name that counts) has another size is uploaded into the remote
/// folder, and so is a local file that has no remote file of its name;
/// here the local entry is the one that counts for its name.
pub proof fn lemma_changed_or_new_files_go_up(
    local: Seq<LocalFileView>,
    remote: Seq<FileItemView>,
    hashes: Seq<(Option<Seq<char>>, Option<Seq<char>>)>,
    remote_path: Seq<char>,
    i: int,
)
    requires
        0 <= i < local.len(),
        !later_local(local, i),
    ensures
        (forall|j: int| #![trigger remote[j]] 0 <= j < remote.len() && !remote[j].isfolder && remote[j].name
            == local[i].name && !later_remote(remote, j) && remote[j].size != local[i].size
            ==> upload_list(local, remote, false, hashes, remote_path, local.len() as int).contains(
            (local[i].path, remote_path),
        )),
        (forall|j: int| 0 <= j < remote.len() ==> (#[trigger] remote[j]).isfolder || remote[j].name
            != local[i].name) ==> upload_list(local, remote, false, hashes, remote_path, local.len() as int).contains(
            (local[i].path, remote_path),
        ),
{
    assert forall|j: int| #![trigger remote[j]] 0 <= j < remote.len() && !remote[j].isfolder && remote[j].name
        == local[i].name && !later_remote(remote, j) && remote[j].size != local[i].size
        implies upload_list(local, remote, false, hashes, remote_path, local.len() as int).contains(
        (local[i].path, remote_path),
    ) by {
        lemma_remote_file_at(remote, j);
        lemma_upload_list_has(local, remote, false, hashes, remote_path, local.len() as int, i);
    }
    if forall|j: int| 0 <= j < remote.len() ==> (#[trigger] remote[j]).isfolder || remote[j].name != local[i].name {
        lemma_remote_file_none(remote, local[i].name);
        lemma_upload_list_has(local, remote, false, hashes, remote_path, local.len() as int, i);
    }
}

/// The size of the remote file named `name`, if there is one.
fn remote_size(remote: &Vec<FileItem>, name: &String) -> (r: Option<u64>)
    ensures
        r == (match remote_file(items_view(remote@), name@) {
            Some(f) => Some(f.size),
            None => None,
        }),
{
    let ghost rv = items_view(remote@);
    let mut k = remote.len();
    assert(rv.subrange(0, k as int) == rv);
    while k > 0
        invariant
            rv == items_view(remote@),
            k <= remote@.len(),
            remote_file(rv, name@) == remote_file(rv.subrange(0, k as int), name@),
        decreases k,
    {
        let ghost pre = rv.subrange(0, k as int);
        assert(pre.drop_last() == rv.subrange(0, k - 1));
        assert(pre.last() == remote@[k - 1]@);
        let it = &remote[k - 1];
        if !it.isfolder && it.name == *name {
            return Some(it.size);
        }
        k = k - 1;
    }
    None
}

fn has_later_local(local: &Vec<LocalFile>, i: usize) -> (b: bool)
    requires
        i < local@.len(),
    ensures
        b == later_local(locals_view(local@), i as int),
{
    let ghost lv = locals_view(local@);
    let n = local.len();
    let mut j = i + 1;
    while j < local.len()
        invariant
            lv == locals_view(local@),
            i < j <= local@.len(),
            forall|m: int| i < m < j ==> lv[m].name != lv[i as int].name,
        decreases local@.len() - j,
    {
        if local[j].name == local[i].name {
            assert(lv[j as int].name == lv[i as int].name);
            return true;
        }
        j = j + 1;
    }
    false
}

fn has_local_named(local: &Vec<LocalFile>, name: &String) -> (b: bool)
    ensures
        b == local_named(locals_view(local@), name@),
{
    let ghost lv = locals_view(local@);
    for j in 0..local.len()
        invariant
            lv == locals_view(local@),
            forall|m: int| 0 <= m < j ==> lv[m].name != name@,
    {
        if local[j].name == *name {
            assert(lv[j as int].name == name@);
            return true;
        }
    }
    false
}

fn has_later_remote(remote: &Vec<FileItem>, i: usize) -> (b: bool)
    requires
        i < remote@.len(),
    ensures
        b == later_remote(items_view(remote@), i as int),
{
    let ghost rv = items_view(remote@);
    let n = remote.len();
    let mut j = i + 1;
    while j < remote.len()
        invariant
            rv == items_view(remote@),
            i < j <= remote@.len(),
            forall|m: int| i < m < j ==> !(!rv[m].isfolder && rv[m].name == rv[i as int].name),
        decreases remote@.len() - j,
    {
        if !remote[j].isfolder && remote[j].name == remote[i].name {
            assert(!rv[j as int].isfolder && rv[j as int].name == rv[i as int].name);
            return true;
        }
        j = j + 1;
    }
    false
}

fn same_opt(a: &Option<String>, b: &Option<String>) -> (r: bool)
    ensures
        r == (opt_pair_view((*a, *b)).0 == opt_pair_view((*a, *b)).1),
{
    match (a, b) {
        (Some(x), Some(y)) => *x == *y,
        (None, None) => true,
        _ => false,
    }
}

/// The SHA-256 digest of `data` in lower-case hexadecimal, as file contents
/// are compared with the checksums the server reports.
pub fn sha256_hex(data: &[u8]) -> (s: String)
    ensures
        s@ == spec_hex_lower(spec_sha256(data@)),
{
    let digest = sha256(data);
    hex_encode(digest.as_slice())
}

/// The SHA-256 checksum of a file read piece by piece, so that a file of
/// any size is hashed in constant memory.
pub struct LocalChecksum {
    hasher: Sha256Hasher,
}

impl View for LocalChecksum {
    type V = Seq<u8>;

    /// The bytes fed so far.
    closed spec fn view(&self) -> Seq<u8> {
        hasher_input(self.hasher)
    }
}

impl LocalChecksum {
    /// A checksum of nothing yet.
    pub fn new() -> (c: Self)
        ensures
            c@ == Seq::<u8>::empty(),
    {
        LocalChecksum { hasher: hasher_new() }
    }

    /// Feeds the next piece of the file.
    pub fn feed(&mut self, piece: &[u8])
        ensures
            final(self)@ == old(self)@ + piece@,
    {
        hasher_update(&mut self.hasher, piece);
    }

    /// The checksum of everything fed, in lower-case hexadecimal.
    pub fn hex(self) -> (s: String)
        ensures
            s@ == spec_hex_lower(spec_sha256(self@)),
    {
        let digest = hasher_finalize(self.hasher);
        hex_encode(digest.as_slice())
    }
}

/// For each local entry, whether its upload is decided by comparing
/// checksums: it counts for its name and a remote file of that name exists.
pub fn needs_checksum(local: &Vec<LocalFile>, remote: &Vec<FileItem>) -> (r: Vec<bool>)
    ensures
        r@.len() == local@.len(),
        forall|i: int| 0 <= i < local@.len() ==> r@[i] == (!later_local(locals_view(local@), i)
            && remote_file(items_view(remote@), local@[i].name@) is Some),
{
    let ghost lv = locals_view(local@);
    let mut r: Vec<bool> = Vec::new();
    let mut i: usize = 0;
    while i < local.len()
        invariant
            lv == locals_view(local@),
            i <= local@.len(),
            r@.len() == i,
            forall|m: int| 0 <= m < i ==> #[trigger] r@[m] == (!later_local(lv, m)
                && remote_file(items_view(remote@), local@[m].name@) is Some),
        decreases local@.len() - i,
    {
        let later = has_later_local(local, i);
        let size = remote_size(remote, &local[i].name);
        r.push(!later && size.is_some());
        i = i + 1;
    }
    r
}

/// Compares the local files of a folder with the remote listing of the
/// matching remote folder: `(uploads, downloads)`. A local file goes up when
/// the remote side lacks it or holds a different version of it; a remote
/// file comes down when the local side lacks it. With `use_checksum`,
/// `hashes[i]` holds the local and remote checksums of local entry `i`
/// (where either could not be had, `None`).
pub fn compare_listings(
    local_path: &str,
    remote_path: &str,
    local: &Vec<LocalFile>,
    remote: &Vec<FileItem>,
    use_checksum: bool,
    hashes: &Vec<(Option<String>, Option<String>)>,
) -> (r: (Vec<(String, String)>, Vec<(String, String)>))
    requires
        use_checksum ==> hashes@.len() == local@.len(),
    ensures
        pairs_view(r.0@) == upload_list(
            locals_view(local@),
            items_view(remote@),
            use_checksum,
            hashes_view(hashes@),
            remote_path@,
            local@.len() as int,
        ),
        pairs_view(r.1@) == download_list(
            locals_view(local@),
            items_view(remote@),
            remote_path@,
            local_path@,
            remote@.len() as int,
        ),
        !use_checksum ==> forall|i: int, j: int|
            #![trigger local@[i], remote@[j]]
            0 <= i < local@.len() && 0 <= j < remote@.len() && !later_local(locals_view(local@), i)
                && !remote@[j].isfolder && remote@[j].name@ == local@[i].name@ && !later_remote(
                items_view(remote@),
                j,
            ) && remote@[j].size != local@[i].size ==> pairs_view(r.0@).contains(
                (local@[i].path@, remote_path@),
            ),
{
    let ghost lv = locals_view(local@);
    let ghost rv = items_view(remote@);
    let ghost hv = hashes_view(hashes@);
    let mut ups: Vec<(String, String)> = Vec::new();
    for i in 0..local.len()
        invariant
            lv == locals_view(local@),
            rv == items_view(remote@),
            hv == hashes_view(hashes@),
            use_checksum ==> hashes@.len() == local@.len(),
            pairs_view(ups@) == upload_list(lv, rv, use_checksum, hv, remote_path@, i as int),
    {
        let later = has_later_local(local, i);
        if !later {
            let size = remote_size(remote, &local[i].name);
            let up = match size {
                None => true,
                Some(s) => if use_checksum {
                    !same_opt(&hashes[i].0, &hashes[i].1)
                } else {
                    local[i].size != s
                },
            };
            if up {
                let ghost before = pairs_view(ups@);
                ups.push((local[i].path.clone(), String::from_str(remote_path)));
                assert(pairs_view(ups@) == before.push((lv[i as int].path, remote_path@)));
            }
        }
    }
    let mut downs: Vec<(String, String)> = Vec::new();
    for i in 0..remote.len()
        invariant
            lv == locals_view(local@),
            rv == items_view(remote@),
            pairs_view(downs@) == download_list(lv, rv, remote_path@, local_path@, i as int),
    {
        if !remote[i].isfolder && !has_later_remote(remote, i) && !has_local_named(local, &remote[i].name) {
            let ghost before = pairs_view(downs@);
            let p = join_remote(remote_path, remote[i].name.as_str());
            downs.push((p, String::from_str(local_path)));
            assert(pairs_view(downs@) == before.push((spec_join_remote(remote_path@, rv[i as int].name), local_path@)));
        }
    }
    proof {
        if !use_checksum {
            assert forall|i: int, j: int|
                #![trigger local@[i], remote@[j]]
                0 <= i < local@.len() && 0 <= j < remote@.len() && !later_local(lv, i) && !remote@[j].isfolder
                    && remote@[j].name@ == local@[i].name@ && !later_remote(rv, j) && remote@[j].size
                    != local@[i].size implies pairs_view(ups@).contains((local@[i].path@, remote_path@)) by {
                assert(lv[i] == local@[i]@);
                assert(rv[j] == remote@[j]@);
                lemma_changed_or_new_files_go_up(lv, rv, hv, remote_path@, i);
            }
        }
    }
    (ups, downs)
}

impl<R> PCloudClient<R> {
    /// Compares a local folder with a remote one (see [`compare_listings`]).
    /// `local_exists` says whether the local folder exists at all; when it
    /// does not, the answer is `FileNotFound` with the local path, and when
    /// it does, the answer is the upload and download lists.
    pub fn compare_folders(
        &self,
        local_path: &str,
        remote_path: &str,
        local_exists: bool,
        local: &Vec<LocalFile>,
        remote: &Vec<FileItem>,
        use_checksum: bool,
        hashes: &Vec<(Option<String>, Option<String>)>,
    ) -> (r: Result<(Vec<(String, String)>, Vec<(String, String)>), PCloudError>)
        requires
            use_checksum ==> hashes@.len() == local@.len(),
        ensures
            !local_exists <==> (r matches Err(e) && e matches PCloudError::FileNotFound(p) && p@ == local_path@),
            local_exists <==> r is Ok,
            r matches Ok(p) ==> pairs_view(p.0@) == upload_list(
                locals_view(local@),
                items_view(remote@),
                use_checksum,
                hashes_view(hashes@),
                remote_path@,
                local@.len() as int,
            ) && pairs_view(p.1@) == download_list(
                locals_view(local@),
                items_view(remote@),
                remote_path@,
                local_path@,
                remote@.len() as int,
            ),
    {
        if !local_exists {
            return Err(PCloudError::FileNotFound(String::from_str(local_path)));
        }
        Ok(compare_listings(local_path, remote_path, local, remote, use_checksum, hashes))
    }
}

/// Whether a sync in `direction` runs the uploads and the downloads, given
/// how many of each there are: a direction runs only its own transfers, and
/// an empty list is not run.
pub open spec fn spec_sync_actions(direction: SyncDirection, n_up: nat, n_down: nat) -> (bool, bool) {
    (
        !(direction is Download) && n_up > 0,
        !(direction is Upload) && n_down > 0,
    )
}

/// Which transfers a sync in `direction` runs: `(uploads, downloads)`.
pub fn sync_actions(direction: SyncDirection, n_up: usize, n_down: usize) -> (r: (bool, bool))
    ensures
        r == spec_sync_actions(direction, n_up as nat, n_down as nat),
{
    match direction {
        SyncDirection::Upload => (n_up > 0, false),
        SyncDirection::Download => (false, n_down > 0),
        SyncDirection::Bidirectional => (n_up > 0, n_down > 0),
    }
}

pub open spec fn firsts(p: Seq<(Seq<char>, Seq<char>)>) -> Seq<Seq<char>> {
    p.map_values(|x: (Seq<char>, Seq<char>)| x.0)
}

fn first_strings(v: &Vec<(String, String)>) -> (r: Vec<String>)
    ensures
        strings_view(r@) == firsts(pairs_view(v@)),
{
    let mut r: Vec<String> = Vec::new();
    for i in 0..v.len()
        invariant
            strings_view(r@) == firsts(pairs_view(v@.subrange(0, i as int))),
    {
        let ghost before = strings_view(r@);
        r.push(v[i].0.clone());
        assert(pairs_view(v@.subrange(0, i + 1)) == pairs_view(v@.subrange(0, i as int)).push(
            (v@[i as int].0@, v@[i as int].1@),
        ));
        assert(strings_view(r@) == before.push(v@[i as int].0@));
    }
    assert(v@.subrange(0, v@.len() as int) == v@);
    r
}

/// The result of a sync: the planned files, the counts that the transfers
/// it ran reported (`up` and `down` are `(succeeded, failed)`, and count
/// only where that transfer ran), and as skipped the number of planned
/// transfers of the other direction (none for a two-way sync).
pub fn sync_result(
    direction: SyncDirection,
    to_upload: &Vec<(String, String)>,
    to_download: &Vec<(String, String)>,
    up: (u32, u32),
    down: (u32, u32),
) -> (r: SyncResult)
    requires
        up.1 + down.1 <= u32::MAX,
    ensures
        ({
            let (ran_up, ran_down) = spec_sync_actions(direction, to_upload@.len() as nat, to_download@.len() as nat);
            &&& r.uploaded == (if ran_up { up.0 } else { 0 })
            &&& r.downloaded == (if ran_down { down.0 } else { 0 })
            &&& r.failed == (if ran_up { up.1 } else { 0 }) + (if ran_down { down.1 } else { 0 })
            &&& r.skipped == (match direction {
                SyncDirection::Upload => to_download@.len() as u32,
                SyncDirection::Download => to_upload@.len() as u32,
                SyncDirection::Bidirectional => 0u32,
            })
        }),
        strings_view(r.files_to_upload@) == firsts(pairs_view(to_upload@)),
        strings_view(r.files_to_download@) == firsts(pairs_view(to_download@)),
{
    let (ran_up, ran_down) = sync_actions(direction, to_upload.len(), to_download.len());
    let mut result = SyncResult {
        uploaded: 0,
        downloaded: 0,
        skipped: 0,
        failed: 0,
        files_to_upload: first_strings(to_upload),
        files_to_download: first_strings(to_download),
    };
    if ran_up {
        result.uploaded = up.0;
        result.failed = up.1;
    }
    if ran_down {
        result.downloaded = down.0;
        result.failed = result.failed + down.1;
    }
    result.skipped = match direction {
        SyncDirection::Upload => to_download.len() as u32,
        SyncDirection::Download => to_upload.len() as u32,
        SyncDirection::Bidirectional => 0,
    };
    result
}


/// A folder waiting in a recursive sync: its local path, its remote path,
/// and whether the remote folder is to be created before it is synchronised
/// (every folder below the root is).
pub struct SyncFolder {
    pub local: String,
    pub remote: String,
    pub create_remote: bool,
}

/// A recursive sync of a local folder tree with its remote counterpart.
/// Folders wait on a stack; each synchronised folder adds its result to the
/// total and pushes its local subfolders so that they are synchronised next,
/// in the order they were listed, each below it in the remote tree. The
/// first failure ends the walk.
pub struct SyncWalk {
    stack: Vec<SyncFolder>,
    total: SyncResult,
}

/// The counts and file lists of a sync, with counts as unbounded numbers.
#[verifier::ext_equal]
pub struct SyncTotals {
    pub uploaded: nat,
    pub downloaded: nat,
    pub skipped: nat,
    pub failed: nat,
    pub files_to_upload: Seq<Seq<char>>,
    pub files_to_download: Seq<Seq<char>>,
}

/// Nothing synchronised yet.
pub open spec fn no_totals() -> SyncTotals {
    SyncTotals {
        uploaded: 0,
        downloaded: 0,
        skipped: 0,
        failed: 0,
        files_to_upload: Seq::empty(),
        files_to_download: Seq::empty(),
    }
}

/// `a` followed by `b`: the counts added, the file lists appended.
pub open spec fn plus(a: SyncTotals, b: SyncTotals) -> SyncTotals {
    SyncTotals {
        uploaded: a.uploaded + b.uploaded,
        downloaded: a.downloaded + b.downloaded,
        skipped: a.skipped + b.skipped,
        failed: a.failed + b.failed,
        files_to_upload: a.files_to_upload + b.files_to_upload,
        files_to_download: a.files_to_download + b.files_to_download,
    }
}

/// The totals a [`SyncResult`] holds.
pub open spec fn totals_of(r: SyncResult) -> SyncTotals {
    SyncTotals {
        uploaded: r.uploaded as nat,
        downloaded: r.downloaded as nat,
        skipped: r.skipped as nat,
        failed: r.failed as nat,
        files_to_upload: strings_view(r.files_to_upload@),
        files_to_download: strings_view(r.files_to_download@),
    }
}

pub struct SyncWalkView {
    /// The waiting folders, `(local, remote, create_remote)`; the last is next.
    pub stack: Seq<(Seq<char>, Seq<char>, bool)>,
    /// The totals of the folders synchronised so far.
    pub total: SyncTotals,
}

pub open spec fn folders_view(v: Seq<SyncFolder>) -> Seq<(Seq<char>, Seq<char>, bool)> {
    v.map_values(|f: SyncFolder| (f.local@, f.remote@, f.create_remote))
}

impl View for SyncWalk {
    type V = SyncWalkView;

    closed spec fn view(&self) -> SyncWalkView {
        SyncWalkView { stack: folders_view(self.stack@), total: totals_of(self.total) }
    }
}

/// Whether adding `r` to the totals of `w` keeps every count within `u32`.
pub open spec fn totals_fit(w: SyncWalkView, r: SyncResult) -> bool {
    &&& w.total.uploaded + r.uploaded <= u32::MAX
    &&& w.total.downloaded + r.downloaded <= u32::MAX
    &&& w.total.skipped + r.skipped <= u32::MAX
    &&& w.total.failed + r.failed <= u32::MAX
}

/// The entries pushed for the subfolders `subs`, `(local path, name)` in
/// listing order, of the folder whose remote path is `remote`: in reverse,
/// so that the first listed is on top.
pub open spec fn pushed_subfolders(remote: Seq<char>, subs: Seq<(Seq<char>, Seq<char>)>) -> Seq<
    (Seq<char>, Seq<char>, bool),
> {
    Seq::new(
        subs.len(),
        |k: int| (subs[subs.len() - 1 - k].0, spec_join_remote(remote, subs[subs.len() - 1 - k].1), true),
    )
}

impl SyncWalk {
    /// Starts the sync of `local_root` with `remote_root`: the root waits,
    /// its remote folder not to be created, and the totals are empty.
    pub fn new(local_root: &str, remote_root: &str) -> (w: Self)
        ensures
            w@.stack == seq![(local_root@, remote_root@, false)],
            w@.total == no_totals(),
    {
        let mut stack: Vec<SyncFolder> = Vec::new();
        stack.push(
            SyncFolder {
                local: String::from_str(local_root),
                remote: String::from_str(remote_root),
                create_remote: false,
            },
        );
        let w = SyncWalk { stack, total: SyncResult::new() };
        assert(folders_view(w.stack@) == seq![(local_root@, remote_root@, false)]);
        assert(totals_of(w.total) =~= no_totals());
        w
    }

    /// The next folder to synchronise, taken off the stack; `None` when the
    /// walk is done.
    pub fn next_folder(&mut self) -> (f: Option<SyncFolder>)
        ensures
            old(self)@.stack.len() == 0 ==> f is None && final(self)@ == old(self)@,
            old(self)@.stack.len() > 0 ==> (f matches Some(x) && (x.local@, x.remote@, x.create_remote)
                == old(self)@.stack.last() && final(self)@ == (SyncWalkView {
                stack: old(self)@.stack.drop_last(),
                ..old(self)@
            })),
    {
        let f = self.stack.pop();
        proof {
            if old(self)@.stack.len() > 0 {
                assert(folders_view(self.stack@) == old(self)@.stack.drop_last());
            }
        }
        f
    }

    /// Whether the result `r` of a folder can be added to the totals.
    pub fn fits(&self, r: &SyncResult) -> (b: bool)
        ensures
            b == totals_fit(self@, *r),
    {
        self.total.uploaded.checked_add(r.uploaded).is_some()
            && self.total.downloaded.checked_add(r.downloaded).is_some()
            && self.total.skipped.checked_add(r.skipped).is_some()
            && self.total.failed.checked_add(r.failed).is_some()
    }

    /// Records how the sync of the folder whose remote path is `remote`
    /// went. On success, `outcome` holds its result and its local
    /// subfolders, `(local path, name)` in listing order: the result is
    /// added to the totals (counts summed, file lists appended) and the
    /// subfolders are pushed to be synchronised next, the first listed on
    /// top. On failure the walk ends, with the stack emptied, and the error
    /// is handed back.
    pub fn record(
        &mut self,
        remote: &str,
        outcome: Result<(SyncResult, Vec<(String, String)>), PCloudError>,
    ) -> (r: Option<PCloudError>)
        requires
            outcome matches Ok(o) ==> totals_fit(old(self)@, o.0),
        ensures
            outcome is Err <==> r is Some,
            outcome matches Err(e) ==> r == Some(e) && final(self)@ == (SyncWalkView {
                stack: Seq::empty(),
                ..old(self)@
            }),
            outcome matches Ok(o) ==> final(self)@ == (SyncWalkView {
                stack: old(self)@.stack + pushed_subfolders(remote@, pairs_view(o.1@)),
                total: plus(old(self)@.total, totals_of(o.0)),
            }),
    {
        match outcome {
            Err(e) => {
                self.stack = Vec::new();
                assert(folders_view(self.stack@) == Seq::<(Seq<char>, Seq<char>, bool)>::empty());
                Some(e)
            },
            Ok((res, subs)) => {
                let ghost t0 = totals_of(self.total);
                let ghost tr = totals_of(res);
                self.total.absorb(res);
                assert(totals_of(self.total) =~= plus(t0, tr));
                let ghost w1 = self@;
                let ghost s0 = folders_view(self.stack@);
                let ghost sv = pairs_view(subs@);
                let n = subs.len();
                let mut k: usize = 0;
                while k < n
                    invariant
                        n == subs@.len(),
                        sv == pairs_view(subs@),
                        k <= n,
                        self@.total == w1.total,
                        folders_view(self.stack@) == s0 + pushed_subfolders(remote@, sv).take(k as int),
                    decreases n - k,
                {
                    let j = n - 1 - k;
                    let child = SyncFolder {
                        local: subs[j].0.clone(),
                        remote: join_remote(remote, subs[j].1.as_str()),
                        create_remote: true,
                    };
                    let ghost before = folders_view(self.stack@);
                    self.stack.push(child);
                    assert(folders_view(self.stack@) == before.push(pushed_subfolders(remote@, sv)[k as int]));
                    assert(pushed_subfolders(remote@, sv).take(k + 1) == pushed_subfolders(remote@, sv).take(
                        k as int,
                    ).push(pushed_subfolders(remote@, sv)[k as int]));
                    k = k + 1;
                }
                assert(pushed_subfolders(remote@, sv).take(n as int) == pushed_subfolders(remote@, sv));
                None
            },
        }
    }

    /// The totals of every folder synchronised so far.
    pub fn into_total(self) -> (r: SyncResult)
        ensures
            totals_of(r) == self@.total,
    {
        self.total
    }
}

/// A local folder tree as a recursive sync meets it: each folder with its
/// name in its parent, its local path, what synchronising it alone gives,
/// and its subfolders in listing order.
pub struct SyncTree {
    pub name: Seq<char>,
    pub local: Seq<char>,
    pub result: SyncTotals,
    pub subs: Seq<SyncTree>,
}

/// The totals of a whole tree in pre-order: the folder's own result, then
/// each subtree's in listing order.
pub open spec fn tree_totals(t: SyncTree) -> SyncTotals
    decreases t,
{
    plus(t.result, forest_totals(t.subs))
}

/// The totals of the trees of `f`, in order.
pub open spec fn forest_totals(f: Seq<SyncTree>) -> SyncTotals
    decreases f,
{
    if f.len() == 0 {
        no_totals()
    } else {
        plus(tree_totals(f[0]), forest_totals(f.subrange(1, f.len() as int)))
    }
}

/// The subfolders of `t` as a sync reports them: `(local path, name)`.
pub open spec fn sub_pairs(t: SyncTree) -> Seq<(Seq<char>, Seq<char>)> {
    t.subs.map_values(|c: SyncTree| (c.local, c.name))
}

/// The trees `f` pushed in reverse, each with its remote path below
/// `remote`.
pub open spec fn pushed_trees(f: Seq<SyncTree>, remote: Seq<char>) -> Seq<(SyncTree, Seq<char>)> {
    Seq::new(f.len(), |k: int| (f[f.len() - 1 - k], spec_join_remote(remote, f[f.len() - 1 - k].name)))
}

/// The totals still to come from the waiting trees, the top one first.
pub open spec fn pending_totals(s: Seq<(SyncTree, Seq<char>)>) -> SyncTotals
    decreases s.len(),
{
    if s.len() == 0 {
        no_totals()
    } else {
        plus(tree_totals(s.last().0), pending_totals(s.drop_last()))
    }
}

/// A walk follows the tree `root` with the waiting trees `s` (each with its
/// remote path) when its stack lists them and its totals, followed by the
/// totals still to come, are the totals of the whole tree.
pub open spec fn walk_follows(v: SyncWalkView, s: Seq<(SyncTree, Seq<char>)>, root: SyncTree) -> bool {
    &&& v.stack.len() == s.len()
    &&& forall|i: int| 0 <= i < s.len() ==> (#[trigger] v.stack[i]).0 == s[i].0.local && v.stack[i].1 == s[i].1
    &&& plus(v.total, pending_totals(s)) == tree_totals(root)
}

proof fn lemma_plus_assoc(a: SyncTotals, b: SyncTotals, c: SyncTotals)
    ensures
        plus(plus(a, b), c) == plus(a, plus(b, c)),
{
    assert(plus(plus(a, b), c) =~= plus(a, plus(b, c)));
}

proof fn lemma_plus_none(a: SyncTotals)
    ensures
        plus(no_totals(), a) == a,
        plus(a, no_totals()) == a,
{
    assert(plus(no_totals(), a) =~= a);
    assert(plus(a, no_totals()) =~= a);
}

proof fn lemma_pending_pushed(a: Seq<(SyncTree, Seq<char>)>, f: Seq<SyncTree>, remote: Seq<char>)
    ensures
        pending_totals(a + pushed_trees(f, remote)) == plus(forest_totals(f), pending_totals(a)),
    decreases f.len(),
{
    let x = a + pushed_trees(f, remote);
    if f.len() == 0 {
        assert(x =~= a);
        lemma_plus_none(pending_totals(a));
    } else {
        let g = f.subrange(1, f.len() as int);
        assert(x.drop_last() =~= a + pushed_trees(g, remote));
        assert(x.last().0 == f[0]);
        lemma_pending_pushed(a, g, remote);
        lemma_plus_assoc(tree_totals(f[0]), forest_totals(g), pending_totals(a));
    }
}

/// The whole walk, begun: a new walk follows the tree rooted at its local
/// root, with only the root waiting.
pub proof fn lemma_sync_walk_start(v: SyncWalkView, remote_root: Seq<char>, root: SyncTree)
    requires
        v.stack == seq![(root.local, remote_root, false)],
        v.total == no_totals(),
    ensures
        walk_follows(v, seq![(root, remote_root)], root),
{
    let s = seq![(root, remote_root)];
    assert(s.drop_last() =~= Seq::<(SyncTree, Seq<char>)>::empty());
    assert(pending_totals(s.drop_last()) == no_totals());
    assert(s.last().0 == root);
    lemma_plus_none(tree_totals(root));
    assert(pending_totals(s) == tree_totals(root));
}

/// The whole walk, step by step: when the next folder is taken and the
/// sync of it is recorded with its result and subfolders as the tree has
/// them, the walk follows the tree with that folder replaced by its
/// subtrees, the first listed on top.
pub proof fn lemma_sync_walk_step(
    v: SyncWalkView,
    w: SyncWalkView,
    s: Seq<(SyncTree, Seq<char>)>,
    root: SyncTree,
)
    requires
        walk_follows(v, s, root),
        s.len() > 0,
        w.stack == v.stack.drop_last() + pushed_subfolders(s.last().1, sub_pairs(s.last().0)),
        w.total == plus(v.total, s.last().0.result),
    ensures
        walk_follows(w, s.drop_last() + pushed_trees(s.last().0.subs, s.last().1), root),
{
    let t = s.last().0;
    let remote = s.last().1;
    let s0 = s.drop_last();
    let s2 = s0 + pushed_trees(t.subs, remote);
    let n = t.subs.len();
    assert forall|i: int| 0 <= i < s2.len() implies (#[trigger] w.stack[i]).0 == s2[i].0.local && w.stack[i].1
        == s2[i].1 by {
        if i < s0.len() {
            assert(w.stack[i] == v.stack[i]);
            assert(s2[i] == s[i]);
        } else {
            let k = i - s0.len();
            assert(w.stack[i] == pushed_subfolders(remote, sub_pairs(t))[k]);
            assert(sub_pairs(t)[n - 1 - k] == (t.subs[n - 1 - k].local, t.subs[n - 1 - k].name));
        }
    }
    lemma_pending_pushed(s0, t.subs, remote);
    lemma_plus_assoc(v.total, t.result, plus(forest_totals(t.subs), pending_totals(s0)));
    lemma_plus_assoc(t.result, forest_totals(t.subs), pending_totals(s0));
}

/// The whole walk, ended: when no folder waits, the totals are those of
/// the whole tree in pre-order, each folder's result followed by its
/// subtrees' in listing order.
pub proof fn lemma_sync_walk_end(v: SyncWalkView, root: SyncTree)
    requires
        walk_follows(v, Seq::empty(), root),
    ensures
        v.total == tree_totals(root),
{
    lemma_plus_none(v.total);
}

} // verus!
