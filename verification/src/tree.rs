//! Planning of whole-folder transfers: which files to upload and which
//! remote folders to create first, the walk of a remote tree to download,
//! and the comparison behind folder synchronisation.
//!
//! The set of folders to create is kept as a vector without repeats, and
//! the grouping by depth as a vector of batches in increasing depth, rather
//! than as a hash set and a depth-keyed hash map: a hash set is walked in
//! an order that changes from process to process, and with `String` keys
//! vstd's specifications prove little of membership. What the plan states
//! (every ancestor is created, each in the batch of its depth, batches in
//! increasing depth) does not depend on that order.
use vstd::prelude::*;
use vstd::string::*;

use crate::error::PCloudError;
use crate::paths::{path_file_name, path_parent, spec_path_file_name, spec_path_parent};
use crate::error::{starts_with, str_starts_with};
use crate::text::{
    backslash_to_slash, join_remote, path_push, replace_backslashes, spec_join_remote,
    spec_path_push, str_chars, string_of_chars, trim_end_slash, trim_end_slashes,
    trim_start_slash,
};
use crate::transfer_state::{pairs_view, strs_view};
use crate::types::{items_view, FileItem, FileItemView};

verus! {

/// One entry of a local directory walk: its path, its path relative to the
/// walked root, and what it is.
pub struct WalkEntry {
    pub path: String,
    pub relative: String,
    pub is_dir: bool,
    pub is_file: bool,
}

pub struct WalkEntryView {
    pub path: Seq<char>,
    pub relative: Seq<char>,
    pub is_dir: bool,
    pub is_file: bool,
}

pub open spec fn entries_view(v: Seq<WalkEntry>) -> Seq<WalkEntryView> {
    v.map_values(|e: WalkEntry| WalkEntryView { path: e.path@, relative: e.relative@, is_dir: e.is_dir, is_file: e.is_file })
}

/// Remote path of a walked entry: the remote base without trailing slashes,
/// the walked folder's name, and the entry's relative path with `/`
/// separators.
pub open spec fn entry_remote(base: Seq<char>, folder: Seq<char>, rel: Seq<char>) -> Seq<char> {
    trim_end_slash(base) + "/"@ + folder + "/"@ + backslash_to_slash(rel)
}

/// The remote folder a walked file goes to: the parent of its remote path
/// (the remote base when it has none).
pub open spec fn file_parent(base: Seq<char>, full: Seq<char>) -> Seq<char> {
    match spec_path_parent(full) {
        Some(q) => backslash_to_slash(q),
        None => base,
    }
}

/// The `(local path, remote folder)` uploads of a walk, in walk order.
pub open spec fn tree_uploads(e: Seq<WalkEntryView>, base: Seq<char>, folder: Seq<char>) -> Seq<(Seq<char>, Seq<char>)>
    decreases e.len(),
{
    if e.len() == 0 {
        Seq::empty()
    } else {
        let prev = tree_uploads(e.drop_last(), base, folder);
        let x = e.last();
        if x.relative.len() != 0 && !x.is_dir && x.is_file {
            prev.push((x.path, file_parent(base, entry_remote(base, folder, x.relative))))
        } else {
            prev
        }
    }
}

/// The remote folders a walk names directly: each walked directory, and the
/// folder of each walked file.
pub open spec fn tree_folders(e: Seq<WalkEntryView>, base: Seq<char>, folder: Seq<char>) -> Seq<Seq<char>>
    decreases e.len(),
{
    if e.len() == 0 {
        Seq::empty()
    } else {
        let prev = tree_folders(e.drop_last(), base, folder);
        let x = e.last();
        let full = entry_remote(base, folder, x.relative);
        if x.relative.len() == 0 {
            prev
        } else if x.is_dir {
            prev.push(full)
        } else if x.is_file {
            prev.push(file_parent(base, full))
        } else {
            prev
        }
    }
}

/// The ancestors of `p`, nearest first, up to but excluding the root `/`
/// and the empty path (`fuel` bounds the number of steps).
pub open spec fn ancestors(p: Seq<char>, fuel: nat) -> Seq<Seq<char>>
    decreases fuel,
{
    if fuel == 0 {
        Seq::empty()
    } else {
        match spec_path_parent(p) {
            None => Seq::empty(),
            Some(q) => {
                let qs = backslash_to_slash(q);
                if qs == "/"@ || qs.len() == 0 {
                    Seq::empty()
                } else {
                    seq![qs] + ancestors(q, (fuel - 1) as nat)
                }
            },
        }
    }
}

/// The folders named directly together with all their ancestors.
pub open spec fn with_ancestors(f: Seq<Seq<char>>) -> Set<Seq<char>>
    decreases f.len(),
{
    if f.len() == 0 {
        Set::empty()
    } else {
        with_ancestors(f.drop_last()).insert(f.last()).union(
            ancestors(f.last(), f.last().len()).to_set(),
        )
    }
}

/// Number of `/` characters in `s`: the depth used to order folder creation.
pub open spec fn depth(s: Seq<char>) -> nat
    decreases s.len(),
{
    if s.len() == 0 {
        0
    } else {
        depth(s.drop_last()) + if s.last() == '/' {
            1nat
        } else {
            0nat
        }
    }
}

pub open spec fn no_dups(s: Seq<Seq<char>>) -> bool {
    forall|i: int, j: int| 0 <= i < j < s.len() ==> s[i] != s[j]
}

/// `b` lists each folder of `all` exactly once, in batches of equal depth,
/// batches in strictly increasing depth.
pub open spec fn depth_batches(b: Seq<Seq<Seq<char>>>, all: Set<Seq<char>>) -> bool {
    &&& forall|k: int| 0 <= k < b.len() ==> (#[trigger] b[k]).len() > 0 && no_dups(b[k])
    &&& forall|k: int, j: int| 0 <= k < b.len() && 0 <= j < b[k].len() ==> depth(#[trigger] b[k][j]) == depth(b[k][0])
    &&& forall|k1: int, k2: int| 0 <= k1 < k2 < b.len() ==> depth(#[trigger] b[k1][0]) < depth(#[trigger] b[k2][0])
    &&& forall|x: Seq<char>| flat(b).contains(x) <==> all.contains(x)
}

fn slash_count(s: &String) -> (n: usize)
    ensures
        n == depth(s@),
{
    let v = str_chars(s.as_str());
    let mut n: usize = 0;
    for i in 0..v.len()
        invariant
            v@ == s@,
            n == depth(v@.subrange(0, i as int)),
            n <= i,
    {
        assert(v@.subrange(0, i + 1).drop_last() == v@.subrange(0, i as int));
        if v[i] == '/' {
            n = n + 1;
        }
    }
    assert(v@.subrange(0, v@.len() as int) == v@);
    n
}

fn add_unique(all: &mut Vec<String>, s: String)
    requires
        no_dups(strs_view(old(all)@)),
    ensures
        no_dups(strs_view(final(all)@)),
        forall|x: Seq<char>| strs_view(final(all)@).contains(x) <==> (strs_view(old(all)@).contains(x) || x == s@),
{
    let ghost s0 = strs_view(all@);
    for i in 0..all.len()
        invariant
            s0 == strs_view(all@),
            all@ == old(all)@,
            no_dups(s0),
            forall|j: int| 0 <= j < i ==> s0[j] != s@,
    {
        if all[i] == s {
            assert(s0[i as int] == s@);
            assert(s0.contains(s@));
            return;
        }
    }
    assert(s0 == strs_view(old(all)@));
    let ghost sv = s@;
    all.push(s);
    assert(strs_view(all@) == s0.push(sv));
    assert forall|x: Seq<char>| strs_view(all@).contains(x) <==> (s0.contains(x) || x == sv) by {
        if strs_view(all@).contains(x) {
            let k = choose|k: int| 0 <= k < strs_view(all@).len() && strs_view(all@)[k] == x;
            if k < s0.len() {
                assert(s0[k] == x);
            }
        }
        if s0.contains(x) {
            let k = choose|k: int| 0 <= k < s0.len() && s0[k] == x;
            assert(strs_view(all@)[k] == x);
        }
        if x == sv {
            assert(strs_view(all@)[s0.len() as int] == x);
        }
    }
    assert(sv == s@);
    assert(forall|x: Seq<char>| strs_view(all@).contains(x) <==> (strs_view(old(all)@).contains(x) || x == s@));
}

/// Adds the ancestors of `start` (see [`ancestors`]) to `all`.
#[verifier::spinoff_prover]
#[verifier::rlimit(30)]
fn add_ancestors(all: &mut Vec<String>, start: &String)
    requires
        no_dups(strs_view(old(all)@)),
    ensures
        no_dups(strs_view(final(all)@)),
        forall|x: Seq<char>| strs_view(final(all)@).contains(x) <==> (strs_view(old(all)@).contains(x) || ancestors(start@, start@.len()).contains(x)),
{
    let mut current = start.clone();
    let ghost mut fuel: nat = start@.len();
    let ghost mut walked: Seq<Seq<char>> = Seq::empty();
    let ghost s0 = strs_view(all@);
    loop
        invariant_except_break
            current@.len() <= fuel,
            ancestors(start@, start@.len()) == walked + ancestors(current@, fuel),
        invariant
            s0 == strs_view(old(all)@),
            no_dups(strs_view(all@)),
            forall|x: Seq<char>| strs_view(all@).contains(x) <==> (s0.contains(x) || walked.contains(x)),
        ensures
            ancestors(start@, start@.len()) == walked,
        decreases current@.len(),
    {
        let p = match path_parent(current.as_str()) {
            Some(p) => p,
            None => {
                assert(ancestors(current@, fuel) == Seq::<Seq<char>>::empty());
                assert(walked + Seq::<Seq<char>>::empty() == walked);
                break;
            },
        };
        let ps = replace_backslashes(p.as_str());
        if ps.as_str().is_empty() || ps == String::from_str("/") {
            assert(ancestors(current@, fuel) == Seq::<Seq<char>>::empty());
            assert(walked + Seq::<Seq<char>>::empty() == walked);
            break;
        }
        proof {
            assert(ancestors(current@, fuel) == seq![ps@] + ancestors(p@, (fuel - 1) as nat));
            assert(walked + (seq![ps@] + ancestors(p@, (fuel - 1) as nat)) == walked.push(ps@) + ancestors(p@, (fuel - 1) as nat));
            assert forall|x: Seq<char>| walked.push(ps@).contains(x) <==> (walked.contains(x) || x == ps@) by {
                if walked.push(ps@).contains(x) {
                    let k = choose|k: int| 0 <= k < walked.len() + 1 && walked.push(ps@)[k] == x;
                    if k < walked.len() {
                        assert(walked[k] == x);
                    }
                }
                if walked.contains(x) {
                    let k = choose|k: int| 0 <= k < walked.len() && walked[k] == x;
                    assert(walked.push(ps@)[k] == x);
                }
                if x == ps@ {
                    assert(walked.push(ps@)[walked.len() as int] == x);
                }
            }
        }
        add_unique(all, ps);
        proof {
            walked = walked.push(ps@);
            fuel = (fuel - 1) as nat;
        }
        current = p;
    }
}

/// The set of folders `all` lists.
pub open spec fn listed(all: Seq<Seq<char>>) -> Set<Seq<char>> {
    Set::new(|x: Seq<char>| all.contains(x))
}

pub open spec fn batches_view(b: Seq<Vec<String>>) -> Seq<Seq<Seq<char>>> {
    b.map_values(|v: Vec<String>| strs_view(v@))
}

/// All batches one after the other.
pub open spec fn flat(b: Seq<Seq<Seq<char>>>) -> Seq<Seq<char>>
    decreases b.len(),
{
    if b.len() == 0 {
        Seq::empty()
    } else {
        flat(b.drop_last()) + b.last()
    }
}

proof fn lemma_concat_contains(a: Seq<Seq<char>>, c: Seq<Seq<char>>, x: Seq<char>)
    ensures
        (a + c).contains(x) <==> (a.contains(x) || c.contains(x)),
{
    if (a + c).contains(x) {
        let i = choose|i: int| 0 <= i < (a + c).len() && (a + c)[i] == x;
        if i < a.len() {
            assert(a[i] == x);
        } else {
            assert(c[i - a.len()] == x);
        }
    }
    if a.contains(x) {
        let i = choose|i: int| 0 <= i < a.len() && a[i] == x;
        assert((a + c)[i] == x);
    }
    if c.contains(x) {
        let i = choose|i: int| 0 <= i < c.len() && c[i] == x;
        assert((a + c)[a.len() + i] == x);
    }
}

/// The elements of `sa` at depth `d`, order kept.
fn filter_depth(all: &Vec<String>, depths: &Vec<usize>, d: usize) -> (r: Vec<String>)
    requires
        depths@.len() == all@.len(),
        no_dups(strs_view(all@)),
        forall|j: int| 0 <= j < all@.len() ==> #[trigger] depths@[j] == depth(strs_view(all@)[j]),
    ensures
        no_dups(strs_view(r@)),
        forall|m: int| 0 <= m < r@.len() ==> depth(#[trigger] strs_view(r@)[m]) == d,
        forall|x: Seq<char>| strs_view(r@).contains(x) <==> (strs_view(all@).contains(x) && depth(x) == d),
{
    let ghost sa = strs_view(all@);
    let mut r: Vec<String> = Vec::new();
    for i in 0..all.len()
        invariant
            sa == strs_view(all@),
            depths@.len() == all@.len(),
            no_dups(sa),
            forall|j: int| 0 <= j < all@.len() ==> #[trigger] depths@[j] == depth(sa[j]),
            no_dups(strs_view(r@)),
            forall|m: int| 0 <= m < r@.len() ==> depth(#[trigger] strs_view(r@)[m]) == d,
            forall|x: Seq<char>| strs_view(r@).contains(x) <==> (sa.subrange(0, i as int).contains(x) && depth(x) == d),
    {
        let ghost before = strs_view(r@);
        let ghost pre = sa.subrange(0, i as int);
        assert(sa.subrange(0, i + 1) == pre.push(sa[i as int]));
        proof {
            lemma_concat_contains(pre, seq![sa[i as int]], sa[i as int]);
            assert forall|x: Seq<char>| sa.subrange(0, i + 1).contains(x) <==> (pre.contains(x) || x == sa[i as int]) by {
                lemma_concat_contains(pre, seq![sa[i as int]], x);
                assert(pre.push(sa[i as int]) == pre + seq![sa[i as int]]);
                if seq![sa[i as int]].contains(x) {
                    let k = choose|k: int| 0 <= k < 1 && seq![sa[i as int]][k] == x;
                }
                if x == sa[i as int] {
                    assert(seq![sa[i as int]][0] == x);
                }
            }
        }
        if depths[i] == d {
            assert(!pre.contains(sa[i as int])) by {
                if pre.contains(sa[i as int]) {
                    let j = choose|j: int| 0 <= j < pre.len() && pre[j] == sa[i as int];
                    assert(sa[j] == sa[i as int]);
                }
            }
            r.push(all[i].clone());
            assert(strs_view(r@) == before.push(sa[i as int]));
            proof {
                lemma_concat_contains(before, seq![sa[i as int]], sa[i as int]);
                assert(before.push(sa[i as int]) == before + seq![sa[i as int]]);
                assert forall|x: Seq<char>| strs_view(r@).contains(x) <==> (before.contains(x) || x == sa[i as int]) by {
                    lemma_concat_contains(before, seq![sa[i as int]], x);
                    if seq![sa[i as int]].contains(x) {
                        let k = choose|k: int| 0 <= k < 1 && seq![sa[i as int]][k] == x;
                    }
                    if x == sa[i as int] {
                        assert(seq![sa[i as int]][0] == x);
                    }
                }
            }
        }
    }
    assert(sa.subrange(0, all@.len() as int) == sa);
    r
}

/// The folders of `all` grouped by depth, shallowest first.
fn batch_by_depth(all: &Vec<String>) -> (b: Vec<Vec<String>>)
    requires
        no_dups(strs_view(all@)),
    ensures
        depth_batches(batches_view(b@), listed(strs_view(all@))),
{
    let ghost sa = strs_view(all@);
    let mut depths: Vec<usize> = Vec::new();
    let mut maxd: usize = 0;
    for i in 0..all.len()
        invariant
            depths@.len() == i,
            sa == strs_view(all@),
            forall|j: int| 0 <= j < i ==> #[trigger] depths@[j] == depth(sa[j]) && depths@[j] <= maxd,
    {
        let d = slash_count(&all[i]);
        depths.push(d);
        if d > maxd {
            maxd = d;
        }
    }
    let mut b: Vec<Vec<String>> = Vec::new();
    let mut d: usize = 0;
    loop
        invariant_except_break
            d <= maxd,
            forall|k: int| 0 <= k < b@.len() ==> depth((#[trigger] batches_view(b@)[k])[0]) < d,
            forall|x: Seq<char>| flat(batches_view(b@)).contains(x) <==> (sa.contains(x) && depth(x) < d),
        invariant
            depths@.len() == sa.len(),
            sa == strs_view(all@),
            no_dups(sa),
            forall|j: int| 0 <= j < sa.len() ==> #[trigger] depths@[j] == depth(sa[j]) && depths@[j] <= maxd,
            forall|k: int| 0 <= k < b@.len() ==> (#[trigger] batches_view(b@)[k]).len() > 0 && no_dups(batches_view(b@)[k]),
            forall|k: int, j: int| 0 <= k < b@.len() && 0 <= j < batches_view(b@)[k].len() ==> depth(#[trigger] batches_view(b@)[k][j]) == depth(batches_view(b@)[k][0]),
            forall|k1: int, k2: int| 0 <= k1 < k2 < b@.len() ==> depth(#[trigger] batches_view(b@)[k1][0]) < depth(#[trigger] batches_view(b@)[k2][0]),
        ensures
            forall|x: Seq<char>| flat(batches_view(b@)).contains(x) <==> sa.contains(x),
        decreases maxd - d,
    {
        let batch = filter_depth(all, &depths, d);
        let ghost bv = batches_view(b@);
        let ghost nb = strs_view(batch@);
        assert forall|x: Seq<char>| nb.contains(x) <==> (sa.contains(x) && depth(x) == d) by {}
        if batch.len() > 0 {
            b.push(batch);
            assert(batches_view(b@) == bv.push(nb));
            assert(batches_view(b@).drop_last() == bv);
            assert(flat(batches_view(b@)) == flat(bv) + nb);
            assert forall|x: Seq<char>| flat(batches_view(b@)).contains(x) <==> (sa.contains(x) && depth(x) < d + 1) by {
                lemma_concat_contains(flat(bv), nb, x);
                assert(flat(bv).contains(x) <==> (sa.contains(x) && depth(x) < d));
            }
            assert(depth(nb[0]) == d);
        } else {
            assert(nb.len() == 0);
            assert(batches_view(b@) == bv);
            assert forall|x: Seq<char>| flat(batches_view(b@)).contains(x) <==> (sa.contains(x) && depth(x) < d + 1) by {
                assert(flat(bv).contains(x) <==> (sa.contains(x) && depth(x) < d));
                if sa.contains(x) && depth(x) == d {
                    assert(nb.contains(x));
                    let m = choose|m: int| 0 <= m < nb.len() && nb[m] == x;
                    assert(false);
                }
            }
        }
        if d == maxd {
            assert forall|x: Seq<char>| flat(batches_view(b@)).contains(x) <==> sa.contains(x) by {
                if sa.contains(x) {
                    let j = choose|j: int| 0 <= j < sa.len() && sa[j] == x;
                    assert(depths@[j] <= maxd);
                }
            }
            break;
        }
        let ghost fb = flat(batches_view(b@));
        assert(forall|x: Seq<char>| fb.contains(x) <==> (sa.contains(x) && depth(x) < d + 1));
        d = d + 1;
        assert(forall|x: Seq<char>| fb.contains(x) <==> (sa.contains(x) && depth(x) < d));
    }
    b
}

/// The folders listed in `all`, without the root `/`.
fn without_root(all: &Vec<String>) -> (r: Vec<String>)
    requires
        no_dups(strs_view(all@)),
    ensures
        no_dups(strs_view(r@)),
        forall|x: Seq<char>| strs_view(r@).contains(x) <==> (strs_view(all@).contains(x) && x != "/"@),
{
    let root = String::from_str("/");
    let mut r: Vec<String> = Vec::new();
    for i in 0..all.len()
        invariant
            root@ == "/"@,
            no_dups(strs_view(all@)),
            no_dups(strs_view(r@)),
            forall|x: Seq<char>| strs_view(r@).contains(x) <==> (strs_view(all@).subrange(0, i as int).contains(x) && x != "/"@),
    {
        let ghost sa = strs_view(all@);
        let ghost pre = sa.subrange(0, i as int);
        let ghost before = strs_view(r@);
        assert(sa.subrange(0, i + 1) == pre + seq![sa[i as int]]);
        proof {
            assert forall|x: Seq<char>| sa.subrange(0, i + 1).contains(x) <==> (pre.contains(x) || x == sa[i as int]) by {
                lemma_concat_contains(pre, seq![sa[i as int]], x);
                if seq![sa[i as int]].contains(x) {
                    let k = choose|k: int| 0 <= k < 1 && seq![sa[i as int]][k] == x;
                }
                if x == sa[i as int] {
                    assert(seq![sa[i as int]][0] == x);
                }
            }
        }
        if all[i] != root {
            assert(sa[i as int] != "/"@);
            assert(!pre.contains(sa[i as int])) by {
                if pre.contains(sa[i as int]) {
                    let j = choose|j: int| 0 <= j < pre.len() && pre[j] == sa[i as int];
                    assert(sa[j] == sa[i as int]);
                }
            }
            assert(!before.contains(sa[i as int]));
            r.push(all[i].clone());
            assert(strs_view(r@) == before + seq![sa[i as int]]);
            assert forall|x: Seq<char>| strs_view(r@).contains(x) <==> (before.contains(x) || x == sa[i as int]) by {
                lemma_concat_contains(before, seq![sa[i as int]], x);
                if seq![sa[i as int]].contains(x) {
                    let k = choose|k: int| 0 <= k < 1 && seq![sa[i as int]][k] == x;
                }
                if x == sa[i as int] {
                    assert(seq![sa[i as int]][0] == x);
                }
            }
            assert forall|x: Seq<char>| strs_view(r@).contains(x) <==> (sa.subrange(0, i + 1).contains(x) && x != "/"@) by {
                assert(before.contains(x) <==> (pre.contains(x) && x != "/"@));
                assert(sa.subrange(0, i + 1).contains(x) <==> (pre.contains(x) || x == sa[i as int]));
            }
        } else {
            assert(sa[i as int] == "/"@);
            assert forall|x: Seq<char>| strs_view(r@).contains(x) <==> (sa.subrange(0, i + 1).contains(x) && x != "/"@) by {
                assert(strs_view(r@).contains(x) <==> (pre.contains(x) && x != "/"@));
                assert(sa.subrange(0, i + 1).contains(x) <==> (pre.contains(x) || x == sa[i as int]));
            }
        }
        assert(forall|x: Seq<char>| strs_view(r@).contains(x) <==> (sa.subrange(0, i + 1).contains(x) && x != "/"@));
    }
    assert(strs_view(all@).subrange(0, all@.len() as int) == strs_view(all@));
    r
}

/// Plans the upload of the local folder `local_root`, walked into `entries`,
/// under the remote folder `remote_base`: the `(local file, remote folder)`
/// uploads in walk order, and the remote folders to create (each directory
/// walked, each file's folder, and all their ancestors but the root) in
/// batches of equal depth, shallowest first. Fails when the local root has
/// no final name.
pub fn plan_upload_tree(local_root: &str, remote_base: &str, entries: &Vec<WalkEntry>) -> (r: Result<
    (Vec<(String, String)>, Vec<Vec<String>>),
    PCloudError,
>)
    ensures
        (spec_path_file_name(local_root@) is None) <==> r is Err,
        r matches Err(e) ==> (e matches PCloudError::InvalidPath(m) && m@ == "Invalid folder name"@),
        r matches Ok(p) ==> pairs_view(p.0@) == tree_uploads(
            entries_view(entries@),
            remote_base@,
            spec_path_file_name(local_root@)->0,
        ),
        r matches Ok(p) ==> depth_batches(
            batches_view(p.1@),
            with_ancestors(
                tree_folders(entries_view(entries@), remote_base@, spec_path_file_name(local_root@)->0),
            ).remove("/"@),
        ),
{
    let folder = match path_file_name(local_root) {
        Some(f) => f,
        None => {
            return Err(PCloudError::InvalidPath(String::from_str("Invalid folder name")));
        },
    };
    let ghost ev = entries_view(entries@);
    let ghost base = remote_base@;
    let ghost fv = folder@;
    let base_trim = trim_end_slashes(remote_base);
    let mut files: Vec<(String, String)> = Vec::new();
    let mut f0: Vec<String> = Vec::new();
    for i in 0..entries.len()
        invariant
            ev == entries_view(entries@),
            base == remote_base@,
            fv == folder@,
            base_trim@ == trim_end_slash(base),
            pairs_view(files@) == tree_uploads(ev.subrange(0, i as int), base, fv),
            strs_view(f0@) == tree_folders(ev.subrange(0, i as int), base, fv),
    {
        assert(ev.subrange(0, i + 1).drop_last() == ev.subrange(0, i as int));
        let e = &entries[i];
        if !e.relative.as_str().is_empty() {
            let rel = replace_backslashes(e.relative.as_str());
            let mut full = base_trim.clone();
            full.append("/");
            full.append(folder.as_str());
            full.append("/");
            full.append(rel.as_str());
            assert(full@ == entry_remote(base, fv, e.relative@));
            if e.is_dir {
                let ghost before = strs_view(f0@);
                f0.push(full);
                assert(strs_view(f0@) == before.push(entry_remote(base, fv, e.relative@)));
            } else if e.is_file {
                let parent = match path_parent(full.as_str()) {
                    Some(p) => replace_backslashes(p.as_str()),
                    None => String::from_str(remote_base),
                };
                assert(parent@ == file_parent(base, full@));
                let ghost before = strs_view(f0@);
                let ghost fbefore = pairs_view(files@);
                f0.push(parent.clone());
                assert(strs_view(f0@) == before.push(parent@));
                files.push((e.path.clone(), parent));
                assert(pairs_view(files@) == fbefore.push((e.path@, file_parent(base, full@))));
            }
        }
    }
    assert(ev.subrange(0, entries@.len() as int) == ev);
    let ghost folders = strs_view(f0@);
    let mut all: Vec<String> = Vec::new();
    for i in 0..f0.len()
        invariant
            folders == strs_view(f0@),
            no_dups(strs_view(all@)),
            forall|x: Seq<char>| strs_view(all@).contains(x) <==> with_ancestors(folders.subrange(0, i as int)).contains(x),
    {
        let ghost pre = folders.subrange(0, i as int);
        assert(folders.subrange(0, i + 1).drop_last() == pre);
        assert(folders.subrange(0, i + 1).last() == folders[i as int]);
        add_unique(&mut all, f0[i].clone());
        add_ancestors(&mut all, &f0[i]);
        assert forall|x: Seq<char>| strs_view(all@).contains(x) <==> with_ancestors(folders.subrange(0, i + 1)).contains(x) by {
            assert(ancestors(folders[i as int], folders[i as int].len()).to_set().contains(x) <==> ancestors(folders[i as int], folders[i as int].len()).contains(x));
        }
    }
    assert(folders.subrange(0, f0@.len() as int) == folders);
    let nonroot = without_root(&all);
    let batches = batch_by_depth(&nonroot);
    assert(listed(strs_view(nonroot@)) =~= with_ancestors(folders).remove("/"@));
    Ok((files, batches))
}

proof fn lemma_folders_cover_uploads(e: Seq<WalkEntryView>, base: Seq<char>, folder: Seq<char>)
    ensures
        forall|k: int| 0 <= k < tree_uploads(e, base, folder).len() ==> tree_folders(e, base, folder).contains(
            #[trigger] tree_uploads(e, base, folder)[k].1,
        ),
    decreases e.len(),
{
    if e.len() > 0 {
        lemma_folders_cover_uploads(e.drop_last(), base, folder);
        let pu = tree_uploads(e.drop_last(), base, folder);
        let pf = tree_folders(e.drop_last(), base, folder);
        let u = tree_uploads(e, base, folder);
        let f = tree_folders(e, base, folder);
        assert forall|k: int| 0 <= k < u.len() implies f.contains(#[trigger] u[k].1) by {
            if k < pu.len() {
                assert(u[k] == pu[k]);
                let j = choose|j: int| 0 <= j < pf.len() && pf[j] == pu[k].1;
                assert(f[j] == pf[j]);
            } else {
                assert(f.last() == u[k].1);
            }
        }
    }
}

proof fn lemma_with_ancestors_contains(f: Seq<Seq<char>>)
    ensures
        forall|j: int| 0 <= j < f.len() ==> with_ancestors(f).contains(#[trigger] f[j]),
    decreases f.len(),
{
    if f.len() > 0 {
        lemma_with_ancestors_contains(f.drop_last());
        assert forall|j: int| 0 <= j < f.len() implies with_ancestors(f).contains(#[trigger] f[j]) by {
            if j < f.len() - 1 {
                assert(f.drop_last()[j] == f[j]);
            }
        }
    }
}

/// Every file of a planned upload tree goes to the root or to a folder
/// that the plan creates beforehand.
pub proof fn lemma_upload_folders_planned(e: Seq<WalkEntryView>, base: Seq<char>, folder: Seq<char>, k: int)
    requires
        0 <= k < tree_uploads(e, base, folder).len(),
    ensures
        tree_uploads(e, base, folder)[k].1 == "/"@ || with_ancestors(tree_folders(e, base, folder)).remove(
            "/"@,
        ).contains(tree_uploads(e, base, folder)[k].1),
{
    lemma_folders_cover_uploads(e, base, folder);
    let f = tree_folders(e, base, folder);
    let x = tree_uploads(e, base, folder)[k].1;
    assert(f.contains(x));
    let j = choose|j: int| 0 <= j < f.len() && f[j] == x;
    lemma_with_ancestors_contains(f);
    assert(with_ancestors(f).contains(f[j]));
}

/// The local folder under which a remote tree is downloaded: the local base
/// joined with the remote root's final name (`download` when it has none).
pub open spec fn download_dest_base(remote_root: Seq<char>, local_base: Seq<char>) -> Seq<char> {
    spec_path_push(
        local_base,
        match spec_path_file_name(remote_root) {
            Some(n) => n,
            None => "download"@,
        },
    )
}

/// The part of `folder` below `root` (all of `folder` when `root` is not a
/// prefix of it), without leading slashes.
pub open spec fn suffix_below(folder: Seq<char>, root: Seq<char>) -> Seq<char> {
    trim_start_slash(
        if starts_with(folder, root) {
            folder.skip(root.len() as int)
        } else {
            folder
        },
    )
}

/// The walk of a remote folder tree for download. Folders wait on a stack;
/// each listed folder contributes its files, `(remote path, local folder)`,
/// and pushes its subfolders.
pub struct DownloadWalk {
    remote_root: String,
    local_dest_base: String,
    queue: Vec<String>,
    files: Vec<(String, String)>,
    failed_folders: Vec<(String, String)>,
}

pub struct DownloadWalkView {
    pub remote_root: Seq<char>,
    pub local_dest_base: Seq<char>,
    pub queue: Seq<Seq<char>>,
    pub files: Seq<(Seq<char>, Seq<char>)>,
    pub failed_folders: Seq<(Seq<char>, Seq<char>)>,
}

impl View for DownloadWalk {
    type V = DownloadWalkView;

    closed spec fn view(&self) -> DownloadWalkView {
        DownloadWalkView {
            remote_root: self.remote_root@,
            local_dest_base: self.local_dest_base@,
            queue: strs_view(self.queue@),
            files: pairs_view(self.files@),
            failed_folders: pairs_view(self.failed_folders@),
        }
    }
}

/// The subfolders of a listing, as remote paths under `folder`, in order.
pub open spec fn listed_subfolders(folder: Seq<char>, items: Seq<FileItemView>) -> Seq<Seq<char>>
    decreases items.len(),
{
    if items.len() == 0 {
        Seq::empty()
    } else if items.last().isfolder {
        listed_subfolders(folder, items.drop_last()).push(spec_join_remote(folder, items.last().name))
    } else {
        listed_subfolders(folder, items.drop_last())
    }
}

/// The files of a listing, `(remote path, local folder)`, in order.
pub open spec fn listed_files(folder: Seq<char>, local_dir: Seq<char>, items: Seq<FileItemView>) -> Seq<(Seq<char>, Seq<char>)>
    decreases items.len(),
{
    if items.len() == 0 {
        Seq::empty()
    } else if items.last().isfolder {
        listed_files(folder, local_dir, items.drop_last())
    } else {
        listed_files(folder, local_dir, items.drop_last()).push((spec_join_remote(folder, items.last().name), local_dir))
    }
}

fn strip_root(folder: &str, root: &str) -> (r: String)
    ensures
        r@ == suffix_below(folder@, root@),
{
    let f = str_chars(folder);
    let is_prefix = str_starts_with(folder, root);
    let start: usize = if is_prefix { str_chars(root).len() } else { 0 };
    let mut i = start;
    proof {
        if is_prefix {
            assert(f@.skip(root@.len() as int) == f@.subrange(start as int, f@.len() as int));
        } else {
            assert(f@ == f@.subrange(0, f@.len() as int));
        }
    }
    while i < f.len() && f[i] == '/'
        invariant
            f@ == folder@,
            start <= i <= f@.len(),
            trim_start_slash(f@.subrange(i as int, f@.len() as int)) == suffix_below(folder@, root@),
        decreases f@.len() - i,
    {
        assert(f@.subrange(i as int, f@.len() as int).drop_first() == f@.subrange(i + 1, f@.len() as int));
        i = i + 1;
    }
    let mut w: Vec<char> = Vec::new();
    let mut j = i;
    while j < f.len()
        invariant
            f@ == folder@,
            i <= j <= f@.len(),
            w@ == f@.subrange(i as int, j as int),
        decreases f@.len() - j,
    {
        w.push(f[j]);
        j = j + 1;
    }
    string_of_chars(w.as_slice())
}

impl DownloadWalk {
    /// Starts the walk of `remote_root`, to be downloaded under `local_base`.
    pub fn new(remote_root: &str, local_base: &str) -> (w: Self)
        ensures
            w@.remote_root == remote_root@,
            w@.local_dest_base == download_dest_base(remote_root@, local_base@),
            w@.queue == seq![remote_root@],
            w@.files.len() == 0,
            w@.failed_folders.len() == 0,
    {
        let name = match path_file_name(remote_root) {
            Some(n) => n,
            None => String::from_str("download"),
        };
        assert(name@.len() == 0 || name@[0] != '/') by {
            reveal_strlit("download");
        }
        let base = path_push(local_base, name.as_str());
        let mut queue: Vec<String> = Vec::new();
        queue.push(String::from_str(remote_root));
        let w = DownloadWalk {
            remote_root: String::from_str(remote_root),
            local_dest_base: base,
            queue,
            files: Vec::new(),
            failed_folders: Vec::new(),
        };
        assert(strs_view(w.queue@) == seq![remote_root@]);
        w
    }

    /// The next folder to list: the one pushed last, taken off the stack;
    /// `None` when the walk is done.
    pub fn next_folder(&mut self) -> (f: Option<String>)
        ensures
            old(self)@.queue.len() == 0 ==> f is None && final(self)@ == old(self)@,
            old(self)@.queue.len() > 0 ==> (f matches Some(x) && x@ == old(self)@.queue.last()
                && final(self)@ == (DownloadWalkView { queue: old(self)@.queue.drop_last(), ..old(self)@ })),
    {
        let f = self.queue.pop();
        proof {
            if old(self)@.queue.len() > 0 {
                assert(strs_view(self.queue@) == old(self)@.queue.drop_last());
            }
        }
        f
    }

    /// Records the listing of `folder`: its subfolders go on the stack and
    /// its files join the download list, each with the local folder that
    /// mirrors `folder`, which is returned so that the caller can create it.
    pub fn record_listing(&mut self, folder: &str, items: &Vec<FileItem>) -> (dir: String)
        ensures
            dir@ == spec_path_push(old(self)@.local_dest_base, suffix_below(folder@, old(self)@.remote_root)),
            final(self)@ == (DownloadWalkView {
                queue: old(self)@.queue + listed_subfolders(folder@, items_view(items@)),
                files: old(self)@.files + listed_files(folder@, dir@, items_view(items@)),
                ..old(self)@
            }),
    {
        let suffix = strip_root(folder, self.remote_root.as_str());
        proof {
            let root = self.remote_root@;
            lemma_trim_start_slash_first(
                if starts_with(folder@, root) { folder@.skip(root.len() as int) } else { folder@ },
            );
        }
        let dir = path_push(self.local_dest_base.as_str(), suffix.as_str());
        let ghost iv = items_view(items@);
        let ghost q0 = strs_view(self.queue@);
        let ghost f0 = pairs_view(self.files@);
        for i in 0..items.len()
            invariant
                iv == items_view(items@),
                self.remote_root@ == old(self)@.remote_root,
                self.local_dest_base@ == old(self)@.local_dest_base,
                pairs_view(self.failed_folders@) == old(self)@.failed_folders,
                q0 == old(self)@.queue,
                f0 == old(self)@.files,
                strs_view(self.queue@) == q0 + listed_subfolders(folder@, iv.subrange(0, i as int)),
                pairs_view(self.files@) == f0 + listed_files(folder@, dir@, iv.subrange(0, i as int)),
        {
            let ghost pre = iv.subrange(0, i as int);
            assert(iv.subrange(0, i + 1).drop_last() == pre);
            let item = &items[i];
            let path = join_remote(folder, item.name.as_str());
            if item.isfolder {
                let ghost before = strs_view(self.queue@);
                self.queue.push(path);
                assert(strs_view(self.queue@) == before.push(spec_join_remote(folder@, item.name@)));
            } else {
                let ghost before = pairs_view(self.files@);
                self.files.push((path, dir.clone()));
                assert(pairs_view(self.files@) == before.push((spec_join_remote(folder@, item.name@), dir@)));
            }
        }
        assert(iv.subrange(0, items@.len() as int) == iv);
        dir
    }

    /// Records that `folder` could not be listed, with the reason.
    pub fn record_failure(&mut self, folder: String, reason: String)
        ensures
            final(self)@ == (DownloadWalkView {
                failed_folders: old(self)@.failed_folders.push((folder@, reason@)),
                ..old(self)@
            }),
    {
        let ghost before = pairs_view(self.failed_folders@);
        self.failed_folders.push((folder, reason));
        assert(pairs_view(self.failed_folders@) == before.push((folder@, reason@)));
    }

    /// The folders that could not be listed so far, with the reasons.
    pub fn failed_folders(&self) -> (r: &Vec<(String, String)>)
        ensures
            pairs_view(r@) == self@.failed_folders,
    {
        &self.failed_folders
    }

    /// The files found so far, `(remote path, local folder)`.
    pub fn into_files(self) -> (r: Vec<(String, String)>)
        ensures
            pairs_view(r@) == self@.files,
    {
        self.files
    }
}

/// A remote folder tree as a download walk meets it: each folder with its
/// listing (`None` when listing it fails) and its subtrees, one for each
/// subfolder of the listing, in listing order.
pub struct RemoteTree {
    pub listing: Option<Seq<FileItemView>>,
    pub subs: Seq<RemoteTree>,
}

/// `t` is the tree of `folder`: a folder that fails to list has no
/// subtrees, and one that lists has a matching subtree for each subfolder.
pub open spec fn tree_matches(t: RemoteTree, folder: Seq<char>) -> bool
    decreases t,
{
    match t.listing {
        None => t.subs.len() == 0,
        Some(items) => forest_matches(t.subs, listed_subfolders(folder, items)),
    }
}

/// Each tree of `f` is the tree of the folder at the same place in `folders`.
pub open spec fn forest_matches(f: Seq<RemoteTree>, folders: Seq<Seq<char>>) -> bool
    decreases f,
{
    &&& f.len() == folders.len()
    &&& f.len() > 0 ==> {
        &&& tree_matches(f[f.len() - 1], folders[f.len() - 1])
        &&& forest_matches(f.subrange(0, f.len() - 1), folders.drop_last())
    }
}

/// The local folder that mirrors `folder` of a walk of `root` into `base`.
pub open spec fn dest_dir(folder: Seq<char>, root: Seq<char>, base: Seq<char>) -> Seq<char> {
    spec_path_push(base, suffix_below(folder, root))
}

/// The files a download walk finds in the tree of `folder`, in the order it
/// finds them: the folder's own files, then its subtrees from the last
/// listed to the first, as a stack hands them out. A folder that fails to
/// list gives none.
pub open spec fn tree_files(t: RemoteTree, folder: Seq<char>, root: Seq<char>, base: Seq<char>) -> Seq<
    (Seq<char>, Seq<char>),
>
    decreases t,
{
    match t.listing {
        None => Seq::empty(),
        Some(items) => listed_files(folder, dest_dir(folder, root, base), items) + forest_files(
            t.subs,
            listed_subfolders(folder, items),
            root,
            base,
        ),
    }
}

/// The files of the trees of `f`, the last first.
pub open spec fn forest_files(f: Seq<RemoteTree>, folders: Seq<Seq<char>>, root: Seq<char>, base: Seq<char>) -> Seq<
    (Seq<char>, Seq<char>),
>
    decreases f,
{
    if f.len() == 0 {
        Seq::empty()
    } else {
        tree_files(f[f.len() - 1], folders[f.len() - 1], root, base) + forest_files(
            f.subrange(0, f.len() - 1),
            folders.drop_last(),
            root,
            base,
        )
    }
}

/// The folders of the tree of `folder` that fail to list, in the order the
/// walk meets them.
pub open spec fn tree_failed(t: RemoteTree, folder: Seq<char>) -> Seq<Seq<char>>
    decreases t,
{
    match t.listing {
        None => seq![folder],
        Some(items) => forest_failed(t.subs, listed_subfolders(folder, items)),
    }
}

/// The failing folders of the trees of `f`, the last first.
pub open spec fn forest_failed(f: Seq<RemoteTree>, folders: Seq<Seq<char>>) -> Seq<Seq<char>>
    decreases f,
{
    if f.len() == 0 {
        Seq::empty()
    } else {
        tree_failed(f[f.len() - 1], folders[f.len() - 1]) + forest_failed(
            f.subrange(0, f.len() - 1),
            folders.drop_last(),
        )
    }
}

/// The trees `f` paired with their folders.
pub open spec fn with_folders(f: Seq<RemoteTree>, folders: Seq<Seq<char>>) -> Seq<(RemoteTree, Seq<char>)> {
    Seq::new(f.len(), |k: int| (f[k], folders[k]))
}

/// The files still to come from the waiting trees, the top one first.
pub open spec fn pending_files(s: Seq<(RemoteTree, Seq<char>)>, root: Seq<char>, base: Seq<char>) -> Seq<
    (Seq<char>, Seq<char>),
> {
    forest_files(s.map_values(|e: (RemoteTree, Seq<char>)| e.0), s.map_values(|e: (RemoteTree, Seq<char>)| e.1), root, base)
}

/// The failing folders still to come from the waiting trees.
pub open spec fn pending_failed(s: Seq<(RemoteTree, Seq<char>)>) -> Seq<Seq<char>> {
    forest_failed(s.map_values(|e: (RemoteTree, Seq<char>)| e.0), s.map_values(|e: (RemoteTree, Seq<char>)| e.1))
}

/// The folders of a list of `(folder, reason)` pairs.
pub open spec fn failed_names(p: Seq<(Seq<char>, Seq<char>)>) -> Seq<Seq<char>> {
    p.map_values(|x: (Seq<char>, Seq<char>)| x.0)
}

/// A download walk follows the tree `root` with the waiting trees `s` (each
/// with its folder) when its stack lists their folders, each is the tree of
/// its folder, and what it has found, followed by what is still to come, is
/// what the whole tree gives.
pub open spec fn download_follows(v: DownloadWalkView, s: Seq<(RemoteTree, Seq<char>)>, root: RemoteTree) -> bool {
    &&& v.queue == s.map_values(|e: (RemoteTree, Seq<char>)| e.1)
    &&& forall|i: int| 0 <= i < s.len() ==> tree_matches(#[trigger] s[i].0, s[i].1)
    &&& v.files + pending_files(s, v.remote_root, v.local_dest_base) == tree_files(
        root,
        v.remote_root,
        v.remote_root,
        v.local_dest_base,
    )
    &&& failed_names(v.failed_folders) + pending_failed(s) == tree_failed(root, v.remote_root)
}

proof fn lemma_forest_matches(f: Seq<RemoteTree>, folders: Seq<Seq<char>>)
    requires
        forest_matches(f, folders),
    ensures
        f.len() == folders.len(),
        forall|i: int| 0 <= i < f.len() ==> tree_matches(#[trigger] f[i], folders[i]),
    decreases f.len(),
{
    if f.len() > 0 {
        let g = f.subrange(0, f.len() - 1);
        lemma_forest_matches(g, folders.drop_last());
        assert forall|i: int| 0 <= i < f.len() implies tree_matches(#[trigger] f[i], folders[i]) by {
            if i < f.len() - 1 {
                assert(g[i] == f[i]);
                assert(folders.drop_last()[i] == folders[i]);
            }
        }
    }
}

proof fn lemma_pending_split(s: Seq<(RemoteTree, Seq<char>)>, root: Seq<char>, base: Seq<char>)
    requires
        s.len() > 0,
    ensures
        pending_files(s, root, base) == tree_files(s.last().0, s.last().1, root, base) + pending_files(
            s.drop_last(),
            root,
            base,
        ),
        pending_failed(s) == tree_failed(s.last().0, s.last().1) + pending_failed(s.drop_last()),
{
    let f = s.map_values(|e: (RemoteTree, Seq<char>)| e.0);
    let fs = s.map_values(|e: (RemoteTree, Seq<char>)| e.1);
    assert(f.subrange(0, f.len() - 1) =~= s.drop_last().map_values(|e: (RemoteTree, Seq<char>)| e.0));
    assert(fs.drop_last() =~= s.drop_last().map_values(|e: (RemoteTree, Seq<char>)| e.1));
}

proof fn lemma_pending_pushed(
    a: Seq<(RemoteTree, Seq<char>)>,
    f: Seq<RemoteTree>,
    folders: Seq<Seq<char>>,
    root: Seq<char>,
    base: Seq<char>,
)
    requires
        f.len() == folders.len(),
    ensures
        pending_files(a + with_folders(f, folders), root, base) == forest_files(f, folders, root, base)
            + pending_files(a, root, base),
        pending_failed(a + with_folders(f, folders)) == forest_failed(f, folders) + pending_failed(a),
    decreases f.len(),
{
    let x = a + with_folders(f, folders);
    if f.len() == 0 {
        assert(x =~= a);
        assert(forest_files(f, folders, root, base) + pending_files(a, root, base) =~= pending_files(a, root, base));
        assert(forest_failed(f, folders) + pending_failed(a) =~= pending_failed(a));
    } else {
        let g = f.subrange(0, f.len() - 1);
        let gs = folders.drop_last();
        assert(x.drop_last() =~= a + with_folders(g, gs));
        lemma_pending_split(x, root, base);
        lemma_pending_pushed(a, g, gs, root, base);
        let t = tree_files(f[f.len() - 1], folders[f.len() - 1], root, base);
        assert(t + (forest_files(g, gs, root, base) + pending_files(a, root, base)) =~= (t + forest_files(
            g,
            gs,
            root,
            base,
        )) + pending_files(a, root, base));
        let u = tree_failed(f[f.len() - 1], folders[f.len() - 1]);
        assert(u + (forest_failed(g, gs) + pending_failed(a)) =~= (u + forest_failed(g, gs)) + pending_failed(a));
    }
}

/// The whole download walk, begun: a new walk of a tree that matches its
/// root follows it, with only the root waiting.
pub proof fn lemma_download_walk_start(v: DownloadWalkView, root: RemoteTree)
    requires
        v.queue == seq![v.remote_root],
        v.files.len() == 0,
        v.failed_folders.len() == 0,
        tree_matches(root, v.remote_root),
    ensures
        download_follows(v, seq![(root, v.remote_root)], root),
{
    let s = seq![(root, v.remote_root)];
    assert(s.map_values(|e: (RemoteTree, Seq<char>)| e.1) =~= seq![v.remote_root]);
    lemma_pending_split(s, v.remote_root, v.local_dest_base);
    assert(s.drop_last() =~= Seq::<(RemoteTree, Seq<char>)>::empty());
    let e = s.drop_last();
    assert(e.map_values(|e: (RemoteTree, Seq<char>)| e.0).len() == 0);
    assert(pending_files(e, v.remote_root, v.local_dest_base).len() == 0);
    assert(pending_failed(e).len() == 0);
    let tf = tree_files(root, v.remote_root, v.remote_root, v.local_dest_base);
    assert(v.files + pending_files(s, v.remote_root, v.local_dest_base) =~= tf);
    assert(failed_names(v.failed_folders) + pending_failed(s) =~= tree_failed(root, v.remote_root));
}

/// The whole download walk, a folder that lists: when the next folder is
/// taken and its listing, as the tree has it, is recorded, the walk follows
/// the tree with that folder replaced by its subtrees.
pub proof fn lemma_download_walk_listed(
    v: DownloadWalkView,
    w: DownloadWalkView,
    s: Seq<(RemoteTree, Seq<char>)>,
    root: RemoteTree,
)
    requires
        download_follows(v, s, root),
        s.len() > 0,
        s.last().0.listing is Some,
        w == (DownloadWalkView {
            queue: v.queue.drop_last() + listed_subfolders(s.last().1, s.last().0.listing->0),
            files: v.files + listed_files(
                s.last().1,
                dest_dir(s.last().1, v.remote_root, v.local_dest_base),
                s.last().0.listing->0,
            ),
            ..v
        }),
    ensures
        download_follows(
            w,
            s.drop_last() + with_folders(s.last().0.subs, listed_subfolders(s.last().1, s.last().0.listing->0)),
            root,
        ),
{
    let t = s.last().0;
    let folder = s.last().1;
    let items = t.listing->0;
    let ls = listed_subfolders(folder, items);
    let s0 = s.drop_last();
    let s2 = s0 + with_folders(t.subs, ls);
    let (r, b) = (v.remote_root, v.local_dest_base);
    assert(tree_matches(s[s.len() - 1].0, s[s.len() - 1].1));
    lemma_forest_matches(t.subs, ls);
    assert(w.queue =~= s2.map_values(|e: (RemoteTree, Seq<char>)| e.1));
    assert forall|i: int| 0 <= i < s2.len() implies tree_matches(#[trigger] s2[i].0, s2[i].1) by {
        if i < s0.len() {
            assert(s2[i] == s[i]);
        } else {
            assert(s2[i] == (t.subs[i - s0.len()], ls[i - s0.len()]));
        }
    }
    lemma_pending_split(s, r, b);
    lemma_pending_pushed(s0, t.subs, ls, r, b);
    let own = listed_files(folder, dest_dir(folder, r, b), items);
    let rest = forest_files(t.subs, ls, r, b);
    let p0 = pending_files(s0, r, b);
    assert((v.files + own) + (rest + p0) =~= v.files + ((own + rest) + p0));
}

/// The whole download walk, a folder that fails to list: when the next
/// folder is taken and its failure is recorded, the walk follows the tree
/// without it.
pub proof fn lemma_download_walk_failed(
    v: DownloadWalkView,
    w: DownloadWalkView,
    s: Seq<(RemoteTree, Seq<char>)>,
    root: RemoteTree,
    reason: Seq<char>,
)
    requires
        download_follows(v, s, root),
        s.len() > 0,
        s.last().0.listing is None,
        w == (DownloadWalkView {
            queue: v.queue.drop_last(),
            failed_folders: v.failed_folders.push((s.last().1, reason)),
            ..v
        }),
    ensures
        download_follows(w, s.drop_last(), root),
{
    let s0 = s.drop_last();
    let (r, b) = (v.remote_root, v.local_dest_base);
    assert(w.queue =~= s0.map_values(|e: (RemoteTree, Seq<char>)| e.1));
    assert forall|i: int| 0 <= i < s0.len() implies tree_matches(#[trigger] s0[i].0, s0[i].1) by {
        assert(s0[i] == s[i]);
    }
    lemma_pending_split(s, r, b);
    assert(pending_files(s, r, b) =~= pending_files(s0, r, b));
    assert(failed_names(w.failed_folders) =~= failed_names(v.failed_folders).push(s.last().1));
    assert(failed_names(w.failed_folders) + pending_failed(s0) =~= failed_names(v.failed_folders) + (seq![
        s.last().1,
    ] + pending_failed(s0)));
}

/// The whole download walk, ended: when no folder waits, the walk has found
/// every file of every folder that lists, each with the local folder that
/// mirrors its own, and has recorded every folder that fails to list, in
/// the order of [`tree_files`] and [`tree_failed`].
pub proof fn lemma_download_walk_end(v: DownloadWalkView, root: RemoteTree)
    requires
        download_follows(v, Seq::empty(), root),
    ensures
        v.files == tree_files(root, v.remote_root, v.remote_root, v.local_dest_base),
        failed_names(v.failed_folders) == tree_failed(root, v.remote_root),
{
    let e = Seq::<(RemoteTree, Seq<char>)>::empty();
    assert(e.map_values(|x: (RemoteTree, Seq<char>)| x.0).len() == 0);
    assert(v.files + pending_files(e, v.remote_root, v.local_dest_base) =~= v.files);
    assert(failed_names(v.failed_folders) + pending_failed(e) =~= failed_names(v.failed_folders));
}

/// After leading slashes are trimmed, what is left does not start with one.
pub proof fn lemma_trim_start_slash_first(s: Seq<char>)
    ensures
        trim_start_slash(s).len() == 0 || trim_start_slash(s)[0] != '/',
    decreases s.len(),
{
    if s.len() > 0 && s[0] == '/' {
        lemma_trim_start_slash_first(s.drop_first());
    }
}

} // verus!
