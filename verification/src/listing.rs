//! How the browser presents a folder listing: the items whose name contains
//! the search text (ignoring case), folders first, then ordered by the
//! chosen key and direction; items that compare equal keep their listing
//! order.
use vstd::prelude::*;

use crate::browser::{GuiState, SortBy, SortOrder};
use crate::text::{spec_to_lowercase, str_chars, to_lowercase};
use crate::types::{items_view, FileItem, FileItemView};

verus! {

/// Comparison of two texts character by character, by code point, a proper
/// prefix first: negative, zero or positive.
pub open spec fn text_order(a: Seq<char>, b: Seq<char>) -> int
    decreases a.len(),
{
    if a.len() == 0 {
        if b.len() == 0 { 0 } else { -1 }
    } else if b.len() == 0 {
        1
    } else if a[0] < b[0] {
        -1
    } else if a[0] > b[0] {
        1
    } else {
        text_order(a.drop_first(), b.drop_first())
    }
}

/// Comparison of optional texts, nothing first.
pub open spec fn opt_text_order(a: Option<Seq<char>>, b: Option<Seq<char>>) -> int {
    match (a, b) {
        (None, None) => 0,
        (None, Some(_)) => -1,
        (Some(_), None) => 1,
        (Some(x), Some(y)) => text_order(x, y),
    }
}

pub open spec fn num_order(a: u64, b: u64) -> int {
    if a < b { -1 } else if a > b { 1 } else { 0 }
}

/// Comparison of two items by the sort key: lower-cased name, size, or
/// modification date.
pub open spec fn key_order(a: FileItemView, b: FileItemView, by: SortBy) -> int {
    match by {
        SortBy::Name => text_order(spec_to_lowercase(a.name), spec_to_lowercase(b.name)),
        SortBy::Size => num_order(a.size, b.size),
        SortBy::Date => opt_text_order(a.modified, b.modified),
    }
}

/// Comparison of two items as listed: a folder before a file, else by the
/// key in the chosen direction.
pub open spec fn item_order(a: FileItemView, b: FileItemView, by: SortBy, order: SortOrder) -> int {
    if a.isfolder && !b.isfolder {
        -1
    } else if !a.isfolder && b.isfolder {
        1
    } else if order == SortOrder::Ascending {
        key_order(a, b, by)
    } else {
        -key_order(a, b, by)
    }
}

/// Item `i` of the listing comes before item `j`: it compares lower, or
/// equal and earlier in the listing.
pub open spec fn listed_before(l: Seq<FileItemView>, by: SortBy, order: SortOrder, i: int, j: int) -> bool {
    let c = item_order(l[i], l[j], by, order);
    c < 0 || (c == 0 && i < j)
}

/// `needle` occurs in `hay` at position `i`.
pub open spec fn occurs_at(hay: Seq<char>, needle: Seq<char>, i: int) -> bool {
    0 <= i && i + needle.len() <= hay.len() && hay.subrange(i, i + needle.len()) == needle
}

pub open spec fn occurs_in(hay: Seq<char>, needle: Seq<char>) -> bool {
    exists|i: int| #[trigger] occurs_at(hay, needle, i)
}

/// Whether an item is shown for the search text `filter`: always when the
/// filter is empty, else when its lower-cased name contains the lower-cased
/// filter.
pub open spec fn shown(item: FileItemView, filter: Seq<char>) -> bool {
    filter.len() == 0 || occurs_in(spec_to_lowercase(item.name), spec_to_lowercase(filter))
}

/// `o` lists, as positions in `l`, exactly the shown items, each once, in
/// presentation order.
pub open spec fn presents(l: Seq<FileItemView>, filter: Seq<char>, by: SortBy, order: SortOrder, o: Seq<int>) -> bool {
    &&& forall|k: int| 0 <= k < o.len() ==> 0 <= #[trigger] o[k] < l.len() && shown(l[o[k]], filter)
    &&& forall|i: int| 0 <= i < l.len() && shown(l[i], filter) ==> exists|k: int| 0 <= k < o.len() && #[trigger] o[k] == i
    &&& forall|k: int, m: int| 0 <= k < m < o.len() ==> listed_before(l, by, order, #[trigger] o[k], #[trigger] o[m])
}

// ---------------------------------------------------------------------------
// The comparisons are total preorders.
// ---------------------------------------------------------------------------

proof fn lemma_text_order_facts(a: Seq<char>, b: Seq<char>)
    ensures
        text_order(a, b) == -text_order(b, a),
        -1 <= text_order(a, b) <= 1,
        text_order(a, b) == 0 <==> a == b,
    decreases a.len(),
{
    if a.len() == 0 || b.len() == 0 {
        if a.len() != b.len() {
            assert(a.len() != b.len());
        } else {
            assert(a =~= b);
        }
    } else if a[0] != b[0] {
        assert(a[0] != b[0]);
    } else {
        lemma_text_order_facts(a.drop_first(), b.drop_first());
        assert(a =~= seq![a[0]] + a.drop_first());
        assert(b =~= seq![b[0]] + b.drop_first());
        if a == b {
            assert(a.drop_first() =~= b.drop_first());
        }
    }
}

proof fn lemma_text_order_trans(a: Seq<char>, b: Seq<char>, c: Seq<char>)
    ensures
        text_order(a, b) <= 0 && text_order(b, c) <= 0 ==> text_order(a, c) <= 0,
        text_order(a, b) < 0 && text_order(b, c) <= 0 ==> text_order(a, c) < 0,
        text_order(a, b) <= 0 && text_order(b, c) < 0 ==> text_order(a, c) < 0,
    decreases a.len(),
{
    lemma_text_order_facts(a, b);
    lemma_text_order_facts(b, c);
    lemma_text_order_facts(a, c);
    if a.len() > 0 && b.len() > 0 && c.len() > 0 {
        lemma_text_order_trans(a.drop_first(), b.drop_first(), c.drop_first());
    }
}

proof fn lemma_key_order_facts(a: FileItemView, b: FileItemView, c: FileItemView, by: SortBy)
    ensures
        key_order(a, b, by) == -key_order(b, a, by),
        -1 <= key_order(a, b, by) <= 1,
        key_order(a, b, by) <= 0 && key_order(b, c, by) <= 0 ==> key_order(a, c, by) <= 0,
        key_order(a, b, by) < 0 && key_order(b, c, by) <= 0 ==> key_order(a, c, by) < 0,
        key_order(a, b, by) <= 0 && key_order(b, c, by) < 0 ==> key_order(a, c, by) < 0,
{
    match by {
        SortBy::Name => {
            let (x, y, z) = (spec_to_lowercase(a.name), spec_to_lowercase(b.name), spec_to_lowercase(c.name));
            lemma_text_order_facts(x, y);
            lemma_text_order_trans(x, y, z);
        },
        SortBy::Size => {},
        SortBy::Date => {
            match (a.modified, b.modified, c.modified) {
                (Some(x), Some(y), Some(z)) => {
                    lemma_text_order_facts(x, y);
                    lemma_text_order_trans(x, y, z);
                },
                (Some(x), Some(y), None) => {
                    lemma_text_order_facts(x, y);
                },
                (None, Some(y), Some(z)) => {
                    lemma_text_order_facts(y, z);
                },
                (Some(x), None, Some(z)) => {
                    lemma_text_order_facts(x, z);
                },
                _ => {},
            }
        },
    }
}

proof fn lemma_item_order_facts(a: FileItemView, b: FileItemView, c: FileItemView, by: SortBy, order: SortOrder)
    ensures
        item_order(a, b, by, order) == -item_order(b, a, by, order),
        item_order(a, b, by, order) <= 0 && item_order(b, c, by, order) <= 0 ==> item_order(a, c, by, order) <= 0,
        item_order(a, b, by, order) < 0 && item_order(b, c, by, order) <= 0 ==> item_order(a, c, by, order) < 0,
        item_order(a, b, by, order) <= 0 && item_order(b, c, by, order) < 0 ==> item_order(a, c, by, order) < 0,
{
    lemma_key_order_facts(a, b, c, by);
    lemma_key_order_facts(c, b, a, by);
    lemma_key_order_facts(a, c, b, by);
    lemma_key_order_facts(c, a, b, by);
    lemma_key_order_facts(b, c, a, by);
    lemma_key_order_facts(b, a, c, by);
}

/// The presentation order is transitive.
pub proof fn lemma_listed_before_trans(l: Seq<FileItemView>, by: SortBy, order: SortOrder, i: int, j: int, k: int)
    requires
        0 <= i < l.len(),
        0 <= j < l.len(),
        0 <= k < l.len(),
        listed_before(l, by, order, i, j),
        listed_before(l, by, order, j, k),
    ensures
        listed_before(l, by, order, i, k),
{
    lemma_item_order_facts(l[i], l[j], l[k], by, order);
    lemma_item_order_facts(l[k], l[j], l[i], by, order);
    lemma_item_order_facts(l[i], l[k], l[j], by, order);
}

// ---------------------------------------------------------------------------
// Executable parts
// ---------------------------------------------------------------------------

fn text_order_of(a: &Vec<char>, b: &Vec<char>) -> (r: i8)
    ensures
        r as int == text_order(a@, b@),
{
    let mut i: usize = 0;
    assert(a@.skip(0) == a@ && b@.skip(0) == b@);
    while i < a.len() && i < b.len()
        invariant
            i <= a@.len() && i <= b@.len(),
            text_order(a@, b@) == text_order(a@.skip(i as int), b@.skip(i as int)),
        decreases a@.len() - i,
    {
        let ghost (x, y) = (a@.skip(i as int), b@.skip(i as int));
        assert(x[0] == a@[i as int] && y[0] == b@[i as int]);
        if a[i] < b[i] {
            return -1;
        }
        if a[i] > b[i] {
            return 1;
        }
        assert(x.drop_first() == a@.skip(i + 1));
        assert(y.drop_first() == b@.skip(i + 1));
        i = i + 1;
    }
    let ghost (x, y) = (a@.skip(i as int), b@.skip(i as int));
    if i < a.len() {
        assert(y.len() == 0 && x.len() > 0);
        1
    } else if i < b.len() {
        assert(x.len() == 0 && y.len() > 0);
        -1
    } else {
        assert(x.len() == 0 && y.len() == 0);
        0
    }
}

fn opt_chars(o: &Option<String>) -> (r: Option<Vec<char>>)
    ensures
        match (r, *o) {
            (Some(v), Some(s)) => v@ == s@,
            (None, None) => true,
            _ => false,
        },
{
    match o {
        Some(s) => Some(str_chars(s.as_str())),
        None => None,
    }
}

/// What the order of a pair of items needs: lower-cased names and dates.
struct SortKeys {
    names: Vec<Vec<char>>,
    dates: Vec<Option<Vec<char>>>,
}

fn sort_keys(items: &Vec<FileItem>) -> (k: SortKeys)
    ensures
        k.names@.len() == items@.len() && k.dates@.len() == items@.len(),
        forall|i: int| 0 <= i < items@.len() ==> #[trigger] k.names@[i]@ == spec_to_lowercase(items@[i].name@),
        forall|i: int| 0 <= i < items@.len() ==> match (#[trigger] k.dates@[i], items@[i].modified) {
            (Some(v), Some(s)) => v@ == s@,
            (None, None) => true,
            _ => false,
        },
{
    let mut names: Vec<Vec<char>> = Vec::new();
    let mut dates: Vec<Option<Vec<char>>> = Vec::new();
    for i in 0..items.len()
        invariant
            names@.len() == i && dates@.len() == i,
            forall|j: int| 0 <= j < i ==> #[trigger] names@[j]@ == spec_to_lowercase(items@[j].name@),
            forall|j: int| 0 <= j < i ==> match (#[trigger] dates@[j], items@[j].modified) {
                (Some(v), Some(s)) => v@ == s@,
                (None, None) => true,
                _ => false,
            },
    {
        let lowered = to_lowercase(items[i].name.as_str());
        names.push(str_chars(lowered.as_str()));
        dates.push(opt_chars(&items[i].modified));
    }
    SortKeys { names, dates }
}

fn item_order_of(items: &Vec<FileItem>, keys: &SortKeys, i: usize, j: usize, by: SortBy, order: SortOrder) -> (r: i8)
    requires
        i < items@.len() && j < items@.len(),
        keys.names@.len() == items@.len() && keys.dates@.len() == items@.len(),
        forall|x: int| 0 <= x < items@.len() ==> #[trigger] keys.names@[x]@ == spec_to_lowercase(items@[x].name@),
        forall|x: int| 0 <= x < items@.len() ==> match (#[trigger] keys.dates@[x], items@[x].modified) {
            (Some(v), Some(s)) => v@ == s@,
            (None, None) => true,
            _ => false,
        },
    ensures
        r as int == item_order(items@[i as int]@, items@[j as int]@, by, order),
{
    let (a, b) = (&items[i], &items[j]);
    if a.isfolder && !b.isfolder {
        return -1;
    }
    if !a.isfolder && b.isfolder {
        return 1;
    }
    let key: i8 = match by {
        SortBy::Name => text_order_of(&keys.names[i], &keys.names[j]),
        SortBy::Size => if a.size < b.size { -1 } else if a.size > b.size { 1 } else { 0 },
        SortBy::Date => {
            let (x, y) = (&keys.dates[i], &keys.dates[j]);
            assert(match (keys.dates@[i as int], items@[i as int].modified) {
                (Some(v), Some(s)) => v@ == s@,
                (None, None) => true,
                _ => false,
            });
            assert(match (keys.dates@[j as int], items@[j as int].modified) {
                (Some(v), Some(s)) => v@ == s@,
                (None, None) => true,
                _ => false,
            });
            match (x, y) {
                (None, None) => 0,
                (None, Some(_)) => -1,
                (Some(_), None) => 1,
                (Some(p), Some(q)) => text_order_of(p, q),
            }
        },
    };
    proof {
        lemma_key_order_facts(a@, b@, b@, by);
    }
    if order == SortOrder::Ascending {
        key
    } else {
        -key
    }
}

fn contains_text(hay: &Vec<char>, needle: &Vec<char>) -> (b: bool)
    ensures
        b == occurs_in(hay@, needle@),
{
    let n = hay.len();
    if needle.len() > n {
        return false;
    }
    let last = n - needle.len();
    let mut i: usize = 0;
    while i <= last
        invariant
            n == hay@.len(),
            last + needle@.len() == hay@.len(),
            i <= last + 1,
            forall|p: int| 0 <= p < i ==> !#[trigger] occurs_at(hay@, needle@, p),
        decreases last + 1 - i,
    {
        let mut j: usize = 0;
        while j < needle.len() && hay[i + j] == needle[j]
            invariant
                n == hay@.len(),
                i <= last,
                last + needle@.len() == hay@.len(),
                j <= needle@.len(),
                forall|q: int| 0 <= q < j ==> hay@[i + q] == needle@[q],
            decreases needle@.len() - j,
        {
            j = j + 1;
        }
        if j == needle.len() {
            assert(hay@.subrange(i as int, i + needle@.len()) =~= needle@);
            assert(occurs_at(hay@, needle@, i as int));
            return true;
        }
        assert(!occurs_at(hay@, needle@, i as int)) by {
            if hay@.subrange(i as int, i + needle@.len()) == needle@ {
                assert(hay@.subrange(i as int, i + needle@.len())[j as int] == hay@[i + j]);
            }
        }
        i = i + 1;
    }
    false
}

/// The positions of the shown items of `items`, in presentation order.
pub fn presentation_order(items: &Vec<FileItem>, filter: &str, by: SortBy, order: SortOrder) -> (o: Vec<usize>)
    ensures
        presents(items_view(items@), filter@, by, order, o@.map_values(|x: usize| x as int)),
{
    let ghost l = items_view(items@);
    let keys = sort_keys(items);
    let lowered_filter = to_lowercase(filter);
    let needle = str_chars(lowered_filter.as_str());
    let filter_empty = filter.is_empty();
    let mut o: Vec<usize> = Vec::new();
    for i in 0..items.len()
        invariant
            l == items_view(items@),
            needle@ == spec_to_lowercase(filter@),
            filter_empty == (filter@.len() == 0),
            keys.names@.len() == items@.len() && keys.dates@.len() == items@.len(),
            forall|x: int| 0 <= x < items@.len() ==> #[trigger] keys.names@[x]@ == spec_to_lowercase(items@[x].name@),
            forall|x: int| 0 <= x < items@.len() ==> match (#[trigger] keys.dates@[x], items@[x].modified) {
                (Some(v), Some(s)) => v@ == s@,
                (None, None) => true,
                _ => false,
            },
            forall|k: int| 0 <= k < o@.len() ==> #[trigger] o@[k] < i && shown(l[o@[k] as int], filter@),
            forall|x: int| 0 <= x < i && shown(l[x], filter@) ==> exists|k: int| 0 <= k < o@.len() && #[trigger] o@[k] == x,
            forall|k: int, m: int| 0 <= k < m < o@.len() ==> listed_before(l, by, order, #[trigger] o@[k] as int, #[trigger] o@[m] as int),
    {
        let show = filter_empty || contains_text(&keys.names[i], &needle);
        if show {
            let mut pos = o.len();
            while pos > 0 && item_order_of(items, &keys, o[pos - 1], i, by, order) > 0
                invariant
                    l == items_view(items@),
                    pos <= o@.len(),
                    i < items@.len(),
                    keys.names@.len() == items@.len() && keys.dates@.len() == items@.len(),
                    forall|x: int| 0 <= x < items@.len() ==> #[trigger] keys.names@[x]@ == spec_to_lowercase(items@[x].name@),
                    forall|x: int| 0 <= x < items@.len() ==> match (#[trigger] keys.dates@[x], items@[x].modified) {
                        (Some(v), Some(s)) => v@ == s@,
                        (None, None) => true,
                        _ => false,
                    },
                    forall|k: int| 0 <= k < o@.len() ==> #[trigger] o@[k] < i,
                    forall|m: int| pos <= m < o@.len() ==> item_order(l[#[trigger] o@[m] as int], l[i as int], by, order) > 0,
                decreases pos,
            {
                pos = pos - 1;
            }
            let ghost old_o = o@;
            o.insert(pos, i);
            proof {
                assert(o@ == old_o.insert(pos as int, i));
                assert forall|k: int, m: int| 0 <= k < m < o@.len() implies listed_before(l, by, order, #[trigger] o@[k] as int, #[trigger] o@[m] as int) by {
                    if k < pos && m == pos {
                        let prev = old_o[pos - 1] as int;
                        lemma_item_order_facts(l[prev], l[i as int], l[i as int], by, order);
                        assert(listed_before(l, by, order, prev, i as int));
                        if k < pos - 1 {
                            assert(listed_before(l, by, order, old_o[k] as int, prev));
                            lemma_listed_before_trans(l, by, order, old_o[k] as int, prev, i as int);
                        }
                    } else if k == pos && m > pos {
                        let other = old_o[m - 1] as int;
                        lemma_item_order_facts(l[other], l[i as int], l[i as int], by, order);
                    } else if k < pos && m > pos {
                        assert(listed_before(l, by, order, old_o[k] as int, old_o[m - 1] as int));
                    } else if k > pos {
                        assert(listed_before(l, by, order, old_o[k - 1] as int, old_o[m - 1] as int));
                    }
                }
                assert(o@[pos as int] == i);
                assert forall|x: int| 0 <= x < i + 1 && shown(l[x], filter@) implies exists|k: int| 0 <= k < o@.len() && #[trigger] o@[k] == x by {
                    if x == i {
                        assert(o@[pos as int] == x);
                    } else {
                        let k0 = choose|k: int| 0 <= k < old_o.len() && #[trigger] old_o[k] == x;
                        if k0 < pos {
                            assert(o@[k0] == x);
                        } else {
                            assert(o@[k0 + 1] == x);
                        }
                    }
                }
            }
        }
        proof {
            if !show {
                assert(!shown(l[i as int], filter@));
            }
        }
    }
    proof {
        let om = o@.map_values(|x: usize| x as int);
        assert forall|x: int| 0 <= x < l.len() && shown(l[x], filter@) implies exists|k: int| 0 <= k < om.len() && #[trigger] om[k] == x by {
            let k = choose|k: int| 0 <= k < o@.len() && #[trigger] o@[k] == x;
            assert(om[k] == x);
        }
    }
    o
}

/// The shown items of `items`, in presentation order.
pub fn arrange(items: &Vec<FileItem>, filter: &str, by: SortBy, order: SortOrder) -> (r: Vec<FileItem>)
    ensures
        exists|o: Seq<int>| #![trigger presents(items_view(items@), filter@, by, order, o)]
            presents(items_view(items@), filter@, by, order, o) && o.len() == r@.len()
            && forall|k: int| 0 <= k < o.len() ==> (#[trigger] r@[k])@ == items@[o[k]]@,
{
    let o = presentation_order(items, filter, by, order);
    let ghost om = o@.map_values(|x: usize| x as int);
    let mut r: Vec<FileItem> = Vec::new();
    for k in 0..o.len()
        invariant
            presents(items_view(items@), filter@, by, order, om),
            om == o@.map_values(|x: usize| x as int),
            r@.len() == k,
            forall|q: int| 0 <= q < k ==> (#[trigger] r@[q])@ == items@[om[q]]@,
    {
        assert(0 <= om[k as int] < items@.len());
        r.push(items[o[k]].duplicate());
    }
    r
}

// ---------------------------------------------------------------------------
// Breadcrumbs
// ---------------------------------------------------------------------------

/// The `/`-separated parts of `s` that are not empty, after the part `cur`
/// already begun.
pub open spec fn split_parts(s: Seq<char>, cur: Seq<char>) -> Seq<Seq<char>>
    decreases s.len(),
{
    if s.len() == 0 {
        if cur.len() == 0 { Seq::empty() } else { seq![cur] }
    } else if s[0] == '/' {
        (if cur.len() == 0 { Seq::empty() } else { seq![cur] }) + split_parts(s.drop_first(), Seq::empty())
    } else {
        split_parts(s.drop_first(), cur.push(s[0]))
    }
}

/// The folder names along a path.
pub open spec fn path_parts(s: Seq<char>) -> Seq<Seq<char>> {
    split_parts(s, Seq::empty())
}

/// The path of the `k`-th breadcrumb: `/` and the first `k` parts.
pub open spec fn crumb_path(parts: Seq<Seq<char>>, k: int) -> Seq<char>
    decreases k,
{
    if k <= 0 {
        Seq::empty()
    } else {
        crumb_path(parts, k - 1) + "/"@ + parts[k - 1]
    }
}

/// The breadcrumbs of a folder path: each folder name along it with the
/// path that leads to it (`/a/b` gives `a` at `/a` and `b` at `/a/b`).
pub fn breadcrumbs(path: &str) -> (r: Vec<(String, String)>)
    ensures
        r@.len() == path_parts(path@).len(),
        forall|k: int| 0 <= k < r@.len() ==> (#[trigger] r@[k]).0@ == path_parts(path@)[k]
            && r@[k].1@ == crumb_path(path_parts(path@), k + 1),
{
    let v = str_chars(path);
    let mut parts: Vec<Vec<char>> = Vec::new();
    let mut cur: Vec<char> = Vec::new();
    let mut i: usize = 0;
    assert(v@.skip(0) == v@);
    while i < v.len()
        invariant
            v@ == path@,
            i <= v@.len(),
            path_parts(path@) == parts@.map_values(|p: Vec<char>| p@) + split_parts(v@.skip(i as int), cur@),
        decreases v@.len() - i,
    {
        let ghost rest = v@.skip(i as int);
        assert(rest[0] == v@[i as int]);
        assert(rest.drop_first() == v@.skip(i + 1));
        if v[i] == '/' {
            if cur.len() > 0 {
                let ghost before = parts@.map_values(|p: Vec<char>| p@);
                parts.push(cur);
                assert(parts@.map_values(|p: Vec<char>| p@) == before.push(cur@));
                assert(before + (seq![cur@] + split_parts(v@.skip(i + 1), Seq::empty())) =~= before.push(cur@) + split_parts(v@.skip(i + 1), Seq::empty()));
            } else {
                assert(Seq::<Seq<char>>::empty() + split_parts(v@.skip(i + 1), Seq::empty()) =~= split_parts(v@.skip(i + 1), Seq::empty()));
            }
            cur = Vec::new();
            assert(cur@ =~= Seq::<char>::empty());
        } else {
            cur.push(v[i]);
        }
        i = i + 1;
    }
    assert(v@.skip(i as int).len() == 0);
    if cur.len() > 0 {
        let ghost before = parts@.map_values(|p: Vec<char>| p@);
        parts.push(cur);
        assert(parts@.map_values(|p: Vec<char>| p@) == before.push(cur@));
        assert(path_parts(path@) =~= parts@.map_values(|p: Vec<char>| p@));
    } else {
        assert(path_parts(path@) =~= parts@.map_values(|p: Vec<char>| p@));
    }
    let ghost pv = parts@.map_values(|p: Vec<char>| p@);
    let mut r: Vec<(String, String)> = Vec::new();
    let mut acc: Vec<char> = Vec::new();
    for k in 0..parts.len()
        invariant
            pv == parts@.map_values(|p: Vec<char>| p@),
            pv == path_parts(path@),
            r@.len() == k,
            acc@ == crumb_path(pv, k as int),
            forall|q: int| 0 <= q < k ==> (#[trigger] r@[q]).0@ == pv[q] && r@[q].1@ == crumb_path(pv, q + 1),
    {
        acc.push('/');
        let ghost a0 = acc@;
        let part = &parts[k];
        for j in 0..part.len()
            invariant
                acc@ == a0 + part@.subrange(0, j as int),
        {
            acc.push(part[j]);
        }
        assert(part@.subrange(0, part@.len() as int) == part@);
        assert(acc@ =~= crumb_path(pv, k + 1)) by {
            reveal_strlit("/");
            assert(pv[k as int] == parts@[k as int]@);
        }
        let name = crate::text::string_of_chars(part.as_slice());
        let at = crate::text::string_of_chars(acc.as_slice());
        r.push((name, at));
    }
    r
}

impl<R> GuiState<R> {
    /// The items of the current listing as the browser shows them.
    pub fn visible_items(&self) -> (r: Vec<FileItem>)
        ensures
            exists|o: Seq<int>| #![trigger presents(items_view(self.file_list@), self.search_filter@, self.sort_by, self.sort_order, o)]
                presents(items_view(self.file_list@), self.search_filter@, self.sort_by, self.sort_order, o)
                && o.len() == r@.len()
                && forall|k: int| 0 <= k < o.len() ==> (#[trigger] r@[k])@ == self.file_list@[o[k]]@,
    {
        arrange(&self.file_list, self.search_filter.as_str(), self.sort_by, self.sort_order)
    }
}

} // verus!
