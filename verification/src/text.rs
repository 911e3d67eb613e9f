//! Character-level helpers shared by the formatting and path code.
use vstd::prelude::*;
use vstd::string::*;

use crate::outside::ascii_lower;

verus! {

/// The characters of `s`, in order.
pub(crate) fn str_chars(s: &str) -> (v: Vec<char>)
    ensures
        v@ == s@,
{
    let n = s.unicode_len();
    let mut v: Vec<char> = Vec::new();
    for i in 0..n
        invariant
            n == s@.len(),
            v@ == s@.subrange(0, i as int),
    {
        v.push(s.get_char(i));
        assert(v@ == s@.subrange(0, i + 1));
    }
    assert(s@.subrange(0, n as int) == s@);
    v
}

/// The string made of the characters of `v`, in order.
///
/// Trusted: collecting an iterator of `char` into a `String` appends each
/// character in turn.
#[verifier::external_body]
pub(crate) fn string_of_chars(v: &[char]) -> (s: String)
    ensures
        s@ == v@,
{
    v.iter().collect()
}

/// Unicode lower-casing as `str::to_lowercase` computes it.
pub uninterp spec fn spec_to_lowercase(s: Seq<char>) -> Seq<char>;

/// Whether every character of `s` is ASCII.
pub open spec fn is_ascii_text(s: Seq<char>) -> bool {
    forall|i: int| 0 <= i < s.len() ==> (#[trigger] s[i] as u32) < 128
}

/// `s` with `A`–`Z` turned into `a`–`z` and every other character kept.
pub open spec fn ascii_lowercase(s: Seq<char>) -> Seq<char> {
    s.map_values(|c: char| ascii_lower(c))
}

/// Trusted: calls `str::to_lowercase`, whose result depends on the input
/// alone; it is named `spec_to_lowercase`. Of ASCII text the documented
/// mapping (the Unicode lowercase mapping, which on ASCII is `A`–`Z` to
/// `a`–`z`) is stated; beyond ASCII the Unicode tables are not described.
#[verifier::external_body]
pub(crate) fn to_lowercase(s: &str) -> (r: String)
    ensures
        r@ == spec_to_lowercase(s@),
        is_ascii_text(s@) ==> r@ == ascii_lowercase(s@),
{
    s.to_lowercase()
}

/// Unicode's `White_Space` characters, the ones `char::is_whitespace`
/// accepts: tab to carriage return, space, next line, no-break space, ogham
/// space mark, the spaces from en quad to hair space, line and paragraph
/// separators, narrow no-break space, medium mathematical space and
/// ideographic space.
pub open spec fn is_white_space(c: char) -> bool {
    let u = c as u32;
    ||| 0x09 <= u <= 0x0D
    ||| u == 0x20
    ||| u == 0x85
    ||| u == 0xA0
    ||| u == 0x1680
    ||| 0x2000 <= u <= 0x200A
    ||| u == 0x2028
    ||| u == 0x2029
    ||| u == 0x202F
    ||| u == 0x205F
    ||| u == 0x3000
}

/// `s` without its leading white space.
pub open spec fn trim_start_ws(s: Seq<char>) -> Seq<char>
    decreases s.len(),
{
    if s.len() > 0 && is_white_space(s[0]) {
        trim_start_ws(s.skip(1))
    } else {
        s
    }
}

/// `s` without its trailing white space.
pub open spec fn trim_end_ws(s: Seq<char>) -> Seq<char>
    decreases s.len(),
{
    if s.len() > 0 && is_white_space(s.last()) {
        trim_end_ws(s.drop_last())
    } else {
        s
    }
}

/// `s` without leading and trailing white space, as `str::trim` returns it.
pub open spec fn spec_trim(s: Seq<char>) -> Seq<char> {
    trim_end_ws(trim_start_ws(s))
}

/// Whether `c` is white space.
pub fn is_white_space_char(c: char) -> (b: bool)
    ensures
        b == is_white_space(c),
{
    let u = c as u32;
    (0x09 <= u && u <= 0x0D) || u == 0x20 || u == 0x85 || u == 0xA0 || u == 0x1680
        || (0x2000 <= u && u <= 0x200A) || u == 0x2028 || u == 0x2029 || u == 0x202F
        || u == 0x205F || u == 0x3000
}

/// `s` without leading and trailing white space.
pub fn trim_white_space(s: &str) -> (r: String)
    ensures
        r@ == spec_trim(s@),
{
    let c = str_chars(s);
    let n = c.len();
    let mut i: usize = 0;
    assert(s@.subrange(0, n as int) == s@);
    while i < n && is_white_space_char(c[i])
        invariant
            c@ == s@,
            n == c@.len(),
            i <= n,
            trim_start_ws(s@) == trim_start_ws(s@.subrange(i as int, n as int)),
        decreases n - i,
    {
        assert(s@.subrange(i as int, n as int).skip(1) == s@.subrange(i + 1, n as int));
        i = i + 1;
    }
    assert(trim_start_ws(s@) == s@.subrange(i as int, n as int));
    let mut j: usize = n;
    while j > i && is_white_space_char(c[j - 1])
        invariant
            c@ == s@,
            n == c@.len(),
            i <= j <= n,
            spec_trim(s@) == trim_end_ws(s@.subrange(i as int, j as int)),
        decreases j - i,
    {
        assert(s@.subrange(i as int, j as int).drop_last() == s@.subrange(i as int, j - 1));
        j = j - 1;
    }
    assert(spec_trim(s@) == s@.subrange(i as int, j as int));
    let mut out: Vec<char> = Vec::new();
    let mut k: usize = i;
    while k < j
        invariant
            c@ == s@,
            n == c@.len(),
            i <= k <= j <= n,
            out@ == s@.subrange(i as int, k as int),
        decreases j - k,
    {
        out.push(c[k]);
        assert(out@ == s@.subrange(i as int, k + 1));
        k = k + 1;
    }
    string_of_chars(out.as_slice())
}

/// The decimal digit character for `d < 10`.
pub open spec fn digit_char(d: nat) -> char {
    if d == 0 { '0' }
    else if d == 1 { '1' }
    else if d == 2 { '2' }
    else if d == 3 { '3' }
    else if d == 4 { '4' }
    else if d == 5 { '5' }
    else if d == 6 { '6' }
    else if d == 7 { '7' }
    else if d == 8 { '8' }
    else { '9' }
}

/// Decimal notation of `n`, without leading zeros (`"0"` for zero).
pub open spec fn dec(n: nat) -> Seq<char>
    decreases n,
{
    if n < 10 {
        seq![digit_char(n)]
    } else {
        dec(n / 10).push(digit_char(n % 10))
    }
}

pub(crate) fn digit(d: u128) -> (c: char)
    requires
        d < 10,
    ensures
        c == digit_char(d as nat),
{
    if d == 0 { '0' }
    else if d == 1 { '1' }
    else if d == 2 { '2' }
    else if d == 3 { '3' }
    else if d == 4 { '4' }
    else if d == 5 { '5' }
    else if d == 6 { '6' }
    else if d == 7 { '7' }
    else if d == 8 { '8' }
    else { '9' }
}

fn push_decimal(n: u128, out: &mut Vec<char>)
    ensures
        final(out)@ == old(out)@ + dec(n as nat),
    decreases n,
{
    if n >= 10 {
        push_decimal(n / 10, out);
    }
    out.push(digit(n % 10));
    proof {
        if n < 10 {
            assert(n % 10 == n);
        }
    }
}

/// Decimal notation of `n`, as `{}` formats an unsigned integer.
pub fn decimal(n: u128) -> (s: String)
    ensures
        s@ == dec(n as nat),
{
    let mut v: Vec<char> = Vec::new();
    push_decimal(n, &mut v);
    assert(v@ == dec(n as nat));
    string_of_chars(v.as_slice())
}

/// Decimal notation of a signed integer, with a leading `-` when negative.
pub open spec fn dec_int(n: int) -> Seq<char> {
    if n < 0 {
        seq!['-'] + dec((-n) as nat)
    } else {
        dec(n as nat)
    }
}

/// Decimal notation of `n`, as `{}` formats a signed integer.
pub fn decimal_i64(n: i64) -> (s: String)
    ensures
        s@ == dec_int(n as int),
{
    let mut v: Vec<char> = Vec::new();
    let m: u128 = if n < 0 {
        v.push('-');
        (0i128 - n as i128) as u128
    } else {
        n as u128
    };
    push_decimal(m, &mut v);
    string_of_chars(v.as_slice())
}

/// `s` with every backslash replaced by a slash.
pub open spec fn backslash_to_slash(s: Seq<char>) -> Seq<char> {
    s.map_values(|c: char| if c == '\\' { '/' } else { c })
}

/// `s` with every backslash replaced by a slash, as `str::replace("\\", "/")`.
pub fn replace_backslashes(s: &str) -> (r: String)
    ensures
        r@ == backslash_to_slash(s@),
{
    let v = str_chars(s);
    let mut w: Vec<char> = Vec::new();
    for i in 0..v.len()
        invariant
            v@ == s@,
            w@ == backslash_to_slash(v@.subrange(0, i as int)),
    {
        let c = v[i];
        w.push(if c == '\\' { '/' } else { c });
        assert(backslash_to_slash(v@.subrange(0, i + 1)) == backslash_to_slash(
            v@.subrange(0, i as int),
        ).push(if c == '\\' { '/' } else { c }));
    }
    assert(v@.subrange(0, v@.len() as int) == v@);
    string_of_chars(w.as_slice())
}

/// The characters after the last `'/'` of `s` (all of `s` when it has none),
/// which is what `s.split('/').next_back()` yields.
pub open spec fn last_segment(s: Seq<char>) -> Seq<char>
    decreases s.len(),
{
    if s.len() == 0 {
        s
    } else if s.last() == '/' {
        Seq::empty()
    } else {
        last_segment(s.drop_last()).push(s.last())
    }
}

/// The last `'/'`-separated segment of `s`.
pub fn last_path_segment(s: &str) -> (r: String)
    ensures
        r@ == last_segment(s@),
{
    let v = str_chars(s);
    let mut start = v.len();
    assert(v@.subrange(0, start as int) == v@);
    assert(v@.subrange(start as int, v@.len() as int) == Seq::<char>::empty());
    while start > 0 && v[start - 1] != '/'
        invariant
            v@ == s@,
            start <= v@.len(),
            last_segment(v@) == last_segment(v@.subrange(0, start as int)) + v@.subrange(
                start as int,
                v@.len() as int,
            ),
        decreases start,
    {
        let ghost pre = v@.subrange(0, start as int);
        assert(pre.drop_last() == v@.subrange(0, start - 1));
        assert(v@.subrange(start - 1, v@.len() as int) == seq![v@[start - 1]] + v@.subrange(
            start as int,
            v@.len() as int,
        ));
        start = start - 1;
    }
    let mut w: Vec<char> = Vec::new();
    let mut i = start;
    while i < v.len()
        invariant
            v@ == s@,
            start <= i <= v@.len(),
            w@ == v@.subrange(start as int, i as int),
        decreases v@.len() - i,
    {
        w.push(v[i]);
        i = i + 1;
    }
    assert(last_segment(v@.subrange(0, start as int)).len() == 0);
    string_of_chars(w.as_slice())
}

/// `base` extended with the relative path `rel` as `PathBuf::push` does:
/// a separator goes between them unless `base` is empty or already ends
/// with one.
pub open spec fn spec_path_push(base: Seq<char>, rel: Seq<char>) -> Seq<char> {
    if base.len() == 0 || base.last() == '/' {
        base + rel
    } else {
        base + seq!['/'] + rel
    }
}

/// `Path::new(base).join(rel)` for a relative `rel` (one that does not start
/// with `'/'`).
pub fn path_push(base: &str, rel: &str) -> (r: String)
    requires
        rel@.len() == 0 || rel@[0] != '/',
    ensures
        r@ == spec_path_push(base@, rel@),
{
    let mut v = str_chars(base);
    if v.len() > 0 && v[v.len() - 1] != '/' {
        v.push('/');
    }
    let w = str_chars(rel);
    let ghost v0 = v@;
    for i in 0..w.len()
        invariant
            w@ == rel@,
            v@ == v0 + w@.subrange(0, i as int),
    {
        v.push(w[i]);
    }
    assert(w@.subrange(0, w@.len() as int) == w@);
    string_of_chars(v.as_slice())
}

/// `s` without its trailing `'/'` characters.
pub open spec fn trim_end_slash(s: Seq<char>) -> Seq<char>
    decreases s.len(),
{
    if s.len() > 0 && s.last() == '/' {
        trim_end_slash(s.drop_last())
    } else {
        s
    }
}

/// `s` without its leading `'/'` characters.
pub open spec fn trim_start_slash(s: Seq<char>) -> Seq<char>
    decreases s.len(),
{
    if s.len() > 0 && s[0] == '/' {
        trim_start_slash(s.drop_first())
    } else {
        s
    }
}

/// Remote path of `name` inside the folder `base`.
pub open spec fn spec_join_remote(base: Seq<char>, name: Seq<char>) -> Seq<char> {
    trim_end_slash(base) + seq!['/'] + name
}

fn trim_end_slash_vec(v: &Vec<char>) -> (n: usize)
    ensures
        n <= v@.len(),
        v@.subrange(0, n as int) == trim_end_slash(v@),
{
    let mut n = v.len();
    assert(v@.subrange(0, n as int) == v@);
    while n > 0 && v[n - 1] == '/'
        invariant
            n <= v@.len(),
            trim_end_slash(v@.subrange(0, n as int)) == trim_end_slash(v@),
        decreases n,
    {
        assert(v@.subrange(0, n as int).drop_last() == v@.subrange(0, n - 1));
        n = n - 1;
    }
    n
}

/// `s` with its trailing slashes removed, as `str::trim_end_matches('/')`.
pub fn trim_end_slashes(s: &str) -> (r: String)
    ensures
        r@ == trim_end_slash(s@),
{
    let mut v = str_chars(s);
    let n = trim_end_slash_vec(&v);
    v.truncate(n);
    string_of_chars(v.as_slice())
}

/// The remote path of `name` inside the folder `base`: `base` without its
/// trailing slashes, a slash, and `name` (so `"/"` and `"/a/"` give `"/name"`
/// and `"/a/name"`).
pub fn join_remote(base: &str, name: &str) -> (r: String)
    ensures
        r@ == spec_join_remote(base@, name@),
{
    let mut v = str_chars(base);
    let n = trim_end_slash_vec(&v);
    v.truncate(n);
    v.push('/');
    let w = str_chars(name);
    let mut i: usize = 0;
    while i < w.len()
        invariant
            i <= w@.len(),
            v@ == trim_end_slash(base@) + seq!['/'] + w@.subrange(0, i as int),
        decreases w@.len() - i,
    {
        v.push(w[i]);
        i = i + 1;
    }
    assert(w@.subrange(0, w@.len() as int) == w@);
    string_of_chars(v.as_slice())
}

} // verus!
