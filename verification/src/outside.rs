//! The calls this library makes into outside crates (`sha2`, `hex`, `uuid`)
//! and into the clock, each behind a trusted item with the contract that the
//! outside source shows.
use sha2::Digest;
use vstd::prelude::*;

use crate::text::digit_char;

verus! {

/// SHA-256 digest of a byte sequence, as `sha2::Sha256` computes it.
pub uninterp spec fn spec_sha256(data: Seq<u8>) -> Seq<u8>;

/// Trusted: `sha2::Sha256::digest` hashes `data`; the digest is named
/// `spec_sha256` of the bytes and is 32 bytes long (`OutputSize = U32`).
#[verifier::external_body]
pub(crate) fn sha256(data: &[u8]) -> (d: Vec<u8>)
    ensures
        d@ == spec_sha256(data@),
        d@.len() == 32,
{
    sha2::Sha256::digest(data).to_vec()
}

/// A SHA-256 computation fed its input piece by piece. Verus refuses a
/// declaration of `sha2::Sha256` (an alias of a generic wrapper), so the
/// hasher is held in a private field of this opaque struct.
#[verifier::external_body]
pub struct Sha256Hasher {
    inner: sha2::Sha256,
}

/// The bytes fed to a hasher so far, in order.
pub uninterp spec fn hasher_input(h: Sha256Hasher) -> Seq<u8>;

/// Trusted: `sha2::Sha256::new()` has been fed nothing.
#[verifier::external_body]
pub(crate) fn hasher_new() -> (h: Sha256Hasher)
    ensures
        hasher_input(h) == Seq::<u8>::empty(),
{
    Sha256Hasher { inner: sha2::Sha256::new() }
}

/// Trusted: `Digest::update` appends `data` to what the hasher has been
/// fed (the block buffer keeps what does not fill a block).
#[verifier::external_body]
pub(crate) fn hasher_update(h: &mut Sha256Hasher, data: &[u8])
    ensures
        hasher_input(*final(h)) == hasher_input(*old(h)) + data@,
{
    h.inner.update(data)
}

/// Trusted: `Digest::finalize` gives the digest of everything fed, the
/// same 32 bytes `Sha256::digest` gives for those bytes at once (`digest`
/// is `new`, `update` and `finalize`).
#[verifier::external_body]
pub(crate) fn hasher_finalize(h: Sha256Hasher) -> (d: Vec<u8>)
    ensures
        d@ == spec_sha256(hasher_input(h)),
        d@.len() == 32,
{
    h.inner.finalize().to_vec()
}

/// Lower-case hexadecimal digit for `n < 16`.
pub open spec fn hex_digit_lower(n: nat) -> char {
    if n < 10 {
        digit_char(n)
    } else if n == 10 {
        'a'
    } else if n == 11 {
        'b'
    } else if n == 12 {
        'c'
    } else if n == 13 {
        'd'
    } else if n == 14 {
        'e'
    } else {
        'f'
    }
}

/// Two lower-case hexadecimal digits per byte, high nibble first.
pub open spec fn spec_hex_lower(b: Seq<u8>) -> Seq<char>
    decreases b.len(),
{
    if b.len() == 0 {
        Seq::empty()
    } else {
        spec_hex_lower(b.drop_last()) + seq![
            hex_digit_lower((b.last() / 16) as nat),
            hex_digit_lower((b.last() % 16) as nat),
        ]
    }
}

/// Trusted: `hex::encode` writes each byte as two lower-case hex digits
/// (table `HEX_CHARS_LOWER`, high nibble first).
#[verifier::external_body]
pub(crate) fn hex_encode(b: &[u8]) -> (s: String)
    ensures
        s@ == spec_hex_lower(b@),
{
    hex::encode(b)
}

pub open spec fn is_hex_char(c: char) -> bool {
    ('0' <= c && c <= '9') || ('a' <= c && c <= 'f') || ('A' <= c && c <= 'F')
}

pub open spec fn is_lower_hex_char(c: char) -> bool {
    ('0' <= c && c <= '9') || ('a' <= c && c <= 'f')
}

pub open spec fn is_hyphen_pos(i: int) -> bool {
    i == 8 || i == 13 || i == 18 || i == 23
}

/// `8-4-4-4-12` hex digits separated by hyphens.
pub open spec fn uuid_hyphenated(s: Seq<char>) -> bool {
    &&& s.len() == 36
    &&& forall|i: int|
        0 <= i < 36 ==> if is_hyphen_pos(i) {
            s[i] == '-'
        } else {
            is_hex_char(#[trigger] s[i])
        }
}

/// 32 hex digits.
pub open spec fn uuid_simple(s: Seq<char>) -> bool {
    s.len() == 32 && forall|i: int| 0 <= i < 32 ==> is_hex_char(#[trigger] s[i])
}

pub open spec fn ascii_lower(c: char) -> char {
    if 'A' <= c && c <= 'Z' {
        ((c as u32) + 32) as char
    } else {
        c
    }
}

/// The texts `uuid::Uuid::parse_str` accepts: simple, hyphenated, braced
/// hyphenated, or hyphenated behind a case-insensitive `urn:uuid:` prefix.
pub open spec fn spec_uuid_valid(s: Seq<char>) -> bool {
    ||| uuid_simple(s)
    ||| uuid_hyphenated(s)
    ||| (s.len() == 38 && s[0] == '{' && s[37] == '}' && uuid_hyphenated(s.subrange(1, 37)))
    ||| (s.len() == 45 && s.take(9).map_values(|c: char| ascii_lower(c)) == "urn:uuid:"@
        && uuid_hyphenated(s.skip(9)))
}

/// Trusted: `uuid::Uuid::parse_str(s).is_ok()`. The parser (`try_parse` in
/// `parser.rs`) dispatches on the byte length (32, 36, 38 braced, 45 with a
/// `urn:uuid:` prefix compared ignoring ASCII case) and accepts ASCII hex
/// digits of either case with hyphens at 8, 13, 18 and 23; every accepted
/// text is ASCII, so byte and character positions agree.
#[verifier::external_body]
pub(crate) fn uuid_is_valid(s: &str) -> (b: bool)
    ensures
        b == spec_uuid_valid(s@),
{
    uuid::Uuid::parse_str(s).is_ok()
}

/// The text of a random version-4 UUID: lower-case hyphenated, version
/// digit `4`, variant digit one of `8`, `9`, `a`, `b`.
pub open spec fn is_v4_text(s: Seq<char>) -> bool {
    &&& uuid_hyphenated(s)
    &&& forall|i: int| 0 <= i < 36 && !is_hyphen_pos(i) ==> is_lower_hex_char(#[trigger] s[i])
    &&& s[14] == '4'
    &&& (s[19] == '8' || s[19] == '9' || s[19] == 'a' || s[19] == 'b')
}

/// Trusted: `uuid::Uuid::new_v4().to_string()`. The bits are random; `new_v4`
/// sets the version nibble to 4 and the variant bits to `10`, and `Display`
/// writes the lower-case hyphenated form (`fmt.rs`).
#[verifier::external_body]
pub(crate) fn new_uuid_v4() -> (s: String)
    ensures
        is_v4_text(s@),
{
    uuid::Uuid::new_v4().to_string()
}

/// Trusted: the current Unix time in seconds from `std::time::SystemTime`
/// (0 if the clock is before the epoch). Nothing is promised of the value.
#[verifier::external_body]
pub(crate) fn current_timestamp() -> (t: u64) {
    std::time::SystemTime::now().duration_since(std::time::UNIX_EPOCH).map(|d| d.as_secs()).unwrap_or(
        0,
    )
}

} // verus!
