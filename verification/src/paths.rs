//! File-system path questions answered by `std::path`, behind trusted items.
use vstd::prelude::*;

use crate::types::opt_view;

verus! {

/// The final component of a path, as `Path::file_name` gives it.
pub uninterp spec fn spec_path_file_name(p: Seq<char>) -> Option<Seq<char>>;

/// Trusted: `Path::new(p).file_name()` as a string. The name of a path made
/// from a `str` is valid UTF-8, so the conversion loses nothing. A path
/// component never holds the separator `/`. Beyond that its value (no name
/// for `/`, `..` or an empty path, trailing slashes ignored) is named
/// `spec_path_file_name` and not described further.
#[verifier::external_body]
pub(crate) fn path_file_name(p: &str) -> (r: Option<String>)
    ensures
        opt_view(r) == spec_path_file_name(p@),
        r matches Some(n) ==> forall|i: int| 0 <= i < n@.len() ==> n@[i] != '/',
{
    std::path::Path::new(p).file_name().and_then(|n| n.to_str()).map(|n| n.to_string())
}

/// The path without its final component, as `Path::parent` gives it.
pub uninterp spec fn spec_path_parent(p: Seq<char>) -> Option<Seq<char>>;

/// Trusted: `Path::new(p).parent()` as a string. The parent is the path
/// without its final component, which is never empty, so it is shorter
/// than `p`; beyond that its value is named `spec_path_parent`.
#[verifier::external_body]
pub(crate) fn path_parent(p: &str) -> (r: Option<String>)
    ensures
        opt_view(r) == spec_path_parent(p@),
        r matches Some(q) ==> q@.len() < p@.len(),
{
    std::path::Path::new(p).parent().map(|q| q.to_string_lossy().to_string())
}

} // verus!
