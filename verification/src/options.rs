//! Reading the command-line choices of region, duplicate handling and sync
//! direction. Matching ignores case; anything unrecognised selects the
//! default.
use vstd::prelude::*;

use crate::text::{ascii_lowercase, is_ascii_text, spec_to_lowercase, to_lowercase};
use crate::types::{DuplicateMode, Region, SyncDirection};

verus! {

pub open spec fn spec_region_named(s: Seq<char>) -> Region {
    if s == "eu"@ { Region::EU } else { Region::US }
}

pub open spec fn spec_duplicate_mode_named(s: Seq<char>) -> DuplicateMode {
    if s == "skip"@ {
        DuplicateMode::Skip
    } else if s == "overwrite"@ {
        DuplicateMode::Overwrite
    } else {
        DuplicateMode::Rename
    }
}

pub open spec fn spec_sync_direction_named(s: Seq<char>) -> SyncDirection {
    if s == "upload"@ {
        SyncDirection::Upload
    } else if s == "download"@ {
        SyncDirection::Download
    } else {
        SyncDirection::Bidirectional
    }
}

fn is(s: &str, word: &str) -> (b: bool)
    ensures
        b == (s@ == word@),
{
    String::from_str(s) == String::from_str(word)
}

/// The region named by an already lower-cased word: `eu`, else US.
pub fn region_named(s: &str) -> (r: Region)
    ensures
        r == spec_region_named(s@),
{
    if is(s, "eu") { Region::EU } else { Region::US }
}

/// The duplicate handling named by an already lower-cased word: `skip`,
/// `overwrite`, else rename.
pub fn duplicate_mode_named(s: &str) -> (r: DuplicateMode)
    ensures
        r == spec_duplicate_mode_named(s@),
{
    if is(s, "skip") {
        DuplicateMode::Skip
    } else if is(s, "overwrite") {
        DuplicateMode::Overwrite
    } else {
        DuplicateMode::Rename
    }
}

/// The sync direction named by an already lower-cased word: `upload`,
/// `download`, else both ways.
pub fn sync_direction_named(s: &str) -> (r: SyncDirection)
    ensures
        r == spec_sync_direction_named(s@),
{
    if is(s, "upload") {
        SyncDirection::Upload
    } else if is(s, "download") {
        SyncDirection::Download
    } else {
        SyncDirection::Bidirectional
    }
}

/// The region named by `s`, in any case.
pub fn parse_region(s: &str) -> (r: Region)
    ensures
        r == spec_region_named(spec_to_lowercase(s@)),
        is_ascii_text(s@) ==> r == spec_region_named(ascii_lowercase(s@)),
{
    let lower = to_lowercase(s);
    region_named(lower.as_str())
}

/// The duplicate handling named by `s`, in any case.
pub fn parse_duplicate_mode(s: &str) -> (r: DuplicateMode)
    ensures
        r == spec_duplicate_mode_named(spec_to_lowercase(s@)),
        is_ascii_text(s@) ==> r == spec_duplicate_mode_named(ascii_lowercase(s@)),
{
    let lower = to_lowercase(s);
    duplicate_mode_named(lower.as_str())
}

/// The sync direction named by `s`, in any case.
pub fn parse_sync_direction(s: &str) -> (r: SyncDirection)
    ensures
        r == spec_sync_direction_named(spec_to_lowercase(s@)),
        is_ascii_text(s@) ==> r == spec_sync_direction_named(ascii_lowercase(s@)),
{
    let lower = to_lowercase(s);
    sync_direction_named(lower.as_str())
}

} // verus!
