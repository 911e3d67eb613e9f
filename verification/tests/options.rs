use pcloud_rust::options::{
    duplicate_mode_named, parse_duplicate_mode, parse_region, parse_sync_direction, region_named,
    sync_direction_named,
};
use pcloud_rust::types::{DuplicateMode, Region, SyncDirection};

#[test]
fn regions_by_name() {
    assert_eq!(parse_region("eu"), Region::EU);
    assert_eq!(parse_region("EU"), Region::EU);
    assert_eq!(parse_region("Eu"), Region::EU);
    assert_eq!(parse_region("us"), Region::US);
    assert_eq!(parse_region("europe"), Region::US);
    assert_eq!(parse_region(""), Region::US);
    assert_eq!(region_named("eu"), Region::EU);
    assert_eq!(region_named("EU"), Region::US);
}

#[test]
fn duplicate_modes_by_name() {
    assert_eq!(parse_duplicate_mode("skip"), DuplicateMode::Skip);
    assert_eq!(parse_duplicate_mode("SKIP"), DuplicateMode::Skip);
    assert_eq!(parse_duplicate_mode("Overwrite"), DuplicateMode::Overwrite);
    assert_eq!(parse_duplicate_mode("rename"), DuplicateMode::Rename);
    assert_eq!(parse_duplicate_mode("anything"), DuplicateMode::Rename);
    assert_eq!(duplicate_mode_named("overwrite"), DuplicateMode::Overwrite);
    assert_eq!(duplicate_mode_named("Skip"), DuplicateMode::Rename);
}

#[test]
fn sync_directions_by_name() {
    assert_eq!(parse_sync_direction("upload"), SyncDirection::Upload);
    assert_eq!(parse_sync_direction("DOWNLOAD"), SyncDirection::Download);
    assert_eq!(parse_sync_direction("both"), SyncDirection::Bidirectional);
    assert_eq!(parse_sync_direction("bidirectional"), SyncDirection::Bidirectional);
    assert_eq!(sync_direction_named("download"), SyncDirection::Download);
}
