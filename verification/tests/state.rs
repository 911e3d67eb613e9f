use pcloud_rust::transfer::{backoff_delay_ms, count_outcomes, split_outcomes, total_size};
use pcloud_rust::transfer_state::{default_state_version, StateValidation, TransferState, TRANSFER_STATE_VERSION};

fn pairs(v: &[(&str, &str)]) -> Vec<(String, String)> {
    v.iter().map(|(a, b)| (a.to_string(), b.to_string())).collect()
}

fn sample() -> TransferState {
    TransferState::new("upload", pairs(&[("a.txt", "/r"), ("b.txt", "/r"), ("c.txt", "/r")]), 300)
}

#[test]
fn new_state_doc_example() {
    let files = pairs(&[("local/file.txt", "/remote/file.txt")]);
    let state = TransferState::new("upload", files, 1024);
    assert_eq!(state.total_files, 1);
    assert_eq!(state.pending_count(), 1);
    assert!(!state.is_complete());
    assert_eq!(state.direction, "upload");
    assert_eq!(state.total_bytes, 1024);
    assert_eq!(state.transferred_bytes, 0);
    assert_eq!(state.version, TRANSFER_STATE_VERSION);
    assert_eq!(state.id.len(), 36);
    assert!(state.checksum.is_none());
    assert_eq!(default_state_version(), 1);
}

#[test]
fn marking_files() {
    let mut s = sample();
    s.mark_completed("a.txt", 100);
    s.mark_completed("a.txt", 100);
    assert_eq!(s.completed_files, vec!["a.txt".to_string()]);
    assert_eq!(s.transferred_bytes, 100);
    assert_eq!(s.pending_count(), 2);
    s.mark_failed("b.txt");
    s.mark_failed("b.txt");
    assert_eq!(s.failed_files, vec!["b.txt".to_string()]);
    assert_eq!(s.pending_count(), 1);
    s.mark_completed("c.txt", u64::MAX);
    assert_eq!(s.transferred_bytes, u64::MAX);
    assert!(s.is_complete());
    s.retry_failed();
    assert!(s.failed_files.is_empty());
    assert_eq!(s.pending_files, vec![("b.txt".to_string(), "/r".to_string())]);
    assert_eq!(s.completed_files, vec!["a.txt".to_string(), "c.txt".to_string()]);
    assert!(!s.is_complete());
}

#[test]
fn retry_requeues_failed_files_with_their_destination() {
    let mut s = TransferState::new("download", pairs(&[("/r/x", "d1"), ("/r/y", "d2"), ("/r/z", "d3")]), 30);
    s.mark_failed("/r/z");
    s.mark_failed("/r/x");
    assert_eq!(s.pending_count(), 1);
    s.retry_failed();
    assert!(s.failed_files.is_empty());
    assert_eq!(
        s.pending_files,
        vec![
            ("/r/y".to_string(), "d2".to_string()),
            ("/r/z".to_string(), "d3".to_string()),
            ("/r/x".to_string(), "d1".to_string()),
        ]
    );
    assert_eq!(s.total_files, 3);
}

#[test]
fn retry_clears_a_failed_file_with_no_known_destination() {
    let mut s = sample();
    s.failed_files.push("elsewhere.txt".to_string());
    s.mark_failed("a.txt");
    s.retry_failed();
    assert!(s.failed_files.is_empty());
    assert_eq!(s.pending_count(), 3);
    assert_eq!(s.pending_files[2], ("a.txt".to_string(), "/r".to_string()));
}

#[test]
fn fresh_state_is_valid() {
    let s = sample();
    let v = s.validate();
    assert!(v.is_valid, "{:?}", v.issues);
    assert!(v.issues.is_empty());
    assert!(v.can_repair);
    let ok = StateValidation::valid();
    assert!(ok.is_valid && ok.issues.is_empty() && ok.can_repair);
}

#[test]
fn checksum_round_trip() {
    let s = sample();
    let sealed = s.with_checksum();
    assert_eq!(sealed.checksum, Some(s.compute_checksum()));
    assert_eq!(s.compute_checksum().len(), 64);
    assert!(sealed.validate().is_valid);
    let mut tampered = sealed;
    tampered.transferred_bytes = 5;
    let v = tampered.validate();
    assert!(!v.is_valid);
    assert_eq!(v.issues, vec!["Checksum mismatch - state file may be corrupted".to_string()]);
}

#[test]
fn validation_issues_in_order() {
    let mut s = sample();
    s.completed_files = vec!["a".to_string(), "a".to_string()];
    s.failed_files = vec!["f".to_string(), "f".to_string(), "f".to_string()];
    s.transferred_bytes = 400;
    s.direction = "sideways".to_string();
    s.id = "not-a-uuid".to_string();
    let v = s.validate();
    assert!(!v.is_valid);
    assert!(!v.can_repair);
    assert_eq!(
        v.issues,
        vec![
            "File count mismatch: total=3, accounted=8".to_string(),
            "Duplicate in completed_files: a".to_string(),
            "Duplicate in failed_files: f".to_string(),
            "Duplicate in failed_files: f".to_string(),
            "Transferred bytes (400) exceeds total bytes (300)".to_string(),
            "Invalid direction: sideways".to_string(),
            "Invalid state ID (not a valid UUID)".to_string(),
        ]
    );
}

#[test]
fn repair_then_validate() {
    let mut s = sample();
    s.completed_files = vec!["a".to_string(), "a".to_string(), "b".to_string()];
    s.failed_files = vec!["f".to_string(), "f".to_string()];
    s.transferred_bytes = 999;
    s.id = "broken".to_string();
    let repairs = s.repair();
    assert_eq!(repairs.len(), 6);
    assert_eq!(repairs[0], "Removed 1 duplicate entries from completed_files");
    assert_eq!(repairs[1], "Removed 1 duplicate entries from failed_files");
    assert_eq!(repairs[2], "Corrected total_files from 3 to 6");
    assert_eq!(repairs[3], "Capped transferred_bytes from 999 to 300");
    assert!(repairs[4].starts_with("Regenerated invalid state ID: broken -> "));
    assert_eq!(repairs[5], "Updated checksum");
    assert_eq!(s.completed_files, vec!["a".to_string(), "b".to_string()]);
    assert_eq!(s.total_files, 6);
    assert_eq!(s.transferred_bytes, 300);
    assert_eq!(s.id.len(), 36);
    let v = s.validate();
    assert!(v.is_valid, "{:?}", v.issues);
}

#[test]
fn repair_of_sound_state_only_seals_it() {
    let mut s = sample();
    let id = s.id.clone();
    let repairs = s.repair();
    assert_eq!(repairs, vec!["Updated checksum".to_string()]);
    assert_eq!(s.id, id);
    assert_eq!(s.checksum, Some(s.compute_checksum()));
}

#[test]
fn duplicate_copies_everything() {
    let mut s = sample();
    s.mark_completed("a.txt", 10);
    let d = s.duplicate();
    assert_eq!(d.id, s.id);
    assert_eq!(d.completed_files, s.completed_files);
    assert_eq!(d.pending_files, s.pending_files);
    assert_eq!(d.compute_checksum(), s.compute_checksum());
}

#[test]
fn recording_batches() {
    let mut s = sample();
    let results = vec![
        ("a.txt".to_string(), 100u64, true),
        ("b.txt".to_string(), 50u64, false),
        ("c.txt".to_string(), 25u64, true),
    ];
    assert_eq!(s.record_outcomes(&results), (2, 1));
    assert_eq!(s.completed_files, vec!["a.txt".to_string(), "c.txt".to_string()]);
    assert_eq!(s.failed_files, vec!["b.txt".to_string()]);
    assert_eq!(s.transferred_bytes, 125);
    assert!(s.is_complete());
}

#[test]
fn merging_a_resumed_run() {
    let mut s = sample();
    s.mark_completed("a.txt", 100);
    s.mark_failed("b.txt");
    let mut resumed = TransferState::new("upload", pairs(&[("b.txt", "/r"), ("c.txt", "/r")]), 200);
    resumed.mark_completed("b.txt", 50);
    resumed.mark_completed("a.txt", 7);
    s.merge_resumed(&resumed);
    assert_eq!(s.completed_files, vec!["a.txt".to_string(), "b.txt".to_string()]);
    assert_eq!(s.failed_files, vec!["b.txt".to_string()]);
    assert_eq!(s.pending_files, pairs(&[("c.txt", "/r")]));
    assert_eq!(s.transferred_bytes, 157);
}

#[test]
fn batch_tallies() {
    assert_eq!(backoff_delay_ms(1), 500);
    assert_eq!(backoff_delay_ms(2), 1000);
    assert_eq!(backoff_delay_ms(4), 4000);
    assert_eq!(count_outcomes(&vec![true, false, true, true]), (3, 1));
    assert_eq!(count_outcomes(&vec![]), (0, 0));
    let results = vec![
        ("x".to_string(), "/r".to_string(), true),
        ("y".to_string(), "/s".to_string(), false),
    ];
    assert_eq!(split_outcomes(results), (1, 1, pairs(&[("y", "/s")])));
    assert_eq!(total_size(&vec![1, 2, 3]), 6);
}
