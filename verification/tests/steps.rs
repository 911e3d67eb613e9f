use pcloud_rust::error::PCloudError;
use pcloud_rust::sync::{sha256_hex, LocalChecksum, SyncWalk};
use pcloud_rust::text::trim_white_space;
use pcloud_rust::transfer::{retry_step, RetryStep};
use pcloud_rust::types::{FileTransferInfo, SyncResult};

fn result(uploaded: u32, up: &[&str]) -> SyncResult {
    let mut r = SyncResult::new();
    r.uploaded = uploaded;
    r.files_to_upload = up.iter().map(|s| s.to_string()).collect();
    r
}

fn subs(v: &[(&str, &str)]) -> Vec<(String, String)> {
    v.iter().map(|(a, b)| (a.to_string(), b.to_string())).collect()
}

#[test]
fn retry_step_backs_off_then_gives_up() {
    assert_eq!(retry_step(1, 3), RetryStep::RetryAfter(500));
    assert_eq!(retry_step(2, 3), RetryStep::RetryAfter(1000));
    assert_eq!(retry_step(3, 3), RetryStep::RetryAfter(2000));
    assert_eq!(retry_step(4, 3), RetryStep::GiveUp);
    assert_eq!(retry_step(1, 0), RetryStep::GiveUp);
}

#[test]
fn transfer_records() {
    let s = FileTransferInfo::started("a.txt".into(), "/l/a.txt".into(), "/r".into(), 10);
    assert!(s.is_in_progress());
    assert_eq!((s.transferred, s.is_complete, s.is_failed, s.error_message), (0, false, false, None));
    let ok = FileTransferInfo::finished("a.txt".into(), "/l/a.txt".into(), "/r".into(), 10, None);
    assert_eq!((ok.transferred, ok.is_complete, ok.is_failed), (10, true, false));
    let bad = FileTransferInfo::finished("a.txt".into(), "/l/a.txt".into(), "/r".into(), 10, Some("boom".into()));
    assert_eq!((bad.transferred, bad.is_complete, bad.is_failed), (0, false, true));
    assert_eq!(bad.error_message.as_deref(), Some("boom"));
    assert!(!bad.is_in_progress());
}

#[test]
fn trim_removes_unicode_white_space() {
    assert_eq!(trim_white_space("  new folder \t\n"), "new folder");
    assert_eq!(trim_white_space("\u{3000}\u{a0}x y\u{2009}"), "x y");
    assert_eq!(trim_white_space(" \u{85} "), "");
    assert_eq!(trim_white_space("\u{200b}a"), "\u{200b}a");
    assert_eq!(trim_white_space(""), "");
}

#[test]
fn sync_walk_visits_in_listing_order_and_sums() {
    let mut w = SyncWalk::new("/l", "/r/");
    let root = w.next_folder().unwrap();
    assert_eq!((root.local.as_str(), root.remote.as_str(), root.create_remote), ("/l", "/r/", false));
    assert!(w.fits(&result(1, &["/l/a"])));
    assert!(w.record("/r/", Ok((result(1, &["/l/a"]), subs(&[("/l/x", "x"), ("/l/y", "y")])))).is_none());
    let x = w.next_folder().unwrap();
    assert_eq!((x.local.as_str(), x.remote.as_str(), x.create_remote), ("/l/x", "/r/x", true));
    assert!(w.record("/r/x", Ok((result(2, &["/l/x/b", "/l/x/c"]), subs(&[("/l/x/z", "z")])))).is_none());
    let z = w.next_folder().unwrap();
    assert_eq!(z.remote, "/r/x/z");
    assert!(w.record("/r/x/z", Ok((result(0, &[]), vec![]))).is_none());
    let y = w.next_folder().unwrap();
    assert_eq!(y.remote, "/r/y");
    assert!(w.record("/r/y", Ok((result(1, &["/l/y/d"]), vec![]))).is_none());
    assert!(w.next_folder().is_none());
    let t = w.into_total();
    assert_eq!(t.uploaded, 4);
    assert_eq!(t.files_to_upload, vec!["/l/a", "/l/x/b", "/l/x/c", "/l/y/d"]);
}

#[test]
fn sync_walk_stops_at_the_first_error() {
    let mut w = SyncWalk::new("/l", "/r");
    w.next_folder().unwrap();
    assert!(w.record("/r", Ok((result(1, &[]), subs(&[("/l/x", "x"), ("/l/y", "y")])))).is_none());
    w.next_folder().unwrap();
    let e = w.record("/r/x", Err(PCloudError::NotAuthenticated));
    assert!(matches!(e, Some(PCloudError::NotAuthenticated)));
    assert!(w.next_folder().is_none());
    assert!(!w.fits(&result(u32::MAX, &[])));
}

#[test]
fn checksum_fed_in_pieces_matches_the_whole() {
    let mut c = LocalChecksum::new();
    c.feed(b"hello ");
    c.feed(b"");
    c.feed(b"world");
    let h = c.hex();
    assert_eq!(h, sha256_hex(b"hello world"));
    assert_eq!(h, "b94d27b9934d3e08a52e52d7da7dabfac484efe37a5380ee9088f7ace2efcde9");
    assert_eq!(LocalChecksum::new().hex(), "e3b0c44298fc1c149afbf4c8996fb92427ae41e4649b934ca495991b7852b855");
}
