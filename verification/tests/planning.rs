use pcloud_rust::client::PCloudClient;
use pcloud_rust::error::PCloudError;
use pcloud_rust::client::{download_destination, file_label};
use pcloud_rust::sync::{compare_listings, needs_checksum, sha256_hex, sync_actions, sync_result, LocalFile};
use pcloud_rust::text::{
    decimal, decimal_i64, join_remote, last_path_segment, path_push, replace_backslashes,
    trim_end_slashes,
};
use pcloud_rust::tree::{plan_upload_tree, DownloadWalk, WalkEntry};
use pcloud_rust::types::{FileItem, Region, SyncDirection};

fn entry(path: &str, relative: &str, is_dir: bool) -> WalkEntry {
    WalkEntry { path: path.to_string(), relative: relative.to_string(), is_dir, is_file: !is_dir }
}

fn item(name: &str, isfolder: bool, size: u64) -> FileItem {
    FileItem { name: name.to_string(), isfolder, size, created: None, modified: None }
}

fn local(name: &str, size: u64) -> LocalFile {
    LocalFile { name: name.to_string(), path: format!("/home/u/docs/{name}"), size }
}

fn pairs(v: &[(&str, &str)]) -> Vec<(String, String)> {
    v.iter().map(|(a, b)| (a.to_string(), b.to_string())).collect()
}

#[test]
fn text_helpers() {
    assert_eq!(decimal(0), "0");
    assert_eq!(decimal(1234567890123), "1234567890123");
    assert_eq!(decimal(u128::MAX), u128::MAX.to_string());
    assert_eq!(decimal_i64(-42), "-42");
    assert_eq!(decimal_i64(i64::MIN), i64::MIN.to_string());
    assert_eq!(replace_backslashes("a\\b\\c"), "a/b/c");
    assert_eq!(last_path_segment("/a/b/c.txt"), "c.txt");
    assert_eq!(last_path_segment("plain"), "plain");
    assert_eq!(last_path_segment("/a/"), "");
    assert_eq!(path_push("/home/u", "x"), "/home/u/x");
    assert_eq!(path_push("/home/u/", "x"), "/home/u/x");
    assert_eq!(path_push("/home/u", ""), "/home/u/");
    assert_eq!(path_push("", "x"), "x");
    assert_eq!(trim_end_slashes("/a//"), "/a");
    assert_eq!(join_remote("/", "f"), "/f");
    assert_eq!(join_remote("/a/", "f"), "/a/f");
    assert_eq!(join_remote("/a", "f"), "/a/f");
}

#[test]
fn upload_tree_plan() {
    let entries = vec![
        entry("/home/u/photos", "", true),
        entry("/home/u/photos/a.jpg", "a.jpg", false),
        entry("/home/u/photos/sub", "sub", true),
        entry("/home/u/photos/sub/b.jpg", "sub/b.jpg", false),
        entry("/home/u/photos/sub/deep", "sub/deep", true),
    ];
    let (files, batches) = plan_upload_tree("/home/u/photos", "/backup", &entries).ok().unwrap();
    assert_eq!(
        files,
        pairs(&[
            ("/home/u/photos/a.jpg", "/backup/photos"),
            ("/home/u/photos/sub/b.jpg", "/backup/photos/sub"),
        ])
    );
    let mut sorted: Vec<Vec<String>> = batches
        .into_iter()
        .map(|mut b| {
            b.sort();
            b
        })
        .collect();
    sorted.retain(|b| !b.is_empty());
    assert_eq!(
        sorted,
        vec![
            vec!["/backup".to_string()],
            vec!["/backup/photos".to_string()],
            vec!["/backup/photos/sub".to_string()],
            vec!["/backup/photos/sub/deep".to_string()],
        ]
    );
}

#[test]
fn upload_tree_at_the_root() {
    let entries = vec![entry("/x/pics", "", true), entry("/x/pics/p.png", "p.png", false)];
    let (files, batches) = plan_upload_tree("/x/pics", "/", &entries).ok().unwrap();
    assert_eq!(files, pairs(&[("/x/pics/p.png", "/pics")]));
    let all: Vec<String> = batches.into_iter().flatten().collect();
    assert_eq!(all, vec!["/pics".to_string()]);
}

#[test]
fn upload_tree_needs_a_folder_name() {
    match plan_upload_tree("/", "/backup", &vec![]) {
        Err(PCloudError::InvalidPath(m)) => assert_eq!(m, "Invalid folder name"),
        _ => panic!("expected InvalidPath"),
    }
}

#[test]
fn download_walk() {
    let mut walk = DownloadWalk::new("/music", "/home/u/dl");
    let root = walk.next_folder().unwrap();
    assert_eq!(root, "/music");
    let dir = walk.record_listing(&root, &vec![item("a.mp3", false, 3), item("live", true, 0), item("b.mp3", false, 4)]);
    assert_eq!(dir, "/home/u/dl/music/");
    let next = walk.next_folder().unwrap();
    assert_eq!(next, "/music/live");
    let dir2 = walk.record_listing(&next, &vec![item("c.mp3", false, 5), item("broken", true, 0)]);
    assert_eq!(dir2, "/home/u/dl/music/live");
    let bad = walk.next_folder().unwrap();
    assert_eq!(bad, "/music/live/broken");
    walk.record_failure(bad, "Access denied".to_string());
    assert!(walk.next_folder().is_none());
    assert_eq!(walk.failed_folders(), &pairs(&[("/music/live/broken", "Access denied")]));
    assert_eq!(
        walk.into_files(),
        pairs(&[
            ("/music/a.mp3", "/home/u/dl/music/"),
            ("/music/b.mp3", "/home/u/dl/music/"),
            ("/music/live/c.mp3", "/home/u/dl/music/live"),
        ])
    );
}

#[test]
fn download_walk_of_the_root() {
    let mut walk = DownloadWalk::new("/", "/tmp/x");
    let root = walk.next_folder().unwrap();
    let dir = walk.record_listing(&root, &vec![item("f", false, 1)]);
    assert_eq!(dir, "/tmp/x/download/");
    assert_eq!(walk.into_files(), pairs(&[("/f", "/tmp/x/download/")]));
}

#[test]
fn comparing_by_size() {
    let locals = vec![local("same.txt", 10), local("changed.txt", 11), local("new.txt", 1)];
    let remote = vec![
        item("same.txt", false, 10),
        item("changed.txt", false, 12),
        item("only_remote.txt", false, 3),
        item("new.txt", true, 0),
        item("only_remote.txt", false, 4),
    ];
    let (up, down) = compare_listings("/home/u/docs", "/docs/", &locals, &remote, false, &vec![]);
    assert_eq!(
        up,
        pairs(&[("/home/u/docs/changed.txt", "/docs/"), ("/home/u/docs/new.txt", "/docs/")])
    );
    assert_eq!(down, pairs(&[("/docs/only_remote.txt", "/home/u/docs")]));
}

#[test]
fn comparing_by_checksum() {
    let locals = vec![local("a", 1), local("b", 1), local("c", 1)];
    let remote = vec![item("a", false, 1), item("b", false, 1)];
    assert_eq!(needs_checksum(&locals, &remote), vec![true, true, false]);
    let hashes = vec![
        (Some("h1".to_string()), Some("h1".to_string())),
        (Some("h2".to_string()), None),
        (None, None),
    ];
    let (up, down) = compare_listings("/l", "/r", &locals, &remote, true, &hashes);
    assert_eq!(up, pairs(&[("/home/u/docs/b", "/r"), ("/home/u/docs/c", "/r")]));
    assert!(down.is_empty());
}

#[test]
fn later_local_entry_counts() {
    let locals = vec![local("x", 1), local("x", 2)];
    let remote = vec![item("x", false, 2)];
    let (up, _) = compare_listings("/l", "/r", &locals, &remote, false, &vec![]);
    assert!(up.is_empty());
    assert_eq!(needs_checksum(&locals, &remote), vec![false, true]);
}

#[test]
fn compare_folders_needs_the_local_folder() {
    let client: PCloudClient<()> = PCloudClient::new(None, Region::US, 2);
    match client.compare_folders("/missing", "/r", false, &vec![], &vec![], false, &vec![]) {
        Err(PCloudError::FileNotFound(p)) => assert_eq!(p, "/missing"),
        _ => panic!("expected FileNotFound"),
    }
    let (up, down) = client
        .compare_folders("/l", "/r", true, &vec![local("a", 1)], &vec![], false, &vec![])
        .ok()
        .unwrap();
    assert_eq!(up, pairs(&[("/home/u/docs/a", "/r")]));
    assert!(down.is_empty());
}

#[test]
fn sync_directions_and_results() {
    assert_eq!(sync_actions(SyncDirection::Upload, 2, 3), (true, false));
    assert_eq!(sync_actions(SyncDirection::Download, 2, 3), (false, true));
    assert_eq!(sync_actions(SyncDirection::Bidirectional, 0, 3), (false, true));
    let ups = pairs(&[("/l/a", "/r"), ("/l/b", "/r")]);
    let downs = pairs(&[("/r/c", "/l")]);
    let up_only = sync_result(SyncDirection::Upload, &ups, &downs, (1, 1), (9, 9));
    assert_eq!((up_only.uploaded, up_only.downloaded, up_only.skipped, up_only.failed), (1, 0, 1, 1));
    assert_eq!(up_only.files_to_upload, vec!["/l/a".to_string(), "/l/b".to_string()]);
    assert_eq!(up_only.files_to_download, vec!["/r/c".to_string()]);
    let down_only = sync_result(SyncDirection::Download, &ups, &downs, (9, 9), (1, 0));
    assert_eq!((down_only.uploaded, down_only.downloaded, down_only.skipped, down_only.failed), (0, 1, 2, 0));
    let both = sync_result(SyncDirection::Bidirectional, &ups, &downs, (2, 0), (0, 1));
    assert_eq!((both.uploaded, both.downloaded, both.skipped, both.failed), (2, 0, 0, 1));
    let nothing = sync_result(SyncDirection::Bidirectional, &vec![], &vec![], (5, 5), (5, 5));
    assert_eq!((nothing.uploaded, nothing.downloaded, nothing.skipped, nothing.failed), (0, 0, 0, 0));
}

#[test]
fn content_checksums() {
    assert_eq!(sha256_hex(b""), "e3b0c44298fc1c149afbf4c8996fb92427ae41e4649b934ca495991b7852b855");
    assert_eq!(sha256_hex(b"abc"), "ba7816bf8f01cfea414140de5dae2223b00361a396177a9cb410ff61f20015ad");
}

#[test]
fn local_names_and_destinations() {
    assert_eq!(file_label("/home/u/a.txt"), "a.txt");
    assert_eq!(file_label("/"), "unknown");
    assert_eq!(download_destination("/music/a.mp3", "/home/u/dl"), "/home/u/dl/a.mp3");
    assert_eq!(download_destination("a.mp3", "dl/"), "dl/a.mp3");
    assert_eq!(download_destination("/music/", "/tmp"), "/tmp/");
}
