use pcloud_rust::browser::{
    menu_actions, MenuAction, TransferFeed, WorkerReport, child_path_of, contains_delete, parent_path_of, GuiEffect, GuiEvent, GuiState, Key, Screen,
    SortBy, SortOrder, Status, ThemeMode, TransferType,
};
use pcloud_rust::types::{AccountInfo, DuplicateMode, FileItem};

fn item(name: &str, isfolder: bool, size: u64) -> FileItem {
    FileItem { name: name.to_string(), isfolder, size, created: None, modified: None }
}

fn logged_in() -> GuiState<()> {
    let mut g: GuiState<()> = GuiState::new(8);
    g.update(GuiEvent::UsernameChanged("me".to_string()));
    g.update(GuiEvent::PasswordChanged("secret".to_string()));
    g.update(GuiEvent::LoginResult(Ok("tok".to_string())));
    g.update(GuiEvent::ListResult(Ok(vec![item("docs", true, 0), item("a.txt", false, 10)])));
    g
}

fn working(g: &GuiState<()>) -> Option<String> {
    match &g.status {
        Status::Working(m) => Some(m.clone()),
        _ => None,
    }
}

fn error(g: &GuiState<()>) -> Option<String> {
    match &g.status {
        Status::Error(m) => Some(m.clone()),
        _ => None,
    }
}

#[test]
fn path_helpers() {
    assert_eq!(child_path_of(&"/".to_string(), "a"), "/a");
    assert_eq!(child_path_of(&"/a".to_string(), "b"), "/a/b");
    assert_eq!(parent_path_of("/a/b"), "/a");
    assert_eq!(parent_path_of("/a"), "/");
    assert_eq!(parent_path_of("/a/"), "/a");
    assert_eq!(parent_path_of("a"), "/");
    assert!(contains_delete("Delete file? Press Delete again to confirm"));
    assert!(contains_delete("xxDelete"));
    assert!(!contains_delete("delete"));
    assert!(!contains_delete("Delet"));
}

#[test]
fn starting_state() {
    let g: GuiState<()> = GuiState::new(8);
    assert_eq!(g.screen, Screen::Login);
    assert!(matches!(g.status, Status::Idle));
    assert_eq!(g.current_path, "/");
    assert_eq!(g.concurrency_setting, 8);
    assert_eq!(g.sort_by, SortBy::Name);
    assert_eq!(g.sort_order, SortOrder::Ascending);
    assert_eq!(g.theme_mode, ThemeMode::Dark);
    assert!(!g.is_busy());
}

#[test]
fn login_flow() {
    let mut g: GuiState<()> = GuiState::new(8);
    let e = g.update(GuiEvent::LoginPressed);
    assert!(e.is_empty());
    assert_eq!(error(&g).as_deref(), Some("Enter username/password"));
    g.update(GuiEvent::UsernameChanged("me".to_string()));
    g.update(GuiEvent::PasswordChanged("pw".to_string()));
    let e = g.update(GuiEvent::LoginPressed);
    assert!(matches!(&e[..], [GuiEffect::Login(u, p)] if u == "me" && p == "pw"));
    assert_eq!(working(&g).as_deref(), Some("Authenticating..."));
    g.update(GuiEvent::DuplicateModeChanged(DuplicateMode::Skip));
    let e = g.update(GuiEvent::LoginResult(Ok("tok".to_string())));
    assert!(matches!(&e[..], [GuiEffect::ListFolder(p), GuiEffect::FetchAccountInfo] if p == "/"));
    assert_eq!(g.screen, Screen::Dashboard);
    assert_eq!(g.client.token(), Some("tok"));
    assert_eq!(g.client.duplicate_mode, DuplicateMode::Skip);
    assert_eq!(working(&g).as_deref(), Some("Listing..."));
    let e = g.update(GuiEvent::LoginResult(Err("bad".to_string())));
    assert!(e.is_empty());
    assert_eq!(error(&g).as_deref(), Some("bad"));
}

#[test]
fn navigation() {
    let mut g = logged_in();
    assert!(matches!(g.status, Status::Idle));
    assert_eq!(g.file_list.len(), 2);
    let e = g.update(GuiEvent::NavigateTo("docs".to_string()));
    assert!(matches!(&e[..], [GuiEffect::ListFolder(p)] if p == "/docs"));
    g.update(GuiEvent::NavigateTo("x".to_string()));
    assert_eq!(g.current_path, "/docs/x");
    let e = g.update(GuiEvent::NavigateUp);
    assert!(matches!(&e[..], [GuiEffect::ListFolder(p)] if p == "/docs"));
    g.update(GuiEvent::NavigateUp);
    assert_eq!(g.current_path, "/");
    let e = g.update(GuiEvent::NavigateUp);
    assert!(e.is_empty());
    g.update(GuiEvent::NavigateToPath("/a/b".to_string()));
    assert_eq!(g.current_path, "/a/b");
}

#[test]
fn double_click_opens_folders() {
    let mut g = logged_in();
    let e = g.update(GuiEvent::ItemClicked(item("docs", true, 0), false));
    assert!(e.is_empty());
    assert_eq!(g.selected_item.as_ref().map(|i| i.name.clone()), Some("docs".to_string()));
    let e = g.update(GuiEvent::ItemClicked(item("docs", true, 0), true));
    assert!(matches!(&e[..], [GuiEffect::ListFolder(p)] if p == "/docs"));
    assert!(g.selected_item.is_none());
    // A quick second click on another item only selects it.
    g.update(GuiEvent::ItemClicked(item("a", false, 1), true));
    assert_eq!(g.selected_item.as_ref().map(|i| i.name.clone()), Some("a".to_string()));
}

#[test]
fn sorting_and_theme() {
    let mut g = logged_in();
    g.update(GuiEvent::SortByChanged(SortBy::Name));
    assert_eq!(g.sort_order, SortOrder::Descending);
    g.update(GuiEvent::SortByChanged(SortBy::Name));
    assert_eq!(g.sort_order, SortOrder::Ascending);
    g.update(GuiEvent::SortByChanged(SortBy::Size));
    g.update(GuiEvent::SortByChanged(SortBy::Size));
    g.update(GuiEvent::SortByChanged(SortBy::Date));
    assert_eq!((g.sort_by, g.sort_order), (SortBy::Date, SortOrder::Ascending));
    g.update(GuiEvent::ToggleTheme);
    assert_eq!(g.theme_mode, ThemeMode::Light);
    g.update(GuiEvent::ToggleTheme);
    assert_eq!(g.theme_mode, ThemeMode::Dark);
    g.update(GuiEvent::SearchFilterChanged("abc".to_string()));
    assert_eq!(g.search_filter, "abc");
    g.update(GuiEvent::ClearSearchFilter);
    assert_eq!(g.search_filter, "");
}

#[test]
fn upload_staging_and_start() {
    let mut g = logged_in();
    g.update(GuiEvent::NavigateTo("docs".to_string()));
    g.update(GuiEvent::ListResult(Ok(vec![])));
    let e = g.update(GuiEvent::UploadFilePressed);
    assert!(matches!(&e[..], [GuiEffect::PickFiles]));
    let files = vec![("/home/u/a".to_string(), 100u64), ("/home/u/b".to_string(), 23u64)];
    g.update(GuiEvent::UploadSelected(Some(files), 7));
    assert!(matches!(g.status, Status::ReadyToUpload(2, 123)));
    match &g.staged_transfer {
        Some(TransferType::Upload(7, tasks, 123)) => {
            assert_eq!(tasks, &vec![("/home/u/a".to_string(), "/docs".to_string()), ("/home/u/b".to_string(), "/docs".to_string())]);
        }
        _ => panic!("expected a staged upload"),
    }
    g.update(GuiEvent::ConcurrencyChanged(3));
    let e = g.update(GuiEvent::KeyboardEvent(Key::Enter, false, false));
    assert!(matches!(&e[..], [GuiEffect::ResetTransferProgress]));
    assert!(g.staged_transfer.is_none());
    assert!(matches!(g.active_transfer, Some(TransferType::Upload(7, _, 123))));
    assert_eq!(g.active_concurrency, 3);
    assert!(g.is_busy());
    g.update(GuiEvent::TransferStarted(2, 123));
    g.update(GuiEvent::TransferFileStarted("a".to_string(), 100));
    g.update(GuiEvent::TransferBytesProgress(60));
    g.update(GuiEvent::TransferItemFinished(100, true));
    match &g.status {
        Status::Transferring(p) => {
            assert_eq!((p.total_files, p.finished_files, p.total_bytes, p.transferred_bytes), (2, 1, 123, 60));
            assert_eq!(p.current_file.as_deref(), Some("a"));
            assert_eq!(p.current_file_size, 100);
        }
        _ => panic!("expected a running transfer"),
    }
    let e = g.update(GuiEvent::TransferCompleted);
    assert!(matches!(&e[..], [GuiEffect::ListFolder(p)] if p == "/docs"));
    assert!(g.active_transfer.is_none());
}

#[test]
fn cancelling_and_escape() {
    let mut g = logged_in();
    g.update(GuiEvent::UploadSelected(Some(vec![("/x".to_string(), 1)]), 1));
    g.update(GuiEvent::ShowContextMenu(None));
    g.update(GuiEvent::KeyboardEvent(Key::Escape, false, false));
    assert!(g.context_menu.is_none());
    assert!(g.staged_transfer.is_some());
    g.update(GuiEvent::KeyboardEvent(Key::Escape, false, false));
    assert!(g.staged_transfer.is_none());
    assert!(matches!(g.status, Status::Idle));
    g.update(GuiEvent::ItemClicked(item("a.txt", false, 10), false));
    g.update(GuiEvent::KeyboardEvent(Key::Escape, false, false));
    assert!(g.selected_item.is_none());
    g.update(GuiEvent::UploadSelected(None, 2));
    assert!(matches!(g.status, Status::Idle));
}

#[test]
fn download_choices() {
    let mut g = logged_in();
    g.update(GuiEvent::DownloadPressed);
    assert_eq!(error(&g).as_deref(), Some("Select file first"));
    g.update(GuiEvent::ItemClicked(item("a.txt", false, 10), false));
    let e = g.update(GuiEvent::KeyboardEvent(Key::Character("d".to_string()), true, false));
    assert!(matches!(&e[..], [GuiEffect::PickDownloadDestination]));
    g.update(GuiEvent::DownloadDestSelected(Some("/home/u".to_string()), 5));
    match &g.staged_transfer {
        Some(TransferType::Download(5, tasks, 10)) => {
            assert_eq!(tasks, &vec![("/a.txt".to_string(), "/home/u".to_string())]);
        }
        _ => panic!("expected a staged download"),
    }
    g.update(GuiEvent::ItemClicked(item("docs", true, 0), false));
    let e = g.update(GuiEvent::DownloadDestSelected(Some("/home/u".to_string()), 6));
    assert!(matches!(&e[..], [GuiEffect::ScanDownloadFolder(r, l)] if r == "/docs" && l == "/home/u"));
    assert_eq!(working(&g).as_deref(), Some("Scanning remote..."));
}

#[test]
fn deleting_with_confirmation() {
    let mut g = logged_in();
    let e = g.update(GuiEvent::KeyboardEvent(Key::Delete, false, false));
    assert!(e.is_empty());
    g.update(GuiEvent::ItemClicked(item("docs", true, 0), false));
    let e = g.update(GuiEvent::KeyboardEvent(Key::Delete, false, false));
    assert!(e.is_empty());
    assert_eq!(error(&g).as_deref(), Some("Delete folder? Press Delete again to confirm"));
    let e = g.update(GuiEvent::KeyboardEvent(Key::Delete, false, false));
    assert!(matches!(&e[..], [GuiEffect::DeleteFolder(p)] if p == "/docs"));
    assert_eq!(working(&g).as_deref(), Some("Deleting..."));
    let e = g.update(GuiEvent::DeleteResult(Ok(())));
    assert!(matches!(&e[..], [GuiEffect::ListFolder(_)]));
    assert!(g.selected_item.is_none());
    g.update(GuiEvent::DeleteResult(Err("nope".to_string())));
    assert_eq!(error(&g).as_deref(), Some("Delete failed: nope"));
    g.update(GuiEvent::DeletePressed);
    assert_eq!(error(&g).as_deref(), Some("Select item to delete"));
}

#[test]
fn creating_folders() {
    let mut g = logged_in();
    g.update(GuiEvent::KeyboardEvent(Key::Character("n".to_string()), true, false));
    assert!(g.creating_folder);
    g.update(GuiEvent::CreateFolderNameChanged("   ".to_string()));
    let e = g.update(GuiEvent::KeyboardEvent(Key::Enter, false, false));
    assert!(e.is_empty());
    assert_eq!(error(&g).as_deref(), Some("Folder name cannot be empty"));
    g.update(GuiEvent::CreateFolderNameChanged("  New  ".to_string()));
    let e = g.update(GuiEvent::CreateFolderConfirmed);
    assert!(matches!(&e[..], [GuiEffect::CreateFolder(p)] if p == "/New"));
    assert!(!g.creating_folder);
    g.update(GuiEvent::CreateFolderResult(Err("exists".to_string())));
    assert_eq!(error(&g).as_deref(), Some("Failed to create folder: exists"));
    g.update(GuiEvent::CreateFolderPressed);
    g.update(GuiEvent::KeyboardEvent(Key::Escape, false, false));
    assert!(!g.creating_folder);
}

#[test]
fn shortcuts_only_on_the_dashboard() {
    let mut g: GuiState<()> = GuiState::new(4);
    let e = g.update(GuiEvent::KeyboardEvent(Key::F5, false, false));
    assert!(e.is_empty());
    let mut g = logged_in();
    let e = g.update(GuiEvent::KeyboardEvent(Key::F5, false, false));
    assert!(matches!(&e[..], [GuiEffect::ListFolder(_)]));
    // Busy: uploads wait.
    let e = g.update(GuiEvent::KeyboardEvent(Key::Character("u".to_string()), true, false));
    assert!(e.is_empty());
    g.update(GuiEvent::ListResult(Ok(vec![])));
    let e = g.update(GuiEvent::KeyboardEvent(Key::Character("U".to_string()), true, true));
    assert!(matches!(&e[..], [GuiEffect::PickUploadFolder]));
    g.update(GuiEvent::UploadFolderSelected(Some("/home/u/pics".to_string())));
    assert_eq!(working(&g).as_deref(), Some("Scanning folder..."));
    let e = g.update(GuiEvent::KeyboardEvent(Key::Home, true, false));
    assert!(matches!(&e[..], [GuiEffect::ListFolder(p)] if p == "/"));
}

#[test]
fn account_and_settings() {
    let mut g = logged_in();
    let e = g.update(GuiEvent::FetchAccountInfo);
    assert!(matches!(&e[..], [GuiEffect::FetchAccountInfo]));
    let info = AccountInfo { email: "me@x".to_string(), quota: 10, used_quota: 1, premium: false };
    g.update(GuiEvent::AccountInfoResult(Ok(info)));
    assert_eq!(g.account_info.as_ref().map(|i| i.quota), Some(10));
    let e = g.update(GuiEvent::AccountInfoResult(Err("x".to_string())));
    assert!(matches!(&e[..], [GuiEffect::LogError(m)] if m == "Failed to fetch account info: x"));
    g.update(GuiEvent::ToggleAdaptiveConcurrency(false, 12));
    assert!(!g.use_adaptive_concurrency);
    assert_eq!(g.concurrency_setting, 8);
    g.update(GuiEvent::ToggleAdaptiveConcurrency(true, 12));
    assert_eq!(g.concurrency_setting, 12);
    g.update(GuiEvent::LogoutPressed);
    assert_eq!(g.screen, Screen::Login);
    assert_eq!(g.password, "");
    assert!(g.account_info.is_none());
}

#[test]
fn transfer_feed_reports() {
    let (mut feed, opening) = TransferFeed::start(2, 300);
    assert!(matches!(opening, GuiEvent::TransferStarted(2, 300)));
    assert!(matches!(feed.tick(10), GuiEvent::TransferBytesProgress(10)));
    let (events, done) = feed.report(WorkerReport::FileStarted("a".to_string(), 100), 10);
    assert!(!done);
    assert!(matches!(&events[..], [GuiEvent::TransferFileStarted(n, 100)] if n == "a"));
    let (events, done) = feed.report(WorkerReport::ItemFinished(100, true), 100);
    assert!(!done);
    assert!(matches!(&events[..], [GuiEvent::TransferBytesProgress(100), GuiEvent::TransferItemFinished(100, true)]));
    let (_, done) = feed.report(WorkerReport::ItemFinished(200, false), 100);
    assert!(done);
    assert_eq!(feed.files_done, 2);
    let closing = feed.finish(100);
    assert!(matches!(&closing[..], [GuiEvent::TransferBytesProgress(100), GuiEvent::TransferCompleted]));
}

#[test]
fn context_menu_entries() {
    assert_eq!(menu_actions(&None), vec![MenuAction::NewFolder, MenuAction::Cancel]);
    assert_eq!(
        menu_actions(&Some(item("d", true, 0))),
        vec![MenuAction::Open, MenuAction::Download, MenuAction::Delete, MenuAction::NewFolder, MenuAction::Cancel]
    );
    assert_eq!(
        menu_actions(&Some(item("f", false, 1))),
        vec![MenuAction::Download, MenuAction::Delete, MenuAction::NewFolder, MenuAction::Cancel]
    );
    assert!(matches!(MenuAction::Open.event(), GuiEvent::ContextMenuOpen));
    assert!(matches!(MenuAction::Cancel.event(), GuiEvent::HideContextMenu));
    let mut g = logged_in();
    g.update(GuiEvent::ShowContextMenu(Some(item("docs", true, 0))));
    let e = g.update(MenuAction::Open.event());
    assert!(matches!(&e[..], [GuiEffect::ListFolder(p)] if p == "/docs"));
    assert!(g.context_menu.is_none());
}
