//! The state of the graphical file browser and how each user action or
//! finished background job changes it. Every change returns the background
//! work it asks for (listing a folder, logging in, opening a file picker, …)
//! as a list of effects; the front end performs them and reports back with
//! further events.
use vstd::prelude::*;
use vstd::string::*;

use crate::client::{ClientView, PCloudClient};
use crate::config::{
    ChunkedUploadConfig, FileTimeoutConfig, DEFAULT_CHUNK_SIZE, DEFAULT_FILE_TIMEOUT_SECS,
    LARGE_FILE_THRESHOLD,
};
use crate::text::{spec_trim, trim_white_space};
use crate::transfer_state::pairs_view;
use crate::types::{items_view, AccountInfo, DuplicateMode, FileItem, FileItemView, Region};

verus! {

/// Which screen is shown.
#[derive(Debug, Clone, Copy, PartialEq, Eq, Structural)]
pub enum Screen {
    Login,
    Dashboard,
}

/// The key by which the file list is sorted.
#[derive(Debug, Clone, Copy, PartialEq, Eq, Structural)]
pub enum SortBy {
    Name,
    Size,
    Date,
}

/// The direction of the sort.
#[derive(Debug, Clone, Copy, PartialEq, Eq, Structural)]
pub enum SortOrder {
    Ascending,
    Descending,
}

/// Light or dark appearance.
#[derive(Debug, Clone, Copy, PartialEq, Eq, Structural)]
pub enum ThemeMode {
    Light,
    Dark,
}

/// Progress of the running transfer, as the browser shows it.
pub struct TransferProgress {
    pub total_files: usize,
    pub finished_files: usize,
    pub total_bytes: u64,
    pub transferred_bytes: u64,
    pub current_file: Option<String>,
    pub current_file_size: u64,
    pub current_file_progress: u64,
}

/// What the status bar says.
pub enum Status {
    Idle,
    /// A transfer of this many files and bytes waits to be started.
    ReadyToUpload(usize, u64),
    Working(String),
    Transferring(TransferProgress),
    Success(String),
    Error(String),
}

/// A transfer: its id, its `(source, destination)` pairs and its total size.
pub enum TransferType {
    Upload(u64, Vec<(String, String)>, u64),
    Download(u64, Vec<(String, String)>, u64),
}

/// A key press, as far as the shortcuts look at it.
pub enum Key {
    Character(String),
    F5,
    Delete,
    Enter,
    Backspace,
    Escape,
    Home,
    Other,
}

/// What happened: a user action, or the answer of background work.
pub enum GuiEvent {
    UsernameChanged(String),
    PasswordChanged(String),
    LoginPressed,
    LoginResult(Result<String, String>),
    LogoutPressed,
    RefreshList,
    ListResult(Result<Vec<FileItem>, String>),
    NavigateTo(String),
    NavigateUp,
    NavigateToPath(String),
    SortByChanged(SortBy),
    SearchFilterChanged(String),
    ClearSearchFilter,
    /// An item was clicked; `quick` says whether the previous click came
    /// within the double-click interval.
    ItemClicked(FileItem, bool),
    ConcurrencyChanged(usize),
    UploadFilePressed,
    UploadFolderPressed,
    /// The chosen files with their sizes, and the id for the transfer.
    UploadSelected(Option<Vec<(String, u64)>>, u64),
    UploadFolderSelected(Option<String>),
    StartTransferPressed,
    CancelTransferPressed,
    DownloadPressed,
    /// The chosen destination folder, and the id for the transfer.
    DownloadDestSelected(Option<String>, u64),
    DeletePressed,
    DeleteConfirmed,
    DeleteResult(Result<(), String>),
    StageTransfer(TransferType),
    TransferStarted(usize, u64),
    TransferBytesProgress(u64),
    TransferFileStarted(String, u64),
    TransferItemFinished(u64, bool),
    TransferCompleted,
    OperationFailed(String),
    ShowContextMenu(Option<FileItem>),
    HideContextMenu,
    ContextMenuOpen,
    ContextMenuDownload,
    ContextMenuDelete,
    ContextMenuNewFolder,
    /// A key with the state of Ctrl and Shift.
    KeyboardEvent(Key, bool, bool),
    CreateFolderPressed,
    CreateFolderNameChanged(String),
    CreateFolderConfirmed,
    CreateFolderResult(Result<(), String>),
    CancelCreateFolder,
    FetchAccountInfo,
    AccountInfoResult(Result<AccountInfo, String>),
    /// Adaptive concurrency switched on or off, with the worker count the
    /// machine suggests now.
    ToggleAdaptiveConcurrency(bool, usize),
    DuplicateModeChanged(DuplicateMode),
    ToggleTheme,
}

/// Background work that a change asks for.
pub enum GuiEffect {
    /// Log in with a username and password.
    Login(String, String),
    /// List a remote folder.
    ListFolder(String),
    /// Ask the account details.
    FetchAccountInfo,
    /// Let the user pick files to upload.
    PickFiles,
    /// Let the user pick a folder to upload.
    PickUploadFolder,
    /// Walk a local folder for upload into a remote folder.
    ScanUploadFolder(String, String),
    /// Let the user pick where to download.
    PickDownloadDestination,
    /// Walk a remote folder for download under a local folder.
    ScanDownloadFolder(String, String),
    DeleteFile(String),
    DeleteFolder(String),
    CreateFolder(String),
    /// Zero the shared byte counter before a transfer starts.
    ResetTransferProgress,
    /// Report an error that the status bar does not show.
    LogError(String),
}

// ---------------------------------------------------------------------------
// Views
// ---------------------------------------------------------------------------

pub struct ProgressView {
    pub total_files: usize,
    pub finished_files: usize,
    pub total_bytes: u64,
    pub transferred_bytes: u64,
    pub current_file: Option<Seq<char>>,
    pub current_file_size: u64,
    pub current_file_progress: u64,
}

pub enum StatusView {
    Idle,
    ReadyToUpload(usize, u64),
    Working(Seq<char>),
    Transferring(ProgressView),
    Success(Seq<char>),
    Error(Seq<char>),
}

pub enum TransferView {
    Upload(u64, Seq<(Seq<char>, Seq<char>)>, u64),
    Download(u64, Seq<(Seq<char>, Seq<char>)>, u64),
}

pub enum EffectView {
    Login(Seq<char>, Seq<char>),
    ListFolder(Seq<char>),
    FetchAccountInfo,
    PickFiles,
    PickUploadFolder,
    ScanUploadFolder(Seq<char>, Seq<char>),
    PickDownloadDestination,
    ScanDownloadFolder(Seq<char>, Seq<char>),
    DeleteFile(Seq<char>),
    DeleteFolder(Seq<char>),
    CreateFolder(Seq<char>),
    ResetTransferProgress,
    LogError(Seq<char>),
}

pub open spec fn str_opt(o: Option<String>) -> Option<Seq<char>> {
    match o {
        Some(s) => Some(s@),
        None => None,
    }
}

pub open spec fn item_opt(o: Option<FileItem>) -> Option<FileItemView> {
    match o {
        Some(i) => Some(i@),
        None => None,
    }
}

impl View for TransferProgress {
    type V = ProgressView;

    open spec fn view(&self) -> ProgressView {
        ProgressView {
            total_files: self.total_files,
            finished_files: self.finished_files,
            total_bytes: self.total_bytes,
            transferred_bytes: self.transferred_bytes,
            current_file: str_opt(self.current_file),
            current_file_size: self.current_file_size,
            current_file_progress: self.current_file_progress,
        }
    }
}

impl View for Status {
    type V = StatusView;

    open spec fn view(&self) -> StatusView {
        match self {
            Status::Idle => StatusView::Idle,
            Status::ReadyToUpload(n, b) => StatusView::ReadyToUpload(*n, *b),
            Status::Working(s) => StatusView::Working(s@),
            Status::Transferring(p) => StatusView::Transferring(p@),
            Status::Success(s) => StatusView::Success(s@),
            Status::Error(s) => StatusView::Error(s@),
        }
    }
}

impl View for TransferType {
    type V = TransferView;

    open spec fn view(&self) -> TransferView {
        match self {
            TransferType::Upload(id, t, b) => TransferView::Upload(*id, pairs_view(t@), *b),
            TransferType::Download(id, t, b) => TransferView::Download(*id, pairs_view(t@), *b),
        }
    }
}

impl View for GuiEffect {
    type V = EffectView;

    open spec fn view(&self) -> EffectView {
        match self {
            GuiEffect::Login(u, p) => EffectView::Login(u@, p@),
            GuiEffect::ListFolder(p) => EffectView::ListFolder(p@),
            GuiEffect::FetchAccountInfo => EffectView::FetchAccountInfo,
            GuiEffect::PickFiles => EffectView::PickFiles,
            GuiEffect::PickUploadFolder => EffectView::PickUploadFolder,
            GuiEffect::ScanUploadFolder(l, r) => EffectView::ScanUploadFolder(l@, r@),
            GuiEffect::PickDownloadDestination => EffectView::PickDownloadDestination,
            GuiEffect::ScanDownloadFolder(r, l) => EffectView::ScanDownloadFolder(r@, l@),
            GuiEffect::DeleteFile(p) => EffectView::DeleteFile(p@),
            GuiEffect::DeleteFolder(p) => EffectView::DeleteFolder(p@),
            GuiEffect::CreateFolder(p) => EffectView::CreateFolder(p@),
            GuiEffect::ResetTransferProgress => EffectView::ResetTransferProgress,
            GuiEffect::LogError(m) => EffectView::LogError(m@),
        }
    }
}

pub open spec fn effects_view(v: Seq<GuiEffect>) -> Seq<EffectView> {
    v.map_values(|e: GuiEffect| e@)
}

/// The state of the browser.
pub struct GuiState<R> {
    pub screen: Screen,
    pub status: Status,
    pub username: String,
    pub password: String,
    pub client: PCloudClient<R>,
    pub current_path: String,
    pub file_list: Vec<FileItem>,
    pub selected_item: Option<FileItem>,
    pub concurrency_setting: usize,
    pub active_concurrency: usize,
    pub use_adaptive_concurrency: bool,
    pub staged_transfer: Option<TransferType>,
    pub active_transfer: Option<TransferType>,
    pub sort_by: SortBy,
    pub sort_order: SortOrder,
    pub search_filter: String,
    /// The open context menu, for an item or for the empty list area.
    pub context_menu: Option<Option<FileItem>>,
    pub last_clicked_item: Option<String>,
    pub creating_folder: bool,
    pub new_folder_name: String,
    pub account_info: Option<AccountInfo>,
    pub duplicate_mode: DuplicateMode,
    pub theme_mode: ThemeMode,
}

#[verifier::ext_equal]
pub struct GuiView<R> {
    pub screen: Screen,
    pub status: StatusView,
    pub username: Seq<char>,
    pub password: Seq<char>,
    pub client: ClientView<R>,
    pub current_path: Seq<char>,
    pub file_list: Seq<FileItemView>,
    pub selected: Option<FileItemView>,
    pub concurrency_setting: usize,
    pub active_concurrency: usize,
    pub adaptive: bool,
    pub staged: Option<TransferView>,
    pub active: Option<TransferView>,
    pub sort_by: SortBy,
    pub sort_order: SortOrder,
    pub search_filter: Seq<char>,
    pub context_menu: Option<Option<FileItemView>>,
    pub last_clicked: Option<Seq<char>>,
    pub creating_folder: bool,
    pub new_folder_name: Seq<char>,
    pub account_info: Option<AccountInfo>,
    pub duplicate_mode: DuplicateMode,
    pub theme: ThemeMode,
}

pub open spec fn transfer_opt(o: Option<TransferType>) -> Option<TransferView> {
    match o {
        Some(t) => Some(t@),
        None => None,
    }
}

pub open spec fn menu_opt(o: Option<Option<FileItem>>) -> Option<Option<FileItemView>> {
    match o {
        Some(i) => Some(item_opt(i)),
        None => None,
    }
}

impl<R> View for GuiState<R> {
    type V = GuiView<R>;

    open spec fn view(&self) -> GuiView<R> {
        GuiView {
            screen: self.screen,
            status: self.status@,
            username: self.username@,
            password: self.password@,
            client: self.client@,
            current_path: self.current_path@,
            file_list: items_view(self.file_list@),
            selected: item_opt(self.selected_item),
            concurrency_setting: self.concurrency_setting,
            active_concurrency: self.active_concurrency,
            adaptive: self.use_adaptive_concurrency,
            staged: transfer_opt(self.staged_transfer),
            active: transfer_opt(self.active_transfer),
            sort_by: self.sort_by,
            sort_order: self.sort_order,
            search_filter: self.search_filter@,
            context_menu: menu_opt(self.context_menu),
            last_clicked: str_opt(self.last_clicked_item),
            creating_folder: self.creating_folder,
            new_folder_name: self.new_folder_name@,
            account_info: self.account_info,
            duplicate_mode: self.duplicate_mode,
            theme: self.theme_mode,
        }
    }
}

// ---------------------------------------------------------------------------
// Transitions
// ---------------------------------------------------------------------------

/// The path of `name` inside the folder `cur`.
pub open spec fn child_path(cur: Seq<char>, name: Seq<char>) -> Seq<char> {
    if cur == "/"@ {
        "/"@ + name
    } else {
        cur + "/"@ + name
    }
}

/// `s` up to its last `/`, exclusive (empty when it has none).
pub open spec fn before_last_slash(s: Seq<char>) -> Seq<char>
    decreases s.len(),
{
    if s.len() == 0 {
        s
    } else if s.last() == '/' {
        s.drop_last()
    } else {
        before_last_slash(s.drop_last())
    }
}

/// The folder above `cur`: its last component removed, `/` at the top.
pub open spec fn parent_path(cur: Seq<char>) -> Seq<char> {
    let p = before_last_slash(cur);
    if p.len() == 0 {
        "/"@
    } else {
        p
    }
}

/// Whether the six characters of `s` at `i` spell `Delete`.
pub open spec fn delete_at(s: Seq<char>, i: int) -> bool {
    0 <= i && i + 6 <= s.len() && s.subrange(i, i + 6) == "Delete"@
}

/// Whether `s` contains the word `Delete`.
pub open spec fn mentions_delete(s: Seq<char>) -> bool {
    exists|i: int| #[trigger] delete_at(s, i)
}

/// Whether background work is under way.
pub open spec fn is_busy(st: StatusView) -> bool {
    st is Working || st is Transferring
}

/// `after` and `eff` are the state and the effects of `step`.
pub open spec fn realizes<R>(after: GuiView<R>, eff: Seq<EffectView>, step: (GuiView<R>, Seq<EffectView>)) -> bool {
    after =~= step.0 && eff =~= step.1
}

pub open spec fn refresh<R>(v: GuiView<R>) -> (GuiView<R>, Seq<EffectView>) {
    (GuiView { status: StatusView::Working("Listing..."@), ..v }, seq![EffectView::ListFolder(v.current_path)])
}

pub open spec fn navigate_to<R>(v: GuiView<R>, name: Seq<char>) -> (GuiView<R>, Seq<EffectView>) {
    refresh(GuiView { current_path: child_path(v.current_path, name), selected: None, ..v })
}

pub open spec fn navigate_to_path<R>(v: GuiView<R>, p: Seq<char>) -> (GuiView<R>, Seq<EffectView>) {
    refresh(GuiView { current_path: p, selected: None, ..v })
}

pub open spec fn navigate_up<R>(v: GuiView<R>) -> (GuiView<R>, Seq<EffectView>) {
    if v.current_path != "/"@ {
        refresh(GuiView { current_path: parent_path(v.current_path), ..v })
    } else {
        (v, seq![])
    }
}

pub open spec fn transfer_size(t: TransferView) -> (nat, u64) {
    match t {
        TransferView::Upload(_, tasks, b) => (tasks.len(), b),
        TransferView::Download(_, tasks, b) => (tasks.len(), b),
    }
}

pub open spec fn stage<R>(v: GuiView<R>, t: TransferView) -> (GuiView<R>, Seq<EffectView>) {
    (
        GuiView {
            staged: Some(t),
            status: StatusView::ReadyToUpload(transfer_size(t).0 as usize, transfer_size(t).1),
            ..v
        },
        seq![],
    )
}

pub open spec fn upload_file_pressed<R>(v: GuiView<R>) -> (GuiView<R>, Seq<EffectView>) {
    (GuiView { status: StatusView::Working("Selecting files..."@), ..v }, seq![EffectView::PickFiles])
}

pub open spec fn upload_folder_pressed<R>(v: GuiView<R>) -> (GuiView<R>, Seq<EffectView>) {
    (GuiView { status: StatusView::Working("Selecting folder..."@), ..v }, seq![EffectView::PickUploadFolder])
}

pub open spec fn download_pressed<R>(v: GuiView<R>) -> (GuiView<R>, Seq<EffectView>) {
    if v.selected is Some {
        (
            GuiView { status: StatusView::Working("Pick destination..."@), ..v },
            seq![EffectView::PickDownloadDestination],
        )
    } else {
        (GuiView { status: StatusView::Error("Select file first"@), ..v }, seq![])
    }
}

pub open spec fn delete_pressed<R>(v: GuiView<R>) -> (GuiView<R>, Seq<EffectView>) {
    match v.selected {
        Some(it) => (
            GuiView {
                status: StatusView::Error(
                    "Delete "@ + (if it.isfolder { "folder"@ } else { "file"@ }) + "? Press Delete again to confirm"@,
                ),
                ..v
            },
            seq![],
        ),
        None => (GuiView { status: StatusView::Error("Select item to delete"@), ..v }, seq![]),
    }
}

pub open spec fn delete_confirmed<R>(v: GuiView<R>) -> (GuiView<R>, Seq<EffectView>) {
    match v.selected {
        Some(it) => (
            GuiView { status: StatusView::Working("Deleting..."@), ..v },
            seq![
                if it.isfolder {
                    EffectView::DeleteFolder(child_path(v.current_path, it.name))
                } else {
                    EffectView::DeleteFile(child_path(v.current_path, it.name))
                },
            ],
        ),
        None => (v, seq![]),
    }
}

pub open spec fn start_transfer<R>(v: GuiView<R>) -> (GuiView<R>, Seq<EffectView>) {
    match v.staged {
        Some(t) => (
            GuiView {
                active_concurrency: v.concurrency_setting,
                active: Some(t),
                staged: None,
                status: StatusView::Working("Starting transfer..."@),
                ..v
            },
            seq![EffectView::ResetTransferProgress],
        ),
        None => (v, seq![]),
    }
}

pub open spec fn cancel_transfer<R>(v: GuiView<R>) -> (GuiView<R>, Seq<EffectView>) {
    (GuiView { staged: None, active: None, status: StatusView::Idle, ..v }, seq![])
}

pub open spec fn create_folder_pressed<R>(v: GuiView<R>) -> (GuiView<R>, Seq<EffectView>) {
    (GuiView { creating_folder: true, new_folder_name: Seq::empty(), ..v }, seq![])
}

pub open spec fn cancel_create_folder<R>(v: GuiView<R>) -> (GuiView<R>, Seq<EffectView>) {
    (GuiView { creating_folder: false, new_folder_name: Seq::empty(), ..v }, seq![])
}

pub open spec fn create_folder_confirmed<R>(v: GuiView<R>) -> (GuiView<R>, Seq<EffectView>) {
    let name = spec_trim(v.new_folder_name);
    if name.len() == 0 {
        (GuiView { status: StatusView::Error("Folder name cannot be empty"@), ..v }, seq![])
    } else {
        (
            GuiView { creating_folder: false, status: StatusView::Working("Creating folder..."@), ..v },
            seq![EffectView::CreateFolder(child_path(v.current_path, name))],
        )
    }
}

pub open spec fn open_selected<R>(v: GuiView<R>) -> (GuiView<R>, Seq<EffectView>) {
    match v.selected {
        Some(it) => if it.isfolder {
            navigate_to(v, it.name)
        } else {
            (v, seq![])
        },
        None => (v, seq![]),
    }
}

/// What a key press does on the dashboard.
pub open spec fn key_step<R>(v: GuiView<R>, key: Key, ctrl: bool, shift: bool) -> (GuiView<R>, Seq<EffectView>) {
    let idle = !is_busy(v.status);
    if v.screen != Screen::Dashboard {
        (v, seq![])
    } else if v.creating_folder {
        match key {
            Key::Escape => cancel_create_folder(v),
            Key::Enter => create_folder_confirmed(v),
            _ => (v, seq![]),
        }
    } else {
        match key {
            Key::Character(c) => if c@ == "r"@ && ctrl {
                refresh(v)
            } else if c@ == "u"@ && ctrl {
                if idle { upload_file_pressed(v) } else { (v, seq![]) }
            } else if c@ == "U"@ && ctrl && shift {
                if idle { upload_folder_pressed(v) } else { (v, seq![]) }
            } else if c@ == "d"@ && ctrl {
                if idle && v.selected is Some { download_pressed(v) } else { (v, seq![]) }
            } else if c@ == "n"@ && ctrl {
                if idle { create_folder_pressed(v) } else { (v, seq![]) }
            } else {
                (v, seq![])
            },
            Key::F5 => refresh(v),
            Key::Delete => if idle && v.selected is Some {
                if v.status matches StatusView::Error(m) && mentions_delete(m) {
                    delete_confirmed(v)
                } else {
                    delete_pressed(v)
                }
            } else {
                (v, seq![])
            },
            Key::Enter => if v.status is ReadyToUpload {
                start_transfer(v)
            } else {
                open_selected(v)
            },
            Key::Backspace => if idle { navigate_up(v) } else { (v, seq![]) },
            Key::Escape => if v.context_menu is Some {
                (GuiView { context_menu: None, ..v }, seq![])
            } else if v.staged is Some {
                cancel_transfer(v)
            } else {
                (GuiView { selected: None, ..v }, seq![])
            },
            Key::Home => if ctrl { navigate_to_path(v, "/"@) } else { (v, seq![]) },
            Key::Other => (v, seq![]),
        }
    }
}

/// The upload tasks of chosen files: each file into the folder `remote`.
pub open spec fn upload_tasks(files: Seq<(String, u64)>, remote: Seq<char>) -> Seq<(Seq<char>, Seq<char>)> {
    files.map_values(|f: (String, u64)| (f.0@, remote))
}

/// The total size of chosen files.
pub open spec fn total_size(files: Seq<(String, u64)>) -> nat
    decreases files.len(),
{
    if files.len() == 0 {
        0
    } else {
        total_size(files.drop_last()) + files.last().1 as nat
    }
}

pub open spec fn with_status<R>(v: GuiView<R>, st: StatusView) -> (GuiView<R>, Seq<EffectView>) {
    (GuiView { status: st, ..v }, seq![])
}

/// How the browser answers `e` in the state `v`: the new state and the
/// background work to do.
pub open spec fn spec_step<R>(v: GuiView<R>, e: GuiEvent) -> (GuiView<R>, Seq<EffectView>) {
    match e {
        GuiEvent::UsernameChanged(s) => (GuiView { username: s@, ..v }, seq![]),
        GuiEvent::PasswordChanged(s) => (GuiView { password: s@, ..v }, seq![]),
        GuiEvent::LoginPressed => if v.username.len() == 0 || v.password.len() == 0 {
            with_status(v, StatusView::Error("Enter username/password"@))
        } else {
            (
                GuiView { status: StatusView::Working("Authenticating..."@), ..v },
                seq![EffectView::Login(v.username, v.password)],
            )
        },
        GuiEvent::LoginResult(Ok(t)) => {
            let r = refresh(
                GuiView {
                    screen: Screen::Dashboard,
                    client: ClientView { token: Some(t@), duplicate_mode: v.duplicate_mode, ..v.client },
                    status: StatusView::Success("Logged in"@),
                    ..v
                },
            );
            (r.0, r.1.push(EffectView::FetchAccountInfo))
        },
        GuiEvent::LoginResult(Err(m)) => with_status(v, StatusView::Error(m@)),
        GuiEvent::LogoutPressed => (
            GuiView {
                screen: Screen::Login,
                password: Seq::empty(),
                active: None,
                staged: None,
                status: StatusView::Idle,
                account_info: None,
                ..v
            },
            seq![],
        ),
        GuiEvent::RefreshList => refresh(v),
        GuiEvent::ListResult(Ok(l)) => (GuiView { file_list: items_view(l@), status: StatusView::Idle, ..v }, seq![]),
        GuiEvent::ListResult(Err(m)) => with_status(v, StatusView::Error(m@)),
        GuiEvent::NavigateTo(n) => navigate_to(v, n@),
        GuiEvent::NavigateUp => navigate_up(v),
        GuiEvent::NavigateToPath(p) => navigate_to_path(v, p@),
        GuiEvent::SortByChanged(s) => if v.sort_by == s {
            (
                GuiView {
                    sort_order: match v.sort_order {
                        SortOrder::Ascending => SortOrder::Descending,
                        SortOrder::Descending => SortOrder::Ascending,
                    },
                    ..v
                },
                seq![],
            )
        } else {
            (GuiView { sort_by: s, sort_order: SortOrder::Ascending, ..v }, seq![])
        },
        GuiEvent::SearchFilterChanged(f) => (GuiView { search_filter: f@, ..v }, seq![]),
        GuiEvent::ClearSearchFilter => (GuiView { search_filter: Seq::empty(), ..v }, seq![]),
        GuiEvent::ItemClicked(item, quick) => {
            let double = quick && v.last_clicked == Some(item.name@);
            let v1 = GuiView { last_clicked: Some(item.name@), ..v };
            if double && item.isfolder {
                navigate_to(v1, item.name@)
            } else {
                (GuiView { selected: Some(item@), ..v1 }, seq![])
            }
        },
        GuiEvent::ConcurrencyChanged(n) => (GuiView { concurrency_setting: n, ..v }, seq![]),
        GuiEvent::UploadFilePressed => upload_file_pressed(v),
        GuiEvent::UploadFolderPressed => upload_folder_pressed(v),
        GuiEvent::UploadSelected(Some(files), id) => stage(
            v,
            TransferView::Upload(id, upload_tasks(files@, v.current_path), total_size(files@) as u64),
        ),
        GuiEvent::UploadSelected(None, _) => with_status(v, StatusView::Idle),
        GuiEvent::UploadFolderSelected(Some(p)) => (
            GuiView { status: StatusView::Working("Scanning folder..."@), ..v },
            seq![EffectView::ScanUploadFolder(p@, v.current_path)],
        ),
        GuiEvent::UploadFolderSelected(None) => with_status(v, StatusView::Idle),
        GuiEvent::StartTransferPressed => start_transfer(v),
        GuiEvent::CancelTransferPressed => cancel_transfer(v),
        GuiEvent::DownloadPressed => download_pressed(v),
        GuiEvent::DownloadDestSelected(Some(local), id) => match v.selected {
            None => with_status(v, StatusView::Error("No item selected"@)),
            Some(it) => {
                let remote = child_path(v.current_path, it.name);
                if it.isfolder {
                    (
                        GuiView { status: StatusView::Working("Scanning remote..."@), ..v },
                        seq![EffectView::ScanDownloadFolder(remote, local@)],
                    )
                } else {
                    stage(v, TransferView::Download(id, seq![(remote, local@)], it.size))
                }
            },
        },
        GuiEvent::DownloadDestSelected(None, _) => with_status(v, StatusView::Idle),
        GuiEvent::DeletePressed => delete_pressed(v),
        GuiEvent::DeleteConfirmed => delete_confirmed(v),
        GuiEvent::DeleteResult(Ok(_)) => refresh(
            GuiView { status: StatusView::Success("Deleted successfully"@), selected: None, ..v },
        ),
        GuiEvent::DeleteResult(Err(m)) => with_status(v, StatusView::Error("Delete failed: "@ + m@)),
        GuiEvent::StageTransfer(t) => stage(v, t@),
        GuiEvent::TransferStarted(n, b) => with_status(
            v,
            StatusView::Transferring(
                ProgressView {
                    total_files: n,
                    finished_files: 0,
                    total_bytes: b,
                    transferred_bytes: 0,
                    current_file: None,
                    current_file_size: 0,
                    current_file_progress: 0,
                },
            ),
        ),
        GuiEvent::TransferFileStarted(name, size) => match v.status {
            StatusView::Transferring(p) => with_status(
                v,
                StatusView::Transferring(
                    ProgressView { current_file: Some(name@), current_file_size: size, current_file_progress: 0, ..p },
                ),
            ),
            _ => (v, seq![]),
        },
        GuiEvent::TransferBytesProgress(b) => match v.status {
            StatusView::Transferring(p) => with_status(
                v,
                StatusView::Transferring(ProgressView { transferred_bytes: b, ..p }),
            ),
            _ => (v, seq![]),
        },
        GuiEvent::TransferItemFinished(_, _) => match v.status {
            StatusView::Transferring(p) => with_status(
                v,
                StatusView::Transferring(ProgressView { finished_files: (p.finished_files + 1) as usize, ..p }),
            ),
            _ => (v, seq![]),
        },
        GuiEvent::TransferCompleted => refresh(
            GuiView { status: StatusView::Success("Transfer Complete!"@), active: None, ..v },
        ),
        GuiEvent::OperationFailed(m) => with_status(v, StatusView::Error(m@)),
        GuiEvent::ShowContextMenu(item) => (
            GuiView {
                selected: if item is Some { item_opt(item) } else { v.selected },
                context_menu: Some(item_opt(item)),
                ..v
            },
            seq![],
        ),
        GuiEvent::HideContextMenu => (GuiView { context_menu: None, ..v }, seq![]),
        GuiEvent::ContextMenuOpen => open_selected(GuiView { context_menu: None, ..v }),
        GuiEvent::ContextMenuDownload => download_pressed(GuiView { context_menu: None, ..v }),
        GuiEvent::ContextMenuDelete => delete_pressed(GuiView { context_menu: None, ..v }),
        GuiEvent::ContextMenuNewFolder => create_folder_pressed(GuiView { context_menu: None, ..v }),
        GuiEvent::KeyboardEvent(k, ctrl, shift) => key_step(v, k, ctrl, shift),
        GuiEvent::CreateFolderPressed => create_folder_pressed(v),
        GuiEvent::CreateFolderNameChanged(n) => (GuiView { new_folder_name: n@, ..v }, seq![]),
        GuiEvent::CreateFolderConfirmed => create_folder_confirmed(v),
        GuiEvent::CreateFolderResult(Ok(_)) => refresh(
            GuiView {
                creating_folder: false,
                new_folder_name: Seq::empty(),
                status: StatusView::Success("Folder created"@),
                ..v
            },
        ),
        GuiEvent::CreateFolderResult(Err(m)) => (
            GuiView {
                creating_folder: false,
                new_folder_name: Seq::empty(),
                status: StatusView::Error("Failed to create folder: "@ + m@),
                ..v
            },
            seq![],
        ),
        GuiEvent::CancelCreateFolder => cancel_create_folder(v),
        GuiEvent::FetchAccountInfo => (v, seq![EffectView::FetchAccountInfo]),
        GuiEvent::AccountInfoResult(Ok(info)) => (GuiView { account_info: Some(info), ..v }, seq![]),
        GuiEvent::AccountInfoResult(Err(m)) => (v, seq![EffectView::LogError("Failed to fetch account info: "@ + m@)]),
        GuiEvent::ToggleAdaptiveConcurrency(on, n) => (
            GuiView { adaptive: on, concurrency_setting: if on { n } else { v.concurrency_setting }, ..v },
            seq![],
        ),
        GuiEvent::DuplicateModeChanged(m) => (
            GuiView { duplicate_mode: m, client: ClientView { duplicate_mode: m, ..v.client }, ..v },
            seq![],
        ),
        GuiEvent::ToggleTheme => (
            GuiView {
                theme: match v.theme {
                    ThemeMode::Light => ThemeMode::Dark,
                    ThemeMode::Dark => ThemeMode::Light,
                },
                ..v
            },
            seq![],
        ),
    }
}

/// The inputs on which a step does not overflow a counter: the sizes of
/// chosen files fit in 64 bits, and a finished file can still be counted.
pub open spec fn step_ok<R>(v: GuiView<R>, e: GuiEvent) -> bool {
    match e {
        GuiEvent::UploadSelected(Some(files), _) => total_size(files@) <= u64::MAX,
        GuiEvent::TransferItemFinished(_, _) => (v.status matches StatusView::Transferring(p)
            ==> p.finished_files < usize::MAX),
        _ => true,
    }
}

// ---------------------------------------------------------------------------
// The feed of a running transfer
// ---------------------------------------------------------------------------

/// What a worker of a running transfer reports.
pub enum WorkerReport {
    /// A file of this name and size is being started.
    FileStarted(String, u64),
    /// A file of this size is finished, successfully or not.
    ItemFinished(u64, bool),
}

/// Turns the reports of the workers of a transfer into browser events, and
/// says when the transfer is over: once every file is finished.
pub struct TransferFeed {
    pub total_files: usize,
    pub files_done: usize,
}

impl TransferFeed {
    /// The feed of a transfer of `total_files` files of `total_bytes` bytes,
    /// with the event that opens it.
    pub fn start(total_files: usize, total_bytes: u64) -> (r: (TransferFeed, GuiEvent))
        ensures
            r.0.total_files == total_files && r.0.files_done == 0,
            r.1 matches GuiEvent::TransferStarted(n, b) && n == total_files && b == total_bytes,
    {
        (TransferFeed { total_files, files_done: 0 }, GuiEvent::TransferStarted(total_files, total_bytes))
    }

    /// The periodic progress event: the bytes moved so far.
    pub fn tick(&self, bytes_now: u64) -> (e: GuiEvent)
        ensures
            e matches GuiEvent::TransferBytesProgress(b) && b == bytes_now,
    {
        GuiEvent::TransferBytesProgress(bytes_now)
    }

    /// The events for one report, given the bytes moved so far, and whether
    /// the transfer is now over. A started file is passed on; a finished
    /// file is counted and announced after a progress event.
    pub fn report(&mut self, r: WorkerReport, bytes_now: u64) -> (out: (Vec<GuiEvent>, bool))
        requires
            old(self).files_done < usize::MAX,
        ensures
            final(self).total_files == old(self).total_files,
            r matches WorkerReport::FileStarted(name, size) ==> final(self).files_done == old(self).files_done
                && !out.1 && out.0@.len() == 1
                && (out.0@[0] matches GuiEvent::TransferFileStarted(n, sz) && n@ == name@ && sz == size),
            r matches WorkerReport::ItemFinished(size, ok) ==> final(self).files_done == old(self).files_done + 1
                && out.1 == (final(self).files_done >= final(self).total_files) && out.0@.len() == 2
                && (out.0@[0] matches GuiEvent::TransferBytesProgress(b) && b == bytes_now)
                && (out.0@[1] matches GuiEvent::TransferItemFinished(sz, k) && sz == size && k == ok),
    {
        let mut events: Vec<GuiEvent> = Vec::new();
        match r {
            WorkerReport::FileStarted(name, size) => {
                events.push(GuiEvent::TransferFileStarted(name, size));
                (events, false)
            },
            WorkerReport::ItemFinished(size, ok) => {
                self.files_done = self.files_done + 1;
                events.push(GuiEvent::TransferBytesProgress(bytes_now));
                events.push(GuiEvent::TransferItemFinished(size, ok));
                (events, self.files_done >= self.total_files)
            },
        }
    }

    /// The closing events: the final progress and the completion.
    pub fn finish(&self, bytes_now: u64) -> (out: Vec<GuiEvent>)
        ensures
            out@.len() == 2,
            out@[0] matches GuiEvent::TransferBytesProgress(b) && b == bytes_now,
            out@[1] is TransferCompleted,
    {
        let mut events: Vec<GuiEvent> = Vec::new();
        events.push(GuiEvent::TransferBytesProgress(bytes_now));
        events.push(GuiEvent::TransferCompleted);
        events
    }
}

// ---------------------------------------------------------------------------
// The context menu
// ---------------------------------------------------------------------------

/// An entry of the context menu.
#[derive(Debug, Clone, Copy, PartialEq, Eq, Structural)]
pub enum MenuAction {
    Open,
    Download,
    Delete,
    NewFolder,
    Cancel,
}

/// The entries of a context menu, in order: for an item, opening it
/// (folders only), downloading and deleting it; then always a new folder
/// and closing the menu.
pub open spec fn spec_menu(item: Option<FileItemView>) -> Seq<MenuAction> {
    let for_item = match item {
        Some(i) => if i.isfolder {
            seq![MenuAction::Open, MenuAction::Download, MenuAction::Delete]
        } else {
            seq![MenuAction::Download, MenuAction::Delete]
        },
        None => Seq::empty(),
    };
    for_item + seq![MenuAction::NewFolder, MenuAction::Cancel]
}

/// The entries of the context menu opened on `item` (or on the empty list
/// area).
pub fn menu_actions(item: &Option<FileItem>) -> (r: Vec<MenuAction>)
    ensures
        r@ == spec_menu(item_opt(*item)),
{
    let mut r: Vec<MenuAction> = Vec::new();
    if let Some(i) = item {
        if i.isfolder {
            r.push(MenuAction::Open);
        }
        r.push(MenuAction::Download);
        r.push(MenuAction::Delete);
    }
    r.push(MenuAction::NewFolder);
    r.push(MenuAction::Cancel);
    assert(r@ =~= spec_menu(item_opt(*item)));
    r
}

impl MenuAction {
    /// The event an entry sends when chosen.
    pub fn event(&self) -> (e: GuiEvent)
        ensures
            *self == MenuAction::Open ==> e is ContextMenuOpen,
            *self == MenuAction::Download ==> e is ContextMenuDownload,
            *self == MenuAction::Delete ==> e is ContextMenuDelete,
            *self == MenuAction::NewFolder ==> e is ContextMenuNewFolder,
            *self == MenuAction::Cancel ==> e is HideContextMenu,
    {
        match self {
            MenuAction::Open => GuiEvent::ContextMenuOpen,
            MenuAction::Download => GuiEvent::ContextMenuDownload,
            MenuAction::Delete => GuiEvent::ContextMenuDelete,
            MenuAction::NewFolder => GuiEvent::ContextMenuNewFolder,
            MenuAction::Cancel => GuiEvent::HideContextMenu,
        }
    }
}

// ---------------------------------------------------------------------------
// Laws
// ---------------------------------------------------------------------------

/// Choosing the sort key that is already active twice in a row gives back
/// the order it started with.
pub proof fn lemma_sort_toggle_twice<R>(v: GuiView<R>, by: SortBy)
    requires
        v.sort_by == by,
    ensures
        spec_step(v, GuiEvent::SortByChanged(by)).0.sort_order != v.sort_order,
        spec_step(spec_step(v, GuiEvent::SortByChanged(by)).0, GuiEvent::SortByChanged(by)).0 =~= v,
{
}

/// Switching the theme twice changes nothing.
pub proof fn lemma_theme_toggle_twice<R>(v: GuiView<R>)
    ensures
        spec_step(spec_step(v, GuiEvent::ToggleTheme).0, GuiEvent::ToggleTheme).0 =~= v,
        spec_step(v, GuiEvent::ToggleTheme).1.len() == 0,
{
}

/// Going up from the root folder changes nothing and lists nothing.
pub proof fn lemma_navigate_up_at_root<R>(v: GuiView<R>)
    requires
        v.current_path == "/"@,
    ensures
        spec_step(v, GuiEvent::NavigateUp).0 =~= v,
        spec_step(v, GuiEvent::NavigateUp).1.len() == 0,
{
}

/// Backspace on the idle dashboard, outside folder creation, goes up one
/// folder exactly as the "up" button does: below the root the browser
/// moves to the parent folder and lists it; at the root nothing happens.
pub proof fn lemma_backspace_goes_up<R>(v: GuiView<R>, ctrl: bool, shift: bool)
    requires
        v.screen == Screen::Dashboard,
        !v.creating_folder,
        !is_busy(v.status),
    ensures
        spec_step(v, GuiEvent::KeyboardEvent(Key::Backspace, ctrl, shift)) == spec_step(v, GuiEvent::NavigateUp),
        v.current_path != "/"@ ==> {
            let (after, eff) = spec_step(v, GuiEvent::KeyboardEvent(Key::Backspace, ctrl, shift));
            &&& after.current_path == parent_path(v.current_path)
            &&& eff == seq![EffectView::ListFolder(parent_path(v.current_path))]
        },
        v.current_path == "/"@ ==> spec_step(v, GuiEvent::KeyboardEvent(Key::Backspace, ctrl, shift)) == (
            v,
            Seq::<EffectView>::empty(),
        ),
{
    let e = spec_step(v, GuiEvent::KeyboardEvent(Key::Backspace, ctrl, shift));
    if v.current_path != "/"@ {
        assert(e.1 =~= seq![EffectView::ListFolder(parent_path(v.current_path))]);
    } else {
        assert(e.1 =~= Seq::<EffectView>::empty());
    }
}

/// A staged transfer that is then started becomes the running transfer,
/// with the concurrency chosen at that moment, and the progress counter is
/// reset for it.
pub proof fn lemma_stage_then_start<R>(v: GuiView<R>, t: TransferType)
    ensures
        ({
            let staged = spec_step(v, GuiEvent::StageTransfer(t)).0;
            let started = spec_step(staged, GuiEvent::StartTransferPressed);
            &&& started.0.active == Some(t@)
            &&& started.0.staged is None
            &&& started.0.active_concurrency == v.concurrency_setting
            &&& started.1 =~= seq![EffectView::ResetTransferProgress]
        }),
{
}

/// Logging out forgets the password, both transfers and the account
/// details, and shows the login screen.
pub proof fn lemma_logout_forgets<R>(v: GuiView<R>)
    ensures
        ({
            let out = spec_step(v, GuiEvent::LogoutPressed).0;
            &&& out.screen == Screen::Login
            &&& out.password.len() == 0
            &&& out.staged is None && out.active is None
            &&& out.account_info is None
        }),
{
}

/// On the dashboard, with nothing under way, an item selected and no
/// folder being named, pressing Delete twice deletes the selected item:
/// the first press asks for confirmation, the second one confirms.
pub proof fn lemma_delete_key_twice<R>(v: GuiView<R>, item: FileItemView)
    requires
        v.screen == Screen::Dashboard,
        !v.creating_folder,
        !is_busy(v.status),
        v.selected == Some(item),
        !(v.status matches StatusView::Error(m) && mentions_delete(m)),
    ensures
        ({
            let first = spec_step(v, GuiEvent::KeyboardEvent(Key::Delete, false, false));
            let second = spec_step(first.0, GuiEvent::KeyboardEvent(Key::Delete, false, false));
            &&& first.1.len() == 0
            &&& second.1 =~= seq![
                if item.isfolder {
                    EffectView::DeleteFolder(child_path(v.current_path, item.name))
                } else {
                    EffectView::DeleteFile(child_path(v.current_path, item.name))
                },
            ]
        }),
{
    let first = spec_step(v, GuiEvent::KeyboardEvent(Key::Delete, false, false));
    let msg = "Delete "@ + (if item.isfolder { "folder"@ } else { "file"@ }) + "? Press Delete again to confirm"@;
    assert(first.0.status == StatusView::Error(msg));
    reveal_strlit("Delete ");
    reveal_strlit("Delete");
    assert(msg.subrange(0, 6) =~= "Delete"@);
    assert(delete_at(msg, 0));
}

// ---------------------------------------------------------------------------
// Executable transitions
// ---------------------------------------------------------------------------

fn same_text(a: &String, b: &str) -> (r: bool)
    ensures
        r == (a@ == b@),
{
    *a == String::from_str(b)
}

fn no_effects() -> (e: Vec<GuiEffect>)
    ensures
        effects_view(e@) =~= seq![],
{
    Vec::new()
}

fn one_effect(x: GuiEffect) -> (e: Vec<GuiEffect>)
    ensures
        effects_view(e@) =~= seq![x@],
{
    let mut e = Vec::new();
    e.push(x);
    e
}

fn text(s: &str) -> (r: String)
    ensures
        r@ == s@,
{
    String::from_str(s)
}

fn concat3(a: &str, b: &str, c: &str) -> (r: String)
    ensures
        r@ == a@ + b@ + c@,
{
    let mut r = String::from_str(a);
    r.append(b);
    r.append(c);
    r
}

fn concat2(a: &str, b: &str) -> (r: String)
    ensures
        r@ == a@ + b@,
{
    let mut r = String::from_str(a);
    r.append(b);
    r
}

/// The path of `name` inside `cur`.
pub fn child_path_of(cur: &String, name: &str) -> (r: String)
    ensures
        r@ == child_path(cur@, name@),
{
    if same_text(cur, "/") {
        concat2("/", name)
    } else {
        concat3(cur.as_str(), "/", name)
    }
}

/// The folder above `cur`.
pub fn parent_path_of(cur: &str) -> (r: String)
    ensures
        r@ == parent_path(cur@),
{
    let v = crate::text::str_chars(cur);
    let mut k = v.len();
    assert(v@.subrange(0, k as int) == v@);
    while k > 0 && v[k - 1] != '/'
        invariant
            v@ == cur@,
            k <= v@.len(),
            before_last_slash(v@) == before_last_slash(v@.subrange(0, k as int)),
        decreases k,
    {
        assert(v@.subrange(0, k as int).drop_last() == v@.subrange(0, k - 1));
        k = k - 1;
    }
    let end: usize = if k == 0 { 0 } else { k - 1 };
    proof {
        if k > 0 {
            assert(v@.subrange(0, k as int).drop_last() == v@.subrange(0, end as int));
        }
    }
    if end == 0 {
        return text("/");
    }
    let mut w: Vec<char> = Vec::new();
    let mut i: usize = 0;
    while i < end
        invariant
            end <= v@.len(),
            i <= end,
            w@ == v@.subrange(0, i as int),
        decreases end - i,
    {
        w.push(v[i]);
        i = i + 1;
    }
    crate::text::string_of_chars(w.as_slice())
}

/// Whether `s` contains `Delete`.
pub fn contains_delete(s: &str) -> (b: bool)
    ensures
        b == mentions_delete(s@),
{
    let ghost w = "Delete"@;
    proof {
        reveal_strlit("Delete");
        assert(w.len() == 6 && w[0] == 'D' && w[1] == 'e' && w[2] == 'l' && w[3] == 'e' && w[4] == 't' && w[5] == 'e');
    }
    let v = crate::text::str_chars(s);
    if v.len() < 6 {
        return false;
    }
    let n = v.len();
    let last = n - 6;
    let mut i: usize = 0;
    while i <= last
        invariant
            v@ == s@,
            n == v@.len(),
            i <= last + 1,
            w == "Delete"@,
            w.len() == 6 && w[0] == 'D' && w[1] == 'e' && w[2] == 'l' && w[3] == 'e' && w[4] == 't' && w[5] == 'e',
            last + 6 == v@.len(),
            forall|j: int| 0 <= j < i ==> !#[trigger] delete_at(v@, j),
        decreases v@.len() - i,
    {
        if v[i] == 'D' && v[i + 1] == 'e' && v[i + 2] == 'l' && v[i + 3] == 'e' && v[i + 4] == 't' && v[i + 5] == 'e' {
            assert(v@.subrange(i as int, i + 6) =~= w);
            assert(delete_at(v@, i as int));
            return true;
        }
        assert(v@.subrange(i as int, i + 6) != w) by {
            if v@.subrange(i as int, i + 6) == w {
                assert(v@.subrange(i as int, i + 6)[0] == v@[i as int]);
                assert(v@.subrange(i as int, i + 6)[1] == v@[i + 1]);
                assert(v@.subrange(i as int, i + 6)[2] == v@[i + 2]);
                assert(v@.subrange(i as int, i + 6)[3] == v@[i + 3]);
                assert(v@.subrange(i as int, i + 6)[4] == v@[i + 4]);
                assert(v@.subrange(i as int, i + 6)[5] == v@[i + 5]);
            }
        }
        i = i + 1;
    }
    false
}

proof fn lemma_total_size_prefix(files: Seq<(String, u64)>, i: int)
    requires
        0 <= i <= files.len(),
    ensures
        total_size(files.subrange(0, i)) <= total_size(files),
    decreases files.len() - i,
{
    if i < files.len() {
        lemma_total_size_prefix(files, i + 1);
        assert(files.subrange(0, i + 1).drop_last() == files.subrange(0, i));
    } else {
        assert(files.subrange(0, i) == files);
    }
}

fn copy_item_opt(o: &Option<FileItem>) -> (r: Option<FileItem>)
    ensures
        item_opt(r) == item_opt(*o),
{
    match o {
        Some(i) => Some(i.duplicate()),
        None => None,
    }
}

impl<R> GuiState<R> {
    /// The browser as it starts: the login screen, an idle status, the
    /// root folder, `workers` transfers at a time with adaptive concurrency
    /// on, sorting by name ascending, duplicates renamed, the dark theme.
    pub fn new(workers: usize) -> (g: Self) where R: Default
        ensures
            g@.screen == Screen::Login,
            g@.status == StatusView::Idle,
            g@.username.len() == 0 && g@.password.len() == 0,
            g@.client.token is None && g@.client.region == Region::US,
            g@.client.workers == crate::client::clamp_workers(workers as int),
            g@.client.duplicate_mode == DuplicateMode::Rename,
            call_ensures(R::default, (), g@.client.retry_config),
            g@.client.http_settings == crate::client::http_settings_for(crate::client::clamp_workers(workers as int)),
            g@.client.file_timeout_config == (FileTimeoutConfig {
                base_timeout_secs: 60,
                secs_per_mb: 2,
                max_timeout_secs: DEFAULT_FILE_TIMEOUT_SECS,
            }),
            g@.client.chunked_upload_config == (ChunkedUploadConfig {
                threshold_bytes: LARGE_FILE_THRESHOLD,
                chunk_size: DEFAULT_CHUNK_SIZE,
                enabled: true,
            }),
            g@.current_path == "/"@,
            g@.file_list.len() == 0,
            g@.selected is None,
            g@.concurrency_setting == workers && g@.active_concurrency == workers,
            g@.adaptive,
            g@.staged is None && g@.active is None,
            g@.sort_by == SortBy::Name && g@.sort_order == SortOrder::Ascending,
            g@.search_filter.len() == 0,
            g@.context_menu is None && g@.last_clicked is None,
            !g@.creating_folder && g@.new_folder_name.len() == 0,
            g@.account_info is None,
            g@.duplicate_mode == DuplicateMode::Rename,
            g@.theme == ThemeMode::Dark,
    {
        GuiState {
            screen: Screen::Login,
            status: Status::Idle,
            username: String::new(),
            password: String::new(),
            client: PCloudClient::new(None, Region::US, workers),
            current_path: text("/"),
            file_list: Vec::new(),
            selected_item: None,
            concurrency_setting: workers,
            active_concurrency: workers,
            use_adaptive_concurrency: true,
            staged_transfer: None,
            active_transfer: None,
            sort_by: SortBy::Name,
            sort_order: SortOrder::Ascending,
            search_filter: String::new(),
            context_menu: None,
            last_clicked_item: None,
            creating_folder: false,
            new_folder_name: String::new(),
            account_info: None,
            duplicate_mode: DuplicateMode::Rename,
            theme_mode: ThemeMode::Dark,
        }
    }

    /// Whether background work is under way.
    pub fn is_busy(&self) -> (b: bool)
        ensures
            b == is_busy(self@.status),
    {
        match self.status {
            Status::Working(_) => true,
            Status::Transferring(_) => true,
            _ => false,
        }
    }

    fn refresh_list(&mut self) -> (e: Vec<GuiEffect>)
        ensures
            realizes(final(self)@, effects_view(e@), refresh(old(self)@)),
    {
        self.status = Status::Working(text("Listing..."));
        one_effect(GuiEffect::ListFolder(self.current_path.clone()))
    }

    fn navigate_to(&mut self, name: &str) -> (e: Vec<GuiEffect>)
        ensures
            realizes(final(self)@, effects_view(e@), navigate_to(old(self)@, name@)),
    {
        self.current_path = child_path_of(&self.current_path, name);
        self.selected_item = None;
        self.refresh_list()
    }

    fn navigate_to_path(&mut self, p: String) -> (e: Vec<GuiEffect>)
        ensures
            realizes(final(self)@, effects_view(e@), navigate_to_path(old(self)@, p@)),
    {
        self.current_path = p;
        self.selected_item = None;
        self.refresh_list()
    }

    fn navigate_up(&mut self) -> (e: Vec<GuiEffect>)
        ensures
            realizes(final(self)@, effects_view(e@), navigate_up(old(self)@)),
    {
        if !same_text(&self.current_path, "/") {
            self.current_path = parent_path_of(self.current_path.as_str());
            self.refresh_list()
        } else {
            no_effects()
        }
    }

    fn stage(&mut self, t: TransferType) -> (e: Vec<GuiEffect>)
        ensures
            realizes(final(self)@, effects_view(e@), stage(old(self)@, t@)),
    {
        let (count, bytes) = match &t {
            TransferType::Upload(_, tasks, b) => (tasks.len(), *b),
            TransferType::Download(_, tasks, b) => (tasks.len(), *b),
        };
        self.staged_transfer = Some(t);
        self.status = Status::ReadyToUpload(count, bytes);
        no_effects()
    }

    fn upload_file_pressed(&mut self) -> (e: Vec<GuiEffect>)
        ensures
            realizes(final(self)@, effects_view(e@), upload_file_pressed(old(self)@)),
    {
        self.status = Status::Working(text("Selecting files..."));
        one_effect(GuiEffect::PickFiles)
    }

    fn upload_folder_pressed(&mut self) -> (e: Vec<GuiEffect>)
        ensures
            realizes(final(self)@, effects_view(e@), upload_folder_pressed(old(self)@)),
    {
        self.status = Status::Working(text("Selecting folder..."));
        one_effect(GuiEffect::PickUploadFolder)
    }

    fn download_pressed(&mut self) -> (e: Vec<GuiEffect>)
        ensures
            realizes(final(self)@, effects_view(e@), download_pressed(old(self)@)),
    {
        if self.selected_item.is_some() {
            self.status = Status::Working(text("Pick destination..."));
            one_effect(GuiEffect::PickDownloadDestination)
        } else {
            self.status = Status::Error(text("Select file first"));
            no_effects()
        }
    }

    fn delete_pressed(&mut self) -> (e: Vec<GuiEffect>)
        ensures
            realizes(final(self)@, effects_view(e@), delete_pressed(old(self)@)),
    {
        let msg = match &self.selected_item {
            Some(item) => {
                let kind = if item.isfolder { "folder" } else { "file" };
                concat3("Delete ", kind, "? Press Delete again to confirm")
            },
            None => text("Select item to delete"),
        };
        self.status = Status::Error(msg);
        no_effects()
    }

    fn delete_confirmed(&mut self) -> (e: Vec<GuiEffect>)
        ensures
            realizes(final(self)@, effects_view(e@), delete_confirmed(old(self)@)),
    {
        match &self.selected_item {
            Some(item) => {
                let path = child_path_of(&self.current_path, item.name.as_str());
                let effect = if item.isfolder { GuiEffect::DeleteFolder(path) } else { GuiEffect::DeleteFile(path) };
                self.status = Status::Working(text("Deleting..."));
                one_effect(effect)
            },
            None => no_effects(),
        }
    }

    fn start_transfer(&mut self) -> (e: Vec<GuiEffect>)
        ensures
            realizes(final(self)@, effects_view(e@), start_transfer(old(self)@)),
    {
        match self.staged_transfer.take() {
            Some(t) => {
                self.active_concurrency = self.concurrency_setting;
                self.active_transfer = Some(t);
                self.status = Status::Working(text("Starting transfer..."));
                one_effect(GuiEffect::ResetTransferProgress)
            },
            None => no_effects(),
        }
    }

    fn cancel_transfer(&mut self) -> (e: Vec<GuiEffect>)
        ensures
            realizes(final(self)@, effects_view(e@), cancel_transfer(old(self)@)),
    {
        self.staged_transfer = None;
        self.active_transfer = None;
        self.status = Status::Idle;
        no_effects()
    }

    fn create_folder_pressed(&mut self) -> (e: Vec<GuiEffect>)
        ensures
            realizes(final(self)@, effects_view(e@), create_folder_pressed(old(self)@)),
    {
        self.creating_folder = true;
        self.new_folder_name = String::new();
        no_effects()
    }

    fn cancel_create_folder(&mut self) -> (e: Vec<GuiEffect>)
        ensures
            realizes(final(self)@, effects_view(e@), cancel_create_folder(old(self)@)),
    {
        self.creating_folder = false;
        self.new_folder_name = String::new();
        no_effects()
    }

    fn create_folder_confirmed(&mut self) -> (e: Vec<GuiEffect>)
        ensures
            realizes(final(self)@, effects_view(e@), create_folder_confirmed(old(self)@)),
    {
        let name = trim_white_space(self.new_folder_name.as_str());
        if name.as_str().is_empty() {
            self.status = Status::Error(text("Folder name cannot be empty"));
            return no_effects();
        }
        self.creating_folder = false;
        self.status = Status::Working(text("Creating folder..."));
        let path = child_path_of(&self.current_path, name.as_str());
        one_effect(GuiEffect::CreateFolder(path))
    }

    fn open_selected(&mut self) -> (e: Vec<GuiEffect>)
        ensures
            realizes(final(self)@, effects_view(e@), open_selected(old(self)@)),
    {
        let target = match &self.selected_item {
            Some(item) => if item.isfolder { Some(item.name.clone()) } else { None },
            None => None,
        };
        match target {
            Some(name) => self.navigate_to(name.as_str()),
            None => no_effects(),
        }
    }

    fn key_step(&mut self, key: Key, ctrl: bool, shift: bool) -> (e: Vec<GuiEffect>)
        ensures
            realizes(final(self)@, effects_view(e@), key_step(old(self)@, key, ctrl, shift)),
    {
        let idle = !self.is_busy();
        if self.screen != Screen::Dashboard {
            return no_effects();
        }
        if self.creating_folder {
            return match key {
                Key::Escape => self.cancel_create_folder(),
                Key::Enter => self.create_folder_confirmed(),
                _ => no_effects(),
            };
        }
        match key {
            Key::Character(c) => {
                if same_text(&c, "r") && ctrl {
                    self.refresh_list()
                } else if same_text(&c, "u") && ctrl {
                    if idle { self.upload_file_pressed() } else { no_effects() }
                } else if same_text(&c, "U") && ctrl && shift {
                    if idle { self.upload_folder_pressed() } else { no_effects() }
                } else if same_text(&c, "d") && ctrl {
                    if idle && self.selected_item.is_some() { self.download_pressed() } else { no_effects() }
                } else if same_text(&c, "n") && ctrl {
                    if idle { self.create_folder_pressed() } else { no_effects() }
                } else {
                    no_effects()
                }
            },
            Key::F5 => self.refresh_list(),
            Key::Delete => {
                if idle && self.selected_item.is_some() {
                    let confirming = match &self.status {
                        Status::Error(m) => contains_delete(m.as_str()),
                        _ => false,
                    };
                    if confirming { self.delete_confirmed() } else { self.delete_pressed() }
                } else {
                    no_effects()
                }
            },
            Key::Enter => {
                let ready = match self.status {
                    Status::ReadyToUpload(_, _) => true,
                    _ => false,
                };
                if ready { self.start_transfer() } else { self.open_selected() }
            },
            Key::Backspace => if idle { self.navigate_up() } else { no_effects() },
            Key::Escape => {
                if self.context_menu.is_some() {
                    self.context_menu = None;
                    no_effects()
                } else if self.staged_transfer.is_some() {
                    self.cancel_transfer()
                } else {
                    self.selected_item = None;
                    no_effects()
                }
            },
            Key::Home => if ctrl { self.navigate_to_path(text("/")) } else { no_effects() },
            Key::Other => no_effects(),
        }
    }

    /// Applies `event` and returns the background work it asks for.
    #[verifier::spinoff_prover]
    #[verifier::rlimit(100)]
    pub fn update(&mut self, event: GuiEvent) -> (e: Vec<GuiEffect>)
        requires
            step_ok(old(self)@, event),
        ensures
            realizes(final(self)@, effects_view(e@), spec_step(old(self)@, event)),
    {
        match event {
            GuiEvent::UsernameChanged(s) => {
                self.username = s;
                no_effects()
            },
            GuiEvent::PasswordChanged(s) => {
                self.password = s;
                no_effects()
            },
            GuiEvent::LoginPressed => {
                if self.username.as_str().is_empty() || self.password.as_str().is_empty() {
                    self.status = Status::Error(text("Enter username/password"));
                    no_effects()
                } else {
                    self.status = Status::Working(text("Authenticating..."));
                    one_effect(GuiEffect::Login(self.username.clone(), self.password.clone()))
                }
            },
            GuiEvent::LoginResult(Ok(token)) => {
                self.screen = Screen::Dashboard;
                self.client.set_token(token);
                self.client.set_duplicate_mode(self.duplicate_mode);
                self.status = Status::Success(text("Logged in"));
                let mut e = self.refresh_list();
                let ghost before = effects_view(e@);
                e.push(GuiEffect::FetchAccountInfo);
                assert(effects_view(e@) =~= before.push(EffectView::FetchAccountInfo));
                e
            },
            GuiEvent::LoginResult(Err(m)) => {
                self.status = Status::Error(m);
                no_effects()
            },
            GuiEvent::LogoutPressed => {
                self.screen = Screen::Login;
                self.password = String::new();
                self.active_transfer = None;
                self.staged_transfer = None;
                self.status = Status::Idle;
                self.account_info = None;
                no_effects()
            },
            GuiEvent::RefreshList => self.refresh_list(),
            GuiEvent::ListResult(Ok(list)) => {
                self.file_list = list;
                self.status = Status::Idle;
                no_effects()
            },
            GuiEvent::ListResult(Err(m)) => {
                self.status = Status::Error(m);
                no_effects()
            },
            GuiEvent::NavigateTo(name) => self.navigate_to(name.as_str()),
            GuiEvent::NavigateUp => self.navigate_up(),
            GuiEvent::NavigateToPath(p) => self.navigate_to_path(p),
            GuiEvent::SortByChanged(by) => {
                if self.sort_by == by {
                    self.sort_order = match self.sort_order {
                        SortOrder::Ascending => SortOrder::Descending,
                        SortOrder::Descending => SortOrder::Ascending,
                    };
                } else {
                    self.sort_by = by;
                    self.sort_order = SortOrder::Ascending;
                }
                no_effects()
            },
            GuiEvent::SearchFilterChanged(f) => {
                self.search_filter = f;
                no_effects()
            },
            GuiEvent::ClearSearchFilter => {
                self.search_filter = String::new();
                no_effects()
            },
            GuiEvent::ItemClicked(item, quick) => {
                let same = match &self.last_clicked_item {
                    Some(n) => *n == item.name,
                    None => false,
                };
                let double = quick && same;
                self.last_clicked_item = Some(item.name.clone());
                if double && item.isfolder {
                    self.navigate_to(item.name.as_str())
                } else {
                    self.selected_item = Some(item);
                    no_effects()
                }
            },
            GuiEvent::ConcurrencyChanged(n) => {
                self.concurrency_setting = n;
                no_effects()
            },
            GuiEvent::UploadFilePressed => self.upload_file_pressed(),
            GuiEvent::UploadFolderPressed => self.upload_folder_pressed(),
            GuiEvent::UploadSelected(Some(files), id) => {
                let mut tasks: Vec<(String, String)> = Vec::new();
                let mut total: u64 = 0;
                let ghost cur = self.current_path@;
                for i in 0..files.len()
                    invariant
                        cur == self.current_path@,
                        total_size(files@) <= u64::MAX,
                        total == total_size(files@.subrange(0, i as int)),
                        pairs_view(tasks@) =~= upload_tasks(files@.subrange(0, i as int), cur),
                {
                    proof {
                        lemma_total_size_prefix(files@, i + 1);
                        assert(files@.subrange(0, i + 1).drop_last() == files@.subrange(0, i as int));
                    }
                    let ghost before = pairs_view(tasks@);
                    tasks.push((files[i].0.clone(), self.current_path.clone()));
                    total = total + files[i].1;
                    assert(pairs_view(tasks@) =~= before.push((files@[i as int].0@, cur)));
                    assert(upload_tasks(files@.subrange(0, i + 1), cur) =~= upload_tasks(
                        files@.subrange(0, i as int),
                        cur,
                    ).push((files@[i as int].0@, cur)));
                }
                assert(files@.subrange(0, files@.len() as int) == files@);
                self.stage(TransferType::Upload(id, tasks, total))
            },
            GuiEvent::UploadSelected(None, _) => {
                self.status = Status::Idle;
                no_effects()
            },
            GuiEvent::UploadFolderSelected(Some(p)) => {
                self.status = Status::Working(text("Scanning folder..."));
                one_effect(GuiEffect::ScanUploadFolder(p, self.current_path.clone()))
            },
            GuiEvent::UploadFolderSelected(None) => {
                self.status = Status::Idle;
                no_effects()
            },
            GuiEvent::StartTransferPressed => self.start_transfer(),
            GuiEvent::CancelTransferPressed => self.cancel_transfer(),
            GuiEvent::DownloadPressed => self.download_pressed(),
            GuiEvent::DownloadDestSelected(Some(local), id) => {
                let chosen = match &self.selected_item {
                    Some(item) => Some((child_path_of(&self.current_path, item.name.as_str()), item.isfolder, item.size)),
                    None => None,
                };
                match chosen {
                    None => {
                        self.status = Status::Error(text("No item selected"));
                        no_effects()
                    },
                    Some((remote, isfolder, size)) => {
                        if isfolder {
                            self.status = Status::Working(text("Scanning remote..."));
                            one_effect(GuiEffect::ScanDownloadFolder(remote, local))
                        } else {
                            let mut tasks: Vec<(String, String)> = Vec::new();
                            tasks.push((remote, local));
                            assert(pairs_view(tasks@) =~= seq![(remote@, local@)]);
                            self.stage(TransferType::Download(id, tasks, size))
                        }
                    },
                }
            },
            GuiEvent::DownloadDestSelected(None, _) => {
                self.status = Status::Idle;
                no_effects()
            },
            GuiEvent::DeletePressed => self.delete_pressed(),
            GuiEvent::DeleteConfirmed => self.delete_confirmed(),
            GuiEvent::DeleteResult(Ok(_)) => {
                self.status = Status::Success(text("Deleted successfully"));
                self.selected_item = None;
                self.refresh_list()
            },
            GuiEvent::DeleteResult(Err(m)) => {
                self.status = Status::Error(concat2("Delete failed: ", m.as_str()));
                no_effects()
            },
            GuiEvent::StageTransfer(t) => self.stage(t),
            GuiEvent::TransferStarted(n, b) => {
                self.status = Status::Transferring(
                    TransferProgress {
                        total_files: n,
                        finished_files: 0,
                        total_bytes: b,
                        transferred_bytes: 0,
                        current_file: None,
                        current_file_size: 0,
                        current_file_progress: 0,
                    },
                );
                no_effects()
            },
            GuiEvent::TransferFileStarted(name, size) => {
                let mut st = Status::Idle;
                std::mem::swap(&mut st, &mut self.status);
                self.status = match st {
                    Status::Transferring(p) => Status::Transferring(
                        TransferProgress {
                            current_file: Some(name),
                            current_file_size: size,
                            current_file_progress: 0,
                            ..p
                        },
                    ),
                    other => other,
                };
                no_effects()
            },
            GuiEvent::TransferBytesProgress(bytes) => {
                let mut st = Status::Idle;
                std::mem::swap(&mut st, &mut self.status);
                self.status = match st {
                    Status::Transferring(p) => Status::Transferring(TransferProgress { transferred_bytes: bytes, ..p }),
                    other => other,
                };
                no_effects()
            },
            GuiEvent::TransferItemFinished(_, _) => {
                let mut st = Status::Idle;
                std::mem::swap(&mut st, &mut self.status);
                self.status = match st {
                    Status::Transferring(p) => {
                        let done = p.finished_files + 1;
                        Status::Transferring(TransferProgress { finished_files: done, ..p })
                    },
                    other => other,
                };
                no_effects()
            },
            GuiEvent::TransferCompleted => {
                self.status = Status::Success(text("Transfer Complete!"));
                self.active_transfer = None;
                self.refresh_list()
            },
            GuiEvent::OperationFailed(m) => {
                self.status = Status::Error(m);
                no_effects()
            },
            GuiEvent::ShowContextMenu(item) => {
                if item.is_some() {
                    self.selected_item = copy_item_opt(&item);
                }
                self.context_menu = Some(item);
                no_effects()
            },
            GuiEvent::HideContextMenu => {
                self.context_menu = None;
                no_effects()
            },
            GuiEvent::ContextMenuOpen => {
                self.context_menu = None;
                self.open_selected()
            },
            GuiEvent::ContextMenuDownload => {
                self.context_menu = None;
                self.download_pressed()
            },
            GuiEvent::ContextMenuDelete => {
                self.context_menu = None;
                self.delete_pressed()
            },
            GuiEvent::ContextMenuNewFolder => {
                self.context_menu = None;
                self.create_folder_pressed()
            },
            GuiEvent::KeyboardEvent(k, ctrl, shift) => self.key_step(k, ctrl, shift),
            GuiEvent::CreateFolderPressed => self.create_folder_pressed(),
            GuiEvent::CreateFolderNameChanged(n) => {
                self.new_folder_name = n;
                no_effects()
            },
            GuiEvent::CreateFolderConfirmed => self.create_folder_confirmed(),
            GuiEvent::CreateFolderResult(Ok(_)) => {
                self.creating_folder = false;
                self.new_folder_name = String::new();
                self.status = Status::Success(text("Folder created"));
                self.refresh_list()
            },
            GuiEvent::CreateFolderResult(Err(m)) => {
                self.creating_folder = false;
                self.new_folder_name = String::new();
                self.status = Status::Error(concat2("Failed to create folder: ", m.as_str()));
                no_effects()
            },
            GuiEvent::CancelCreateFolder => self.cancel_create_folder(),
            GuiEvent::FetchAccountInfo => one_effect(GuiEffect::FetchAccountInfo),
            GuiEvent::AccountInfoResult(Ok(info)) => {
                self.account_info = Some(info);
                no_effects()
            },
            GuiEvent::AccountInfoResult(Err(m)) => {
                one_effect(GuiEffect::LogError(concat2("Failed to fetch account info: ", m.as_str())))
            },
            GuiEvent::ToggleAdaptiveConcurrency(on, n) => {
                self.use_adaptive_concurrency = on;
                if on {
                    self.concurrency_setting = n;
                }
                no_effects()
            },
            GuiEvent::DuplicateModeChanged(mode) => {
                self.duplicate_mode = mode;
                self.client.set_duplicate_mode(mode);
                no_effects()
            },
            GuiEvent::ToggleTheme => {
                self.theme_mode = match self.theme_mode {
                    ThemeMode::Light => ThemeMode::Dark,
                    ThemeMode::Dark => ThemeMode::Light,
                };
                no_effects()
            },
        }
    }
}

} // verus!
