//! What the manager knows and shows, and the questions that are asked of it.
//!
//! The state holds no handle to the outside: no thread, channel, file or
//! window. What is to be done there is left in [`Desk::requests`] or
//! handed back by the operation that decided it.
use crate::backend::Backend;
use crate::discovery;
use crate::discovery::{DeletePlan, DiskRow, Scan, VmEntry};
use crate::editor::EditForm;
use crate::host::Host;
use crate::hostcheck::Report;
use crate::launcher::{Engine, NewMachine};
use crate::metrics;
use crate::paths;
use crate::picker::PickTarget;
use crate::process;
use crate::process::{Supervisor, Task, TaskId, TaskKind};
use crate::settings::Settings;
use crate::snapshots;
use crate::snapshots::{FileState, SnapshotRow, Verdict};
use crate::table::Table;
use crate::text;
use crate::update::UpdateInfo;
use crate::wslengine;
use vstd::prelude::*;

verus! {

/// How often the machine directory is scanned again while the window is open,
/// in milliseconds.
pub const SCAN_INTERVAL_MS: u64 = 2500;

/// How long a finished refresh is shown, in milliseconds.
pub const REFRESH_SHOWN_MS: u64 = 1400;

// ---------------------------------------------------------------------------
// What the cards show
// ---------------------------------------------------------------------------

/// A machine's status.
#[derive(Debug, Clone, Copy, PartialEq, Eq, Structural)]
pub enum Status {
    Running,
    Stopping,
    Installing,
    /// Writing itself to a file, on its way out.
    Suspending,
    /// Not running, and not a plain stopped machine either: a file holds
    /// everything it was in the middle of.
    Suspended,
    Stopped,
}

/// The colour a status is drawn in.
#[derive(Debug, Clone, Copy, PartialEq, Eq, Structural)]
pub enum Tint {
    Green,
    Warn,
    Cyan,
    VioletDeep,
    Violet,
    Faint,
}

impl Status {
    pub open spec fn spec_label(self) -> Seq<char> {
        match self {
            Status::Running => "Running"@,
            Status::Stopping => "Stopping"@,
            Status::Installing => "Installing"@,
            Status::Suspending => "Suspending"@,
            Status::Suspended => "Suspended"@,
            Status::Stopped => "Stopped"@,
        }
    }

    /// The word on the badge.
    pub fn label(self) -> (r: &'static str)
        ensures
            r@ == self.spec_label(),
    {
        match self {
            Status::Running => "Running",
            Status::Stopping => "Stopping",
            Status::Installing => "Installing",
            Status::Suspending => "Suspending",
            Status::Suspended => "Suspended",
            Status::Stopped => "Stopped",
        }
    }

    pub open spec fn spec_color(self) -> Tint {
        match self {
            Status::Running => Tint::Green,
            Status::Stopping => Tint::Warn,
            Status::Installing => Tint::Cyan,
            Status::Suspending => Tint::VioletDeep,
            Status::Suspended => Tint::Violet,
            Status::Stopped => Tint::Faint,
        }
    }

    /// The colour of the badge.
    pub fn color(self) -> (r: Tint)
        ensures
            r == self.spec_color(),
    {
        match self {
            Status::Running => Tint::Green,
            Status::Stopping => Tint::Warn,
            Status::Installing => Tint::Cyan,
            Status::Suspending => Tint::VioletDeep,
            Status::Suspended => Tint::Violet,
            Status::Stopped => Tint::Faint,
        }
    }

    /// One sentence for the badge's hover.
    pub fn tooltip(self) -> (r: &'static str)
        ensures
            r@ == match self {
                Status::Running => "The machine is running in its own window."@,
                Status::Stopping => "Shutdown was asked for; the guest is closing down."@,
                Status::Installing => "An installer is running inside it."@,
                Status::Suspending => "Writing the machine's memory to a file. It stops when that finishes; \
                 opening it again puts you back exactly here."@,
                Status::Suspended => "Not running, but not shut down either: a saved session on disk holds \
                 everything it had open. Resume goes back into it."@,
                Status::Stopped => "Powered off. Starting it boots the guest from scratch."@,
            },
    {
        match self {
            Status::Running => "The machine is running in its own window.",
            Status::Stopping => "Shutdown was asked for; the guest is closing down.",
            Status::Installing => "An installer is running inside it.",
            Status::Suspending => "Writing the machine's memory to a file. It stops when that finishes; \
                 opening it again puts you back exactly here.",
            Status::Suspended => "Not running, but not shut down either: a saved session on disk holds \
                 everything it had open. Resume goes back into it.",
            Status::Stopped => "Powered off. Starting it boots the guest from scratch.",
        }
    }

    /// The machine is doing something that must not be disturbed.
    pub open spec fn occupied(self) -> bool {
        self == Status::Running || self == Status::Stopping || self == Status::Installing || self
            == Status::Suspending
    }
}

/// No two statuses look the same: neither their word nor their colour.
pub proof fn statuses_are_told_apart(a: Status, b: Status)
    requires
        a != b,
    ensures
        a.spec_label() != b.spec_label(),
        a.spec_color() != b.spec_color(),
{
    reveal_strlit("Running");
    reveal_strlit("Stopping");
    reveal_strlit("Installing");
    reveal_strlit("Suspending");
    reveal_strlit("Suspended");
    reveal_strlit("Stopped");
    let x = a.spec_label();
    let y = b.spec_label();
    if x == y {
        assert(x[0] == y[0]);
        assert(x.len() == y.len());
        assert(x[x.len() - 1] == y[y.len() - 1]);
    }
}

#[derive(Debug, Clone, Copy, PartialEq, Eq, Structural)]
pub enum ToastLevel {
    Info,
    Success,
    Warn,
    Error,
}

/// A passing message.
#[derive(Debug, PartialEq, Eq)]
pub struct Toast {
    pub text: String,
    pub level: ToastLevel,
    /// When it was first shown, in milliseconds. `None` before its first frame.
    pub born: Option<u64>,
}

pub open spec fn lifetime_of(level: ToastLevel) -> u64 {
    match level {
        ToastLevel::Error => 14000,
        ToastLevel::Warn => 10000,
        _ => 6000,
    }
}

impl Toast {
    /// How long it is shown, in milliseconds.
    pub fn lifetime(&self) -> (r: u64)
        ensures
            r == lifetime_of(self.level),
    {
        match self.level {
            ToastLevel::Error => 14000,
            ToastLevel::Warn => 10000,
            _ => 6000,
        }
    }
}

/// The worse a message, the longer it is shown.
pub proof fn worse_news_stays_longer()
    ensures
        lifetime_of(ToastLevel::Error) > lifetime_of(ToastLevel::Warn),
        lifetime_of(ToastLevel::Warn) > lifetime_of(ToastLevel::Info),
        lifetime_of(ToastLevel::Info) == lifetime_of(ToastLevel::Success),
{
}

/// A message as plain values.
pub ghost struct ToastView {
    pub text: Seq<char>,
    pub level: ToastLevel,
    pub born: Option<u64>,
}

impl View for Toast {
    type V = ToastView;

    open spec fn view(&self) -> ToastView {
        ToastView { text: self.text@, level: self.level, born: self.born }
    }
}

pub open spec fn toast_views(toasts: Seq<Toast>) -> Seq<ToastView> {
    toasts.map_values(|t: Toast| t@)
}

/// A message that was not shown yet.
pub open spec fn fresh(level: ToastLevel, text: Seq<char>) -> ToastView {
    ToastView { text, level, born: None }
}

/// `s` in single quotes.
pub open spec fn quoted(s: Seq<char>) -> Seq<char> {
    "'"@ + s + "'"@
}

/// `s` in single quotes.
pub fn quote(s: &str) -> (r: String)
    ensures
        r@ == quoted(s@),
{
    text::cat3("'", s, "'")
}

// ---------------------------------------------------------------------------
// Surfaces
// ---------------------------------------------------------------------------

/// Which main surface is shown.
#[derive(Debug, Clone, Copy, PartialEq, Eq, Structural)]
pub enum Surface {
    Machines,
    Disks,
    /// Saved sessions.
    Snapshots,
    /// Host readiness.
    Diagnostics,
}

impl Default for Surface {
    fn default() -> (r: Surface)
        ensures
            r == Surface::Machines,
    {
        Surface::Machines
    }
}

#[derive(Debug, Clone, Copy, PartialEq, Eq, Structural)]
pub enum RefreshState {
    Idle,
    Scanning,
    Complete,
}

/// A surface that a development render opens with.
#[derive(Debug, Clone, Copy, PartialEq, Eq, Structural)]
pub enum ScreenshotView {
    Main,
    Wizard,
    WizardWsl,
    WizardWslReview,
    Settings,
    Disks,
    Snapshots,
    SnapshotDelete,
    SnapshotDiscard,
    Diagnostics,
    Editor,
    EditorBoot,
    EditorNetwork,
    EditorStorage,
}

impl ScreenshotView {
    /// The surface as the command line spells it.
    pub open spec fn spec_name(self) -> Seq<char> {
        match self {
            ScreenshotView::Main => "main"@,
            ScreenshotView::Wizard => "wizard"@,
            ScreenshotView::WizardWsl => "wizard-wsl"@,
            ScreenshotView::WizardWslReview => "wizard-wsl-review"@,
            ScreenshotView::Settings => "settings"@,
            ScreenshotView::Disks => "disks"@,
            ScreenshotView::Snapshots => "snapshots"@,
            ScreenshotView::SnapshotDelete => "snapshot-delete"@,
            ScreenshotView::SnapshotDiscard => "snapshot-discard"@,
            ScreenshotView::Diagnostics => "diagnostics"@,
            ScreenshotView::Editor => "editor"@,
            ScreenshotView::EditorBoot => "editor-boot"@,
            ScreenshotView::EditorNetwork => "editor-network"@,
            ScreenshotView::EditorStorage => "editor-storage"@,
        }
    }

    /// The surface of that name.
    pub fn named(name: &str) -> (r: Result<ScreenshotView, String>)
        ensures
            match r {
                Ok(surface) => surface.spec_name() == name@,
                Err(e) => {
                    &&& forall|surface: ScreenshotView| #[trigger] surface.spec_name() != name@
                    &&& e@ == "there is no surface '"@ + name@ + "'"@
                },
            },
    {
        if text::same(name, "main") {
            Ok(ScreenshotView::Main)
        } else if text::same(name, "wizard") {
            Ok(ScreenshotView::Wizard)
        } else if text::same(name, "wizard-wsl") {
            Ok(ScreenshotView::WizardWsl)
        } else if text::same(name, "wizard-wsl-review") {
            Ok(ScreenshotView::WizardWslReview)
        } else if text::same(name, "settings") {
            Ok(ScreenshotView::Settings)
        } else if text::same(name, "disks") {
            Ok(ScreenshotView::Disks)
        } else if text::same(name, "snapshots") {
            Ok(ScreenshotView::Snapshots)
        } else if text::same(name, "snapshot-delete") {
            Ok(ScreenshotView::SnapshotDelete)
        } else if text::same(name, "snapshot-discard") {
            Ok(ScreenshotView::SnapshotDiscard)
        } else if text::same(name, "diagnostics") {
            Ok(ScreenshotView::Diagnostics)
        } else if text::same(name, "editor") {
            Ok(ScreenshotView::Editor)
        } else if text::same(name, "editor-boot") {
            Ok(ScreenshotView::EditorBoot)
        } else if text::same(name, "editor-network") {
            Ok(ScreenshotView::EditorNetwork)
        } else if text::same(name, "editor-storage") {
            Ok(ScreenshotView::EditorStorage)
        } else {
            Err(text::cat3("there is no surface '", name, "'"))
        }
    }
}

/// No two surfaces have one name, so a name opens the surface it belongs to.
#[verifier::rlimit(40)]
pub proof fn surfaces_have_their_own_names(a: ScreenshotView, b: ScreenshotView)
    ensures
        a.spec_name() == b.spec_name() ==> a == b,
{
    reveal_strlit("main");
    reveal_strlit("wizard");
    reveal_strlit("wizard-wsl");
    reveal_strlit("wizard-wsl-review");
    reveal_strlit("settings");
    reveal_strlit("disks");
    reveal_strlit("snapshots");
    reveal_strlit("snapshot-delete");
    reveal_strlit("snapshot-discard");
    reveal_strlit("diagnostics");
    reveal_strlit("editor");
    reveal_strlit("editor-boot");
    reveal_strlit("editor-network");
    reveal_strlit("editor-storage");
    let x = a.spec_name();
    let y = b.spec_name();
    if x == y && x.len() > 7 {
        assert(x[0] == y[0] && x[7] == y[7] && x.last() == y.last());
    } else if x == y {
        assert(x[0] == y[0] && x.last() == y.last());
    }
}

/// The new-machine wizard.
pub struct WizardState {
    pub machine: NewMachine,
    pub step: usize,
    pub error: Option<String>,
}

/// "New disk".
pub struct CreateDiskState {
    pub name: String,
    /// As typed.
    pub size: String,
    pub error: Option<String>,
}

/// The confirmation of deleting a disk.
pub struct DeleteDiskState {
    pub row: DiskRow,
    pub error: Option<String>,
}

/// "Attach to machine".
pub struct AttachDiskState {
    pub disk: String,
    pub selected: Option<String>,
    pub error: Option<String>,
}

/// The machine editor.
pub struct EditVmState {
    pub form: EditForm,
    pub section: EditVmSection,
    pub error: Option<String>,
}

/// The editor shows one section at a time; saving validates and writes the
/// complete profile.
#[derive(Debug, Clone, Copy, PartialEq, Eq, Structural)]
pub enum EditVmSection {
    Hardware,
    BootMedia,
    NetworkDisplay,
    Storage,
}

/// "Move disk to another drive".
pub struct MoveDiskState {
    pub row: DiskRow,
    /// Destination directory as typed.
    pub dest: String,
    pub error: Option<String>,
    /// Copied and total data bytes while the worker runs.
    pub progress: Option<(u64, u64)>,
    pub running: bool,
}

/// "Grow this disk". Shrinking is not offered: it would destroy what the guest
/// put at the end of the image.
pub struct ResizeDiskState {
    pub row: DiskRow,
    /// New size as typed.
    pub size: String,
    pub error: Option<String>,
}

/// The confirmation of deleting a saved session.
pub struct DeleteSnapshotState {
    pub row: SnapshotRow,
    pub error: Option<String>,
}

/// "Start this machine fresh even though it has a saved session". A
/// confirmation, because the saved session cannot go back onto a disk that a
/// freshly booted guest has written to.
pub struct DiscardSnapshotState {
    pub vm: String,
    pub row: SnapshotRow,
    pub error: Option<String>,
}

/// The confirmation of deleting a machine.
pub struct DeleteState {
    pub name: String,
    pub typed: String,
    pub plan: DeletePlan,
    pub error: Option<String>,
}

/// The settings panel.
pub struct SettingsForm {
    pub vm_dir: String,
    pub entangled_binary: String,
    pub work_dir: String,
    pub headless_install: bool,
    pub check_updates_on_startup: bool,
    pub animations_enabled: bool,
    pub default_backend: Backend,
    pub wsl_distro: String,
    pub wsl_entangled: String,
    /// The advanced group starts collapsed: everything in it is something the
    /// application worked out for itself.
    pub advanced_open: bool,
}

/// The dialog that is open.
pub enum Modal {
    Closed,
    Wizard(WizardState),
    Delete(DeleteState),
    Settings(SettingsForm),
    CreateDisk(CreateDiskState),
    DeleteDisk(DeleteDiskState),
    AttachDisk(AttachDiskState),
    EditVm(EditVmState),
    MoveDisk(MoveDiskState),
    ResizeDisk(ResizeDiskState),
    DeleteSnapshot(DeleteSnapshotState),
    DiscardSnapshot(DiscardSnapshotState),
}

impl Modal {
    /// Whether a dialog is open.
    pub fn is_open(&self) -> (r: bool)
        ensures
            r == !(self is Closed),
    {
        match self {
            Modal::Closed => false,
            _ => true,
        }
    }
}

pub open spec fn says(error: Option<String>, message: Seq<char>) -> bool {
    error matches Some(e) && e@ == message
}

/// `after` is the dialog `before` with `message` as its error.
pub open spec fn faulted(before: Modal, after: Modal, message: Seq<char>) -> bool {
    match (before, after) {
        (Modal::Wizard(a), Modal::Wizard(b)) => b == (WizardState { error: b.error, ..a }) && says(
            b.error,
            message,
        ),
        (Modal::Delete(a), Modal::Delete(b)) => b == (DeleteState { error: b.error, ..a }) && says(
            b.error,
            message,
        ),
        (Modal::CreateDisk(a), Modal::CreateDisk(b)) => b == (CreateDiskState {
            error: b.error,
            ..a
        }) && says(b.error, message),
        (Modal::DeleteDisk(a), Modal::DeleteDisk(b)) => b == (DeleteDiskState {
            error: b.error,
            ..a
        }) && says(b.error, message),
        (Modal::AttachDisk(a), Modal::AttachDisk(b)) => b == (AttachDiskState {
            error: b.error,
            ..a
        }) && says(b.error, message),
        (Modal::EditVm(a), Modal::EditVm(b)) => b == (EditVmState { error: b.error, ..a }) && says(
            b.error,
            message,
        ),
        (Modal::MoveDisk(a), Modal::MoveDisk(b)) => b == (MoveDiskState { error: b.error, ..a })
            && says(b.error, message),
        (Modal::ResizeDisk(a), Modal::ResizeDisk(b)) => b == (ResizeDiskState {
            error: b.error,
            ..a
        }) && says(b.error, message),
        (Modal::DeleteSnapshot(a), Modal::DeleteSnapshot(b)) => b == (DeleteSnapshotState {
            error: b.error,
            ..a
        }) && says(b.error, message),
        (Modal::DiscardSnapshot(a), Modal::DiscardSnapshot(b)) => b == (DiscardSnapshotState {
            error: b.error,
            ..a
        }) && says(b.error, message),
        (Modal::Closed, Modal::Closed) => true,
        (Modal::Settings(a), Modal::Settings(b)) => a == b,
        _ => false,
    }
}

impl Modal {
    /// Shows an error in the dialog, if it is one that can.
    pub fn fail(&mut self, message: String)
        ensures
            faulted(*old(self), *final(self), message@),
    {
        match self {
            Modal::Closed | Modal::Settings(_) => {},
            Modal::Wizard(state) => {
                state.error = Some(message);
            },
            Modal::Delete(state) => {
                state.error = Some(message);
            },
            Modal::CreateDisk(state) => {
                state.error = Some(message);
            },
            Modal::DeleteDisk(state) => {
                state.error = Some(message);
            },
            Modal::AttachDisk(state) => {
                state.error = Some(message);
            },
            Modal::EditVm(state) => {
                state.error = Some(message);
            },
            Modal::MoveDisk(state) => {
                state.error = Some(message);
            },
            Modal::ResizeDisk(state) => {
                state.error = Some(message);
            },
            Modal::DeleteSnapshot(state) => {
                state.error = Some(message);
            },
            Modal::DiscardSnapshot(state) => {
                state.error = Some(message);
            },
        }
    }
}

/// What a user asks the application to do.
#[derive(Debug, PartialEq, Eq)]
pub enum Action {
    Refresh,
    CreateVmDir,
    OpenWizard,
    CloseModal,
    SubmitWizard,
    OpenSettings,
    SaveSettings,
    Start(String),
    Stop(String),
    /// Freeze a running machine, or let a frozen one continue.
    TogglePause(String),
    /// Reboot a running machine in place.
    Reset(String),
    /// Write a running machine to its snapshot file and stop it.
    Suspend(String),
    /// Start a suspended machine from its own snapshot instead of booting it.
    ResumeVm(String),
    /// The same, for a snapshot file that may belong to no profile here.
    ResumeSnapshot(String),
    AskDeleteSnapshot(String),
    ConfirmDeleteSnapshot,
    /// Boot a suspended machine, throwing the saved session away.
    AskDiscardSnapshot(String),
    ConfirmDiscardSnapshot,
    AskDelete(String),
    ConfirmDelete,
    CopyProfilePath(String),
    SelectLog(TaskId),
    ToggleLogPane,
    DismissToast(usize),
    /// Download the new installer and launch it.
    InstallUpdate,
    /// Open the release page in the browser.
    OpenReleasePage,
    /// Hide the update banner for this session.
    DismissUpdate,
    SwitchView(Surface),
    OpenCreateDisk,
    SubmitCreateDisk,
    AskDeleteDisk(String),
    ConfirmDeleteDisk,
    OpenAttachDisk(String),
    SubmitAttachDisk,
    DetachDisk { vm: String, profile: String, declared: String },
    /// Open the host's file manager with the file selected.
    Reveal(String),
    AskEditVm(String),
    SubmitEditVm,
    AskMoveDisk(String),
    SubmitMoveDisk,
    /// Open a file dialog for one field.
    PickPath(PickTarget),
    /// Run the engine's host check and show the answer.
    RunDiagnostics,
    /// Ask again whether WSL has a usable engine.
    CheckWslEngine,
    /// Download the Linux engine and copy it into the WSL distribution.
    InstallWslEngine,
    AskResizeDisk(String),
    SubmitResizeDisk,
}

/// A machine being installed that has no profile on disk yet, so that it still
/// gets a card.
pub struct PendingInstall {
    pub name: String,
    pub machine: NewMachine,
    pub profile_path: String,
    /// The wizard's memory and processors were written into the profile.
    pub applied: bool,
}

/// Work for the outside, to be done when the operation that asked for it
/// returns.
#[derive(Debug, Clone, Copy, PartialEq, Eq, Structural)]
pub enum Request {
    /// Scan the machine directory.
    Scan,
    /// Ask WSL about [`WslState::target`].
    CheckWsl,
    /// Ask the engine its version.
    ProbeVersion,
    /// Write the settings, without telling the user.
    SaveSettings,
    /// Download and launch the installer of [`UpdateState::offer`].
    DownloadUpdate,
    /// Ask whether there is a newer release.
    CheckUpdate,
}

/// What lies before the user, and what is left to be done outside.
pub struct Desk {
    pub view: Surface,
    pub toasts: Vec<Toast>,
    pub modal: Modal,
    pub log_open: bool,
    pub log_selected: Option<TaskId>,
    pub log_follow: bool,
    /// The field that the one open file dialog belongs to.
    pub picker: Option<PickTarget>,
    /// Work for the outside, oldest first.
    pub requests: Vec<Request>,
}

/// What is known of the directory scanner.
#[derive(Debug, PartialEq, Eq)]
pub struct ScannerState {
    /// It can be asked.
    pub alive: bool,
    pub in_flight: bool,
    /// When it was last asked, in milliseconds.
    pub last: Option<u64>,
    /// When the user last asked for a scan.
    pub manual_refresh_at: Option<u64>,
    pub error: Option<String>,
}

/// What is known of the engine inside WSL.
#[derive(Debug, PartialEq, Eq)]
pub struct WslState {
    /// Whether there is a usable one.
    pub engine: wslengine::Status,
    /// What that answer is about.
    pub target: Option<wslengine::Target>,
    /// An answer is under way.
    pub checking: bool,
    pub install_running: bool,
    /// How the sample engine is summed up.
    pub sample_summary: String,
}

/// A newer release, as far as there is one.
#[derive(Debug, PartialEq, Eq)]
pub struct UpdateState {
    /// `None` means that none was found, or that it was dismissed.
    pub offer: Option<UpdateInfo>,
    pub downloading: bool,
}

/// The engine's host check.
#[derive(Debug, PartialEq, Eq)]
pub struct DoctorState {
    /// Its newest answer.
    pub report: Option<Report>,
    pub running: bool,
}

/// A development render.
#[derive(Debug, Clone, Copy, PartialEq, Eq, Structural)]
pub struct ShotState {
    pub wanted: bool,
    pub view: ScreenshotView,
    /// The dialog that it shows was opened.
    pub opened: bool,
}

/// The manager.
pub struct ManagerApp {
    pub host: Host,
    /// This build's version.
    pub version: String,
    /// The time of the current frame, in milliseconds.
    pub now: u64,
    /// Shows sample data and leaves the host alone.
    pub mock_mode: bool,
    pub settings: Settings,
    pub settings_path: Option<String>,
    /// A problem at startup that does not stop the manager.
    pub startup_warning: Option<String>,
    /// The engine, or why it could not be found.
    pub engine: Result<Engine, String>,
    pub scan: Scan,
    pub mock_statuses: Table<Status>,
    pub supervisor: Supervisor,
    pub stats: metrics::Snapshot,
    pub pending: Vec<PendingInstall>,
    pub desk: Desk,
    pub scanner: ScannerState,
    pub wsl: WslState,
    pub update: UpdateState,
    pub doctor: DoctorState,
    pub shot: ShotState,
}

// ---------------------------------------------------------------------------
// Looking things up
// ---------------------------------------------------------------------------

/// The first machine of that name.
pub open spec fn vm_at(vms: Seq<VmEntry>, name: Seq<char>) -> Option<VmEntry>
    decreases vms.len(),
{
    if vms.len() == 0 {
        None
    } else if vms[0].name@ == name {
        Some(vms[0])
    } else {
        vm_at(vms.drop_first(), name)
    }
}

/// The first saved session in that file.
pub open spec fn session_at(host: Host, rows: Seq<SnapshotRow>, path: Seq<char>) -> Option<
    SnapshotRow,
>
    decreases rows.len(),
{
    if rows.len() == 0 {
        None
    } else if paths::same_path(host, rows[0].path@, path) {
        Some(rows[0])
    } else {
        session_at(host, rows.drop_first(), path)
    }
}

/// The first disk image in that file.
pub open spec fn disk_at(host: Host, rows: Seq<DiskRow>, path: Seq<char>) -> Option<DiskRow>
    decreases rows.len(),
{
    if rows.len() == 0 {
        None
    } else if paths::same_path(host, rows[0].path@, path) {
        Some(rows[0])
    } else {
        disk_at(host, rows.drop_first(), path)
    }
}

/// The position of a machine's running child, where it has one.
pub open spec fn active_pos(tasks: Seq<Task>, vm: Seq<char>) -> int {
    choose|i: int| process::active_at(tasks, vm, i)
}

/// A machine's running child.
pub open spec fn active_of(tasks: Seq<Task>, vm: Seq<char>) -> Option<Task> {
    if process::busy_in(tasks, vm) {
        Some(tasks[active_pos(tasks, vm)])
    } else {
        None
    }
}

pub proof fn lemma_active(tasks: Seq<Task>, vm: Seq<char>, i: int)
    requires
        process::active_at(tasks, vm, i),
    ensures
        active_pos(tasks, vm) == i,
        process::busy_in(tasks, vm),
        active_of(tasks, vm) == Some(tasks[i]),
{
    assert(process::holds_vm(tasks[i], vm));
    let k = active_pos(tasks, vm);
    assert(process::active_at(tasks, vm, k));
    assert(process::holds_vm(tasks[k], vm));
}

/// The newest child of a machine, running or not.
pub open spec fn newest_of(tasks: Seq<Task>, vm: Seq<char>) -> Option<Task>
    decreases tasks.len(),
{
    if tasks.len() == 0 {
        None
    } else if tasks.last().vm@ == vm {
        Some(tasks.last())
    } else {
        newest_of(tasks.drop_last(), vm)
    }
}

pub proof fn lemma_newest(tasks: Seq<Task>, vm: Seq<char>, i: int)
    requires
        process::newest_at(tasks, vm, i),
    ensures
        newest_of(tasks, vm) == Some(tasks[i]),
    decreases tasks.len(),
{
    if i < tasks.len() - 1 {
        assert(tasks[tasks.len() - 1].vm@ != vm);
        let init = tasks.drop_last();
        assert(process::newest_at(init, vm, i)) by {
            assert forall|j: int| i < j < init.len() implies (#[trigger] init[j]).vm@ != vm by {
                assert(tasks[j].vm@ != vm);
            }
            assert(init[i] == tasks[i]);
        }
        lemma_newest(init, vm, i);
    }
}

pub proof fn lemma_no_newest(tasks: Seq<Task>, vm: Seq<char>)
    requires
        forall|j: int| 0 <= j < tasks.len() ==> (#[trigger] tasks[j]).vm@ != vm,
    ensures
        newest_of(tasks, vm) is None,
    decreases tasks.len(),
{
    if tasks.len() > 0 {
        assert(tasks[tasks.len() - 1].vm@ != vm);
        let init = tasks.drop_last();
        assert forall|j: int| 0 <= j < init.len() implies (#[trigger] init[j]).vm@ != vm by {
            assert(tasks[j].vm@ != vm);
        }
        lemma_no_newest(init, vm);
    }
}

/// The files of a machine that must be visible from its backend: its profile and
/// every disk it declares.
pub open spec fn files_of(vm: VmEntry) -> Seq<Seq<char>> {
    seq![vm.profile_path@] + vm.disks@.map_values(|d: discovery::DiskInfo| d.resolved@)
}

impl ManagerApp {
    /// The supervisor, the settings and the tables are in shape.
    pub open spec fn wf(self) -> bool {
        &&& self.supervisor.wf()
        &&& self.settings.wf()
        &&& self.mock_statuses.wf()
    }

    /// The messages, as plain values.
    pub open spec fn told(self) -> Seq<ToastView> {
        toast_views(self.desk.toasts@)
    }

    pub open spec fn spec_vm(self, name: Seq<char>) -> Option<VmEntry> {
        vm_at(self.scan.vms@, name)
    }

    /// The machine of that name.
    pub fn vm(&self, name: &str) -> (r: Option<&VmEntry>)
        ensures
            match r {
                Some(vm) => self.spec_vm(name@) == Some(*vm),
                None => self.spec_vm(name@) is None,
            },
    {
        let mut i: usize = 0;
        let ghost all = self.scan.vms@;
        assert(all.skip(0) =~= all);
        while i < self.scan.vms.len()
            invariant
                all == self.scan.vms@,
                i <= all.len(),
                vm_at(all, name@) == vm_at(all.skip(i as int), name@),
            decreases all.len() - i,
        {
            proof {
                assert(all.skip(i as int).drop_first() =~= all.skip(i + 1));
                assert(all.skip(i as int)[0] == all[i as int]);
            }
            if text::same(&self.scan.vms[i].name, name) {
                return Some(&self.scan.vms[i]);
            }
            i = i + 1;
        }
        None
    }

    pub open spec fn spec_session(self, path: Seq<char>) -> Option<SnapshotRow> {
        session_at(self.host, self.scan.snapshots@, path)
    }

    /// The saved session in that file.
    pub fn session(&self, path: &str) -> (r: Option<&SnapshotRow>)
        ensures
            match r {
                Some(row) => self.spec_session(path@) == Some(*row),
                None => self.spec_session(path@) is None,
            },
    {
        let mut i: usize = 0;
        let ghost all = self.scan.snapshots@;
        assert(all.skip(0) =~= all);
        while i < self.scan.snapshots.len()
            invariant
                all == self.scan.snapshots@,
                i <= all.len(),
                session_at(self.host, all, path@) == session_at(
                    self.host,
                    all.skip(i as int),
                    path@,
                ),
            decreases all.len() - i,
        {
            proof {
                assert(all.skip(i as int).drop_first() =~= all.skip(i + 1));
                assert(all.skip(i as int)[0] == all[i as int]);
            }
            if paths::same(self.host, &self.scan.snapshots[i].path, path) {
                return Some(&self.scan.snapshots[i]);
            }
            i = i + 1;
        }
        None
    }

    pub open spec fn spec_disk(self, path: Seq<char>) -> Option<DiskRow> {
        disk_at(self.host, self.scan.disks@, path)
    }

    /// The disk image in that file.
    pub fn disk_row(&self, path: &str) -> (r: Option<&DiskRow>)
        ensures
            match r {
                Some(row) => self.spec_disk(path@) == Some(*row),
                None => self.spec_disk(path@) is None,
            },
    {
        let mut i: usize = 0;
        let ghost all = self.scan.disks@;
        assert(all.skip(0) =~= all);
        while i < self.scan.disks.len()
            invariant
                all == self.scan.disks@,
                i <= all.len(),
                disk_at(self.host, all, path@) == disk_at(self.host, all.skip(i as int), path@),
            decreases all.len() - i,
        {
            proof {
                assert(all.skip(i as int).drop_first() =~= all.skip(i + 1));
                assert(all.skip(i as int)[0] == all[i as int]);
            }
            if paths::same(self.host, &self.scan.disks[i].path, path) {
                return Some(&self.scan.disks[i]);
            }
            i = i + 1;
        }
        None
    }

    pub open spec fn spec_snapshot_for(self, name: Seq<char>) -> Option<SnapshotRow> {
        match self.spec_vm(name) {
            Some(vm) => self.spec_session(snapshots::path_of(self.host, vm)),
            None => None,
        }
    }

    /// A machine's saved session, if it has one: the one in the conventional
    /// place. A copy made by hand is a session of the same machine, but not the
    /// one this machine would come back from.
    pub fn snapshot_for(&self, name: &str) -> (r: Option<&SnapshotRow>)
        ensures
            match r {
                Some(row) => self.spec_snapshot_for(name@) == Some(*row),
                None => self.spec_snapshot_for(name@) is None,
            },
    {
        match self.vm(name) {
            Some(vm) => self.session(&snapshots::path_for(self.host, vm)),
            None => None,
        }
    }

    pub open spec fn spec_status(self, name: Seq<char>) -> Status {
        let task = active_of(self.supervisor.tasks@, name);
        if task is Some && task->0.suspend_since is Some {
            Status::Suspending
        } else {
            let base = if self.mock_statuses@.contains_key(name) {
                self.mock_statuses@[name]
            } else {
                match task {
                    Some(t) => match t.kind {
                        TaskKind::Run => if t.stop {
                            Status::Stopping
                        } else {
                            Status::Running
                        },
                        TaskKind::Install => Status::Installing,
                    },
                    None => Status::Stopped,
                }
            };
            if base == Status::Stopped && self.spec_snapshot_for(name) is Some {
                Status::Suspended
            } else {
                base
            }
        }
    }

    /// A machine's status.
    ///
    /// Two of them are not properties of a process. A suspending machine is a
    /// running child that was told to write itself to a file; a suspended one is
    /// the absence of a child and the presence of that file, so it still reads
    /// correctly after the manager was closed and opened again.
    pub fn status_of(&self, name: &str) -> (r: Status)
        requires
            self.wf(),
        ensures
            r == self.spec_status(name@),
    {
        let active = self.supervisor.active_index(name);
        proof {
            if let Some(i) = active {
                lemma_active(self.supervisor.tasks@, name@, i as int);
            }
        }
        if let Some(i) = active {
            if self.supervisor.tasks[i].suspend_requested() {
                return Status::Suspending;
            }
        }
        let base = match self.mock_statuses.get(name) {
            Some(status) => *status,
            None => match active {
                Some(i) => match self.supervisor.tasks[i].kind {
                    TaskKind::Run => if self.supervisor.tasks[i].stop_requested() {
                        Status::Stopping
                    } else {
                        Status::Running
                    },
                    TaskKind::Install => Status::Installing,
                },
                None => Status::Stopped,
            },
        };
        if base == Status::Stopped && self.snapshot_for(name).is_some() {
            Status::Suspended
        } else {
            base
        }
    }

    pub open spec fn spec_busy(self, name: Seq<char>) -> bool {
        if self.mock_mode {
            self.spec_status(name).occupied()
        } else {
            process::busy_in(self.supervisor.tasks@, name)
        }
    }

    /// Whether a machine is doing something that must not be disturbed.
    pub fn is_busy(&self, name: &str) -> (r: bool)
        requires
            self.wf(),
        ensures
            r == self.spec_busy(name@),
    {
        if self.mock_mode {
            return match self.status_of(name) {
                Status::Running
                | Status::Stopping
                | Status::Installing
                | Status::Suspending => true,
                _ => false,
            };
        }
        self.supervisor.is_busy(name)
    }

    pub open spec fn spec_backend(self, name: Seq<char>) -> Backend {
        self.settings.spec_backend_for(name, self.host)
    }

    /// Where a machine runs, honouring its own choice and what this host has.
    pub fn backend_of(&self, name: &str) -> (r: Backend)
        requires
            self.wf(),
        ensures
            r == self.spec_backend(name@),
    {
        self.settings.backend_for(name, self.host)
    }

    /// The machine that a session is of, as far as it says.
    pub open spec fn session_vm(row: SnapshotRow) -> Seq<char> {
        match row.spec_vm_name() {
            Some(name) => name,
            None => Seq::empty(),
        }
    }

    pub open spec fn spec_verdict(self, row: SnapshotRow, states: Seq<FileState>) -> (
        Seq<Seq<char>>,
        Seq<Seq<char>>,
    ) {
        let name = Self::session_vm(row);
        snapshots::verdict_of(
            row,
            self.spec_backend(name),
            self.spec_vm(name),
            states,
            self.host,
        )
    }

    /// Whether a saved session could be resumed, and why not. Its machine may
    /// have no profile here at all; it would then run on the default backend.
    pub fn snapshot_verdict(&self, row: &SnapshotRow, states: &Vec<FileState>) -> (r: Verdict)
        requires
            self.wf(),
            row.facts matches Ok(f) ==> states@.len() == f.files@.len(),
        ensures
            (text::texts(r.blocked@), text::texts(r.notes@)) == self.spec_verdict(*row, states@),
    {
        let name: String = match row.vm_name() {
            Some(name) => name.to_owned(),
            None => String::new(),
        };
        assert(name@ =~= Self::session_vm(*row));
        snapshots::verdict(row, self.backend_of(&name), self.vm(&name), states, self.host)
    }

    /// Some machine that uses the disk is busy.
    pub open spec fn spec_disk_busy(self, row: DiskRow) -> bool {
        exists|i: int|
            0 <= i < row.attachments@.len() && self.spec_busy((#[trigger] row.attachments@[i]).vm@)
    }

    /// Whether some machine that uses the disk is busy. Nothing may change the
    /// disk then.
    pub fn disk_busy(&self, row: &DiskRow) -> (r: bool)
        requires
            self.wf(),
        ensures
            r == self.spec_disk_busy(*row),
    {
        let mut i: usize = 0;
        while i < row.attachments.len()
            invariant
                self.wf(),
                i <= row.attachments@.len(),
                forall|j: int|
                    0 <= j < i ==> !self.spec_busy((#[trigger] row.attachments@[j]).vm@),
            decreases row.attachments@.len() - i,
        {
            if self.is_busy(&row.attachments[i].vm) {
                assert(self.spec_busy(row.attachments@[i as int].vm@));
                return true;
            }
            i = i + 1;
        }
        false
    }

    pub open spec fn spec_preferred(self) -> Backend {
        let chosen = self.settings.default_backend;
        if !chosen.available(self.host) || (chosen == Backend::Wsl && self.wsl.engine is Failed) {
            Backend::Native
        } else {
            chosen
        }
    }

    /// Which backend a new machine should start out with: the saved default,
    /// unless this host cannot use it. The setting itself stays, for the engine
    /// may be installed a minute later.
    pub fn preferred_backend(&self) -> (r: Backend)
        ensures
            r == self.spec_preferred(),
    {
        let chosen = self.settings.default_backend;
        if !chosen.available_on_host(self.host) {
            return Backend::Native;
        }
        let failed = match &self.wsl.engine {
            wslengine::Status::Failed(_) => true,
            _ => false,
        };
        if chosen == Backend::Wsl && failed {
            return Backend::Native;
        }
        chosen
    }

    pub open spec fn spec_block(self, backend: Backend) -> Option<Seq<char>> {
        if backend == Backend::Wsl {
            self.wsl.engine.spec_refusal()
        } else {
            None
        }
    }

    /// What stands in the way of a backend, if anything does. Creating and
    /// starting a machine both ask here, so they cannot disagree.
    pub fn backend_block(&self, backend: Backend) -> (r: Option<String>)
        ensures
            text::opt_text(r) == self.spec_block(backend),
    {
        match backend {
            Backend::Wsl => self.wsl.engine.refusal(),
            Backend::Native => None,
        }
    }

    /// Whether the machine was asked to pause.
    pub fn is_paused(&self, name: &str) -> (r: bool)
        ensures
            r == (active_of(self.supervisor.tasks@, name@) matches Some(t) && t.paused),
    {
        match self.supervisor.active_index(name) {
            Some(i) => {
                proof {
                    lemma_active(self.supervisor.tasks@, name@, i as int);
                }
                self.supervisor.tasks[i].pause_requested()
            },
            None => false,
        }
    }

    /// Whether the machine can be paused or restarted from here at all.
    pub fn has_control(&self, name: &str) -> (r: bool)
        ensures
            r == (active_of(self.supervisor.tasks@, name@) matches Some(t) && t.control),
    {
        match self.supervisor.active_index(name) {
            Some(i) => {
                proof {
                    lemma_active(self.supervisor.tasks@, name@, i as int);
                }
                self.supervisor.tasks[i].has_control()
            },
            None => false,
        }
    }

    pub open spec fn spec_refresh_state(self) -> RefreshState {
        match self.scanner.manual_refresh_at {
            Some(started) => if self.scanner.in_flight {
                RefreshState::Scanning
            } else if metrics::beyond(self.now, started) < REFRESH_SHOWN_MS {
                RefreshState::Complete
            } else {
                RefreshState::Idle
            },
            None => RefreshState::Idle,
        }
    }

    /// What the refresh button shows: only a refresh that the user asked for.
    pub fn refresh_state(&self) -> (r: RefreshState)
        ensures
            r == self.spec_refresh_state(),
    {
        match self.scanner.manual_refresh_at {
            Some(started) => {
                let elapsed: u64 = if self.now >= started {
                    self.now - started
                } else {
                    0
                };
                if self.scanner.in_flight {
                    RefreshState::Scanning
                } else if elapsed < REFRESH_SHOWN_MS {
                    RefreshState::Complete
                } else {
                    RefreshState::Idle
                }
            },
            None => RefreshState::Idle,
        }
    }

    /// The children to be measured: number and machine of each running one.
    pub fn targets(&self) -> (r: Vec<(TaskId, String)>)
        ensures
            r@ == targets_of(self.supervisor.tasks@),
    {
        let mut out: Vec<(TaskId, String)> = Vec::new();
        let mut i: usize = 0;
        let ghost all = self.supervisor.tasks@;
        assert(all.take(0) =~= Seq::<Task>::empty());
        while i < self.supervisor.tasks.len()
            invariant
                all == self.supervisor.tasks@,
                i <= all.len(),
                out@ == targets_of(all.take(i as int)),
            decreases all.len() - i,
        {
            proof {
                assert(all.take(i + 1).drop_last() =~= all.take(i as int));
                assert(all.take(i + 1).last() == all[i as int]);
            }
            if self.supervisor.tasks[i].is_active() {
                out.push((self.supervisor.tasks[i].id, self.supervisor.tasks[i].vm.clone()));
            }
            i = i + 1;
        }
        assert(all.take(i as int) =~= all);
        out
    }
}

/// Number and machine of each running child, oldest first.
pub open spec fn targets_of(tasks: Seq<Task>) -> Seq<(TaskId, String)>
    decreases tasks.len(),
{
    if tasks.len() == 0 {
        Seq::empty()
    } else if tasks.last().active() {
        targets_of(tasks.drop_last()).push((tasks.last().id, tasks.last().vm))
    } else {
        targets_of(tasks.drop_last())
    }
}

/// A machine whose session was saved and whose child is gone reads as suspended,
/// whatever this process remembers of it.
pub proof fn suspended_is_a_fact_on_disk(app: ManagerApp, name: Seq<char>)
    requires
        !app.mock_statuses@.contains_key(name),
        !process::busy_in(app.supervisor.tasks@, name),
    ensures
        app.spec_status(name) == (if app.spec_snapshot_for(name) is Some {
            Status::Suspended
        } else {
            Status::Stopped
        }),
{
}

/// The name of the window: the product and its version.
pub fn window_title(version: &str) -> (r: String)
    ensures
        r@ == "Entangled Desktop v"@ + version@,
{
    text::cat("Entangled Desktop v", version)
}

} // verus!
