//! A session with sample data, which never touches the host.
//!
//! Looking around and opening dialogs work as they always do. What would commit a
//! change is played in memory and acknowledged with a message instead.
use crate::app;
use crate::backend::DEFAULT_WSL_DISTRO;
use crate::discovery::{DiskAttachment, DiskRow, Scan, VmEntry};
use crate::hostcheck;
use crate::host::Host;
use crate::paths;
use crate::settings::Settings;
use crate::snapshots::SnapshotRow;
use crate::state;
use crate::state::{
    Action, Desk, DoctorState, ManagerApp, Modal, ScannerState, Status, ToastLevel, WslState,
};
use crate::text;
use crate::wslengine;
use crate::wslengine::EngineFound;
use vstd::prelude::*;

verus! {

pub const NOTHING_CHANGED: &'static str =
    "Mock mode: host-side action received; nothing was changed";
pub const NO_BROWSER: &'static str =
    "Mock mode: the file browser is not opened; type a path instead";
pub const NO_PROBE: &'static str =
    "Mock: no WSL is probed; the fixture keeps its 'no engine' answer";
pub const WOULD_INSTALL: &'static str =
    "Mock: the Linux engine would be downloaded, verified and installed";
pub const SAMPLE_ENGINE: &'static str = "/home/spider/.local/bin/entangled";
pub const SAMPLE_DIR: &'static str = "mock-vms";
/// The size of a disk that is created in memory.
pub const SAMPLE_DISK_BYTES: u64 = 8_589_934_592;
/// What such a disk occupies.
pub const SAMPLE_DISK_ALLOCATED: u64 = 4_194_304;

// ---------------------------------------------------------------------------
// Dropping rows
// ---------------------------------------------------------------------------

/// The items that are not marked.
pub open spec fn unmarked<T>(items: Seq<T>, marks: Seq<bool>) -> Seq<T>
    decreases items.len(),
{
    if items.len() == 0 {
        Seq::empty()
    } else {
        let init = unmarked(items.drop_last(), marks);
        if marks[items.len() - 1] {
            init
        } else {
            init.push(items.last())
        }
    }
}

/// Dropping the marked items keeps those that are wanted, when the marks say which
/// are not.
proof fn lemma_unmarked<T>(items: Seq<T>, marks: Seq<bool>, wanted: spec_fn(T) -> bool)
    requires
        forall|i: int| 0 <= i < items.len() ==> marks[i] == !wanted(#[trigger] items[i]),
    ensures
        unmarked(items, marks) == items.filter(wanted),
    decreases items.len(),
{
    reveal(Seq::filter);
    if items.len() > 0 {
        let rest = items.drop_last();
        assert forall|i: int| 0 <= i < rest.len() implies marks[i] == !wanted(
            #[trigger] rest[i],
        ) by {
            assert(rest[i] == items[i]);
        }
        lemma_unmarked(rest, marks, wanted);
        assert(items.last() == items[items.len() - 1]);
    }
}

fn drop_marked<T>(items: &mut Vec<T>, marks: &Vec<bool>)
    requires
        old(items)@.len() == marks@.len(),
    ensures
        final(items)@ == unmarked(old(items)@, marks@),
{
    let ghost all = items@;
    let mut at: usize = 0;
    let mut k: usize = 0;
    assert(unmarked(all.take(0), marks@) + all.skip(0) =~= all);
    while k < marks.len()
        invariant
            at <= k <= marks@.len(),
            all.len() == marks@.len(),
            at == unmarked(all.take(k as int), marks@).len(),
            items@ == unmarked(all.take(k as int), marks@) + all.skip(k as int),
        decreases marks@.len() - k,
    {
        let ghost kept = unmarked(all.take(k as int), marks@);
        proof {
            assert(all.take(k + 1).drop_last() =~= all.take(k as int));
            assert(all.take(k + 1).last() == all[k as int]);
        }
        if marks[k] {
            let _ = items.remove(at);
            assert(items@ =~= kept + all.skip(k + 1));
        } else {
            at = at + 1;
            assert(items@ =~= kept.push(all[k as int]) + all.skip(k + 1));
        }
        k = k + 1;
    }
    assert(all.take(k as int) =~= all);
    assert(all.skip(k as int) =~= Seq::<T>::empty());
}

/// The sessions in other files.
pub open spec fn sessions_but(host: Host, rows: Seq<SnapshotRow>, path: Seq<char>) -> Seq<
    SnapshotRow,
> {
    rows.filter(|row: SnapshotRow| !paths::same_path(host, row.path@, path))
}

fn forget_session(host: Host, rows: &mut Vec<SnapshotRow>, path: &str)
    ensures
        final(rows)@ == sessions_but(host, old(rows)@, path@),
{
    let mut marks: Vec<bool> = Vec::new();
    let mut i: usize = 0;
    while i < rows.len()
        invariant
            i <= rows@.len(),
            rows@ == old(rows)@,
            marks@.len() == i,
            forall|j: int|
                0 <= j < i ==> #[trigger] marks@[j] == paths::same_path(
                    host,
                    rows@[j].path@,
                    path@,
                ),
        decreases rows@.len() - i,
    {
        marks.push(paths::same(host, &rows[i].path, path));
        i = i + 1;
    }
    proof {
        let wanted = |row: SnapshotRow| !paths::same_path(host, row.path@, path@);
        assert forall|j: int| 0 <= j < rows@.len() implies marks@[j] == !wanted(
            #[trigger] rows@[j],
        ) by {
            assert(marks@[j] == paths::same_path(host, rows@[j].path@, path@));
        }
        lemma_unmarked(rows@, marks@, wanted);
    }
    drop_marked(rows, &marks);
}

/// The disks in other files.
pub open spec fn disks_but(host: Host, rows: Seq<DiskRow>, path: Seq<char>) -> Seq<DiskRow> {
    rows.filter(|row: DiskRow| !paths::same_path(host, row.path@, path))
}

fn forget_disk(host: Host, rows: &mut Vec<DiskRow>, path: &str)
    ensures
        final(rows)@ == disks_but(host, old(rows)@, path@),
{
    let mut marks: Vec<bool> = Vec::new();
    let mut i: usize = 0;
    while i < rows.len()
        invariant
            i <= rows@.len(),
            rows@ == old(rows)@,
            marks@.len() == i,
            forall|j: int|
                0 <= j < i ==> #[trigger] marks@[j] == paths::same_path(
                    host,
                    rows@[j].path@,
                    path@,
                ),
        decreases rows@.len() - i,
    {
        marks.push(paths::same(host, &rows[i].path, path));
        i = i + 1;
    }
    proof {
        let wanted = |row: DiskRow| !paths::same_path(host, row.path@, path@);
        assert forall|j: int| 0 <= j < rows@.len() implies marks@[j] == !wanted(
            #[trigger] rows@[j],
        ) by {
            assert(marks@[j] == paths::same_path(host, rows@[j].path@, path@));
        }
        lemma_unmarked(rows@, marks@, wanted);
    }
    drop_marked(rows, &marks);
}

/// The machines of other names.
pub open spec fn vms_but(vms: Seq<VmEntry>, name: Seq<char>) -> Seq<VmEntry> {
    vms.filter(|vm: VmEntry| vm.name@ != name)
}

fn forget_vm(vms: &mut Vec<VmEntry>, name: &str)
    ensures
        final(vms)@ == vms_but(old(vms)@, name@),
{
    let mut marks: Vec<bool> = Vec::new();
    let mut i: usize = 0;
    while i < vms.len()
        invariant
            i <= vms@.len(),
            vms@ == old(vms)@,
            marks@.len() == i,
            forall|j: int| 0 <= j < i ==> #[trigger] marks@[j] == (vms@[j].name@ == name@),
        decreases vms@.len() - i,
    {
        marks.push(text::same(&vms[i].name, name));
        i = i + 1;
    }
    proof {
        let wanted = |vm: VmEntry| vm.name@ != name@;
        assert forall|j: int| 0 <= j < vms@.len() implies marks@[j] == !wanted(
            #[trigger] vms@[j],
        ) by {
            assert(marks@[j] == (vms@[j].name@ == name@));
        }
        lemma_unmarked(vms@, marks@, wanted);
    }
    drop_marked(vms, &marks);
}

/// The attachments to machines of other names.
pub open spec fn attachments_but(attachments: Seq<DiskAttachment>, vm: Seq<char>) -> Seq<
    DiskAttachment,
> {
    attachments.filter(|a: DiskAttachment| a.vm@ != vm)
}

fn forget_attachments(attachments: &mut Vec<DiskAttachment>, vm: &str)
    ensures
        final(attachments)@ == attachments_but(old(attachments)@, vm@),
{
    let mut marks: Vec<bool> = Vec::new();
    let mut i: usize = 0;
    while i < attachments.len()
        invariant
            i <= attachments@.len(),
            attachments@ == old(attachments)@,
            marks@.len() == i,
            forall|j: int| 0 <= j < i ==> #[trigger] marks@[j] == (attachments@[j].vm@ == vm@),
        decreases attachments@.len() - i,
    {
        marks.push(text::same(&attachments[i].vm, vm));
        i = i + 1;
    }
    proof {
        let wanted = |a: DiskAttachment| a.vm@ != vm@;
        assert forall|j: int| 0 <= j < attachments@.len() implies marks@[j] == !wanted(
            #[trigger] attachments@[j],
        ) by {
            assert(marks@[j] == (attachments@[j].vm@ == vm@));
        }
        lemma_unmarked(attachments@, marks@, wanted);
    }
    drop_marked(attachments, &marks);
}

/// The same disks, with the attachments to one machine gone.
pub open spec fn detached(before: Seq<DiskRow>, after: Seq<DiskRow>, vm: Seq<char>) -> bool {
    &&& after.len() == before.len()
    &&& forall|i: int|
        0 <= i < before.len() ==> {
            &&& (#[trigger] after[i]) == (DiskRow {
                attachments: after[i].attachments,
                ..before[i]
            })
            &&& after[i].attachments@ == attachments_but(before[i].attachments@, vm)
        }
}

fn detach_all(disks: &mut Vec<DiskRow>, vm: &str)
    ensures
        detached(old(disks)@, final(disks)@, vm@),
{
    let ghost before = disks@;
    let mut i: usize = 0;
    while i < disks.len()
        invariant
            i <= disks@.len(),
            disks@.len() == before.len(),
            detached(before.take(i as int), disks@.take(i as int), vm@),
            disks@.skip(i as int) == before.skip(i as int),
        decreases before.len() - i,
    {
        let ghost now = disks@;
        assert(now[i as int] == now.skip(i as int)[0]);
        assert(before[i as int] == before.skip(i as int)[0]);
        forget_attachments(&mut disks[i].attachments, vm);
        proof {
            assert forall|j: int| 0 <= j < i + 1 implies {
                &&& (#[trigger] disks@.take(i + 1)[j]) == (DiskRow {
                    attachments: disks@.take(i + 1)[j].attachments,
                    ..before.take(i + 1)[j]
                })
                &&& disks@.take(i + 1)[j].attachments@ == attachments_but(
                    before.take(i + 1)[j].attachments@,
                    vm@,
                )
            } by {
                if j < i {
                    assert(disks@.take(i + 1)[j] == now.take(i as int)[j]);
                    assert(before.take(i + 1)[j] == before.take(i as int)[j]);
                }
            }
            assert forall|j: int| 0 <= j < before.len() - (i + 1) implies (
            #[trigger] disks@.skip(i + 1)[j]) == before.skip(i + 1)[j] by {
                assert(now.skip(i as int)[j + 1] == before.skip(i as int)[j + 1]);
            }
            assert(disks@.skip(i + 1) =~= before.skip(i + 1));
        }
        i = i + 1;
    }
    assert(before.take(i as int) =~= before);
    assert(disks@.take(i as int) =~= disks@);
}

// ---------------------------------------------------------------------------
// What each action does
// ---------------------------------------------------------------------------

/// One message more on the desk.
pub open spec fn noted(before: Desk, after: Desk, level: ToastLevel, message: Seq<char>) -> bool {
    &&& after.told() == before.told().push(state::fresh(level, message))
    &&& after == (Desk { toasts: after.toasts, ..before })
}

/// The dialog is closed, and one message more.
pub open spec fn dismissed(
    before: Desk,
    after: Desk,
    level: ToastLevel,
    message: Seq<char>,
) -> bool {
    noted(Desk { modal: Modal::Closed, ..before }, after, level, message)
}

/// A machine has another status, and a message says so.
pub open spec fn restated(
    before: ManagerApp,
    after: ManagerApp,
    name: Seq<char>,
    status: Status,
    level: ToastLevel,
    verb: Seq<char>,
) -> bool {
    &&& after.mock_statuses@ == before.mock_statuses@.insert(name, status)
    &&& noted(before.desk, after.desk, level, "Mock: "@ + verb + " "@ + state::quoted(name))
    &&& after == (ManagerApp {
        desk: after.desk,
        mock_statuses: after.mock_statuses,
        ..before
    })
}

/// The state with other sessions and nothing else changed.
pub open spec fn with_sessions(app: ManagerApp, sessions: Vec<SnapshotRow>) -> ManagerApp {
    ManagerApp { scan: Scan { snapshots: sessions, ..app.scan }, ..app }
}

/// A machine comes back from its own session.
pub open spec fn resumed(before: ManagerApp, after: ManagerApp, name: Seq<char>) -> bool {
    &&& match before.spec_snapshot_for(name) {
        Some(row) => after.scan.snapshots@ == sessions_but(
            before.host,
            before.scan.snapshots@,
            row.path@,
        ),
        None => after.scan.snapshots == before.scan.snapshots,
    }
    &&& restated(
        with_sessions(before, after.scan.snapshots),
        after,
        name,
        Status::Running,
        ToastLevel::Success,
        "resumed"@,
    )
}

/// The session in a file is taken, and the machine that it names runs.
pub open spec fn resumed_from(before: ManagerApp, after: ManagerApp, path: Seq<char>) -> bool {
    let name = match before.spec_session(path) {
        Some(row) => row.spec_vm_name(),
        None => None,
    };
    let mid = with_sessions(before, after.scan.snapshots);
    &&& after.scan.snapshots@ == sessions_but(before.host, before.scan.snapshots@, path)
    &&& match name {
        Some(name) => restated(
            mid,
            after,
            name,
            Status::Running,
            ToastLevel::Success,
            "resumed"@,
        ),
        None => after == mid,
    }
}

/// The open dialog's session is forgotten.
pub open spec fn forgotten(before: ManagerApp, after: ManagerApp) -> bool {
    &&& match before.desk.modal {
        Modal::DeleteSnapshot(s) => after.scan.snapshots@ == sessions_but(
            before.host,
            before.scan.snapshots@,
            s.row.path@,
        ),
        _ => after.scan.snapshots == before.scan.snapshots,
    }
    &&& dismissed(
        before.desk,
        after.desk,
        ToastLevel::Success,
        "Mock: saved session forgotten"@,
    )
    &&& after == (ManagerApp {
        desk: after.desk,
        ..with_sessions(before, after.scan.snapshots)
    })
}

/// The open dialog's machine is started without its session.
pub open spec fn started_fresh(before: ManagerApp, after: ManagerApp) -> bool {
    &&& match before.desk.modal {
        Modal::DiscardSnapshot(s) => {
            &&& after.scan.snapshots@ == sessions_but(
                before.host,
                before.scan.snapshots@,
                s.row.path@,
            )
            &&& after.mock_statuses@ == before.mock_statuses@.insert(s.vm@, Status::Running)
        },
        _ => {
            &&& after.scan.snapshots == before.scan.snapshots
            &&& after.mock_statuses == before.mock_statuses
        },
    }
    &&& dismissed(
        before.desk,
        after.desk,
        ToastLevel::Success,
        "Mock: started fresh in memory"@,
    )
    &&& after == (ManagerApp {
        desk: after.desk,
        mock_statuses: after.mock_statuses,
        ..with_sessions(before, after.scan.snapshots)
    })
}

/// The three switches of the open settings hold from now on.
pub open spec fn settings_applied(before: ManagerApp, after: ManagerApp) -> bool {
    &&& after.settings == match before.desk.modal {
        Modal::Settings(form) => Settings {
            animations_enabled: form.animations_enabled,
            headless_install: form.headless_install,
            check_updates_on_startup: form.check_updates_on_startup,
            ..before.settings
        },
        _ => before.settings,
    }
    &&& dismissed(
        before.desk,
        after.desk,
        ToastLevel::Success,
        "Mock: settings applied for this run"@,
    )
    &&& after == (ManagerApp { desk: after.desk, settings: after.settings, ..before })
}

/// The edited profile is judged, and saved in memory if it is valid.
pub open spec fn edit_judged(
    before: ManagerApp,
    after: ManagerApp,
    verdict: Result<(), String>,
) -> bool {
    match (before.desk.modal, verdict) {
        (Modal::EditVm(_), Ok(())) => {
            &&& dismissed(
                before.desk,
                after.desk,
                ToastLevel::Success,
                "Mock: machine changes saved in memory"@,
            )
            &&& after == (ManagerApp { desk: after.desk, ..before })
        },
        (Modal::EditVm(_), Err(e)) => app::faulted_only(before, after, e@),
        _ => after == before,
    }
}

/// The open dialog's machine is gone, and no disk is attached to it.
pub open spec fn deletion_played(before: ManagerApp, after: ManagerApp) -> bool {
    match before.desk.modal {
        Modal::Delete(s) => if text::trim_of(s.typed@) != s.name@ {
            app::faulted_only(before, after, "type "@ + state::quoted(s.name@) + " to confirm"@)
        } else {
            &&& after.scan.vms@ == vms_but(before.scan.vms@, s.name@)
            &&& detached(before.scan.disks@, after.scan.disks@, s.name@)
            &&& after.mock_statuses@ == before.mock_statuses@.remove(s.name@)
            &&& dismissed(
                before.desk,
                after.desk,
                ToastLevel::Success,
                "Mock: deleted "@ + state::quoted(s.name@),
            )
            &&& after == (ManagerApp {
                desk: after.desk,
                mock_statuses: after.mock_statuses,
                scan: Scan { vms: after.scan.vms, disks: after.scan.disks, ..before.scan },
                ..before
            })
        },
        _ => after == before,
    }
}

/// The file name of a disk that is created in memory.
pub open spec fn sample_disk_name(typed: Seq<char>) -> Seq<char> {
    let name = text::trim_of(typed);
    if ".raw"@.is_suffix_of(name) {
        name
    } else {
        name + ".raw"@
    }
}

/// The row of a disk that was created in memory.
pub open spec fn is_sample_disk(host: Host, row: DiskRow, typed: Seq<char>) -> bool {
    &&& row.file_name@ == sample_disk_name(typed)
    &&& row.path@ == paths::joined(host, SAMPLE_DIR@, row.file_name@)
    &&& row.exists
    &&& row.apparent_bytes == SAMPLE_DISK_BYTES
    &&& row.allocated_bytes == Some(SAMPLE_DISK_ALLOCATED)
    &&& row.attachments@.len() == 0
    &&& !row.nvram
    &&& row.summary matches Ok(s) && s@ == "Empty RAW image"@
}

/// The open dialog's disk is added.
pub open spec fn disk_added(before: ManagerApp, after: ManagerApp) -> bool {
    match before.desk.modal {
        Modal::CreateDisk(s) => {
            &&& after.scan.disks@.len() == before.scan.disks@.len() + 1
            &&& after.scan.disks@.drop_last() == before.scan.disks@
            &&& is_sample_disk(before.host, after.scan.disks@.last(), s.name@)
            &&& dismissed(
                before.desk,
                after.desk,
                ToastLevel::Success,
                "Mock: disk added in memory"@,
            )
            &&& after == (ManagerApp {
                desk: after.desk,
                scan: Scan { disks: after.scan.disks, ..before.scan },
                ..before
            })
        },
        _ => after == before,
    }
}

/// The open dialog's disk is gone.
pub open spec fn disk_removed(before: ManagerApp, after: ManagerApp) -> bool {
    match before.desk.modal {
        Modal::DeleteDisk(s) => {
            &&& after.scan.disks@ == disks_but(before.host, before.scan.disks@, s.row.path@)
            &&& dismissed(
                before.desk,
                after.desk,
                ToastLevel::Success,
                "Mock: disk removed in memory"@,
            )
            &&& after == (ManagerApp {
                desk: after.desk,
                scan: Scan { disks: after.scan.disks, ..before.scan },
                ..before
            })
        },
        _ => after == before,
    }
}

/// The engine inside WSL is there from now on.
pub open spec fn engine_played(before: ManagerApp, after: ManagerApp) -> bool {
    &&& after.wsl.engine matches wslengine::Status::Ready(found) && found.distro@
        == DEFAULT_WSL_DISTRO@ && found.command@ == SAMPLE_ENGINE@ && text::opt_text(found.path)
        == Some(SAMPLE_ENGINE@) && text::opt_text(found.version) == Some(before.version@) && found.summary
        == before.wsl.sample_summary
    &&& noted(before.desk, after.desk, ToastLevel::Success, WOULD_INSTALL@)
    &&& after == (ManagerApp {
        desk: after.desk,
        wsl: WslState { engine: after.wsl.engine, ..before.wsl },
        ..before
    })
}

/// The sample report of the host check is shown.
pub open spec fn report_played(before: ManagerApp, after: ManagerApp) -> bool {
    &&& after.doctor.report matches Some(report) && hostcheck::is_mock_report(report)
    &&& noted(
        before.desk,
        after.desk,
        ToastLevel::Info,
        "Mock: showing a sample host report"@,
    )
    &&& after == (ManagerApp {
        desk: after.desk,
        doctor: DoctorState { report: after.doctor.report, ..before.doctor },
        ..before
    })
}

/// What the create flow was about.
pub open spec fn wizard_name(modal: Modal) -> Seq<char> {
    match modal {
        Modal::Wizard(s) => text::trim_of(s.machine.name@),
        _ => "preview-machine"@,
    }
}

/// The dialog is closed, one message more, and nothing else.
pub open spec fn only_dismissed(before: ManagerApp, after: ManagerApp, message: Seq<char>) -> bool {
    &&& dismissed(before.desk, after.desk, ToastLevel::Success, message)
    &&& after == (ManagerApp { desk: after.desk, ..before })
}

// ---------------------------------------------------------------------------
// The actions
// ---------------------------------------------------------------------------

impl ManagerApp {
    /// The action is played in memory in a session with sample data.
    pub open spec fn mock_handles(self, action: Action) -> bool {
        self.mock_mode && match action {
            Action::AskDiscardSnapshot(name) => self.spec_snapshot_for(name@) is None,
            Action::Refresh
            | Action::Start(_)
            | Action::Stop(_)
            | Action::Suspend(_)
            | Action::ResumeVm(_)
            | Action::ResumeSnapshot(_)
            | Action::ConfirmDeleteSnapshot
            | Action::ConfirmDiscardSnapshot
            | Action::SubmitWizard
            | Action::SaveSettings
            | Action::SubmitEditVm
            | Action::ConfirmDelete
            | Action::SubmitCreateDisk
            | Action::ConfirmDeleteDisk
            | Action::SubmitAttachDisk
            | Action::DetachDisk { .. }
            | Action::SubmitResizeDisk
            | Action::CheckWslEngine
            | Action::InstallWslEngine
            | Action::RunDiagnostics
            | Action::PickPath(_)
            | Action::CreateVmDir
            | Action::Reveal(_)
            | Action::AskMoveDisk(_)
            | Action::SubmitMoveDisk
            | Action::InstallUpdate
            | Action::OpenReleasePage => true,
            _ => false,
        }
    }

    /// What playing an action does. `verdict` is what the engine's rules say of the
    /// edited profile, if one is open.
    pub open spec fn mock_played(
        self,
        action: Action,
        verdict: Result<(), String>,
        after: ManagerApp,
    ) -> bool {
        match action {
            Action::Refresh => {
                &&& noted(self.desk, after.desk, ToastLevel::Success, "Mock data refreshed"@)
                &&& after == (ManagerApp {
                    desk: after.desk,
                    scanner: ScannerState { manual_refresh_at: Some(self.now), ..self.scanner },
                    ..self
                })
            },
            Action::Start(name) => restated(
                self,
                after,
                name@,
                Status::Running,
                ToastLevel::Success,
                "started"@,
            ),
            Action::AskDiscardSnapshot(name) => restated(
                self,
                after,
                name@,
                Status::Running,
                ToastLevel::Success,
                "started"@,
            ),
            Action::Stop(name) => restated(
                self,
                after,
                name@,
                Status::Stopped,
                ToastLevel::Info,
                "stopped"@,
            ),
            Action::Suspend(name) => restated(
                self,
                after,
                name@,
                Status::Suspending,
                ToastLevel::Info,
                "suspending"@,
            ),
            Action::ResumeVm(name) => resumed(self, after, name@),
            Action::ResumeSnapshot(path) => resumed_from(self, after, path@),
            Action::ConfirmDeleteSnapshot => forgotten(self, after),
            Action::ConfirmDiscardSnapshot => started_fresh(self, after),
            Action::SubmitWizard => only_dismissed(
                self,
                after,
                "Mock: create flow completed for "@ + state::quoted(wizard_name(self.desk.modal)),
            ),
            Action::SaveSettings => settings_applied(self, after),
            Action::SubmitEditVm => edit_judged(self, after, verdict),
            Action::ConfirmDelete => deletion_played(self, after),
            Action::SubmitCreateDisk => disk_added(self, after),
            Action::ConfirmDeleteDisk => disk_removed(self, after),
            Action::SubmitAttachDisk => only_dismissed(
                self,
                after,
                "Mock: attach action accepted"@,
            ),
            Action::SubmitResizeDisk => only_dismissed(self, after, "Mock: disk grown in memory"@),
            Action::DetachDisk { .. } => app::told_one(
                self,
                after,
                ToastLevel::Success,
                "Mock: detach action accepted"@,
            ),
            Action::CheckWslEngine => app::told_one(self, after, ToastLevel::Info, NO_PROBE@),
            Action::InstallWslEngine => engine_played(self, after),
            Action::RunDiagnostics => report_played(self, after),
            Action::PickPath(_) => app::told_one(self, after, ToastLevel::Info, NO_BROWSER@),
            _ => app::told_one(self, after, ToastLevel::Info, NOTHING_CHANGED@),
        }
    }

    fn dismiss(&mut self, message: String)
        ensures
            only_dismissed(*old(self), *final(self), message@),
    {
        self.desk.modal = Modal::Closed;
        self.desk.toast(ToastLevel::Success, message);
    }

    fn restate(&mut self, name: &str, status: Status, level: ToastLevel, verb: &str)
        requires
            old(self).wf(),
        ensures
            restated(*old(self), *final(self), name@, status, level, verb@),
            final(self).wf(),
    {
        self.mock_statuses.insert(name, status);
        self.desk.toast(level, text::cat4("Mock: ", verb, " ", &state::quote(name)));
    }

    fn mock_refresh(&mut self)
        ensures
            old(self).mock_played(Action::Refresh, Ok(()), *final(self)),
    {
        self.scanner.manual_refresh_at = Some(self.now);
        self.desk.toast(ToastLevel::Success, "Mock data refreshed".to_owned());
    }

    fn mock_resume(&mut self, name: &str)
        requires
            old(self).wf(),
        ensures
            resumed(*old(self), *final(self), name@),
            final(self).wf(),
    {
        let path: Option<String> = match self.snapshot_for(name) {
            Some(row) => Some(row.path.clone()),
            None => None,
        };
        if let Some(path) = path {
            forget_session(self.host, &mut self.scan.snapshots, &path);
        }
        self.restate(name, Status::Running, ToastLevel::Success, "resumed");
    }

    fn mock_resume_snapshot(&mut self, path: &str)
        requires
            old(self).wf(),
        ensures
            resumed_from(*old(self), *final(self), path@),
            final(self).wf(),
    {
        let name: Option<String> = match self.session(path) {
            Some(row) => match row.vm_name() {
                Some(name) => Some(name.to_owned()),
                None => None,
            },
            None => None,
        };
        forget_session(self.host, &mut self.scan.snapshots, path);
        if let Some(name) = name {
            self.restate(&name, Status::Running, ToastLevel::Success, "resumed");
        }
    }

    fn mock_forget(&mut self)
        ensures
            forgotten(*old(self), *final(self)),
    {
        let path: Option<String> = match &self.desk.modal {
            Modal::DeleteSnapshot(s) => Some(s.row.path.clone()),
            _ => None,
        };
        if let Some(path) = path {
            forget_session(self.host, &mut self.scan.snapshots, &path);
        }
        self.dismiss("Mock: saved session forgotten".to_owned());
    }

    fn mock_start_fresh(&mut self)
        requires
            old(self).wf(),
        ensures
            started_fresh(*old(self), *final(self)),
            final(self).wf(),
    {
        let found: Option<(String, String)> = match &self.desk.modal {
            Modal::DiscardSnapshot(s) => Some((s.row.path.clone(), s.vm.clone())),
            _ => None,
        };
        if let Some((path, vm)) = found {
            forget_session(self.host, &mut self.scan.snapshots, &path);
            self.mock_statuses.insert(&vm, Status::Running);
        }
        self.dismiss("Mock: started fresh in memory".to_owned());
    }

    fn mock_wizard(&mut self)
        ensures
            only_dismissed(
                *old(self),
                *final(self),
                "Mock: create flow completed for "@ + state::quoted(
                    wizard_name(old(self).desk.modal),
                ),
            ),
    {
        let name = match &self.desk.modal {
            Modal::Wizard(s) => text::trim(&s.machine.name),
            _ => "preview-machine".to_owned(),
        };
        self.dismiss(text::cat("Mock: create flow completed for ", &state::quote(&name)));
    }

    fn mock_save_settings(&mut self)
        ensures
            settings_applied(*old(self), *final(self)),
    {
        let switches: Option<(bool, bool, bool)> = match &self.desk.modal {
            Modal::Settings(form) => Some(
                (form.animations_enabled, form.headless_install, form.check_updates_on_startup),
            ),
            _ => None,
        };
        if let Some((animations, headless, updates)) = switches {
            self.settings.animations_enabled = animations;
            self.settings.headless_install = headless;
            self.settings.check_updates_on_startup = updates;
        }
        self.dismiss("Mock: settings applied for this run".to_owned());
    }

    fn mock_edit(&mut self, verdict: &Result<(), String>)
        ensures
            edit_judged(*old(self), *final(self), *verdict),
    {
        match &self.desk.modal {
            Modal::EditVm(_) => {},
            _ => return,
        }
        match verdict {
            Ok(()) => self.dismiss("Mock: machine changes saved in memory".to_owned()),
            Err(e) => self.desk.modal.fail(e.clone()),
        }
    }

    fn mock_delete(&mut self)
        requires
            old(self).wf(),
        ensures
            deletion_played(*old(self), *final(self)),
            final(self).wf(),
    {
        let (name, matches) = match &self.desk.modal {
            Modal::Delete(s) => (s.name.clone(), text::same(&text::trim(&s.typed), &s.name)),
            _ => return,
        };
        if !matches {
            self.desk.modal.fail(text::cat3("type ", &state::quote(&name), " to confirm"));
            return;
        }
        forget_vm(&mut self.scan.vms, &name);
        detach_all(&mut self.scan.disks, &name);
        self.mock_statuses.remove(&name);
        self.dismiss(text::cat("Mock: deleted ", &state::quote(&name)));
    }

    fn mock_create_disk(&mut self)
        ensures
            disk_added(*old(self), *final(self)),
    {
        let name = match &self.desk.modal {
            Modal::CreateDisk(s) => text::trim(&s.name),
            _ => return,
        };
        let file_name = if text::ends(&name, ".raw") {
            name
        } else {
            text::cat(&name, ".raw")
        };
        let path = paths::join(self.host, SAMPLE_DIR, &file_name);
        let ghost before = self.scan.disks@;
        self.scan.disks.push(
            DiskRow {
                path,
                file_name,
                exists: true,
                apparent_bytes: SAMPLE_DISK_BYTES,
                allocated_bytes: Some(SAMPLE_DISK_ALLOCATED),
                attachments: Vec::new(),
                nvram: false,
                summary: Ok("Empty RAW image".to_owned()),
            },
        );
        assert(self.scan.disks@.drop_last() =~= before);
        self.dismiss("Mock: disk added in memory".to_owned());
    }

    fn mock_delete_disk(&mut self)
        ensures
            disk_removed(*old(self), *final(self)),
    {
        let path = match &self.desk.modal {
            Modal::DeleteDisk(s) => s.row.path.clone(),
            _ => return,
        };
        forget_disk(self.host, &mut self.scan.disks, &path);
        self.dismiss("Mock: disk removed in memory".to_owned());
    }

    fn mock_install_engine(&mut self)
        ensures
            engine_played(*old(self), *final(self)),
    {
        self.wsl.engine = wslengine::Status::Ready(
            EngineFound {
                distro: DEFAULT_WSL_DISTRO.to_owned(),
                command: SAMPLE_ENGINE.to_owned(),
                path: Some(SAMPLE_ENGINE.to_owned()),
                version: Some(self.version.clone()),
                summary: self.wsl.sample_summary.clone(),
            },
        );
        self.desk.toast(ToastLevel::Success, WOULD_INSTALL.to_owned());
    }

    fn mock_diagnose(&mut self)
        ensures
            report_played(*old(self), *final(self)),
    {
        self.doctor.report = Some(hostcheck::mock_report());
        self.desk.toast(ToastLevel::Info, "Mock: showing a sample host report".to_owned());
    }

    /// Plays an action that would otherwise touch the host, in a session with
    /// sample data. Tells whether it did.
    pub fn apply_mock(&mut self, action: &Action, verdict: &Result<(), String>) -> (r: bool)
        requires
            old(self).wf(),
        ensures
            r == old(self).mock_handles(*action),
            r ==> old(self).mock_played(*action, *verdict, *final(self)),
            !r ==> *final(self) == *old(self),
            final(self).wf(),
    {
        if !self.mock_mode {
            return false;
        }
        match action {
            Action::Refresh => self.mock_refresh(),
            Action::Start(name) => self.restate(
                name,
                Status::Running,
                ToastLevel::Success,
                "started",
            ),
            Action::Stop(name) => self.restate(name, Status::Stopped, ToastLevel::Info, "stopped"),
            Action::Suspend(name) => self.restate(
                name,
                Status::Suspending,
                ToastLevel::Info,
                "suspending",
            ),
            Action::ResumeVm(name) => self.mock_resume(name),
            Action::ResumeSnapshot(path) => self.mock_resume_snapshot(path),
            Action::AskDiscardSnapshot(name) => {
                if self.snapshot_for(name).is_some() {
                    return false;
                }
                self.restate(name, Status::Running, ToastLevel::Success, "started");
            },
            Action::ConfirmDeleteSnapshot => self.mock_forget(),
            Action::ConfirmDiscardSnapshot => self.mock_start_fresh(),
            Action::SubmitWizard => self.mock_wizard(),
            Action::SaveSettings => self.mock_save_settings(),
            Action::SubmitEditVm => self.mock_edit(verdict),
            Action::ConfirmDelete => self.mock_delete(),
            Action::SubmitCreateDisk => self.mock_create_disk(),
            Action::ConfirmDeleteDisk => self.mock_delete_disk(),
            Action::SubmitAttachDisk => self.dismiss("Mock: attach action accepted".to_owned()),
            Action::SubmitResizeDisk => self.dismiss("Mock: disk grown in memory".to_owned()),
            Action::DetachDisk { .. } => self.toast(
                ToastLevel::Success,
                "Mock: detach action accepted".to_owned(),
            ),
            Action::CheckWslEngine => self.toast(ToastLevel::Info, NO_PROBE.to_owned()),
            Action::InstallWslEngine => self.mock_install_engine(),
            Action::RunDiagnostics => self.mock_diagnose(),
            Action::PickPath(_) => self.toast(ToastLevel::Info, NO_BROWSER.to_owned()),
            Action::CreateVmDir
            | Action::Reveal(_)
            | Action::AskMoveDisk(_)
            | Action::SubmitMoveDisk
            | Action::InstallUpdate
            | Action::OpenReleasePage => self.toast(ToastLevel::Info, NOTHING_CHANGED.to_owned()),
            _ => return false,
        }
        true
    }
}

} // verus!
