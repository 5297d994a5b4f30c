//! Promises about samples: they play what would happen, in memory alone.
use crate::discovery::{DiskAttachment, DiskRow};
use crate::mocking;
use crate::paths;
use crate::state;
use crate::state::{Action, ManagerApp, Modal, ToastLevel};
use crate::text;
use vstd::prelude::*;

verus! {

/// Whatever is played leaves the children, the requests and the engine alone, and is told.
pub proof fn samples_stay_in_memory(
    app: ManagerApp,
    action: Action,
    verdict: Result<(), String>,
    after: ManagerApp,
)
    requires
        app.mock_played(action, verdict, after),
    ensures
        after.supervisor == app.supervisor,
        after.desk.requests == app.desk.requests,
        after.engine == app.engine,
        after.pending == app.pending,
        after.settings_path == app.settings_path,
        after.mock_mode == app.mock_mode,
        after.told().len() <= app.told().len() + 1,
        after.told().len() >= app.told().len(),
{
}

/// A start and a stop are played by the machine's state, and only by it.
pub proof fn starts_and_stops_are_played(
    app: ManagerApp,
    name: String,
    vm: Seq<char>,
    started: ManagerApp,
    stopped: ManagerApp,
    suspended: ManagerApp,
    verdict: Result<(), String>,
)
    requires
        app.mock_played(Action::Start(name), verdict, started),
        app.mock_played(Action::Stop(name), verdict, stopped),
        app.mock_played(Action::Suspend(name), verdict, suspended),
    ensures
        started.mock_statuses@.contains_key(name@) && started.mock_statuses@[name@] is Running,
        stopped.mock_statuses@.contains_key(name@) && stopped.mock_statuses@[name@] is Stopped,
        suspended.mock_statuses@.contains_key(name@) && suspended.mock_statuses@[name@]
            is Suspending,
        vm != name@ ==> (started.mock_statuses@.contains_key(vm) <==> app.mock_statuses@.contains_key(
            vm,
        )) && (app.mock_statuses@.contains_key(vm) ==> started.mock_statuses@[vm]
            == app.mock_statuses@[vm] && stopped.mock_statuses@[vm] == app.mock_statuses@[vm]),
        started.scan == app.scan,
        stopped.scan == app.scan,
        started.told().len() == app.told().len() + 1,
        started.told().last().level == ToastLevel::Success,
        stopped.told().last().level == ToastLevel::Info,
        text::holds(started.told().last().text, name@),
        text::holds(stopped.told().last().text, name@),
{
    text::lemma_held("Mock: "@ + "started"@ + " "@ + "'"@, name@, "'"@);
    assert("Mock: "@ + "started"@ + " "@ + "'"@ + name@ + "'"@ =~= started.told().last().text);
    text::lemma_held("Mock: "@ + "stopped"@ + " "@ + "'"@, name@, "'"@);
    assert("Mock: "@ + "stopped"@ + " "@ + "'"@ + name@ + "'"@ =~= stopped.told().last().text);
}

/// A resumed session is gone and its machine runs; the other sessions stay.
pub proof fn a_resumed_sample_loses_its_session(
    app: ManagerApp,
    name: String,
    verdict: Result<(), String>,
    after: ManagerApp,
    i: int,
)
    requires
        app.mock_played(Action::ResumeVm(name), verdict, after),
        0 <= i < app.scan.snapshots@.len(),
    ensures
        after.mock_statuses@.contains_key(name@) && after.mock_statuses@[name@] is Running,
        app.spec_snapshot_for(name@) matches Some(row) ==> {
            let other = app.scan.snapshots@[i];
            &&& !paths::same_path(app.host, other.path@, row.path@)
                ==> after.scan.snapshots@.contains(other)
            &&& forall|k: int|
                0 <= k < after.scan.snapshots@.len() ==> !paths::same_path(
                    app.host,
                    (#[trigger] after.scan.snapshots@[k]).path@,
                    row.path@,
                )
        },
        after.scan.vms == app.scan.vms,
        after.scan.disks == app.scan.disks,
{
    if let Some(row) = app.spec_snapshot_for(name@) {
        let keep = |r: crate::snapshots::SnapshotRow|
            !paths::same_path(app.host, r.path@, row.path@);
        app.scan.snapshots@.filter_lemma(keep);
        let other = app.scan.snapshots@[i];
        if !paths::same_path(app.host, other.path@, row.path@) {
            assert(keep(other));
        }
        assert forall|k: int| 0 <= k < after.scan.snapshots@.len() implies !paths::same_path(
            app.host,
            (#[trigger] after.scan.snapshots@[k]).path@,
            row.path@,
        ) by {
            assert(keep(after.scan.snapshots@[k]));
        }
    }
}

/// A confirmed deletion takes the machine and its attachments, keeps its disks, and closes;
/// one that was not confirmed takes nothing and says what to type.
pub proof fn a_sample_is_deleted_when_confirmed(
    app: ManagerApp,
    verdict: Result<(), String>,
    after: ManagerApp,
    i: int,
)
    requires
        app.mock_played(Action::ConfirmDelete, verdict, after),
        app.desk.modal is Delete,
        0 <= i < app.scan.vms@.len(),
    ensures
        ({
            let s = app.desk.modal->Delete_0;
            let confirmed = text::trim_of(s.typed@) == s.name@;
            &&& confirmed ==> after.desk.modal is Closed
            &&& confirmed ==> forall|k: int|
                0 <= k < after.scan.vms@.len() ==> (#[trigger] after.scan.vms@[k]).name@ != s.name@
            &&& confirmed && app.scan.vms@[i].name@ != s.name@ ==> after.scan.vms@.contains(
                app.scan.vms@[i],
            )
            &&& confirmed ==> after.scan.disks@.len() == app.scan.disks@.len()
            &&& confirmed ==> !after.mock_statuses@.contains_key(s.name@)
            &&& !confirmed ==> after.scan == app.scan && after.mock_statuses == app.mock_statuses
                && (after.desk.modal matches Modal::Delete(t) && t.error is Some && t.name == s.name)
        }),
{
    let s = app.desk.modal->Delete_0;
    let keep = |vm: crate::discovery::VmEntry| vm.name@ != s.name@;
    if text::trim_of(s.typed@) == s.name@ {
        app.scan.vms@.filter_lemma(keep);
        if app.scan.vms@[i].name@ != s.name@ {
            assert(keep(app.scan.vms@[i]));
        }
        assert forall|k: int| 0 <= k < after.scan.vms@.len() implies (
        #[trigger] after.scan.vms@[k]).name@ != s.name@ by {
            assert(keep(after.scan.vms@[k]));
        }
    }
}

/// The attachments of other machines are those that stay.
proof fn lemma_others_stay(had: Seq<DiskAttachment>, name: Seq<char>)
    ensures
        forall|k: int|
            0 <= k < had.len() && (#[trigger] had[k]).vm@ != name ==> mocking::attachments_but(
                had,
                name,
            ).contains(had[k]),
        forall|j: int|
            0 <= j < mocking::attachments_but(had, name).len() ==> (
            #[trigger] mocking::attachments_but(had, name)[j]).vm@ != name,
    decreases had.len(),
{
    reveal(Seq::filter);
    let kept = mocking::attachments_but(had, name);
    if had.len() > 0 {
        let init = had.drop_last();
        lemma_others_stay(init, name);
        let before = mocking::attachments_but(init, name);
        assert(kept == (if had.last().vm@ != name {
            before.push(had.last())
        } else {
            before
        }));
        assert forall|k: int|
            0 <= k < had.len() && (#[trigger] had[k]).vm@ != name implies kept.contains(had[k]) by {
            if k < init.len() {
                assert(init[k] == had[k]);
                let j = choose|j: int| 0 <= j < before.len() && before[j] == had[k];
                assert(kept[j] == had[k]);
            } else {
                assert(kept[kept.len() - 1] == had[k]);
            }
        }
    }
}

/// The disks of a deleted sample are attached to it no more, and to the others as before.
pub proof fn a_deleted_sample_lets_its_disks_go(
    before: Seq<DiskRow>,
    after: Seq<DiskRow>,
    vm: Seq<char>,
    i: int,
    k: int,
)
    requires
        mocking::detached(before, after, vm),
        0 <= i < before.len(),
        0 <= k < before[i].attachments@.len(),
    ensures
        after[i].path == before[i].path,
        after[i].exists == before[i].exists,
        before[i].attachments@[k].vm@ != vm ==> after[i].attachments@.contains(
            before[i].attachments@[k],
        ),
        forall|j: int|
            0 <= j < after[i].attachments@.len() ==> (#[trigger] after[i].attachments@[j]).vm@
                != vm,
{
    let had = before[i].attachments@;
    assert(after[i] == (DiskRow { attachments: after[i].attachments, ..before[i] }));
    lemma_others_stay(had, vm);
    assert(after[i].attachments@ == mocking::attachments_but(had, vm));
}

/// A disk that is added has the typed name, ends as images do, and is nobody's; a deleted
/// one is gone.
pub proof fn sample_disks_come_and_go(
    app: ManagerApp,
    verdict: Result<(), String>,
    added: ManagerApp,
    removed: ManagerApp,
    at: int,
)
    requires
        app.mock_played(Action::SubmitCreateDisk, verdict, added),
        app.mock_played(Action::ConfirmDeleteDisk, verdict, removed),
    ensures
        app.desk.modal matches Modal::CreateDisk(s) ==> {
            let disk = added.scan.disks@.last();
            &&& added.scan.disks@.len() == app.scan.disks@.len() + 1
            &&& disk.exists
            &&& disk.attachments@.len() == 0
            &&& !disk.nvram
            &&& ".raw"@.is_suffix_of(disk.file_name@)
            &&& added.desk.modal is Closed
            &&& text::begins_with(disk.file_name@, text::trim_of(s.name@))
        },
        app.desk.modal matches Modal::DeleteDisk(s) ==> (0 <= at < removed.scan.disks@.len()
            ==> !paths::same_path(app.host, removed.scan.disks@[at].path@, s.row.path@))
            && removed.desk.modal is Closed,
{
    if let Modal::CreateDisk(s) = app.desk.modal {
        let name = text::trim_of(s.name@);
        let file = added.scan.disks@.last().file_name@;
        assert(file.subrange(0, name.len() as int) =~= name);
        assert(".raw"@.is_suffix_of(name + ".raw"@)) by {
            assert((name + ".raw"@).subrange(name.len() as int, (name + ".raw"@).len() as int)
                =~= ".raw"@);
        }
    }
    if let Modal::DeleteDisk(s) = app.desk.modal {
        let keep = |r: DiskRow| !paths::same_path(app.host, r.path@, s.row.path@);
        app.scan.disks@.filter_lemma(keep);
        if 0 <= at < removed.scan.disks@.len() {
            assert(keep(removed.scan.disks@[at]));
        }
    }
}

/// Settings of samples take what the form says of this run, and nothing else.
pub proof fn sample_settings_are_for_this_run(
    app: ManagerApp,
    verdict: Result<(), String>,
    after: ManagerApp,
)
    requires
        app.mock_played(Action::SaveSettings, verdict, after),
    ensures
        app.desk.modal matches Modal::Settings(form) ==> {
            &&& after.settings.animations_enabled == form.animations_enabled
            &&& after.settings.headless_install == form.headless_install
            &&& after.settings.check_updates_on_startup == form.check_updates_on_startup
        },
        after.settings.vm_dir == app.settings.vm_dir,
        after.settings.entangled_binary == app.settings.entangled_binary,
        after.desk.modal is Closed,
{
}

/// An edited sample is accepted or refused as its profile would be.
pub proof fn sample_edits_are_judged(
    app: ManagerApp,
    verdict: Result<(), String>,
    after: ManagerApp,
)
    requires
        app.mock_played(Action::SubmitEditVm, verdict, after),
        app.desk.modal is EditVm,
    ensures
        verdict is Ok ==> after.desk.modal is Closed && after.told().len() == app.told().len() + 1,
        verdict matches Err(e) ==> (after.desk.modal matches Modal::EditVm(s) && s.error is Some
            && s.error->0@ == e@) && after.told() == app.told(),
        after.scan == app.scan,
{
}

/// A forgotten session is gone; one that was given up is gone and its machine runs.
pub proof fn sample_sessions_are_forgotten(
    app: ManagerApp,
    verdict: Result<(), String>,
    forgotten: ManagerApp,
    fresh: ManagerApp,
    at: int,
)
    requires
        app.mock_played(Action::ConfirmDeleteSnapshot, verdict, forgotten),
        app.mock_played(Action::ConfirmDiscardSnapshot, verdict, fresh),
    ensures
        app.desk.modal matches Modal::DeleteSnapshot(s) ==> (0 <= at
            < forgotten.scan.snapshots@.len() ==> !paths::same_path(
            app.host,
            forgotten.scan.snapshots@[at].path@,
            s.row.path@,
        )),
        app.desk.modal matches Modal::DiscardSnapshot(s) ==> (0 <= at
            < fresh.scan.snapshots@.len() ==> !paths::same_path(
            app.host,
            fresh.scan.snapshots@[at].path@,
            s.row.path@,
        )) && fresh.mock_statuses@.contains_key(s.vm@) && fresh.mock_statuses@[s.vm@] is Running,
        forgotten.desk.modal is Closed,
        fresh.desk.modal is Closed,
        forgotten.mock_statuses == app.mock_statuses,
{
    if let Modal::DeleteSnapshot(s) = app.desk.modal {
        let keep = |r: crate::snapshots::SnapshotRow|
            !paths::same_path(app.host, r.path@, s.row.path@);
        app.scan.snapshots@.filter_lemma(keep);
        if 0 <= at < forgotten.scan.snapshots@.len() {
            assert(keep(forgotten.scan.snapshots@[at]));
        }
    }
    if let Modal::DiscardSnapshot(s) = app.desk.modal {
        let keep = |r: crate::snapshots::SnapshotRow|
            !paths::same_path(app.host, r.path@, s.row.path@);
        app.scan.snapshots@.filter_lemma(keep);
        if 0 <= at < fresh.scan.snapshots@.len() {
            assert(keep(fresh.scan.snapshots@[at]));
        }
    }
}

/// A resumed session of the list is gone, and the machine that it names runs.
pub proof fn a_resumed_session_leaves_the_list(
    app: ManagerApp,
    path: String,
    verdict: Result<(), String>,
    after: ManagerApp,
    at: int,
)
    requires
        app.mock_played(Action::ResumeSnapshot(path), verdict, after),
        0 <= at < after.scan.snapshots@.len(),
    ensures
        !paths::same_path(app.host, after.scan.snapshots@[at].path@, path@),
        app.spec_session(path@) is Some && app.spec_session(path@)->0.spec_vm_name() is Some
            ==> after.mock_statuses@.contains_key(app.spec_session(path@)->0.spec_vm_name()->0)
            && after.mock_statuses@[app.spec_session(path@)->0.spec_vm_name()->0] is Running,
        after.scan.vms == app.scan.vms,
{
    let keep = |r: crate::snapshots::SnapshotRow|
        !paths::same_path(app.host, r.path@, path@);
    app.scan.snapshots@.filter_lemma(keep);
    assert(keep(after.scan.snapshots@[at]));
}

/// Forms of samples close and say that they did, and change nothing.
pub proof fn sample_forms_close(
    app: ManagerApp,
    action: Action,
    verdict: Result<(), String>,
    after: ManagerApp,
)
    requires
        action is SubmitWizard || action is SubmitAttachDisk || action is SubmitResizeDisk,
        app.mock_played(action, verdict, after),
    ensures
        after.desk.modal is Closed,
        after.told().len() == app.told().len() + 1,
        after.told().last().level == ToastLevel::Success,
        after.scan == app.scan,
        after.mock_statuses == app.mock_statuses,
{
}

} // verus!
