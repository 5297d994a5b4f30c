//! Promises about actions: what each does at once, and what is left to the host.
use crate::dialogs;
use crate::discovery;
use crate::discovery::{DiskRow, VmEntry};
use crate::forms;
use crate::host::Host;
use crate::paths;
use crate::picker::PickTarget;
use crate::profile::DiskView;
use crate::settings::Settings;
use crate::snapshots::SnapshotRow;
use crate::state;
use crate::state::{Action, ManagerApp, Modal, Request, SettingsForm, ToastLevel, WizardState};
use crate::surfaces;
use crate::text;
use crate::update::Version;
use vstd::prelude::*;

verus! {

/// A dialog closes and nothing else changes, unless a disk is being moved: that one stays.
pub proof fn a_dialog_closes(app: ManagerApp, after: ManagerApp)
    requires
        app.acted(Action::CloseModal, after),
    ensures
        app.desk.modal is MoveDisk && app.desk.modal->MoveDisk_0.running ==> after == app,
        !(app.desk.modal is MoveDisk && app.desk.modal->MoveDisk_0.running)
            ==> after.desk.modal is Closed && after.desk.toasts == app.desk.toasts
            && after.desk.requests == app.desk.requests && after.scan == app.scan,
{
}

/// The settings' form opens on the settings, field by field.
pub proof fn the_settings_open_as_they_are(app: ManagerApp, after: ManagerApp)
    requires
        app.acted(Action::OpenSettings, after),
    ensures
        after.desk.modal matches Modal::Settings(f) && {
            &&& f.vm_dir@ == app.settings.vm_dir@
            &&& f.wsl_distro@ == app.settings.wsl_distro@
            &&& f.headless_install == app.settings.headless_install
            &&& f.check_updates_on_startup == app.settings.check_updates_on_startup
            &&& f.animations_enabled == app.settings.animations_enabled
            &&& f.default_backend == app.settings.default_backend
            &&& !f.advanced_open
            &&& app.settings.entangled_binary matches Some(p) ==> f.entangled_binary@ == p@
            &&& app.settings.entangled_binary is None ==> f.entangled_binary@.len() == 0
            &&& app.settings.work_dir matches Some(p) ==> f.work_dir@ == p@
            &&& app.settings.work_dir is None ==> f.work_dir@.len() == 0
            &&& app.settings.wsl_entangled matches Some(p) ==> f.wsl_entangled@ == p@
            &&& app.settings.wsl_entangled is None ==> f.wsl_entangled@.len() == 0
        },
        after.settings == app.settings,
{
}

/// The settings take what the form says, without the white space around it; a blank field
/// means none, and no distribution the usual one. What the form does not show stays.
pub proof fn the_settings_take_what_the_form_says(
    before: Settings,
    form: SettingsForm,
    after: Settings,
)
    requires
        dialogs::form_applied(before, form, after),
    ensures
        after.vm_dir@ == text::trim_of(form.vm_dir@),
        text::trim_of(form.entangled_binary@).len() == 0 ==> after.entangled_binary is None,
        text::trim_of(form.entangled_binary@).len() > 0 ==> after.entangled_binary is Some
            && after.entangled_binary->0@ == text::trim_of(form.entangled_binary@),
        text::trim_of(form.work_dir@).len() == 0 ==> after.work_dir is None,
        text::trim_of(form.work_dir@).len() > 0 ==> after.work_dir is Some && after.work_dir->0@
            == text::trim_of(form.work_dir@),
        text::trim_of(form.wsl_entangled@).len() == 0 ==> after.wsl_entangled is None,
        text::trim_of(form.wsl_entangled@).len() > 0 ==> after.wsl_entangled is Some
            && after.wsl_entangled->0@ == text::trim_of(form.wsl_entangled@),
        text::trim_of(form.wsl_distro@).len() > 0 ==> after.wsl_distro@ == text::trim_of(
            form.wsl_distro@,
        ),
        text::trim_of(form.wsl_distro@).len() == 0 ==> after.wsl_distro@ == "Ubuntu"@,
        after.headless_install == form.headless_install,
        after.check_updates_on_startup == form.check_updates_on_startup,
        after.animations_enabled == form.animations_enabled,
        after.default_backend == form.default_backend,
        after.default_memory_mib == before.default_memory_mib,
        after.default_vcpus == before.default_vcpus,
        after.default_disk_gib == before.default_disk_gib,
        after.default_variant == before.default_variant,
        after.vm_backends == before.vm_backends,
{
}

/// A log that is selected is shown, open and followed.
pub proof fn a_selected_log_is_followed(app: ManagerApp, after: ManagerApp, id: u64)
    requires
        app.acted(Action::SelectLog(id), after),
    ensures
        after.desk.log_selected == Some(id),
        after.desk.log_open,
        after.desk.log_follow,
        after.desk.modal == app.desk.modal,
        after.scan == app.scan,
{
}

/// A message that is dismissed is gone, and only it.
pub proof fn a_dismissed_message_is_gone(app: ManagerApp, after: ManagerApp, index: usize, i: int)
    requires
        app.acted(Action::DismissToast(index), after),
    ensures
        index < app.desk.toasts@.len() ==> after.desk.toasts@.len() == app.desk.toasts@.len() - 1,
        index < app.desk.toasts@.len() && 0 <= i < index ==> after.desk.toasts@[i]
            == app.desk.toasts@[i],
        index < app.desk.toasts@.len() && index < i < app.desk.toasts@.len()
            ==> after.desk.toasts@[i - 1] == app.desk.toasts@[i],
        index >= app.desk.toasts@.len() ==> after.desk.toasts@ == app.desk.toasts@,
{
}

/// Another surface, or a refresh, asks for a scan at once; the surface changes only when
/// another is asked for.
pub proof fn surfaces_are_fresh(
    app: ManagerApp,
    view: state::Surface,
    switched: ManagerApp,
    refreshed: ManagerApp,
)
    requires
        app.acted(Action::SwitchView(view), switched),
        app.acted(Action::Refresh, refreshed),
    ensures
        switched.desk.view == view,
        refreshed.desk.view == app.desk.view,
        refreshed.scanner.manual_refresh_at == Some(app.now),
        switched.scanner.manual_refresh_at == app.scanner.manual_refresh_at,
        !app.mock_mode && !app.scanner.in_flight && app.scanner.alive ==> switched.desk.requests@
            == app.desk.requests@.push(Request::Scan) && refreshed.desk.requests@
            == app.desk.requests@.push(Request::Scan),
        app.mock_mode || app.scanner.in_flight ==> switched.desk.requests@ == app.desk.requests@
            && refreshed.desk.requests@ == app.desk.requests@,
{
}

/// An update that is dismissed is offered no more.
pub proof fn a_dismissed_update_is_gone(app: ManagerApp, after: ManagerApp)
    requires
        app.acted(Action::DismissUpdate, after),
    ensures
        after.update.offer is None,
        after.update.downloading == app.update.downloading,
        after.desk == app.desk,
{
}

/// A path that is copied is told of, and handed to the host to be copied.
pub proof fn a_copied_path_is_told(app: ManagerApp, after: ManagerApp, path: String)
    requires
        app.acted(Action::CopyProfilePath(path), after),
    ensures
        after.told().len() == app.told().len() + 1,
        after.told().last().level == ToastLevel::Info,
        text::ends_with(after.told().last().text, path@),
        app.handed_back(Action::CopyProfilePath(path)) == Some(Action::CopyProfilePath(path)),
{
    let said = after.told().last().text;
    assert(said.subrange(said.len() - path@.len(), said.len() as int) =~= path@);
}

/// A fresh start without a session to give up is a start.
pub proof fn a_fresh_start_without_a_session_is_a_start(app: ManagerApp, name: String)
    ensures
        app.spec_snapshot_for(name@) is None ==> app.handed_back(Action::AskDiscardSnapshot(name))
            == Some(Action::Start(name)),
        app.spec_snapshot_for(name@) is Some ==> app.handed_back(
            Action::AskDiscardSnapshot(name),
        ) is None,
{
}

/// What touches files, children or the network is the host's to do; what only concerns the
/// screen is not.
pub proof fn the_host_does_what_touches_it(app: ManagerApp, action: Action)
    ensures
        action is Start || action is Suspend || action is ResumeVm || action is ResumeSnapshot
            || action is ConfirmDelete || action is ConfirmDeleteDisk || action
            is ConfirmDeleteSnapshot || action is ConfirmDiscardSnapshot || action is SubmitWizard
            || action is SubmitCreateDisk || action is SubmitAttachDisk || action is SubmitEditVm
            || action is SubmitMoveDisk || action is SubmitResizeDisk || action is DetachDisk
            || action is SaveSettings || action is PickPath || action is RunDiagnostics || action
            is Reveal || action is AskDelete || action is AskEditVm || action is OpenWizard
            || action is CreateVmDir || action is InstallWslEngine || action is OpenReleasePage
            || action is TogglePause || action is Reset || action is OpenCreateDisk
            ==> app.handed_back(action) == Some(action),
        action is CloseModal || action is Refresh || action is SelectLog || action is ToggleLogPane
            || action is DismissToast || action is DismissUpdate || action is SwitchView || action
            is OpenSettings || action is Stop || action is AskDeleteDisk || action is AskMoveDisk
            || action is AskResizeDisk || action is OpenAttachDisk || action is InstallUpdate
            || action is CheckWslEngine || action is AskDeleteSnapshot ==> app.handed_back(
            action,
        ) is None,
{
}

/// WSL is checked on Windows alone, when that is asked for or what would be checked has
/// changed and no check goes on; never of samples.
pub proof fn wsl_is_checked_when_it_changed(app: ManagerApp, force: bool)
    ensures
        app.wsl_requests(force).contains(Request::CheckWsl) <==> !app.mock_mode && app.host
            == Host::Windows && (force || (!app.wsl.checking && (app.wsl.target is None
            || app.wsl.target->0@ != app.spec_wsl_target()))),
        app.wsl_requests(force).len() <= 1,
        app.spec_wsl_target().distro == text::trim_of(app.settings.wsl_distro@),
{
    if app.wsl_due(force) {
        assert(app.wsl_requests(force)[0] == Request::CheckWsl);
    }
}

/// A chosen file lands in the field that it was chosen for, and can be read there.
pub proof fn a_chosen_file_is_read_where_it_landed(modal: Modal, target: PickTarget, chosen: String)
    ensures
        modal.spec_field(target) is Some ==> modal.spec_filled(target, chosen).spec_field(target)
            == Some(chosen),
        modal.spec_field(target) is None ==> modal.spec_filled(target, chosen) == modal,
        modal matches Modal::Settings(f) ==> modal.spec_field(PickTarget::VmDir) == Some(f.vm_dir)
            && modal.spec_field(PickTarget::EngineBinary) == Some(f.entangled_binary)
            && modal.spec_field(PickTarget::WorkDir) == Some(f.work_dir),
        modal matches Modal::Wizard(w) ==> modal.spec_field(PickTarget::WizardIso) == Some(
            w.machine.iso_path,
        ) && modal.spec_field(PickTarget::WizardDisk) == Some(w.machine.disk_path),
        modal matches Modal::MoveDisk(m) ==> modal.spec_field(PickTarget::MoveDestination) == Some(
            m.dest,
        ),
        modal matches Modal::EditVm(e) ==> modal.spec_field(PickTarget::EditorKernel) == Some(
            e.form.kernel,
        ) && modal.spec_field(PickTarget::EditorInitramfs) == Some(e.form.initramfs)
            && modal.spec_field(PickTarget::EditorFirmware) == Some(e.form.firmware)
            && modal.spec_field(PickTarget::EditorNvram) == Some(e.form.nvram) && modal.spec_field(
            PickTarget::EditorCdrom,
        ) == Some(e.form.cdrom) && modal.spec_field(PickTarget::EditorAddDisk) == Some(
            e.form.add_disk,
        ),
{
}

/// A detached disk is gone from the list, the others stay.
pub proof fn a_detached_disk_leaves_the_others(
    host: Host,
    disks: Seq<DiskView>,
    declared: Seq<char>,
    d: DiskView,
)
    ensures
        discovery::without_disk(host, disks, declared).contains(d) <==> disks.contains(d)
            && !paths::same_path(host, d.path, declared),
    decreases disks.len(),
{
    let kept = discovery::without_disk(host, disks, declared);
    if disks.len() > 0 {
        let init = disks.drop_last();
        let last = disks.last();
        a_detached_disk_leaves_the_others(host, init, declared, d);
        let before = discovery::without_disk(host, init, declared);
        if before.contains(d) {
            let k = choose|k: int| 0 <= k < before.len() && before[k] == d;
            assert(kept[k] == d);
            let i = choose|i: int| 0 <= i < init.len() && init[i] == d;
            assert(disks[i] == d);
        }
        if kept.contains(d) && !before.contains(d) {
            let k = choose|k: int| 0 <= k < kept.len() && kept[k] == d;
            if k < before.len() {
                assert(before[k] == d);
            }
            assert(disks[disks.len() - 1] == d);
        }
        if disks.contains(d) && !paths::same_path(host, d.path, declared) {
            let i = choose|i: int| 0 <= i < disks.len() && disks[i] == d;
            if i < init.len() {
                assert(init[i] == d);
            } else {
                assert(kept.last() == d);
            }
        }
    }
}

/// The wizard goes a step on or back, forgets its last fault, and keeps what was entered.
pub proof fn the_wizard_goes_step_by_step(w: WizardState)
    ensures
        w.step < 3 ==> w.forwarded().step == w.step + 1 && w.forwarded().error is None,
        w.step >= 3 ==> w.forwarded() == w,
        w.step > 0 ==> w.backed().step == w.step - 1 && w.backed().error is None,
        w.step == 0 ==> w.backed() == w,
        w.forwarded().machine == w.machine,
        w.backed().machine == w.machine,
{
}

/// The machines that a disk is offered to are those that can take it, in their order.
pub proof fn a_disk_is_offered_to_who_can_take_it(
    app: ManagerApp,
    attachments: Seq<discovery::DiskAttachment>,
    vms: Seq<VmEntry>,
    vm: VmEntry,
)
    ensures
        forms::candidates_of(app, attachments, Seq::empty()).len() == 0,
        app.attachable(attachments, vm) ==> forms::candidates_of(app, attachments, vms.push(vm))
            == forms::candidates_of(app, attachments, vms).push(vm.name@),
        !app.attachable(attachments, vm) ==> forms::candidates_of(app, attachments, vms.push(vm))
            == forms::candidates_of(app, attachments, vms),
{
    assert(vms.push(vm).drop_last() =~= vms);
}

/// A machine is deleted when it is idle and its name was typed, and only then.
pub proof fn a_deletion_is_confirmed_by_name(app: ManagerApp, vm: VmEntry, typed: Seq<char>)
    ensures
        app.delete_fault(vm, typed) is None <==> text::trim_of(typed) == vm.name@ && (forall|i: int|
            0 <= i < app.supervisor.tasks@.len() && (#[trigger] app.supervisor.tasks@[i]).vm@
                == vm.name@ ==> app.supervisor.tasks@[i].state is Finished),
{
    crate::laws::starts::busy_means_an_unfinished_child(app.supervisor.tasks@, vm.name@);
}

/// An image can be deleted and moved while it is there and nobody uses it, attached and
/// shown while it is there.
pub proof fn images_offer_what_can_be_done(row: DiskRow, busy: bool)
    ensures
        ({
            let b = surfaces::disk_buttons(row, busy);
            &&& b.len() == 4
            &&& b[0].action == Action::AskDeleteDisk(row.path) && b[0].enabled == (row.exists
                && !busy)
            &&& b[1].action == Action::AskMoveDisk(row.path) && b[1].enabled == (row.exists
                && !busy)
            &&& b[2].action == Action::OpenAttachDisk(row.path) && b[2].enabled == row.exists
            &&& b[3].action == Action::Reveal(row.path) && b[3].enabled == row.exists
        }),
{
}

/// A session can be deleted while its machine is idle, and resumed when nothing else stands
/// against it either.
pub proof fn sessions_offer_what_can_be_done(
    row: SnapshotRow,
    blocked: Seq<Seq<char>>,
    busy: bool,
)
    ensures
        ({
            let b = surfaces::session_buttons(row, blocked, busy);
            &&& b.len() == 3
            &&& b[0].action == Action::AskDeleteSnapshot(row.path) && b[0].enabled == !busy
            &&& b[1].action == Action::Reveal(row.path) && b[1].enabled
            &&& b[2].action == Action::ResumeSnapshot(row.path) && b[2].enabled == (blocked.len()
                == 0 && !busy)
        }),
{
}

/// A version is written as its three numbers.
pub proof fn versions_are_three_numbers(v: Version)
    ensures
        v.spec_text() == text::decimal_of(v.major as nat) + "."@ + text::decimal_of(v.minor as nat)
            + "."@ + text::decimal_of(v.patch as nat),
{
}

} // verus!
