//! Promises about dialogs: what they start with, and what stands in their way.
use crate::backend;
use crate::dialogs;
use crate::discovery;
use crate::discovery::{DiskAttachment, Removal, VmEntry};
use crate::host::Host;
use crate::launcher::NewMachine;
use crate::moving;
use crate::moving::MoveOutcome;
use crate::picker::PickTarget;
use crate::process::Task;
use crate::profile::VmConfig;
use crate::state;
use crate::state::{ManagerApp, Modal, ToastLevel, ToastView};
use crate::storage;
use crate::text;
use vstd::prelude::*;

verus! {

/// The name that is suggested is the first of the family's numbered names that no machine,
/// no installation and no profile has.
pub proof fn the_first_free_name_is_suggested(
    app: ManagerApp,
    from: nat,
    k: nat,
    profiles: Seq<bool>,
)
    requires
        from <= k <= 99,
        forall|j: nat|
            from <= j < k ==> app.name_taken(
                #[trigger] dialogs::candidate(app.host, j),
                dialogs::told_of(profiles, j - 1),
            ),
        app.spec_vm(dialogs::candidate(app.host, k)) is None,
        forall|i: int|
            0 <= i < app.pending@.len() ==> (#[trigger] app.pending@[i]).name@
                != dialogs::candidate(app.host, k),
        !dialogs::told_of(profiles, k - 1),
    ensures
        app.suggested_from(from, profiles) == dialogs::candidate(app.host, k),
    decreases k - from,
{
    if from < k {
        assert(app.name_taken(
            dialogs::candidate(app.host, from),
            dialogs::told_of(profiles, from - 1),
        ));
        the_first_free_name_is_suggested(app, from + 1, k, profiles);
    }
}

/// A name is taken by a machine, an installation or a profile of that name.
pub proof fn a_name_is_taken_by_whoever_has_it(app: ManagerApp, name: Seq<char>, profile: bool)
    ensures
        app.name_taken(name, profile) <==> {
            ||| app.spec_vm(name) is Some
            ||| exists|i: int| 0 <= i < app.pending@.len() && (#[trigger] app.pending@[i]).name@
                == name
            ||| profile
        },
{
}

/// Names are numbered after the family that the host installs by default.
pub proof fn names_are_numbered(host: Host, n: nat)
    ensures
        host == Host::Windows ==> dialogs::candidate(host, n) == "ubuntu"@ + "-"@
            + text::decimal_of(n),
        host != Host::Windows ==> dialogs::candidate(host, n) == "debian"@ + "-"@
            + text::decimal_of(n),
{
}

/// A new machine starts with what the settings say, with a disk of its own and an
/// installation that runs by itself.
pub proof fn a_new_machine_starts_with_the_settings(
    app: ManagerApp,
    machine: NewMachine,
    name: Seq<char>,
)
    requires
        app.starts_with(machine, name),
    ensures
        machine.name@ == name,
        machine.memory_mib == app.settings.default_memory_mib,
        machine.vcpus == app.settings.default_vcpus,
        machine.disk_gib == app.settings.default_disk_gib,
        machine.variant@ == app.settings.default_variant@,
        machine.headless == app.settings.headless_install,
        machine.automated,
        machine.disk_mode is CreateNew,
        machine.disk_path@.len() == 0,
        machine.iso_path@.len() == 0,
        app.host == Host::Windows ==> machine.family is Ubuntu,
        app.host != Host::Windows ==> machine.family is Debian,
{
}

/// Settings that were saved are told with their place; the reason is told where they were
/// not, and a warning where they have no place.
pub proof fn saving_is_told(path: Option<String>, saved: Result<(), String>)
    ensures
        ({
            let (level, said) = dialogs::save_news(path, saved);
            &&& level is Success <==> path is Some && saved is Ok
            &&& level is Error <==> path is Some && saved is Err
            &&& level is Warn <==> path is None
            &&& path is Some && saved is Ok ==> text::ends_with(said, path->0@)
            &&& path is Some && saved is Err ==> said == saved->Err_0@
        }),
{
    let (level, said) = dialogs::save_news(path, saved);
    if path is Some && saved is Ok {
        let p = path->0@;
        assert(said.subrange(said.len() - p.len(), said.len() as int) =~= p);
    }
}

/// A choice of a file begins where such files lie: that of an engine or a working directory
/// where children run, any other among the machines.
pub proof fn choices_begin_where_files_lie(
    app: ManagerApp,
    target: PickTarget,
    current: Option<String>,
)
    ensures
        target is EngineBinary || target is WorkDir ==> app.spec_fallback(target, current)
            == app.settings.spec_child_cwd(current),
        !(target is EngineBinary || target is WorkDir) ==> app.spec_fallback(target, current)
            == app.settings.vm_dir@,
{
}

/// The log that is shown is the one that was chosen while it is there, else that of the
/// newest child that goes on, else of the newest.
pub proof fn the_shown_log_follows_the_choice(selected: Option<u64>, tasks: Seq<Task>)
    ensures
        tasks.len() == 0 ==> dialogs::log_choice(selected, tasks) is None,
        selected is Some && (exists|i: int|
            0 <= i < tasks.len() && (#[trigger] tasks[i]).id == selected->0)
            ==> dialogs::log_choice(selected, tasks) == selected,
        !(selected is Some && exists|i: int|
            0 <= i < tasks.len() && (#[trigger] tasks[i]).id == selected->0) && (forall|i: int|
            0 <= i < tasks.len() ==> (#[trigger] tasks[i]).state is Finished) && tasks.len() > 0
            ==> dialogs::log_choice(selected, tasks) == Some(tasks[tasks.len() - 1].id),
{
    nothing_goes_on_when_all_finished(tasks);
}

/// No child goes on exactly when all have finished.
pub proof fn nothing_goes_on_when_all_finished(tasks: Seq<Task>)
    ensures
        dialogs::newest_active(tasks) is None <==> forall|i: int|
            0 <= i < tasks.len() ==> (#[trigger] tasks[i]).state is Finished,
    decreases tasks.len(),
{
    if tasks.len() > 0 {
        let init = tasks.drop_last();
        let last = tasks.len() - 1;
        nothing_goes_on_when_all_finished(init);
        assert forall|i: int| 0 <= i < last implies #[trigger] init[i] == tasks[i] by {}
        if tasks[last].state is Finished {
            if dialogs::newest_active(init) is None {
                assert forall|i: int| 0 <= i < tasks.len() implies (
                #[trigger] tasks[i]).state is Finished by {
                    if i < last {
                        assert(init[i].state is Finished);
                    }
                }
            } else {
                let i = choose|i: int|
                    0 <= i < init.len() && !((#[trigger] init[i]).state is Finished);
                assert(!(tasks[i].state is Finished));
            }
        }
    }
}

/// The newest child that goes on is the last that has not finished.
pub proof fn the_newest_child_goes_on(tasks: Seq<Task>, k: int)
    requires
        0 <= k < tasks.len(),
        !(tasks[k].state is Finished),
        forall|j: int| k < j < tasks.len() ==> (#[trigger] tasks[j]).state is Finished,
    ensures
        dialogs::newest_active(tasks) == Some(tasks[k].id),
    decreases tasks.len(),
{
    if k < tasks.len() - 1 {
        let init = tasks.drop_last();
        assert(tasks[tasks.len() - 1].state is Finished);
        assert(init[k] == tasks[k]);
        assert forall|j: int| k < j < init.len() implies (#[trigger] init[j]).state is Finished by {
            assert(init[j] == tasks[j]);
        }
        the_newest_child_goes_on(init, k);
    }
}

/// The newest child that goes on is shown where none that was chosen is there.
pub proof fn what_goes_on_is_shown(selected: Option<u64>, tasks: Seq<Task>, k: int)
    requires
        0 <= k < tasks.len(),
        !(tasks[k].state is Finished),
        forall|j: int| k < j < tasks.len() ==> (#[trigger] tasks[j]).state is Finished,
        selected is Some ==> forall|i: int|
            0 <= i < tasks.len() ==> (#[trigger] tasks[i]).id != selected->0,
    ensures
        dialogs::log_choice(selected, tasks) == Some(tasks[k].id),
{
    the_newest_child_goes_on(tasks, k);
}

/// What is about to be deleted is the machine that the open dialog names, if it is still
/// there, with what was typed.
pub proof fn the_named_machine_is_doomed(app: ManagerApp)
    ensures
        app.doomed() matches Some((vm, typed)) ==> (app.desk.modal matches Modal::Delete(s)
            && app.spec_vm(s.name@) == Some(vm) && s.typed@ == typed),
        app.desk.modal matches Modal::Delete(s) ==> (app.spec_vm(s.name@) is Some
            ==> app.doomed() is Some),
{
}

/// A failed removal of a machine names the file and the reason.
pub proof fn a_failed_removal_names_the_file(path: Seq<char>, source: String)
    ensures
        text::holds(storage::remove_failed(path, Removal::Failed(source)), path),
        text::ends_with(storage::remove_failed(path, Removal::Failed(source)), source@),
{
    let m = storage::remove_failed(path, Removal::Failed(source));
    text::lemma_held("cannot remove "@, path, ": "@ + source@);
    assert("cannot remove "@ + path + (": "@ + source@) =~= m);
    assert(m.subrange(m.len() - source@.len(), m.len() as int) =~= source@);
}

/// A dialog about a disk opens for that very disk, or the refusal is told and none opens.
pub proof fn disk_dialogs_are_about_their_disk(
    before: ManagerApp,
    deleting: ManagerApp,
    moving: ManagerApp,
    resizing: ManagerApp,
    path: Seq<char>,
)
    requires
        storage::disk_deletion_asked(before, deleting, path),
        moving::move_asked(before, moving, path),
        moving::resize_asked(before, resizing, path),
    ensures
        before.disk_refusal(path) matches Some((level, m)) ==> {
            let told = before.told().push(ToastView { text: m, level, born: None });
            &&& deleting.told() == told && deleting.desk.modal == before.desk.modal
            &&& moving.told() == told && moving.desk.modal == before.desk.modal
            &&& resizing.told() == told && resizing.desk.modal == before.desk.modal
        },
        before.disk_refusal(path) is None ==> {
            let row = before.spec_disk(path)->0;
            &&& deleting.desk.modal matches Modal::DeleteDisk(s) && s.row.path@ == row.path@
                && s.row.attachments@ == row.attachments@ && s.error is None
            &&& moving.desk.modal matches Modal::MoveDisk(s) && s.row.path@ == row.path@
                && s.dest@.len() == 0 && !s.running && s.error is None && s.progress is None
            &&& resizing.desk.modal matches Modal::ResizeDisk(s) && s.row.path@ == row.path@
                && s.error is None && text::ends_with(s.size@, "G"@)
            &&& deleting.told() == before.told()
            &&& moving.told() == before.told()
            &&& resizing.told() == before.told()
        },
        deleting.scan == before.scan,
        moving.scan == before.scan,
        resizing.scan == before.scan,
{
    if before.disk_refusal(path) is None {
        if let Modal::ResizeDisk(s) = resizing.desk.modal {
            assert(s.size@.subrange(s.size@.len() - "G"@.len(), s.size@.len() as int) =~= "G"@);
        }
    }
}

/// A disk is attached from a dialog of its own, which starts on the first machine that can
/// take it; a disk that is gone is told of.
pub proof fn attaching_starts_on_a_machine_that_can(
    before: ManagerApp,
    after: ManagerApp,
    path: Seq<char>,
)
    requires
        storage::attach_asked(before, after, path),
    ensures
        before.spec_disk(path) is None ==> after.desk.modal == before.desk.modal
            && after.told().len() == before.told().len() + 1 && after.told().last().level
            == ToastLevel::Error,
        before.spec_disk(path) matches Some(row) ==> (after.desk.modal matches Modal::AttachDisk(s)
            && s.disk@ == path && s.error is None && s.selected == before.first_attachable(
            row.attachments@,
            before.scan.vms@,
        )),
        after.scan == before.scan,
        after.desk.requests == before.desk.requests,
{
}

/// A machine can take a disk when it has not got it and nothing runs for it.
pub proof fn a_machine_can_take_what_it_has_not(
    app: ManagerApp,
    attachments: Seq<DiskAttachment>,
    vm: VmEntry,
)
    ensures
        app.attachable(attachments, vm) <==> (forall|i: int|
            0 <= i < attachments.len() ==> (#[trigger] attachments[i]).vm@ != vm.name@) && (
        forall|i: int|
            0 <= i < app.supervisor.tasks@.len() && (#[trigger] app.supervisor.tasks@[i]).vm@
                == vm.name@ ==> app.supervisor.tasks@[i].state is Finished),
{
    crate::laws::starts::busy_means_an_unfinished_child(app.supervisor.tasks@, vm.name@);
}

/// A machine is edited when it is idle, still there, and its profile can be read; the form
/// shows that profile, on the backend that the machine runs on.
pub proof fn only_an_idle_machine_is_edited(
    before: ManagerApp,
    after: ManagerApp,
    name: Seq<char>,
    loaded: Result<VmConfig, String>,
    max_players: u8,
    current: Option<String>,
)
    requires
        storage::edit_asked(before, after, name, loaded, max_players, current),
    ensures
        ({
            let opens = !before.spec_busy(name) && before.spec_vm(name) is Some && loaded is Ok;
            &&& !opens ==> after.desk.modal == before.desk.modal && after.told().len()
                == before.told().len() + 1
            &&& before.spec_busy(name) ==> after.told().last().level == ToastLevel::Warn
            &&& !opens && !before.spec_busy(name) ==> after.told().last().level == ToastLevel::Error
            &&& opens ==> (after.desk.modal matches Modal::EditVm(s) && s.section is Hardware
                && s.error is None && s.form.base == loaded->Ok_0 && s.form.backend
                == before.spec_backend(name) && s.form.base_backend == s.form.backend
                && s.form.memory_mib == loaded->Ok_0.memory_mib && s.form.vcpus
                == loaded->Ok_0.vcpus && (!before.mock_mode ==> s.form.profile_path@
                == before.spec_vm(name)->0.profile_path@) && s.form.work_dir@
                == before.settings.spec_child_cwd(current))
            &&& opens ==> after.told() == before.told()
        }),
        after.scan == before.scan,
        after.settings == before.settings,
{
}

/// A finished move tells where the disk lies now, how much was copied, and how many profiles
/// follow it.
pub proof fn a_move_tells_its_place(outcome: MoveOutcome)
    requires
        outcome.moved@.len() > 0,
    ensures
        text::begins_with(moving::moved_text(outcome), "moved "@ + outcome.moved@[0].1@),
        text::holds(
            moving::moved_text(outcome),
            discovery::bytes_shown(outcome.data_bytes as nat),
        ),
        outcome.updated_profiles@.len() > 0 ==> text::holds(
            moving::moved_text(outcome),
            text::decimal_of(outcome.updated_profiles@.len()),
        ),
{
    let said = moving::moved_text(outcome);
    let place = outcome.moved@[0].1@;
    let shown = discovery::bytes_shown(outcome.data_bytes as nat);
    let head = "moved "@ + place;
    let count = text::decimal_of(outcome.updated_profiles@.len());
    assert(said.subrange(0, head.len() as int) =~= head);
    let tail = said.skip((head + " — "@ + shown).len() as int);
    text::lemma_held(head + " — "@, shown, tail);
    assert(head + " — "@ + shown + tail =~= said);
    if outcome.updated_profiles@.len() > 0 {
        let front = head + " — "@ + shown + " of data copied and verified"@ + "; "@;
        text::lemma_held(front, count, " profile(s) updated"@);
        assert(front + count + " profile(s) updated"@ =~= said);
    }
}

/// Every source that was left behind is told of, in order, as a warning with its path.
pub proof fn every_leftover_is_told(sources: Seq<String>, i: int)
    requires
        0 <= i < sources.len(),
    ensures
        moving::leftovers(sources).len() == sources.len(),
        moving::leftovers(sources)[i].level == ToastLevel::Warn,
        text::holds(moving::leftovers(sources)[i].text, sources[i]@),
{
    text::lemma_held(
        "could not delete the source "@,
        sources[i]@,
        " — the verified copy is in place, remove the leftover by hand"@,
    );
}

/// A profile is there when it was seen under that number.
pub proof fn a_profile_is_there_when_seen(facts: Seq<bool>, i: int)
    ensures
        0 <= i < facts.len() ==> dialogs::told_of(facts, i) == facts[i],
        i < 0 || i >= facts.len() ==> !dialogs::told_of(facts, i),
{
}

/// Where every numbered name is taken, the name says that it is new.
pub proof fn a_new_name_is_left(app: ManagerApp, from: nat, profiles: Seq<bool>)
    requires
        forall|j: nat|
            from <= j <= 99 ==> app.name_taken(
                #[trigger] dialogs::candidate(app.host, j),
                dialogs::told_of(profiles, j - 1),
            ),
    ensures
        app.host == Host::Windows ==> app.suggested_from(from, profiles) == "ubuntu"@ + "-new"@,
        app.host != Host::Windows ==> app.suggested_from(from, profiles) == "debian"@ + "-new"@,
    decreases 100 - from,
{
    if from <= 99 {
        assert(app.name_taken(
            dialogs::candidate(app.host, from),
            dialogs::told_of(profiles, from - 1),
        ));
        a_new_name_is_left(app, from + 1, profiles);
    }
}

} // verus!
