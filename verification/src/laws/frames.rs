//! Promises about what passes between frames: messages, scans, and what is still open.
use crate::app;
use crate::discovery::VmEntry;
use crate::launcher;
use crate::launcher::{Engine, EngineFacts, EngineOrigin, LaunchError};
use crate::process;
use crate::process::Task;
use crate::state;
use crate::state::{ManagerApp, Modal, PendingInstall, Request, ToastLevel, ToastView};
use crate::text;
use vstd::prelude::*;

verus! {

/// A message stays for as long as it is serious: six seconds, ten for a warning and
/// fourteen for an error, from the moment that it was first shown.
pub proof fn a_message_stays_for_its_time(toasts: Seq<ToastView>, now: u64, t: ToastView)
    ensures
        app::kept_toasts(toasts, now).contains(t) <==> exists|i: int|
            0 <= i < toasts.len() && (#[trigger] toasts[i]).text == t.text && toasts[i].level
                == t.level && t.born == Some(
                if toasts[i].born is Some {
                    toasts[i].born->0
                } else {
                    now
                },
            ) && now - t.born->0 < (match t.level {
                ToastLevel::Error => 14_000int,
                ToastLevel::Warn => 10_000int,
                _ => 6_000int,
            }),
    decreases toasts.len(),
{
    let kept = app::kept_toasts(toasts, now);
    if toasts.len() > 0 {
        let init = toasts.drop_last();
        let n = toasts.len() - 1;
        a_message_stays_for_its_time(init, now, t);
        let before = app::kept_toasts(init, now);
        assert forall|i: int| 0 <= i < n implies #[trigger] toasts[i] == init[i] by {}
        if before.contains(t) {
            let k = choose|k: int| 0 <= k < before.len() && before[k] == t;
            assert(kept[k] == t);
            let i = choose|i: int|
                0 <= i < init.len() && (#[trigger] init[i]).text == t.text && init[i].level
                    == t.level && t.born == Some(
                    if init[i].born is Some {
                        init[i].born->0
                    } else {
                        now
                    },
                );
            assert(toasts[i] == init[i]);
        }
        if kept.contains(t) && !before.contains(t) {
            let k = choose|k: int| 0 <= k < kept.len() && kept[k] == t;
            if k < before.len() {
                assert(before[k] == t);
            }
            assert(toasts[n].text == t.text);
        }
        if exists|i: int|
            0 <= i < toasts.len() && (#[trigger] toasts[i]).text == t.text && toasts[i].level
                == t.level && t.born == Some(
                if toasts[i].born is Some {
                    toasts[i].born->0
                } else {
                    now
                },
            ) && now - t.born->0 < (match t.level {
                ToastLevel::Error => 14_000int,
                ToastLevel::Warn => 10_000int,
                _ => 6_000int,
            }) {
            let i = choose|i: int|
                0 <= i < toasts.len() && (#[trigger] toasts[i]).text == t.text && toasts[i].level
                    == t.level && t.born == Some(
                    if toasts[i].born is Some {
                        toasts[i].born->0
                    } else {
                        now
                    },
                ) && now - t.born->0 < (match t.level {
                    ToastLevel::Error => 14_000int,
                    ToastLevel::Warn => 10_000int,
                    _ => 6_000int,
                });
            if i < n {
                assert(init[i] == toasts[i]);
            } else {
                assert(kept.last() == t);
            }
        }
    }
}

/// A scan is asked for when one is wanted or the last is two and a half seconds old, never
/// while one is under way, never of samples, and never of a scanner that is gone.
pub proof fn scans_do_not_overlap(
    before: ManagerApp,
    base: Seq<Request>,
    after: ManagerApp,
    force: bool,
)
    requires
        app::rescanned(before, base, after, force),
    ensures
        ({
            let due = !before.mock_mode && !before.scanner.in_flight && (force
                || before.scanner.last is None || before.now - before.scanner.last->0 >= 2500);
            &&& due && before.scanner.alive ==> after.desk.requests@ == base.push(Request::Scan)
                && after.scanner.in_flight && after.scanner.last == Some(before.now)
            &&& !(due && before.scanner.alive) ==> after.desk.requests@ == base
                && after.scanner.in_flight == before.scanner.in_flight && after.scanner.last
                == before.scanner.last
            &&& due && !before.scanner.alive ==> after.scanner.error is Some
            &&& !due ==> after.scanner == before.scanner
            &&& after.scanner.alive == before.scanner.alive
        }),
{
}

/// An announcement is the newest message, says what it was given, and changes nothing but
/// the messages and the scan that it asks for.
pub proof fn an_announcement_is_told_and_scanned_for(
    before: ManagerApp,
    after: ManagerApp,
    level: ToastLevel,
    text: Seq<char>,
)
    requires
        app::announced(before, after, level, text),
    ensures
        after.told().len() == before.told().len() + 1,
        after.told().drop_last() == before.told(),
        after.told().last().level == level,
        after.told().last().text == text,
        after.told().last().born is None,
        after.desk.modal == before.desk.modal,
        after.scan == before.scan,
        after.settings == before.settings,
        after.supervisor == before.supervisor,
        !before.mock_mode && !before.scanner.in_flight && before.scanner.alive
            ==> after.desk.requests@ == before.desk.requests@.push(Request::Scan),
{
    assert(after.told().drop_last() =~= before.told());
}

/// A dialog that concludes closes, and says how it went.
pub proof fn a_concluded_dialog_closes(
    before: ManagerApp,
    after: ManagerApp,
    level: ToastLevel,
    text: Seq<char>,
)
    requires
        app::concluded(before, after, level, text),
    ensures
        after.desk.modal is Closed,
        after.told() == before.told().push(ToastView { text, level, born: None }),
        after.scan == before.scan,
        after.settings == before.settings,
        after.supervisor == before.supervisor,
        !before.mock_mode && !before.scanner.in_flight && before.scanner.alive
            ==> after.desk.requests@ == before.desk.requests@.push(Request::Scan),
{
}

/// A message that is told alone changes nothing else.
pub proof fn a_message_changes_nothing_else(
    before: ManagerApp,
    after: ManagerApp,
    level: ToastLevel,
    text: Seq<char>,
)
    requires
        app::told_one(before, after, level, text),
    ensures
        after.told() == before.told().push(ToastView { text, level, born: None }),
        after.desk.requests == before.desk.requests,
        after.desk.modal == before.desk.modal,
        after.scan == before.scan,
        after.settings == before.settings,
        after.supervisor == before.supervisor,
        after.scanner == before.scanner,
{
}

/// An installation stays on the list until its machine has appeared and nothing runs for
/// it any more.
pub proof fn installations_wait_for_their_machine(
    pending: Seq<PendingInstall>,
    vms: Seq<VmEntry>,
    tasks: Seq<Task>,
    p: PendingInstall,
)
    ensures
        app::unsettled(pending, vms, tasks).contains(p) <==> pending.contains(p) && (
        state::vm_at(vms, p.name@) is None || process::busy_in(tasks, p.name@)),
    decreases pending.len(),
{
    let open = app::unsettled(pending, vms, tasks);
    if pending.len() > 0 {
        let init = pending.drop_last();
        let last = pending.last();
        installations_wait_for_their_machine(init, vms, tasks, p);
        let before = app::unsettled(init, vms, tasks);
        if before.contains(p) {
            let k = choose|k: int| 0 <= k < before.len() && before[k] == p;
            assert(open[k] == p);
            let i = choose|i: int| 0 <= i < init.len() && init[i] == p;
            assert(pending[i] == p);
        }
        if open.contains(p) && !before.contains(p) {
            let k = choose|k: int| 0 <= k < open.len() && open[k] == p;
            if k < before.len() {
                assert(before[k] == p);
            }
            assert(pending[pending.len() - 1] == p);
        }
        if pending.contains(p) {
            let i = choose|i: int| 0 <= i < pending.len() && pending[i] == p;
            if i < init.len() {
                assert(init[i] == p);
            } else if state::vm_at(vms, p.name@) is None || process::busy_in(tasks, p.name@) {
                assert(open.last() == p);
            }
        }
    }
}

/// An update is downloaded once, and only where the release has an installer.
pub proof fn an_update_is_downloaded_once(before: ManagerApp, after: ManagerApp)
    requires
        app::update_wanted(before, after),
    ensures
        before.update.offer is None || before.update.downloading ==> after == before,
        before.update.offer is Some && !before.update.downloading
            && before.update.offer->0.installer_url is Some ==> after.update.downloading
            && after.desk.requests@ == before.desk.requests@.push(Request::DownloadUpdate)
            && after.told() == before.told(),
        before.update.offer is Some && !before.update.downloading
            && before.update.offer->0.installer_url is None ==> !after.update.downloading
            && after.desk.requests@ == before.desk.requests@ && after.told().len()
            == before.told().len() + 1 && after.told().last().level == ToastLevel::Warn,
{
}

/// Settings are written exactly where there is a file for them and they are not samples.
pub proof fn settings_are_saved_where_they_live(app: ManagerApp)
    ensures
        app.save_requests().contains(Request::SaveSettings) <==> !app.mock_mode
            && app.settings_path is Some,
        app.save_requests().len() <= 1,
{
    if !app.mock_mode && app.settings_path is Some {
        assert(app.save_requests()[0] == Request::SaveSettings);
    }
}

/// A chosen engine is the one that is used, or none: no other stands in for it.
pub proof fn a_chosen_engine_has_no_substitute(app: ManagerApp, facts: EngineFacts)
    ensures
        app.settings.entangled_binary matches Some(chosen) ==> {
            &&& facts.chosen_is_file ==> app.spec_located(facts) == Ok::<
                (Seq<char>, EngineOrigin),
                Seq<char>,
            >((chosen@, EngineOrigin::Chosen))
            &&& !facts.chosen_is_file ==> app.spec_located(facts) is Err
        },
        app.settings.entangled_binary is None ==> (app.spec_located(facts) is Ok
            <==> launcher::engine_of(app.host, facts) is Ok),
        app.settings.entangled_binary is None ==> (app.spec_located(facts) matches Ok(found)
            ==> launcher::engine_of(app.host, facts) == Ok::<
            (Seq<char>, EngineOrigin),
            LaunchError,
        >(found)),
{
}

/// An engine that was looked for again is the one that was found, with its version still to
/// be asked for; samples keep theirs.
pub proof fn an_engine_is_found_anew(
    before: ManagerApp,
    engine: Result<Engine, String>,
    facts: EngineFacts,
)
    requires
        app::relocated(before, engine, facts),
    ensures
        before.mock_mode ==> engine == before.engine,
        !before.mock_mode ==> (engine is Ok <==> before.spec_located(facts) is Ok),
        !before.mock_mode ==> (engine matches Ok(e) ==> e.version is None
            && before.spec_located(facts) == Ok::<(Seq<char>, EngineOrigin), Seq<char>>(
            (e.path@, e.origin),
        )),
        !before.mock_mode ==> (engine matches Err(m) ==> before.spec_located(facts) == Err::<
            (Seq<char>, EngineOrigin),
            Seq<char>,
        >(m@)),
        app::probe_requests(before.mock_mode, engine).contains(Request::ProbeVersion)
            <==> !before.mock_mode && engine is Ok,
{
    let asked = app::probe_requests(before.mock_mode, engine);
    if !before.mock_mode && engine is Ok {
        assert(asked[0] == Request::ProbeVersion);
    }
}

/// A fault is told by the dialog that is open, which keeps everything else that it holds.
pub proof fn a_fault_is_told_in_the_dialog(before: Modal, after: Modal, message: Seq<char>)
    requires
        state::faulted(before, after, message),
    ensures
        before is Closed <==> after is Closed,
        before matches Modal::Wizard(a) ==> (after matches Modal::Wizard(b) && b.error is Some
            && b.error->0@ == message && b.machine == a.machine && b.step == a.step),
        before matches Modal::Delete(a) ==> (after matches Modal::Delete(b) && b.error is Some
            && b.error->0@ == message),
        before matches Modal::CreateDisk(a) ==> (after matches Modal::CreateDisk(b)
            && b.error is Some && b.error->0@ == message),
        before matches Modal::DeleteDisk(a) ==> (after matches Modal::DeleteDisk(b)
            && b.error is Some && b.error->0@ == message),
        before matches Modal::AttachDisk(a) ==> (after matches Modal::AttachDisk(b)
            && b.error is Some && b.error->0@ == message),
        before matches Modal::EditVm(a) ==> (after matches Modal::EditVm(b) && b.error is Some
            && b.error->0@ == message && b.form == a.form),
        before matches Modal::MoveDisk(a) ==> (after matches Modal::MoveDisk(b) && b.error is Some
            && b.error->0@ == message),
        before matches Modal::ResizeDisk(a) ==> (after matches Modal::ResizeDisk(b)
            && b.error is Some && b.error->0@ == message),
        before matches Modal::DeleteSnapshot(a) ==> (after matches Modal::DeleteSnapshot(b)
            && b.error is Some && b.error->0@ == message),
        before matches Modal::DiscardSnapshot(a) ==> (after matches Modal::DiscardSnapshot(b)
            && b.error is Some && b.error->0@ == message),
        before is Settings ==> after == before,
{
}

/// A refresh shows that it goes on, then for a moment that it is done.
pub proof fn a_refresh_shows_its_end(app: ManagerApp)
    ensures
        app.scanner.manual_refresh_at is None ==> app.spec_refresh_state() is Idle,
        app.scanner.manual_refresh_at is Some && app.scanner.in_flight
            ==> app.spec_refresh_state() is Scanning,
        app.scanner.manual_refresh_at is Some && !app.scanner.in_flight ==> (
        app.spec_refresh_state() is Complete <==> app.now - app.scanner.manual_refresh_at->0
            < 1_400),
{
}

/// The files of a machine are its profile and its disks.
pub proof fn the_files_of_a_machine(vm: VmEntry)
    ensures
        state::files_of(vm).len() == vm.disks@.len() + 1,
        state::files_of(vm)[0] == vm.profile_path@,
        forall|i: int|
            0 <= i < vm.disks@.len() ==> #[trigger] state::files_of(vm)[i + 1]
                == vm.disks@[i].resolved@,
{
}

/// The active child of a machine is its first that has not finished.
pub proof fn the_active_child_is_the_first_unfinished(tasks: Seq<Task>, vm: Seq<char>, i: int)
    requires
        0 <= i < tasks.len(),
        tasks[i].vm@ == vm,
        !(tasks[i].state is Finished),
        forall|j: int|
            0 <= j < i && (#[trigger] tasks[j]).vm@ == vm ==> tasks[j].state is Finished,
    ensures
        state::active_of(tasks, vm) == Some(tasks[i]),
{
    crate::laws::starts::busy_means_an_unfinished_child(tasks, vm);
    assert(process::active_at(tasks, vm, i));
    let k = state::active_pos(tasks, vm);
    assert(process::active_at(tasks, vm, k));
    if k < i {
        assert(process::holds_vm(tasks[k], vm));
    } else if i < k {
        assert(!process::holds_vm(tasks[i], vm));
    }
}

/// A check of WSL is of what the settings name, and goes on from then; where none is due
/// nothing changes.
pub proof fn a_check_is_of_what_the_settings_name(
    before: ManagerApp,
    after: crate::state::WslState,
    force: bool,
)
    requires
        app::rechecked(before, after, force),
    ensures
        before.wsl_due(force) ==> after.checking && after.engine is Checking && after.target
            is Some && after.target->0@ == before.spec_wsl_target(),
        !before.wsl_due(force) ==> after == before.wsl,
        after.install_running == before.wsl.install_running,
{
}

/// The engine is installed into the distribution that the settings name, and without a name
/// into the usual one.
pub proof fn the_engine_goes_into_the_named_distribution(app: ManagerApp)
    ensures
        text::trim_of(app.settings.wsl_distro@).len() > 0 ==> app.spec_install_distro()
            == text::trim_of(app.settings.wsl_distro@),
        text::trim_of(app.settings.wsl_distro@).len() == 0 ==> app.spec_install_distro()
            == "Ubuntu"@,
{
}

} // verus!
