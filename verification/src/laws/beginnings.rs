//! Promises about the start of the manager: what it starts with and what it asks for first.
use crate::host::Host;
use crate::paths;
use crate::settings::Settings;
use crate::startup;
use crate::startup::{FileManager, SettingsFound, ShotTarget, StartFacts, Startup};
use crate::state;
use crate::state::{ManagerApp, Modal, Request, ScreenshotView};
use crate::text;
use crate::update;
use vstd::prelude::*;

verus! {

/// The manager starts on the settings that it found, else on fresh ones with a warning that
/// says why; what the command line names stands above them, and samples have their own.
pub proof fn the_manager_starts_on_its_settings(
    s: Settings,
    warning: Option<Seq<char>>,
    startup: Startup,
    found: SettingsFound,
)
    requires
        startup::starts_on(s, warning, startup, found),
    ensures
        !startup.mock && startup.vm_dir is Some ==> s.vm_dir == startup.vm_dir->0,
        !startup.mock && startup.entangled is Some ==> s.entangled_binary == startup.entangled,
        !startup.mock && found.path is Some && found.loaded is Ok ==> {
            &&& warning is None
            &&& startup.vm_dir is None ==> s.vm_dir == found.loaded->Ok_0.vm_dir
            &&& startup.entangled is None ==> s.entangled_binary
                == found.loaded->Ok_0.entangled_binary
            &&& s.default_memory_mib == found.loaded->Ok_0.default_memory_mib
            &&& s.default_vcpus == found.loaded->Ok_0.default_vcpus
            &&& s.default_backend == found.loaded->Ok_0.default_backend
            &&& s.vm_backends == found.loaded->Ok_0.vm_backends
            &&& s.wsl_distro == found.loaded->Ok_0.wsl_distro
            &&& s.check_updates_on_startup == found.loaded->Ok_0.check_updates_on_startup
        },
        !startup.mock && (found.path is None || found.loaded is Err) ==> warning is Some
            && s.default_memory_mib == 2048 && s.default_vcpus == 2 && s.default_disk_gib == 16,
        !startup.mock && found.path is Some && found.loaded is Err ==> text::begins_with(
            warning->0,
            found.loaded->Err_0@,
        ),
        startup.mock ==> warning is None && s.default_memory_mib == 2048,
{
    if !startup.mock && found.path is Some && found.loaded is Err {
        let e = found.loaded->Err_0@;
        assert(warning->0 == e + " — using defaults"@);
        assert(warning->0.subrange(0, e.len() as int) =~= e);
    }
}

/// Fresh settings keep the machines in the user's home, or beside the manager where there is
/// none.
pub proof fn machines_live_in_the_home(s: Settings, host: Host, home: Option<String>)
    requires
        startup::is_fresh(s, host, home),
    ensures
        home is Some ==> s.vm_dir@ == paths::joined(host, home->0@, "entangled-vms"@),
        home is None ==> s.vm_dir@ == "entangled-vms"@,
        s.check_updates_on_startup,
{
}

/// What is asked for first: a newer release where that is wanted, the version of an engine
/// that was found, and the state of WSL on Windows; of samples nothing is asked.
pub proof fn the_first_questions(app: ManagerApp, startup: Startup)
    requires
        app.mock_mode == startup.mock,
    ensures
        ({
            let asked = startup::first_requests(app, startup);
            let release = !startup.mock && app.settings.check_updates_on_startup
                && startup.screenshot is None && update::version_of(app.version@) is Some;
            let version = !app.mock_mode && app.engine is Ok;
            let wsl = !app.mock_mode && app.host == Host::Windows;
            &&& app.mock_mode ==> asked.len() == 0
            &&& release ==> asked.len() > 0 && asked[0] == Request::CheckUpdate
            &&& wsl ==> asked.len() > 0 && asked.last() == Request::CheckWsl
            &&& asked.contains(Request::ProbeVersion) <==> version
            &&& asked.len() == (if release {
                1int
            } else {
                0
            }) + (if version {
                1int
            } else {
                0
            }) + (if wsl {
                1int
            } else {
                0
            })
        }),
{
    let asked = startup::first_requests(app, startup);
    if !app.mock_mode && app.engine is Ok {
        let k: int = if startup::asks_for_update(startup, app.settings, app.version@) {
            1
        } else {
            0
        };
        assert(asked[k] == Request::ProbeVersion);
    }
}

/// A manager that has started holds what it was given and nothing of its own: no machines,
/// no report, no sample; its settings are written where they were found, those of samples
/// nowhere.
pub proof fn a_started_manager_is_empty(
    app: ManagerApp,
    startup: Startup,
    settings: Settings,
    warning: Option<String>,
    facts: StartFacts,
)
    requires
        app.is_started(startup, settings, warning, facts),
    ensures
        app.settings == settings,
        app.host == facts.host,
        app.version == facts.version,
        app.now == facts.now,
        app.mock_mode == startup.mock,
        app.startup_warning == warning,
        startup.mock ==> app.settings_path is None,
        !startup.mock ==> app.settings_path == facts.settings_path,
        !startup.mock ==> app.scan.vms@.len() == 0 && app.scan.disks@.len() == 0
            && app.scan.snapshots@.len() == 0 && app.scan.problems@.len() == 0,
        !startup.mock ==> app.doctor.report is None,
        !startup.mock ==> app.stats.host.cpu_percent is None && app.stats.host.mem_total is None
            && app.stats.host.mem_available is None && app.stats.host.vm_dir_space is None
            && app.stats.host.history@.len() == 0,
        !startup.mock ==> forall|vm: Seq<char>| !app.mock_statuses@.contains_key(vm),
        startup.mock ==> app.engine is Ok,
        !startup.mock ==> (app.engine is Ok <==> app.spec_located(facts.engine) is Ok),
        app.shot.wanted <==> startup.screenshot is Some,
        !app.shot.opened,
        app.supervisor.tasks@.len() == 0,
        app.pending@.len() == 0,
        app.desk.toasts@.len() == 0,
        !app.desk.log_open && app.desk.log_selected is None && app.desk.log_follow,
        app.scanner.alive == !startup.mock,
        !app.scanner.in_flight && app.scanner.last is None && app.scanner.error is None,
        app.update.offer is None && !app.update.downloading,
        !app.doctor.running,
{
}

/// Each picture starts on its own surface.
pub proof fn pictures_start_on_their_surface(view: ScreenshotView)
    ensures
        startup::first_surface(view) is Disks <==> view is Disks,
        startup::first_surface(view) is Snapshots <==> view is Snapshots || view
            is SnapshotDelete,
        startup::first_surface(view) is Diagnostics <==> view is Diagnostics,
{
}

/// A dialog is open from the start only where the picture is of it.
pub proof fn pictures_open_their_dialog(
    app: ManagerApp,
    view: ScreenshotView,
    profiles: Seq<bool>,
)
    requires
        startup::first_dialog(app, view, profiles),
    ensures
        app.desk.modal is Wizard <==> view is Wizard || view is WizardWsl || view
            is WizardWslReview,
        app.desk.modal is Settings <==> view is Settings,
        app.desk.modal matches Modal::Wizard(w) ==> w.error is None && w.machine.name@
            == app.suggested_from(1, profiles) && (view is WizardWslReview ==> w.step == 3) && (
        !(view is WizardWslReview) ==> w.step == 0),
{
}

/// The machine of a picture is the first that fits: an idle one for the editor, a suspended
/// one for the discarding of its session.
pub proof fn the_first_fitting_machine_is_pictured(
    app: ManagerApp,
    vms: Seq<crate::discovery::VmEntry>,
    i: int,
)
    requires
        0 <= i < vms.len(),
    ensures
        !app.spec_busy(vms[i].name@) && (forall|j: int|
            0 <= j < i ==> app.spec_busy((#[trigger] vms[j]).name@)) ==> app.first_idle(vms)
            == Some(vms[i].name),
        app.spec_status(vms[i].name@) is Suspended && (forall|j: int|
            0 <= j < i ==> !(app.spec_status((#[trigger] vms[j]).name@) is Suspended))
            ==> app.first_suspended(vms) == Some(vms[i].name),
    decreases vms.len(),
{
    if i > 0 {
        let rest = vms.drop_first();
        assert(rest[i - 1] == vms[i]);
        the_first_fitting_machine_is_pictured(app, rest, i - 1);
        assert forall|j: int| 0 <= j < i - 1 implies #[trigger] rest[j] == vms[j + 1] by {}
        if forall|j: int| 0 <= j < i ==> app.spec_busy((#[trigger] vms[j]).name@) {
            assert(app.spec_busy(vms[0].name@));
        }
        if forall|j: int| 0 <= j < i ==> !(app.spec_status((#[trigger] vms[j]).name@) is Suspended) {
            assert(!(app.spec_status(vms[0].name@) is Suspended));
        }
    }
}

/// A picture is opened once, of what it shows.
pub proof fn a_picture_is_opened_once(app: ManagerApp)
    ensures
        app.shot.opened || !app.shot.wanted ==> app.spec_shot_target() is None,
        app.spec_shot_target() matches Some(ShotTarget::Session(path)) ==> app.shot.view
            is SnapshotDelete && app.scan.snapshots@.len() > 0 && path
            == app.scan.snapshots@[0].path,
        app.spec_shot_target() matches Some(ShotTarget::Discard(name)) ==> app.shot.view
            is SnapshotDiscard && app.first_suspended(app.scan.vms@) == Some(name),
        app.spec_shot_target() matches Some(ShotTarget::Edit(name, section)) ==> app.first_idle(
            app.scan.vms@,
        ) == Some(name) && (section is Hardware <==> app.shot.view is Editor) && (section
            is BootMedia <==> app.shot.view is EditorBoot) && (section is Storage <==> app.shot.view
            is EditorStorage) && (section is NetworkDisplay <==> app.shot.view is EditorNetwork),
        app.shot_opened().shot.opened,
        app.shot_opened().shot.view == app.shot.view,
        app.shot_opened().desk == app.desk,
{
}

/// A file is shown in its directory by the host's own means.
pub proof fn files_are_shown_by_the_host(manager: FileManager, host: Host, path: Seq<char>)
    ensures
        manager is Explorer ==> startup::reveal_words(manager, host, path) == Some(
            seq!["explorer"@, "/select,"@ + path],
        ),
        manager is Finder ==> startup::reveal_words(manager, host, path) == Some(
            seq!["open"@, "-R"@, path],
        ),
        manager is Xdg && paths::parent_of(host, path) is Some ==> startup::reveal_words(
            manager,
            host,
            path,
        ) == Some(seq!["xdg-open"@, paths::parent_of(host, path)->0]),
        manager is Absent <==> startup::reveal_words(manager, host, path) is None,
{
}

/// WSL is being checked from the start on Windows, and nowhere else; samples have their own
/// answer.
pub proof fn wsl_is_checked_from_the_start(app: ManagerApp, refusal: Seq<char>)
    requires
        startup::first_wsl(app, refusal),
    ensures
        !app.wsl.install_running,
        app.wsl.checking <==> !app.mock_mode && app.host == Host::Windows,
        app.wsl.checking ==> app.wsl.engine is Checking && app.wsl.target is Some
            && app.wsl.target->0@ == app.spec_wsl_target(),
        !app.wsl.checking ==> app.wsl.target is None,
        !app.mock_mode && app.host != Host::Windows ==> app.wsl.engine is Unknown,
{
}

/// A picture of the editor shows its section and changes nothing else.
pub proof fn the_editor_shows_the_section(app: ManagerApp, section: state::EditVmSection)
    ensures
        app.desk.modal matches Modal::EditVm(s) ==> (startup::on_section(
            app,
            section,
        ).desk.modal matches Modal::EditVm(t) && t.section == section && t.form == s.form
            && t.error == s.error),
        !(app.desk.modal is EditVm) ==> startup::on_section(app, section) == app,
        startup::on_section(app, section).scan == app.scan,
        startup::on_section(app, section).desk.toasts == app.desk.toasts,
{
}

/// A picture of a deletion is taken wherever there is a session to delete.
pub proof fn a_picture_is_taken_where_it_can_be(app: ManagerApp)
    requires
        app.shot.wanted,
        !app.shot.opened,
    ensures
        app.shot.view is SnapshotDelete ==> (app.spec_shot_target() is Some
            <==> app.scan.snapshots@.len() > 0),
        app.shot.view is SnapshotDiscard ==> (app.spec_shot_target() is Some
            <==> app.first_suspended(app.scan.vms@) is Some),
        app.shot.view is Editor ==> (app.spec_shot_target() is Some <==> app.first_idle(
            app.scan.vms@,
        ) is Some),
{
}

} // verus!
