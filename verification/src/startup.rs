//! How the manager comes up, and how a development render gets to its surface.
use crate::app;
use crate::backend::Backend;
use crate::dialogs;
use crate::discovery::{Scan, VmEntry};
use crate::host::Host;
use crate::hostcheck;
use crate::launcher;
use crate::launcher::{Engine, EngineFacts, EngineOrigin, NewMachine};
use crate::launching;
use crate::metrics;
use crate::mock;
use crate::paths;
use crate::process::Supervisor;
use crate::profile::VmConfig;
use crate::settings;
use crate::settings::Settings;
use crate::state::{
    Desk, DoctorState, EditVmSection, EditVmState, ManagerApp, Modal, Request, ScannerState,
    ScreenshotView, ShotState, Status, Surface, UpdateState, WslState,
};
use crate::storage;
use crate::table::Table;
use crate::text;
use crate::update;
use crate::update::Version;
use crate::wslengine;
use vstd::prelude::*;

verus! {

pub const NO_CONFIG_DIR: &'static str = "no configuration directory; settings will not persist";
pub const MOCK_ENGINE: &'static str = "mock-entangled";

/// The time between two frames while something moves, in milliseconds.
pub const FRAME_INTERVAL_MS: u64 = 40;
/// The time between two frames otherwise.
pub const HEARTBEAT_MS: u64 = 1000;
/// Frames that a development render waits for the window to settle.
pub const SETTLING_FRAMES: u64 = 45;

// ---------------------------------------------------------------------------
// The command line and the settings
// ---------------------------------------------------------------------------

/// What the command line says.
pub struct Startup {
    /// Overrides the machine directory for this run.
    pub vm_dir: Option<String>,
    /// Overrides the engine for this run.
    pub entangled: Option<String>,
    /// Render a few frames into this file and leave.
    pub screenshot: Option<String>,
    pub screenshot_view: ScreenshotView,
    /// Show sample data.
    pub mock: bool,
}

/// What reading the settings gave, and what stands in for them.
pub struct SettingsFound {
    pub host: Host,
    pub home: Option<String>,
    /// Where the settings are kept, if there is such a place.
    pub path: Option<String>,
    /// What reading that file gave.
    pub loaded: Result<Settings, String>,
}

/// The settings of a fresh installation.
pub open spec fn is_fresh(s: Settings, host: Host, home: Option<String>) -> bool {
    &&& settings::has_defaults(s)
    &&& s.vm_dir@ == match home {
        Some(dir) => paths::joined(host, dir@, settings::VM_DIR_NAME@),
        None => settings::VM_DIR_NAME@,
    }
}

/// What the settings are before the command line has its say, and what is told
/// about them.
pub open spec fn base_settings(s: Settings, warning: Option<Seq<char>>, found: SettingsFound) -> bool {
    match (found.path, found.loaded) {
        (Some(_), Ok(loaded)) => s == loaded && warning is None,
        (Some(_), Err(e)) => is_fresh(s, found.host, found.home) && warning == Some(
            e@ + " — using defaults"@,
        ),
        (None, _) => is_fresh(s, found.host, found.home) && warning == Some(NO_CONFIG_DIR@),
    }
}

/// The settings of this run, and what is told about them.
pub open spec fn starts_on(
    s: Settings,
    warning: Option<Seq<char>>,
    startup: Startup,
    found: SettingsFound,
) -> bool {
    if startup.mock {
        settings::has_defaults(s) && s.vm_dir@ == mock::ROOT@ && warning is None
    } else {
        exists|base: Settings|
            #![auto]
            base_settings(base, warning, found) && s == (Settings {
                vm_dir: match startup.vm_dir {
                    Some(dir) => dir,
                    None => base.vm_dir,
                },
                entangled_binary: match startup.entangled {
                    Some(path) => Some(path),
                    None => base.entangled_binary,
                },
                ..base
            })
    }
}

/// The settings of this run, and a problem with them that does not stop the
/// manager. The command line overrides what was read.
pub fn starting_settings(startup: &Startup, found: SettingsFound) -> (r: (Settings, Option<String>))
    ensures
        starts_on(r.0, text::opt_text(r.1), *startup, found),
        found.loaded matches Ok(s) ==> s.wf() ==> r.0.wf(),
        found.loaded is Err ==> r.0.wf(),
{
    let ghost given = found;
    if startup.mock {
        let mut settings = Settings::default(found.host, &found.home);
        settings.vm_dir = mock::ROOT.to_owned();
        return (settings, None);
    }
    let (mut settings, warning): (Settings, Option<String>) = match found.path {
        Some(_) => match found.loaded {
            Ok(loaded) => (loaded, None),
            Err(e) => (
                Settings::default(found.host, &found.home),
                Some(text::cat(&e, " — using defaults")),
            ),
        },
        None => (
            Settings::default(found.host, &found.home),
            Some(NO_CONFIG_DIR.to_owned()),
        ),
    };
    let ghost base = settings;
    assert(base_settings(base, text::opt_text(warning), given));
    if let Some(dir) = &startup.vm_dir {
        settings.vm_dir = dir.clone();
    }
    if let Some(path) = &startup.entangled {
        settings.entangled_binary = Some(path.clone());
    }
    (settings, warning)
}

// ---------------------------------------------------------------------------
// The manager at its start
// ---------------------------------------------------------------------------

/// What the host says when the manager starts.
pub struct StartFacts {
    pub host: Host,
    /// This build's version.
    pub version: String,
    /// The time in milliseconds.
    pub now: u64,
    /// The time in seconds.
    pub now_unix: i64,
    /// Where the settings are kept.
    pub settings_path: Option<String>,
    pub engine: EngineFacts,
    /// Which of the numbered machine names have a profile.
    pub profiles: Vec<bool>,
    /// How a distribution without an engine is refused, for sample data.
    pub refusal: String,
    /// How the sample engine inside WSL is summed up.
    pub summary: String,
}

/// A newer release is asked for once, at the start. A development render and a
/// session with sample data reach no network.
pub open spec fn asks_for_update(startup: Startup, settings: Settings, version: Seq<char>) -> bool {
    &&& !startup.mock
    &&& settings.check_updates_on_startup
    &&& startup.screenshot is None
    &&& update::version_of(version) is Some
}

/// What is left to be done outside at the start: the question for a newer
/// release, then that for the engine's version, then that for WSL.
pub open spec fn first_requests(app: ManagerApp, startup: Startup) -> Seq<Request> {
    let release = if asks_for_update(startup, app.settings, app.version@) {
        seq![Request::CheckUpdate]
    } else {
        Seq::empty()
    };
    let wsl = if !app.mock_mode && Backend::Wsl.available(app.host) {
        seq![Request::CheckWsl]
    } else {
        Seq::empty()
    };
    release + app::probe_requests(app.mock_mode, app.engine) + wsl
}

/// What is known at the start of the engine: where it is, or a sample.
pub open spec fn first_engine(app: ManagerApp, facts: EngineFacts) -> bool {
    if app.mock_mode {
        app.engine matches Ok(e) && e.path@ == MOCK_ENGINE@ && e.origin
            == EngineOrigin::BesideManager && text::opt_text(e.version) == Some(app.version@)
    } else {
        app::is_located(app.spec_located(facts), app.engine)
    }
}

/// What is known at the start of WSL: its check is under way where there is one.
pub open spec fn first_wsl(app: ManagerApp, refusal: Seq<char>) -> bool {
    &&& !app.wsl.install_running
    &&& if app.mock_mode {
        &&& wslengine::is_mock_status(app.wsl.engine, refusal)
        &&& app.wsl.target is None
        &&& !app.wsl.checking
    } else if Backend::Wsl.available(app.host) {
        &&& app.wsl.engine == wslengine::Status::Checking
        &&& app.wsl.target matches Some(t) && t@ == app.spec_wsl_target()
        &&& app.wsl.checking
    } else {
        &&& app.wsl.engine == wslengine::Status::Unknown
        &&& app.wsl.target is None
        &&& !app.wsl.checking
    }
}

/// The machines, disks, sessions and numbers at the start: samples, or none yet.
pub open spec fn first_data(app: ManagerApp, now_unix: i64) -> bool {
    if app.mock_mode {
        &&& mock::is_sample_scan(app.scan, app.host, now_unix, app.version@)
        &&& app.mock_statuses@ == mock::sample_statuses()
        &&& mock::is_sample_metrics(app.stats)
        &&& app.doctor.report matches Some(report) && hostcheck::is_mock_report(report)
    } else {
        &&& app.scan.vms@.len() == 0
        &&& app.scan.problems@.len() == 0
        &&& app.scan.disks@.len() == 0
        &&& app.scan.snapshots@.len() == 0
        &&& app.mock_statuses@ == Map::<Seq<char>, Status>::empty()
        &&& app.stats.host.cpu_percent is None
        &&& app.stats.host.history@.len() == 0
        &&& app.stats.host.mem_total is None
        &&& app.stats.host.mem_available is None
        &&& app.stats.host.vm_dir_space is None
        &&& app.stats.vms@ == Map::<Seq<char>, metrics::VmStats>::empty()
        &&& app.doctor.report is None
    }
}

/// Nothing runs, nothing is told, and nothing is known of the scanner.
pub open spec fn at_rest(app: ManagerApp) -> bool {
    &&& app.supervisor.tasks@.len() == 0
    &&& app.supervisor.next_id == 1
    &&& app.pending@.len() == 0
    &&& app.desk.toasts@.len() == 0
    &&& !app.desk.log_open
    &&& app.desk.log_selected is None
    &&& app.desk.log_follow
    &&& app.desk.picker is None
    &&& app.scanner.alive == !app.mock_mode
    &&& !app.scanner.in_flight
    &&& app.scanner.last is None
    &&& app.scanner.manual_refresh_at is None
    &&& app.scanner.error is None
    &&& app.update.offer is None
    &&& !app.update.downloading
    &&& !app.doctor.running
}

/// The surface that the manager starts on.
pub open spec fn first_surface(view: ScreenshotView) -> Surface {
    match view {
        ScreenshotView::Disks => Surface::Disks,
        ScreenshotView::Snapshots | ScreenshotView::SnapshotDelete => Surface::Snapshots,
        ScreenshotView::Diagnostics => Surface::Diagnostics,
        _ => Surface::Machines,
    }
}

/// The dialog that the manager starts with. The two surfaces about WSL choose the
/// backend that the preferred one would not be.
pub open spec fn first_dialog(app: ManagerApp, view: ScreenshotView, profiles: Seq<bool>) -> bool {
    let name = app.suggested_from(1, profiles);
    match view {
        ScreenshotView::Wizard => app.desk.modal matches Modal::Wizard(w) && w.step == 0
            && w.error is None && app.starts_with(w.machine, name),
        ScreenshotView::WizardWsl | ScreenshotView::WizardWslReview => {
            &&& app.desk.modal matches Modal::Wizard(w) && w.error is None && w.machine.backend
                == Backend::Wsl && w.step == (if view == ScreenshotView::WizardWslReview {
                3int
            } else {
                0
            }) && app.starts_with(
                (NewMachine { backend: app.spec_preferred(), ..w.machine }),
                name,
            )
        },
        ScreenshotView::Settings => app.desk.modal matches Modal::Settings(f)
            && dialogs::form_shows(f, app.settings),
        _ => app.desk.modal is Closed,
    }
}

fn sample_engine(version: &str) -> (r: Engine)
    ensures
        r.path@ == MOCK_ENGINE@,
        r.origin == EngineOrigin::BesideManager,
        text::opt_text(r.version) == Some(version@),
{
    Engine {
        path: MOCK_ENGINE.to_owned(),
        origin: EngineOrigin::BesideManager,
        version: Some(version.to_owned()),
    }
}

fn empty_desk() -> (r: Desk)
    ensures
        r.view == Surface::Machines,
        r.toasts@.len() == 0,
        r.modal is Closed,
        !r.log_open,
        r.log_selected is None,
        r.log_follow,
        r.picker is None,
        r.requests@.len() == 0,
{
    Desk {
        view: Surface::Machines,
        toasts: Vec::new(),
        modal: Modal::Closed,
        log_open: false,
        log_selected: None,
        log_follow: true,
        picker: None,
        requests: Vec::new(),
    }
}

impl ManagerApp {
    /// Everything but the surface and the dialog at the start.
    pub open spec fn is_started(
        self,
        startup: Startup,
        settings: Settings,
        warning: Option<String>,
        facts: StartFacts,
    ) -> bool {
        &&& self.host == facts.host
        &&& self.version == facts.version
        &&& self.now == facts.now
        &&& self.mock_mode == startup.mock
        &&& self.settings == settings
        &&& self.settings_path == (if startup.mock {
            None
        } else {
            facts.settings_path
        })
        &&& self.startup_warning == warning
        &&& self.wsl.sample_summary == facts.summary
        &&& first_engine(self, facts.engine)
        &&& first_data(self, facts.now_unix)
        &&& at_rest(self)
        &&& self.shot == (ShotState {
            wanted: startup.screenshot is Some,
            view: startup.screenshot_view,
            opened: false,
        })
    }

    fn at_start(
        startup: &Startup,
        settings: Settings,
        warning: Option<String>,
        facts: &StartFacts,
    ) -> (r: ManagerApp)
        requires
            settings.wf(),
            facts.now_unix >= i64::MIN + 187_200,
        ensures
            r.wf(),
            r.is_started(*startup, settings, warning, *facts),
            r.desk.view == Surface::Machines,
            r.desk.modal is Closed,
            r.desk.requests@.len() == 0,
            !r.wsl.install_running,
            r.wsl.target is None,
            !r.wsl.checking,
            if startup.mock {
                wslengine::is_mock_status(r.wsl.engine, facts.refusal@)
            } else {
                r.wsl.engine == wslengine::Status::Unknown
            },
    {
        let mock_mode = startup.mock;
        let engine: Result<Engine, String> = if mock_mode {
            Ok(sample_engine(&facts.version))
        } else {
            match launcher::locate_engine(&settings, facts.host, &facts.engine) {
                Ok(engine) => Ok(engine),
                Err(e) => Err(e.message()),
            }
        };
        let scan: Scan = if mock_mode {
            mock::scan(facts.host, facts.now_unix, &facts.version)
        } else {
            Default::default()
        };
        let stats: metrics::Snapshot = if mock_mode {
            mock::metrics()
        } else {
            Default::default()
        };
        ManagerApp {
            host: facts.host,
            version: facts.version.clone(),
            now: facts.now,
            mock_mode,
            settings,
            settings_path: if mock_mode {
                None
            } else {
                text::clone_opt(&facts.settings_path)
            },
            startup_warning: warning,
            engine,
            scan,
            mock_statuses: if mock_mode {
                mock::statuses()
            } else {
                Table::new()
            },
            supervisor: Supervisor::new(),
            stats,
            pending: Vec::new(),
            desk: empty_desk(),
            scanner: ScannerState {
                alive: !mock_mode,
                in_flight: false,
                last: None,
                manual_refresh_at: None,
                error: None,
            },
            wsl: WslState {
                engine: if mock_mode {
                    wslengine::mock_status(&facts.refusal)
                } else {
                    wslengine::Status::Unknown
                },
                target: None,
                checking: false,
                install_running: false,
                sample_summary: facts.summary.clone(),
            },
            update: UpdateState { offer: None, downloading: false },
            doctor: DoctorState {
                report: if mock_mode {
                    Some(hostcheck::mock_report())
                } else {
                    None
                },
                running: false,
            },
            shot: ShotState {
                wanted: startup.screenshot.is_some(),
                view: startup.screenshot_view,
                opened: false,
            },
        }
    }

    fn wants_update_check(&self, startup: &Startup) -> (r: bool)
        ensures
            r == asks_for_update(*startup, self.settings, self.version@),
    {
        !startup.mock && self.settings.check_updates_on_startup && startup.screenshot.is_none()
            && Version::parse(&self.version).is_some()
    }

    /// Opens what a development render shows from the start.
    fn open_first_surface(&mut self, view: ScreenshotView, profiles: &Vec<bool>)
        requires
            !old(self).wsl_due(false),
            old(self).desk.modal is Closed,
            old(self).desk.view == Surface::Machines,
        ensures
            final(self).desk.view == first_surface(view),
            first_dialog(*final(self), view, profiles@),
            *final(self) == (ManagerApp {
                desk: Desk {
                    view: final(self).desk.view,
                    modal: final(self).desk.modal,
                    requests: final(self).desk.requests,
                    ..old(self).desk
                },
                ..*old(self)
            }),
            final(self).desk.requests@ == old(self).desk.requests@,
    {
        match view {
            ScreenshotView::Wizard => self.open_wizard(profiles),
            ScreenshotView::WizardWsl | ScreenshotView::WizardWslReview => {
                self.open_wizard(profiles);
                if let Modal::Wizard(w) = &mut self.desk.modal {
                    w.machine.backend = Backend::Wsl;
                    if let ScreenshotView::WizardWslReview = view {
                        w.step = 3;
                    }
                }
            },
            ScreenshotView::Settings => self.open_settings(),
            ScreenshotView::Disks => self.desk.view = Surface::Disks,
            ScreenshotView::Snapshots | ScreenshotView::SnapshotDelete => {
                self.desk.view = Surface::Snapshots;
            },
            ScreenshotView::Diagnostics => self.desk.view = Surface::Diagnostics,
            _ => {},
        }
        proof {
            dialogs::lemma_suggested(*old(self), *self, 1, profiles@);
        }
    }

    /// The manager as it starts. The question for WSL starts with the window: its
    /// answer takes seconds, and it decides which backend the wizard opens on.
    pub fn new(
        startup: &Startup,
        settings: Settings,
        warning: Option<String>,
        facts: &StartFacts,
    ) -> (r: ManagerApp)
        requires
            settings.wf(),
            facts.now_unix >= i64::MIN + 187_200,
        ensures
            r.wf(),
            r.is_started(*startup, settings, warning, *facts),
            first_wsl(r, facts.refusal@),
            r.desk.requests@ == first_requests(r, *startup),
            r.desk.view == first_surface(startup.screenshot_view),
            first_dialog(r, startup.screenshot_view, facts.profiles@),
    {
        let mut app = Self::at_start(startup, settings, warning, facts);
        if app.wants_update_check(startup) {
            app.desk.requests.push(Request::CheckUpdate);
        }
        if !app.mock_mode && app.engine.is_ok() {
            app.desk.requests.push(Request::ProbeVersion);
        }
        app.ensure_wsl_check(false);
        let ghost before = app;
        assert(app.desk.requests@ =~= first_requests(app, *startup));
        app.open_first_surface(startup.screenshot_view, &facts.profiles);
        proof {
            assert(app.spec_located(facts.engine) == before.spec_located(facts.engine));
        }
        app
    }
}

// ---------------------------------------------------------------------------
// Development renders
// ---------------------------------------------------------------------------

/// What a development render still has to open: something that only exists once
/// there was a scan.
#[derive(Debug, PartialEq, Eq)]
pub enum ShotTarget {
    /// The confirmation of deleting the session in this file.
    Session(String),
    /// The confirmation of starting this machine without its session.
    Discard(String),
    /// The editor of this machine, on that section.
    Edit(String, EditVmSection),
}

/// The section of the editor that a render shows.
pub open spec fn shown_section(view: ScreenshotView) -> Option<EditVmSection> {
    match view {
        ScreenshotView::Editor => Some(EditVmSection::Hardware),
        ScreenshotView::EditorBoot => Some(EditVmSection::BootMedia),
        ScreenshotView::EditorNetwork => Some(EditVmSection::NetworkDisplay),
        ScreenshotView::EditorStorage => Some(EditVmSection::Storage),
        _ => None,
    }
}

fn section_of(view: ScreenshotView) -> (r: Option<EditVmSection>)
    ensures
        r == shown_section(view),
{
    match view {
        ScreenshotView::Editor => Some(EditVmSection::Hardware),
        ScreenshotView::EditorBoot => Some(EditVmSection::BootMedia),
        ScreenshotView::EditorNetwork => Some(EditVmSection::NetworkDisplay),
        ScreenshotView::EditorStorage => Some(EditVmSection::Storage),
        _ => None,
    }
}

impl ManagerApp {
    /// The first machine that is suspended.
    pub open spec fn first_suspended(self, vms: Seq<VmEntry>) -> Option<String>
        decreases vms.len(),
    {
        if vms.len() == 0 {
            None
        } else if self.spec_status(vms[0].name@) == Status::Suspended {
            Some(vms[0].name)
        } else {
            self.first_suspended(vms.drop_first())
        }
    }

    /// The first machine that is not busy.
    pub open spec fn first_idle(self, vms: Seq<VmEntry>) -> Option<String>
        decreases vms.len(),
    {
        if vms.len() == 0 {
            None
        } else if !self.spec_busy(vms[0].name@) {
            Some(vms[0].name)
        } else {
            self.first_idle(vms.drop_first())
        }
    }

    fn find_suspended(&self) -> (r: Option<String>)
        requires
            self.wf(),
        ensures
            r == self.first_suspended(self.scan.vms@),
    {
        let ghost all = self.scan.vms@;
        let mut i: usize = 0;
        assert(all.skip(0) =~= all);
        while i < self.scan.vms.len()
            invariant
                self.wf(),
                all == self.scan.vms@,
                i <= all.len(),
                self.first_suspended(all) == self.first_suspended(all.skip(i as int)),
            decreases all.len() - i,
        {
            proof {
                assert(all.skip(i as int).drop_first() =~= all.skip(i + 1));
                assert(all.skip(i as int)[0] == all[i as int]);
            }
            let name = &self.scan.vms[i].name;
            if let Status::Suspended = self.status_of(name) {
                return Some(name.clone());
            }
            i = i + 1;
        }
        None
    }

    fn find_idle(&self) -> (r: Option<String>)
        requires
            self.wf(),
        ensures
            r == self.first_idle(self.scan.vms@),
    {
        let ghost all = self.scan.vms@;
        let mut i: usize = 0;
        assert(all.skip(0) =~= all);
        while i < self.scan.vms.len()
            invariant
                self.wf(),
                all == self.scan.vms@,
                i <= all.len(),
                self.first_idle(all) == self.first_idle(all.skip(i as int)),
            decreases all.len() - i,
        {
            proof {
                assert(all.skip(i as int).drop_first() =~= all.skip(i + 1));
                assert(all.skip(i as int)[0] == all[i as int]);
            }
            let name = &self.scan.vms[i].name;
            if !self.is_busy(name) {
                return Some(name.clone());
            }
            i = i + 1;
        }
        None
    }

    /// What the render still has to open, if there is something to open it about.
    pub open spec fn spec_shot_target(self) -> Option<ShotTarget> {
        if self.shot.opened || !self.shot.wanted {
            None
        } else if self.shot.view == ScreenshotView::SnapshotDelete {
            if self.scan.snapshots@.len() > 0 {
                Some(ShotTarget::Session(self.scan.snapshots@[0].path))
            } else {
                None
            }
        } else if self.shot.view == ScreenshotView::SnapshotDiscard {
            match self.first_suspended(self.scan.vms@) {
                Some(name) => Some(ShotTarget::Discard(name)),
                None => None,
            }
        } else {
            match (shown_section(self.shot.view), self.first_idle(self.scan.vms@)) {
                (Some(section), Some(name)) => Some(ShotTarget::Edit(name, section)),
                _ => None,
            }
        }
    }

    /// What the render still has to open, if there is something to open it about.
    pub fn shot_target(&self) -> (r: Option<ShotTarget>)
        requires
            self.wf(),
        ensures
            r == self.spec_shot_target(),
    {
        if self.shot.opened || !self.shot.wanted {
            return None;
        }
        if let ScreenshotView::SnapshotDelete = self.shot.view {
            if self.scan.snapshots.len() > 0 {
                return Some(ShotTarget::Session(self.scan.snapshots[0].path.clone()));
            }
            return None;
        }
        if let ScreenshotView::SnapshotDiscard = self.shot.view {
            return match self.find_suspended() {
                Some(name) => Some(ShotTarget::Discard(name)),
                None => None,
            };
        }
        match section_of(self.shot.view) {
            Some(section) => match self.find_idle() {
                Some(name) => Some(ShotTarget::Edit(name, section)),
                None => None,
            },
            None => None,
        }
    }

    /// The state in which the render's dialog was opened.
    pub open spec fn shot_opened(self) -> ManagerApp {
        ManagerApp { shot: ShotState { opened: true, ..self.shot }, ..self }
    }

    /// Opens what a development render shows, once. `loaded` is what reading the
    /// profile of [`ManagerApp::shot_target`]'s machine gave. The result tells that
    /// a machine turned out to have no session and is to be started.
    pub fn open_screenshot_surface(
        &mut self,
        loaded: Result<VmConfig, String>,
        max_players: u8,
        current_dir: &Option<String>,
    ) -> (r: Option<String>)
        requires
            old(self).wf(),
            max_players >= 1,
        ensures
            match old(self).spec_shot_target() {
                None => r is None && *final(self) == *old(self),
                Some(ShotTarget::Session(path)) => {
                    &&& r is None
                    &&& launching::session_deletion_asked(
                        old(self).shot_opened(),
                        *final(self),
                        path@,
                    )
                },
                Some(ShotTarget::Discard(name)) => {
                    &&& r == (if old(self).spec_snapshot_for(name@) is None {
                        Some(name)
                    } else {
                        None
                    })
                    &&& launching::discard_asked(
                        old(self).shot_opened(),
                        *final(self),
                        name@,
                        r is Some,
                    )
                },
                Some(ShotTarget::Edit(name, section)) => {
                    &&& r is None
                    &&& exists|asked: ManagerApp|
                        storage::edit_asked(
                            old(self).shot_opened(),
                            asked,
                            name@,
                            loaded,
                            max_players,
                            *current_dir,
                        ) && *final(self) == #[trigger] on_section(asked, section)
                },
            },
    {
        let target = match self.shot_target() {
            Some(target) => target,
            None => return None,
        };
        self.shot.opened = true;
        match target {
            ShotTarget::Session(path) => self.ask_delete_snapshot(&path),
            ShotTarget::Discard(name) => {
                if self.ask_discard_snapshot(&name) {
                    return Some(name);
                }
            },
            ShotTarget::Edit(name, section) => {
                self.ask_edit_vm(&name, loaded, max_players, current_dir);
                let ghost asked = *self;
                if let Modal::EditVm(s) = &mut self.desk.modal {
                    s.section = section;
                }
                assert(*self == on_section(asked, section));
            },
        }
        None
    }
}

/// The state with the editor, if it is open, on that section.
pub open spec fn on_section(app: ManagerApp, section: EditVmSection) -> ManagerApp {
    match app.desk.modal {
        Modal::EditVm(s) => ManagerApp {
            desk: Desk { modal: Modal::EditVm(EditVmState { section, ..s }), ..app.desk },
            ..app
        },
        _ => app,
    }
}

/// What a development render does in a frame.
#[derive(Debug, Clone, Copy, PartialEq, Eq, Structural)]
pub enum ShotStep {
    Wait,
    /// Ask for the picture.
    Ask,
    /// Save the picture that arrived, and leave.
    Save,
}

/// What a development render does in its frame number `frame`: the window gets a
/// few frames to settle first.
pub fn shot_step(frame: u64, asked: bool, arrived: bool) -> (r: ShotStep)
    ensures
        r == (if !asked {
            if frame > SETTLING_FRAMES {
                ShotStep::Ask
            } else {
                ShotStep::Wait
            }
        } else if arrived {
            ShotStep::Save
        } else {
            ShotStep::Wait
        }),
{
    if !asked {
        if frame > SETTLING_FRAMES {
            ShotStep::Ask
        } else {
            ShotStep::Wait
        }
    } else if arrived {
        ShotStep::Save
    } else {
        ShotStep::Wait
    }
}

/// Milliseconds until the next frame is due. A render runs without the focus, but
/// still needs its short sequence of frames. A slow heartbeat keeps the numbers
/// fresh otherwise.
pub fn repaint_after(animations: bool, focused: bool, rendering: bool) -> (r: u64)
    ensures
        r == (if animations && (focused || rendering) {
            FRAME_INTERVAL_MS
        } else {
            HEARTBEAT_MS
        }),
{
    if animations && (focused || rendering) {
        FRAME_INTERVAL_MS
    } else {
        HEARTBEAT_MS
    }
}

// ---------------------------------------------------------------------------
// The file manager
// ---------------------------------------------------------------------------

/// The program that shows a file to the user.
#[derive(Debug, Clone, Copy, PartialEq, Eq, Structural)]
pub enum FileManager {
    Explorer,
    Finder,
    Xdg,
    Absent,
}

/// The program and its arguments, as plain values.
pub open spec fn reveal_words(manager: FileManager, host: Host, path: Seq<char>) -> Option<
    Seq<Seq<char>>,
> {
    match manager {
        FileManager::Explorer => Some(seq!["explorer"@, "/select,"@ + path]),
        FileManager::Finder => Some(seq!["open"@, "-R"@, path]),
        FileManager::Xdg => Some(
            seq![
                "xdg-open"@,
                match paths::parent_of(host, path) {
                    Some(dir) => dir,
                    None => "."@,
                },
            ],
        ),
        FileManager::Absent => None,
    }
}

pub const NO_FILE_MANAGER: &'static str = "no file manager integration on this platform";

/// The program that shows a file, selected where that can be asked for, and its
/// arguments.
pub fn reveal_in_file_manager(manager: FileManager, host: Host, path: &str) -> (r: Result<
    Vec<String>,
    String,
>)
    ensures
        match reveal_words(manager, host, path@) {
            Some(words) => r matches Ok(v) && text::texts(v@) == words,
            None => r matches Err(e) && e@ == NO_FILE_MANAGER@,
        },
{
    let mut words: Vec<String> = Vec::new();
    match manager {
        FileManager::Explorer => {
            words.push("explorer".to_owned());
            words.push(text::cat("/select,", path));
        },
        FileManager::Finder => {
            words.push("open".to_owned());
            words.push("-R".to_owned());
            words.push(path.to_owned());
        },
        FileManager::Xdg => {
            words.push("xdg-open".to_owned());
            words.push(
                match paths::parent(host, path) {
                    Some(dir) => dir,
                    None => ".".to_owned(),
                },
            );
        },
        FileManager::Absent => return Err(NO_FILE_MANAGER.to_owned()),
    }
    assert(text::texts(words@) =~= reveal_words(manager, host, path@)->0);
    Ok(words)
}

} // verus!
