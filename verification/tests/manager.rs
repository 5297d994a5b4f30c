//! The manager as a whole: what it does when it is asked, and what it tells.
use entangled_manager::backend::Backend;
use entangled_manager::discovery::{
    Byproducts, DiskAttachment, DiskInfo, DiskRow, Removal, Scan, VmEntry,
};
use entangled_manager::host::Host;
use entangled_manager::installing::WizardFacts;
use entangled_manager::launcher::{
    BootstrapFacts, DiskMode, EngineFacts, FirmwareFacts, Pair, Place,
};
use entangled_manager::launching::{remove_if_present, Command, LaunchFacts};
use entangled_manager::mock;
use entangled_manager::moving::{MoveEvent, MoveOutcome, Throttle};
use entangled_manager::picker::{DirFacts, PickTarget};
use entangled_manager::process::{Outcome, ProcessError, TaskKind};
use entangled_manager::profile::{
    BootMode, BootSection, DiskSection, DisplaySection, GamepadBackend, GamepadSection,
    SoundBackend, SoundSection, VirtioTransport, VmConfig,
};
use entangled_manager::settings::Settings;
use entangled_manager::snapshots::{path_for, verdict, FileState, HostKind, SnapshotFacts, SnapshotRow};
use entangled_manager::startup::{
    repaint_after, reveal_in_file_manager, shot_step, starting_settings, FileManager, SettingsFound,
    ShotStep, ShotTarget, StartFacts, Startup,
};
use entangled_manager::state::{
    window_title, Action, EditVmSection, ManagerApp, Modal, RefreshState, Request, ScreenshotView,
    Status, Surface, Toast, ToastLevel,
};
use entangled_manager::update::{UpdateInfo, Version};
use entangled_manager::wslengine::{self, EngineFault, EngineFound, Fault, Installed};

const MAX_PLAYERS: u8 = 4;

fn some(s: &str) -> Option<String> {
    Some(s.to_string())
}

fn startup(mock: bool, view: ScreenshotView, shot: bool) -> Startup {
    Startup {
        vm_dir: None,
        entangled: None,
        screenshot: if shot { some("/tmp/shot.png") } else { None },
        screenshot_view: view,
        mock,
    }
}

fn engine_facts() -> EngineFacts {
    EngineFacts {
        chosen_is_file: false,
        beside: None,
        on_path: vec![Place { dir: "/usr/bin".to_string(), present: true }],
    }
}

fn no_engine() -> EngineFacts {
    EngineFacts { chosen_is_file: false, beside: None, on_path: Vec::new() }
}

fn facts(host: Host) -> StartFacts {
    StartFacts {
        host,
        version: "0.2.17".to_string(),
        now: 10_000,
        now_unix: 1_790_000_000,
        settings_path: some("/cfg/manager.toml"),
        engine: engine_facts(),
        profiles: Vec::new(),
        refusal: "Ubuntu has no engine: let the manager install one".to_string(),
        summary: "entangled 0.2.17 in Ubuntu".to_string(),
    }
}

fn settings() -> Settings {
    Settings { vm_dir: "/vms".to_string(), ..Settings::default(Host::Linux, &None) }
}

fn manager() -> ManagerApp {
    ManagerApp::new(
        &startup(false, ScreenshotView::Main, false),
        settings(),
        None,
        &facts(Host::Linux),
    )
}

fn preview(view: ScreenshotView) -> ManagerApp {
    let startup = startup(true, view, true);
    let found = SettingsFound {
        host: Host::Linux,
        home: None,
        path: None,
        loaded: Err(String::new()),
    };
    let (settings, warning) = starting_settings(&startup, found);
    ManagerApp::new(&startup, settings, warning, &facts(Host::Linux))
}

fn launch_facts() -> LaunchFacts {
    LaunchFacts {
        current_dir: some("/work"),
        engine: engine_facts(),
        firmware: FirmwareFacts {
            named: None,
            installed: None,
            cached: Vec::new(),
            in_checkout: true,
        },
        bootstrap: BootstrapFacts {
            named: None,
            in_checkout: Pair { kernel: true, initrd: true },
            cached: Vec::new(),
        },
        uefi_in_cwd: true,
    }
}

fn vm(name: &str) -> VmEntry {
    VmEntry {
        name: name.to_string(),
        profile_path: format!("/vms/{name}.toml"),
        memory_mib: 2048,
        vcpus: 2,
        transport: VirtioTransport::Pci,
        display: (1920, 1080),
        network_interface: None,
        disks: vec![DiskInfo {
            declared: format!("/vms/{name}.raw"),
            resolved: format!("/vms/{name}.raw"),
            exists: true,
            writable: true,
            size_bytes: 1024,
            allocated_bytes: Some(512),
        }],
        uefi: false,
    }
}

fn disk(name: &str, attached: &[&str]) -> DiskRow {
    DiskRow {
        path: format!("/vms/{name}.raw"),
        file_name: format!("{name}.raw"),
        exists: true,
        apparent_bytes: 3 << 30,
        allocated_bytes: Some(1 << 20),
        attachments: attached
            .iter()
            .map(|vm| DiskAttachment {
                vm: vm.to_string(),
                profile: format!("/vms/{vm}.toml"),
                declared: format!("/vms/{name}.raw"),
                writable: true,
            })
            .collect(),
        nvram: false,
        summary: Ok("blank".to_string()),
    }
}

fn session(name: &str) -> SnapshotRow {
    SnapshotRow {
        path: format!("/vms/{name}.esnap"),
        file_name: format!("{name}.esnap"),
        apparent_bytes: 1 << 20,
        allocated_bytes: None,
        facts: Ok(SnapshotFacts {
            vm_name: name.to_string(),
            created_unix: 1_789_000_000,
            writer: "entangled 0.2.17".to_string(),
            host: HostKind::KvmLinux,
            vcpus: 2,
            memory_bytes: 2048 << 20,
            transport: "pci".to_string(),
            boot_mode: "direct-linux".to_string(),
            files: Vec::new(),
            sections: 3,
        }),
    }
}

/// A manager with the machines `alpha` and `beta`, a disk for each and one more.
fn library() -> ManagerApp {
    let mut app = manager();
    app.scan = Scan {
        vms: vec![vm("alpha"), vm("beta")],
        problems: Vec::new(),
        disks: vec![
            disk("alpha", &["alpha"]),
            disk("beta", &["beta"]),
            disk("loose", &[]),
        ],
        snapshots: Vec::new(),
    };
    app
}

fn started(app: &mut ManagerApp, name: &str) -> u64 {
    let launch = app.start(name, &launch_facts()).expect("launch");
    app.launched(launch, Ok(())).expect("started")
}

fn last(app: &ManagerApp) -> (ToastLevel, String) {
    let toast = app.desk.toasts.last().expect("a message");
    (toast.level, toast.text.clone())
}

fn error_of(app: &ManagerApp) -> String {
    let error = match &app.desk.modal {
        Modal::Wizard(s) => &s.error,
        Modal::Delete(s) => &s.error,
        Modal::CreateDisk(s) => &s.error,
        Modal::DeleteDisk(s) => &s.error,
        Modal::AttachDisk(s) => &s.error,
        Modal::EditVm(s) => &s.error,
        Modal::MoveDisk(s) => &s.error,
        Modal::ResizeDisk(s) => &s.error,
        Modal::DeleteSnapshot(s) => &s.error,
        Modal::DiscardSnapshot(s) => &s.error,
        _ => &None,
    };
    error.clone().expect("an error in the dialog")
}

fn config(name: &str) -> VmConfig {
    VmConfig {
        name: name.to_string(),
        memory_mib: 2048,
        vcpus: 2,
        transport: VirtioTransport::Pci,
        boot: BootSection {
            mode: BootMode::DirectLinux,
            kernel: some("vmlinuz"),
            initramfs: None,
            cmdline: String::new(),
            firmware: None,
            nvram: None,
        },
        cdrom: None,
        network: None,
        display: DisplaySection { width: 1920, height: 1080, virgl: false },
        sound: SoundSection { enabled: false, backend: SoundBackend::Auto },
        gamepad: GamepadSection { enabled: false, backend: GamepadBackend::Auto, players: 1 },
        disks: vec![DiskSection { path: format!("/vms/{name}.raw"), writable: true }],
    }
}

const NOTHING: Byproducts = Byproducts {
    install_log: false,
    run_log: false,
    install_initrd: false,
    session: false,
};

// ---- messages and statuses -------------------------------------------------

#[test]
fn toast_lifetimes_favour_errors() {
    let toast = |level| Toast {
        text: String::new(),
        level,
        born: Some(0),
    };
    assert!(toast(ToastLevel::Error).lifetime() > toast(ToastLevel::Warn).lifetime());
    assert!(toast(ToastLevel::Warn).lifetime() > toast(ToastLevel::Info).lifetime());
    assert_eq!(toast(ToastLevel::Error).lifetime(), 14_000);
}

#[test]
fn status_labels_and_colors_are_distinct() {
    let all = [
        Status::Running,
        Status::Stopping,
        Status::Installing,
        Status::Suspending,
        Status::Suspended,
        Status::Stopped,
    ];
    for (i, a) in all.iter().enumerate() {
        for b in &all[i + 1..] {
            assert_ne!(a.label(), b.label());
            assert_ne!(a.color(), b.color());
        }
    }
}

#[test]
fn messages_expire_after_their_time() {
    let mut app = manager();
    app.toast(ToastLevel::Info, "hello".to_string());
    app.toast(ToastLevel::Error, "broken".to_string());
    app.desk.expire_toasts(1_000);
    assert_eq!(app.desk.toasts.len(), 2);
    assert_eq!(app.desk.toasts[0].born, Some(1_000));
    app.desk.expire_toasts(6_999);
    assert_eq!(app.desk.toasts.len(), 2);
    app.desk.expire_toasts(7_000);
    assert_eq!(app.desk.toasts.len(), 1);
    assert_eq!(app.desk.toasts[0].text, "broken");
    app.desk.expire_toasts(15_000);
    assert!(app.desk.toasts.is_empty());
}

// ---- starting up -----------------------------------------------------------

#[test]
fn a_broken_settings_file_is_told_and_not_fatal() {
    let found = |path: Option<String>, loaded| SettingsFound {
        host: Host::Linux,
        home: some("/home/s"),
        path,
        loaded,
    };
    let plain = startup(false, ScreenshotView::Main, false);
    let (settings, warning) = starting_settings(
        &plain,
        found(some("/cfg/manager.toml"), Err("cannot parse".to_string())),
    );
    assert_eq!(settings.vm_dir, "/home/s/entangled-vms");
    assert_eq!(warning.unwrap(), "cannot parse — using defaults");
    let (_, warning) = starting_settings(&plain, found(None, Err(String::new())));
    assert_eq!(
        warning.unwrap(),
        "no configuration directory; settings will not persist"
    );
    let overridden = Startup {
        vm_dir: some("/other"),
        entangled: some("/bin/e"),
        ..startup(false, ScreenshotView::Main, false)
    };
    let loaded = Settings { default_vcpus: 7, ..Settings::default(Host::Linux, &None) };
    let (settings, warning) =
        starting_settings(&overridden, found(some("/cfg/manager.toml"), Ok(loaded)));
    assert_eq!(settings.vm_dir, "/other");
    assert_eq!(settings.entangled_binary, some("/bin/e"));
    assert_eq!(settings.default_vcpus, 7);
    assert_eq!(warning, None);
}

#[test]
fn the_first_work_is_queued_in_order() {
    let app = manager();
    assert_eq!(app.desk.requests, vec![Request::CheckUpdate, Request::ProbeVersion]);
    assert_eq!(app.engine.as_ref().unwrap().path, "/usr/bin/entangled");
    let windows = ManagerApp::new(
        &startup(false, ScreenshotView::Main, true),
        settings(),
        None,
        &facts(Host::Windows),
    );
    assert_eq!(
        windows.desk.requests,
        vec![Request::ProbeVersion, Request::CheckWsl],
        "a render reaches no network"
    );
    assert_eq!(windows.wsl.engine, wslengine::Status::Checking);
    assert!(preview(ScreenshotView::Main).desk.requests.is_empty());
}

#[test]
fn renders_start_on_their_surface() {
    assert_eq!(preview(ScreenshotView::Disks).desk.view, Surface::Disks);
    assert_eq!(preview(ScreenshotView::SnapshotDelete).desk.view, Surface::Snapshots);
    assert_eq!(preview(ScreenshotView::SnapshotDiscard).desk.view, Surface::Machines);
    match preview(ScreenshotView::WizardWslReview).desk.modal {
        Modal::Wizard(w) => {
            assert_eq!(w.step, 3);
            assert_eq!(w.machine.backend, Backend::Wsl);
            assert_eq!(w.machine.name, "debian-1");
        }
        _ => panic!("no wizard"),
    }
    assert!(matches!(preview(ScreenshotView::Settings).desk.modal, Modal::Settings(_)));
}

#[test]
fn renders_open_what_only_a_scan_can_give() {
    let mut app = preview(ScreenshotView::SnapshotDiscard);
    assert_eq!(app.shot_target(), Some(ShotTarget::Discard("aurora-lab".to_string())));
    assert_eq!(app.open_screenshot_surface(Err(String::new()), MAX_PLAYERS, &None), None);
    assert!(matches!(app.desk.modal, Modal::DiscardSnapshot(_)));
    assert_eq!(app.shot_target(), None, "opened once");

    let mut app = preview(ScreenshotView::EditorStorage);
    app.open_screenshot_surface(Ok(config("aurora-lab")), MAX_PLAYERS, &None);
    match &app.desk.modal {
        Modal::EditVm(s) => {
            assert_eq!(s.section, EditVmSection::Storage);
            assert_eq!(s.form.name, "aurora-lab");
        }
        _ => panic!("no editor"),
    }
    let mut app = preview(ScreenshotView::SnapshotDelete);
    app.open_screenshot_surface(Err(String::new()), MAX_PLAYERS, &None);
    assert!(matches!(app.desk.modal, Modal::DeleteSnapshot(_)));
}

#[test]
fn frames_come_when_something_moves() {
    assert_eq!(shot_step(45, false, false), ShotStep::Wait);
    assert_eq!(shot_step(46, false, false), ShotStep::Ask);
    assert_eq!(shot_step(50, true, false), ShotStep::Wait);
    assert_eq!(shot_step(50, true, true), ShotStep::Save);
    assert_eq!(repaint_after(true, true, false), 40);
    assert_eq!(repaint_after(true, false, true), 40);
    assert_eq!(repaint_after(true, false, false), 1000);
    assert_eq!(repaint_after(false, true, true), 1000);
    assert_eq!(window_title("0.2.17"), "Entangled Desktop v0.2.17");
}

#[test]
fn files_are_shown_by_the_hosts_own_program() {
    assert_eq!(
        reveal_in_file_manager(FileManager::Explorer, Host::Windows, r"D:\a.raw").unwrap(),
        vec!["explorer", r"/select,D:\a.raw"]
    );
    assert_eq!(
        reveal_in_file_manager(FileManager::Xdg, Host::Linux, "/vms/a.raw").unwrap(),
        vec!["xdg-open", "/vms"]
    );
    assert_eq!(
        reveal_in_file_manager(FileManager::Finder, Host::Other, "/vms/a.raw").unwrap(),
        vec!["open", "-R", "/vms/a.raw"]
    );
    assert!(reveal_in_file_manager(FileManager::Absent, Host::Other, "/a").is_err());
    let mut app = manager();
    app.revealed(Err("denied".to_string()));
    assert_eq!(last(&app).1, "cannot open the file manager: denied");
}

// ---- scans -----------------------------------------------------------------

#[test]
fn scans_are_asked_for_one_at_a_time() {
    let mut app = manager();
    app.desk.requests.clear();
    app.request_scan(false);
    assert_eq!(app.desk.requests, vec![Request::Scan]);
    app.request_scan(true);
    assert_eq!(app.desk.requests.len(), 1, "one is under way");
    assert!(app.scanner.in_flight);
    app.collect_scan(Some(Err("no such directory".to_string())));
    assert_eq!(app.scanner.error, some("no such directory"));
    assert!(!app.scanner.in_flight);
    let found = Scan { vms: vec![vm("alpha")], ..Scan::default() };
    app.request_scan(true);
    app.collect_scan(Some(Ok(found)));
    assert_eq!(app.scanner.error, None);
    assert!(app.vm("alpha").is_some());
    assert!(app.vm("beta").is_none());
}

#[test]
fn a_manual_refresh_is_acknowledged() {
    let mut app = manager();
    assert_eq!(app.refresh_state(), RefreshState::Idle);
    assert_eq!(app.apply(Action::Refresh, &Ok(())), None);
    assert_eq!(app.refresh_state(), RefreshState::Scanning);
    app.collect_scan(Some(Ok(Scan::default())));
    assert_eq!(app.refresh_state(), RefreshState::Complete);
    app.now += 1_400;
    assert_eq!(app.refresh_state(), RefreshState::Idle);
}

// ---- running machines ------------------------------------------------------

#[test]
fn a_machine_runs_stops_and_is_told_about() {
    let mut app = library();
    let launch = app.start("alpha", &launch_facts()).expect("launch");
    assert_eq!(
        launch.spec.command_line(),
        "/usr/bin/entangled run --control-stdin /vms/alpha.toml"
    );
    assert_eq!(launch.spec.cwd, "/work");
    let id = app.launched(launch, Ok(())).expect("started");
    assert_eq!(app.status_of("alpha"), Status::Running);
    assert!(app.is_busy("alpha"));
    assert!(!app.is_busy("beta"));
    assert!(app.start("alpha", &launch_facts()).is_none(), "it runs already");
    assert_eq!(last(&app).0, ToastLevel::Warn);

    app.stop("alpha");
    assert_eq!(last(&app).1, "asking 'alpha' to shut down");
    assert_eq!(app.status_of("alpha"), Status::Stopping);
    app.stop("alpha");
    assert_eq!(last(&app).1, "killing 'alpha'");
    let outcome = Outcome {
        success: true,
        detail: "stopped on request".to_string(),
        stopped_by_user: true,
    };
    app.supervisor.finished(id, outcome);
    for (kind, vm, outcome) in app.supervisor.drain_finished() {
        app.task_finished(kind, &vm, &outcome, Ok(()));
    }
    assert_eq!(last(&app), (ToastLevel::Info, "'alpha' stopped".to_string()));
    assert_eq!(app.status_of("alpha"), Status::Stopped);
    app.stop("alpha");
    assert_eq!(last(&app).0, ToastLevel::Warn);
}

#[test]
fn a_machine_that_is_gone_or_has_no_engine_is_not_started() {
    let mut app = library();
    assert!(app.start("gamma", &launch_facts()).is_none());
    assert_eq!(last(&app).0, ToastLevel::Error);
    assert!(last(&app).1.contains("'gamma'"));
    let facts = LaunchFacts { engine: no_engine(), ..launch_facts() };
    assert!(app.start("alpha", &facts).is_none());
    assert_eq!(last(&app).0, ToastLevel::Error);
    assert!(app.engine.is_err());
    let launch = app.start("alpha", &launch_facts()).expect("launch");
    let failed = ProcessError::Spawn { program: "e".to_string(), source: "denied".to_string() };
    assert!(app.launched(launch, Err(failed)).is_err());
    assert!(last(&app).1.contains("denied"), "{}", last(&app).1);
    assert!(!app.is_busy("alpha"));
}

#[test]
fn a_failed_machine_opens_its_log_with_a_hint() {
    let mut app = library();
    let id = started(&mut app, "alpha");
    app.supervisor.output(id, "error: cannot open /dev/kvm: No such file\n");
    let outcome = Outcome {
        success: false,
        detail: "exited with status 1".to_string(),
        stopped_by_user: false,
    };
    app.supervisor.finished(id, outcome);
    for (kind, vm, outcome) in app.supervisor.drain_finished() {
        app.task_finished(kind, &vm, &outcome, Ok(()));
    }
    let (level, text) = last(&app);
    assert_eq!(level, ToastLevel::Error);
    assert!(text.contains("exited with status 1"), "{text}");
    assert!(text.contains("doctor"), "{text}");
    assert!(app.desk.log_open);
    assert_eq!(app.desk.log_selected, Some(id));
}

#[test]
fn a_machine_is_paused_and_goes_on() {
    let mut app = library();
    let id = started(&mut app, "alpha");
    assert_eq!(app.control_target("alpha"), Some(id));
    assert_eq!(app.control_target("beta"), None);
    assert_eq!(app.pause_command("alpha"), Command::Pause);
    app.toggle_pause("alpha", true);
    assert!(app.is_paused("alpha"));
    assert_eq!(app.pause_command("alpha"), Command::Continue);
    app.toggle_pause("alpha", true);
    assert!(!app.is_paused("alpha"));
    app.toggle_pause("alpha", false);
    assert!(!app.is_paused("alpha"), "a command that did not arrive changes nothing");
    app.reset("alpha", true);
    assert!(last(&app).1.contains("'alpha'"));
    app.reset("beta", true);
    assert_eq!(last(&app).0, ToastLevel::Warn);
}

#[test]
fn the_engines_answer_decides_what_a_suspend_was() {
    let mut app = library();
    let id = started(&mut app, "alpha");
    app.suspend("alpha", true);
    assert_eq!(app.status_of("alpha"), Status::Suspending);
    app.supervisor.answered(id, Ok("512 MiB".to_string()));
    let clean = || Outcome {
        success: true,
        detail: "exited normally".to_string(),
        stopped_by_user: false,
    };
    app.supervisor.finished(id, clean());
    for (kind, vm, outcome) in app.supervisor.drain_finished() {
        app.task_finished(kind, &vm, &outcome, Ok(()));
    }
    assert_eq!(
        last(&app),
        (ToastLevel::Success, "'alpha' suspended — 512 MiB".to_string())
    );
    app.scan.snapshots = vec![session("alpha")];
    assert_eq!(app.status_of("alpha"), Status::Suspended);

    let id = started(&mut app, "beta");
    app.suspend("beta", true);
    app.supervisor.answered(id, Err("no space".to_string()));
    app.supervisor.finished(id, clean());
    for (kind, vm, outcome) in app.supervisor.drain_finished() {
        app.task_finished(kind, &vm, &outcome, Ok(()));
    }
    let (level, text) = last(&app);
    assert_eq!(level, ToastLevel::Error);
    assert!(text.contains("could not be suspended: no space"), "{text}");
}

#[test]
fn a_suspended_machine_goes_back_or_starts_fresh() {
    let mut app = library();
    app.scan.snapshots = vec![session("alpha")];
    let launch = app
        .resume_vm("alpha", &Vec::new(), &launch_facts())
        .expect("resumable");
    assert!(launch.spec.command_line().contains("resume --control-stdin /vms/alpha.esnap"));
    assert!(app.resume_vm("beta", &Vec::new(), &launch_facts()).is_none());
    assert!(app
        .resume_snapshot("/vms/none.esnap", &Vec::new(), &launch_facts())
        .is_none());
    assert!(last(&app).1.contains("/vms/none.esnap"));

    assert!(app.ask_discard_snapshot("beta"), "nothing to throw away");
    assert!(!app.ask_discard_snapshot("alpha"));
    assert_eq!(app.confirm_discard_snapshot(Removal::Failed("denied".to_string())), None);
    assert!(error_of(&app).contains("denied"));
    assert_eq!(app.confirm_discard_snapshot(Removal::Missing), some("alpha"));
    assert!(!app.desk.modal.is_open());
}

#[test]
fn a_changed_machine_is_not_resumed() {
    let mut app = library();
    app.scan.snapshots = vec![session("alpha")];
    app.scan.vms[0].memory_mib = 4096;
    assert!(app.resume_vm("alpha", &Vec::new(), &launch_facts()).is_none());
    let (level, text) = last(&app);
    assert_eq!(level, ToastLevel::Error);
    assert!(text.contains("was 2048 MiB, is 4096 MiB"), "{text}");
}

#[test]
fn a_saved_session_is_deleted_after_a_question() {
    let mut app = library();
    app.scan.snapshots = vec![session("alpha")];
    app.ask_delete_snapshot("/vms/none.esnap");
    assert_eq!(last(&app).0, ToastLevel::Error);
    app.ask_delete_snapshot("/vms/alpha.esnap");
    assert_eq!(app.session_to_delete(), some("/vms/alpha.esnap"));
    app.confirm_delete_snapshot(Removal::Removed);
    assert_eq!(last(&app).1, "deleted the saved session /vms/alpha.esnap");
    assert!(!app.desk.modal.is_open());
    started(&mut app, "alpha");
    app.ask_delete_snapshot("/vms/alpha.esnap");
    assert_eq!(last(&app).0, ToastLevel::Warn);
    assert_eq!(remove_if_present("/a", Removal::Missing), Ok(()));
    assert_eq!(
        remove_if_present("/a", Removal::Failed("x".to_string())),
        Err("cannot delete /a: x".to_string())
    );
}

// ---- new machines ----------------------------------------------------------

fn wizard_facts() -> WizardFacts {
    WizardFacts {
        profile_exists: false,
        disk_exists: false,
        disk_is_file: false,
        iso_is_file: false,
    }
}

#[test]
fn a_new_machine_is_installed_and_gets_its_resources() {
    let mut app = library();
    app.open_wizard(&Vec::new());
    if let Modal::Wizard(w) = &mut app.desk.modal {
        assert_eq!(w.machine.name, "debian-1");
        w.machine.name = " demo ".to_string();
        w.machine.memory_mib = 4096;
    }
    let launch = app
        .submit_wizard(wizard_facts(), Ok(()), &launch_facts())
        .expect("installer");
    assert!(launch.spec.command_line().contains("install debian"));
    let id = app.launched(launch, Ok(())).expect("started");
    assert!(!app.desk.modal.is_open());
    assert_eq!(app.pending.len(), 1);
    assert_eq!(app.status_of("demo"), Status::Installing);
    let good = Outcome {
        success: true,
        detail: "exited normally".to_string(),
        stopped_by_user: false,
    };
    app.supervisor.finished(id, good);
    for (kind, vm, outcome) in app.supervisor.drain_finished() {
        assert_eq!(kind, TaskKind::Install);
        assert_eq!(
            app.resources_to_apply(kind, &vm, &outcome),
            Some(("/vms/demo.toml".to_string(), 4096, 2))
        );
        app.task_finished(kind, &vm, &outcome, Ok(()));
    }
    assert_eq!(last(&app).1, "'demo' installed (4096 MiB, 2 vCPU)");
}

#[test]
fn the_wizard_says_what_is_wrong() {
    let mut app = library();
    app.open_wizard(&Vec::new());
    let mut submit = |name: &str, facts: WizardFacts| {
        if let Modal::Wizard(w) = &mut app.desk.modal {
            w.machine.name = name.to_string();
            w.machine.disk_mode = DiskMode::CreateNew;
        }
        assert!(app.submit_wizard(facts, Ok(()), &launch_facts()).is_none());
        error_of(&app)
    };
    assert!(!submit("", wizard_facts()).is_empty());
    assert!(!submit("two words", wizard_facts()).is_empty());
    assert!(submit("alpha", wizard_facts()).contains("alpha"));
    let taken = WizardFacts { profile_exists: true, ..wizard_facts() };
    assert!(!submit("demo", taken).is_empty());
    let disk = WizardFacts { disk_exists: true, ..wizard_facts() };
    assert!(!submit("demo", disk).is_empty());
    if let Modal::Wizard(w) = &mut app.desk.modal {
        w.machine.name = "demo".to_string();
    }
    let denied = app.submit_wizard(wizard_facts(), Err("denied".to_string()), &launch_facts());
    assert!(denied.is_none());
    assert_eq!(error_of(&app), "cannot create /vms: denied");
}

// ---- deleting, editing, disks ----------------------------------------------

#[test]
fn a_machine_is_deleted_once_its_name_is_typed() {
    let mut app = library();
    app.ask_delete("alpha", NOTHING);
    assert_eq!(app.files_to_delete(NOTHING), None, "nothing typed yet");
    app.confirm_delete(NOTHING, &Vec::new());
    assert!(error_of(&app).contains("does not match 'alpha'"));
    if let Modal::Delete(s) = &mut app.desk.modal {
        s.typed = "alpha\n".to_string();
    }
    let files = app.files_to_delete(NOTHING).expect("files");
    assert_eq!(files, vec!["/vms/alpha.toml", "/vms/alpha.raw"]);
    let failed = vec![Removal::Removed, Removal::Failed("denied".to_string())];
    app.confirm_delete(NOTHING, &failed);
    assert_eq!(error_of(&app), "cannot remove /vms/alpha.raw: denied");
    app.confirm_delete(NOTHING, &vec![Removal::Removed, Removal::Removed]);
    assert!(!app.desk.modal.is_open());
    assert_eq!(last(&app).0, ToastLevel::Success);
    started(&mut app, "beta");
    app.ask_delete("beta", NOTHING);
    assert_eq!(last(&app).0, ToastLevel::Warn);
}

#[test]
fn a_disk_is_created_under_a_free_name() {
    let mut app = library();
    app.open_create_disk(&vec![true, true]);
    match &app.desk.modal {
        Modal::CreateDisk(s) => {
            assert_eq!(s.name, "disk-3");
            assert_eq!(s.size, "16G");
        }
        _ => panic!("no dialog"),
    }
    assert_eq!(app.disk_to_create(&Ok(512)), some("/vms/disk-3.raw"));
    assert_eq!(app.disk_to_create(&Err("what?".to_string())), None);
    app.submit_create_disk(Err("what?".to_string()), Ok(()), Ok(()));
    assert_eq!(error_of(&app), "what?");
    app.submit_create_disk(Ok(512), Err("denied".to_string()), Ok(()));
    assert_eq!(error_of(&app), "cannot create /vms: denied");
    app.submit_create_disk(Ok(1 << 30), Ok(()), Ok(()));
    assert_eq!(last(&app).1, "created /vms/disk-3.raw (1.0 GiB, sparse)");
    app.open_create_disk(&vec![true; 99]);
    assert!(matches!(&app.desk.modal, Modal::CreateDisk(s) if s.name == "disk-1"));
}

#[test]
fn a_disk_is_deleted_only_when_nothing_attaches_it() {
    let mut app = library();
    app.ask_delete_disk("/vms/none.raw");
    assert_eq!(last(&app), (ToastLevel::Error, "that disk is gone from the list".to_string()));
    app.ask_delete_disk("/vms/alpha.raw");
    assert_eq!(app.disk_to_delete(), None);
    app.confirm_delete_disk(Ok(1));
    assert!(error_of(&app).contains("still attached"));
    app.ask_delete_disk("/vms/loose.raw");
    assert_eq!(app.disk_to_delete(), some("/vms/loose.raw"));
    app.confirm_delete_disk(Ok(2));
    assert_eq!(last(&app).1, "deleted /vms/loose.raw and its .nvram sidecar");
    started(&mut app, "beta");
    app.ask_delete_disk("/vms/beta.raw");
    assert_eq!(last(&app).0, ToastLevel::Warn);
}

#[test]
fn a_disk_is_attached_to_a_stopped_machine() {
    let mut app = library();
    started(&mut app, "alpha");
    app.open_attach_disk("/vms/loose.raw");
    match &app.desk.modal {
        Modal::AttachDisk(s) => assert_eq!(s.selected, some("beta")),
        _ => panic!("no dialog"),
    }
    assert_eq!(
        app.attach_plan(),
        Some(("/vms/beta.toml".to_string(), "/vms/loose.raw".to_string()))
    );
    if let Modal::AttachDisk(s) = &mut app.desk.modal {
        s.selected = some("alpha");
    }
    app.submit_attach_disk(Ok(()));
    assert_eq!(error_of(&app), "'alpha' is running — stop it first");
    if let Modal::AttachDisk(s) = &mut app.desk.modal {
        s.selected = None;
    }
    app.submit_attach_disk(Ok(()));
    assert_eq!(error_of(&app), "pick a machine to attach to");
    if let Modal::AttachDisk(s) = &mut app.desk.modal {
        s.selected = some("beta");
    }
    app.submit_attach_disk(Ok(()));
    assert_eq!(last(&app).1, "attached /vms/loose.raw to 'beta'");
    app.detach_disk("beta", "/vms/loose.raw", Ok(()));
    assert_eq!(last(&app).1, "detached /vms/loose.raw from 'beta'");
    app.detach_disk("alpha", "/vms/alpha.raw", Ok(()));
    assert_eq!(last(&app).0, ToastLevel::Warn);
    app.detach_disk("beta", "/x", Err("no disk entry".to_string()));
    assert_eq!(last(&app), (ToastLevel::Error, "no disk entry".to_string()));
}

#[test]
fn an_edited_machine_keeps_its_backend() {
    let mut app = library();
    app.ask_edit_vm("gamma", Err(String::new()), MAX_PLAYERS, &None);
    assert_eq!(last(&app).0, ToastLevel::Error);
    app.ask_edit_vm("alpha", Err("broken".to_string()), MAX_PLAYERS, &None);
    assert_eq!(last(&app).1, "cannot open 'alpha' for editing: broken");
    app.ask_edit_vm("alpha", Ok(config("alpha")), MAX_PLAYERS, &some("/work"));
    if let Modal::EditVm(s) = &mut app.desk.modal {
        assert_eq!(s.section, EditVmSection::Hardware);
        assert_eq!(s.form.work_dir, "/work");
        s.form.backend = Backend::Wsl;
    }
    app.desk.requests.clear();
    app.submit_edit_vm(Err("denied".to_string()));
    assert_eq!(error_of(&app), "denied");
    app.submit_edit_vm(Ok(()));
    assert_eq!(last(&app).1, "saved 'alpha'");
    assert_eq!(app.settings.backend_for("alpha", Host::Windows), Backend::Wsl);
    assert!(app.desk.requests.contains(&Request::SaveSettings));
    assert!(!app.desk.modal.is_open());
    started(&mut app, "beta");
    app.ask_edit_vm("beta", Ok(config("beta")), MAX_PLAYERS, &None);
    assert_eq!(last(&app).1, "'beta' is busy — stop it before editing");
}

#[test]
fn a_move_runs_in_its_own_dialog() {
    let mut app = library();
    let mut row = disk("alpha", &["alpha", "beta"]);
    row.attachments[1].profile = "/vms/alpha.toml".to_string();
    app.scan.disks = vec![row];
    app.ask_move_disk("/vms/alpha.raw");
    assert!(app.submit_move_disk().is_none());
    assert_eq!(error_of(&app), "name a destination directory");
    if let Modal::MoveDisk(s) = &mut app.desk.modal {
        s.dest = " /big ".to_string();
    }
    let plan = app.submit_move_disk().expect("plan");
    assert_eq!(plan.dest, "/big");
    assert_eq!(plan.profiles, vec!["/vms/alpha.toml"], "each profile once");
    app.move_started(Err("no threads".to_string()));
    assert_eq!(error_of(&app), "cannot start the move worker: no threads");
    app.move_started(Ok(()));
    assert!(app.submit_move_disk().is_none(), "one is running");
    assert_eq!(app.apply(Action::CloseModal, &Ok(())), None);
    assert!(app.desk.modal.is_open(), "a running move keeps its dialog");
    app.collect_move_events(&vec![MoveEvent::Progress(1, 4), MoveEvent::Progress(2, 4)]);
    assert!(matches!(&app.desk.modal, Modal::MoveDisk(s) if s.progress == Some((2, 4))));
    app.collect_move_events(&vec![MoveEvent::Done(Err("disk full".to_string()))]);
    assert_eq!(error_of(&app), "disk full");
    app.move_started(Ok(()));
    let outcome = MoveOutcome {
        moved: vec![("/vms/alpha.raw".to_string(), "/big/alpha.raw".to_string())],
        data_bytes: 2048,
        updated_profiles: vec!["/vms/alpha.toml".to_string()],
        leftover_sources: vec!["/vms/alpha.raw".to_string()],
    };
    app.collect_move_events(&vec![MoveEvent::Done(Ok(outcome))]);
    assert!(!app.desk.modal.is_open());
    let texts: Vec<&str> = app.desk.toasts.iter().map(|t| t.text.as_str()).collect();
    assert!(texts.contains(
        &"moved /big/alpha.raw — 2.0 KiB of data copied and verified; 1 profile(s) updated"
    ));
    assert!(last(&app).1.starts_with("could not delete the source /vms/alpha.raw"));
}

#[test]
fn progress_is_told_by_whole_percents() {
    let mut throttle = Throttle::new();
    assert!(throttle.tell(0, 1000));
    assert!(!throttle.tell(9, 1000));
    assert!(throttle.tell(10, 1000));
    assert!(throttle.tell(1000, 1000));
    let mut nothing = Throttle::new();
    assert!(nothing.tell(0, 0));
    assert_eq!(nothing.last, Some(100), "nothing to copy is all copied");
}

#[test]
fn a_disk_is_grown() {
    let mut app = library();
    app.ask_resize_disk("/vms/loose.raw");
    assert!(matches!(&app.desk.modal, Modal::ResizeDisk(s) if s.size == "11G"));
    assert_eq!(app.disk_to_resize(&Ok(1)), some("/vms/loose.raw"));
    app.submit_resize_disk(Err("what?".to_string()), Ok((0, 0)));
    assert_eq!(error_of(&app), "what?");
    app.submit_resize_disk(Ok(1), Err("smaller".to_string()));
    assert_eq!(error_of(&app), "smaller");
    app.submit_resize_disk(Ok(11 << 30), Ok((11 << 30, 3 << 30)));
    assert_eq!(
        last(&app).1,
        "/vms/loose.raw is now 11.0 GiB (was 3.0 GiB) — grow the filesystem inside the guest to \
         use it"
    );
    app.create_vm_dir(Ok(()));
    assert_eq!(last(&app).1, "created /vms");
    app.create_vm_dir(Err("denied".to_string()));
    assert_eq!(last(&app).1, "cannot create /vms: denied");
}

// ---- settings, pickers, updates --------------------------------------------

#[test]
fn settings_are_edited_in_a_form() {
    let mut app = library();
    app.open_settings();
    assert!(app.edited_settings().is_some());
    if let Modal::Settings(form) = &mut app.desk.modal {
        form.vm_dir = "  ".to_string();
    }
    assert!(app.edited_settings().is_none());
    app.save_settings(Ok(()), &engine_facts());
    assert_eq!(last(&app), (ToastLevel::Warn, "the VM directory must not be empty".to_string()));
    if let Modal::Settings(form) = &mut app.desk.modal {
        form.vm_dir = " /more ".to_string();
        form.work_dir = "/w".to_string();
    }
    app.save_settings(Ok(()), &engine_facts());
    assert_eq!(app.settings.vm_dir, "/more");
    assert_eq!(app.settings.work_dir, some("/w"));
    assert_eq!(last(&app).1, "settings saved to /cfg/manager.toml");
    assert!(!app.desk.modal.is_open());
}

#[test]
fn picked_paths_land_in_their_field() {
    let mut app = library();
    app.open_settings();
    let (current, _) = app.picker_places(PickTarget::VmDir, &some("/work"));
    assert_eq!(current, "/vms");
    let facts = DirFacts { current: true, parent: true, fallback: vec![true] };
    let plan = app
        .open_picker(PickTarget::VmDir, &some("/work"), &facts)
        .expect("dialog");
    assert_eq!(plan.start, "/vms");
    app.picker_opened(PickTarget::VmDir, Ok(()));
    assert!(
        app.open_picker(PickTarget::WorkDir, &None, &facts).is_none(),
        "one dialog at a time"
    );
    assert!(!app.collect_picker(some("/picked")));
    match &app.desk.modal {
        Modal::Settings(form) => assert_eq!(form.vm_dir, "/picked"),
        _ => panic!("no settings"),
    }
}

#[test]
fn updates_are_offered_and_downloaded_once() {
    let mut app = library();
    app.desk.requests.clear();
    app.install_update();
    assert!(app.desk.requests.is_empty(), "nothing is offered");
    let info = |url: Option<String>| UpdateInfo {
        version: Version { major: 0, minor: 3, patch: 0 },
        installer_url: url,
        installer_name: None,
        page_url: "https://example.invalid/v0.3.0".to_string(),
    };
    app.update_found(info(None));
    app.install_update();
    assert_eq!(last(&app).0, ToastLevel::Warn);
    app.update_found(info(some("https://example.invalid/setup.exe")));
    app.install_update();
    app.install_update();
    assert_eq!(app.desk.requests, vec![Request::DownloadUpdate]);
    app.update_downloaded(Err("offline".to_string()));
    assert!(!app.update.downloading);
    assert!(last(&app).1.contains("offline"));
    assert_eq!(app.apply(Action::DismissUpdate, &Ok(())), None);
    assert_eq!(app.update.offer, None);
}

#[test]
fn wsl_is_asked_once_per_question() {
    let mut app = ManagerApp::new(
        &startup(false, ScreenshotView::Main, false),
        settings(),
        None,
        &facts(Host::Windows),
    );
    app.desk.requests.clear();
    app.ensure_wsl_check(false);
    assert!(app.desk.requests.is_empty(), "the answer is under way");
    app.wsl_answered(Err(EngineFault {
        fault: Fault::NoEngine,
        what: "no engine".to_string(),
        fix: "install one".to_string(),
        sentence: "no engine. install one".to_string(),
    }));
    assert_eq!(app.preferred_backend(), Backend::Native);
    assert!(app.backend_block(Backend::Wsl).is_some());
    app.ensure_wsl_check(false);
    assert!(app.desk.requests.is_empty(), "the question is the same");
    app.ensure_wsl_check(true);
    assert_eq!(app.desk.requests, vec![Request::CheckWsl]);
    app.wsl_answered(Ok(EngineFound {
        distro: "Ubuntu".to_string(),
        command: "entangled".to_string(),
        path: None,
        version: None,
        summary: "entangled in Ubuntu".to_string(),
    }));
    assert!(app.backend_block(Backend::Wsl).is_none());
    assert_eq!(app.install_wsl_engine(some("developer build")), None);
    assert_eq!(last(&app).1, "developer build");
    assert!(app.install_wsl_engine(None).is_some());
    assert_eq!(app.install_wsl_engine(None), None, "it is under way");
    app.wsl_installed(Ok(Installed {
        path: "/home/s/entangled".to_string(),
        summary: "entangled 0.2.17".to_string(),
        cached: false,
        rechecked: true,
    }));
    assert!(!app.wsl.install_running);
    assert_eq!(last(&app).0, ToastLevel::Success);
}

#[test]
fn the_host_check_runs_one_at_a_time() {
    let mut app = library();
    let run = app.run_diagnostics(&some("/work")).expect("a check");
    assert_eq!(run.cwd, "/work");
    assert!(app.doctor.running);
    assert!(app.run_diagnostics(&some("/work")).is_none());
    app.collect_diagnostics(entangled_manager::hostcheck::mock_report());
    assert!(!app.doctor.running);
    assert!(app.doctor.report.is_some());
}

#[test]
fn the_newest_log_is_selected() {
    let mut app = library();
    app.ensure_log_selection();
    assert_eq!(app.desk.log_selected, None);
    let first = started(&mut app, "alpha");
    let second = started(&mut app, "beta");
    app.desk.log_selected = None;
    app.ensure_log_selection();
    assert_eq!(app.desk.log_selected, Some(second));
    app.apply(Action::SelectLog(first), &Ok(()));
    app.ensure_log_selection();
    assert_eq!(app.desk.log_selected, Some(first), "a choice stays");
    assert_eq!(app.targets().len(), 2);
}

// ---- actions ---------------------------------------------------------------

#[test]
fn actions_that_need_the_host_are_handed_back() {
    let mut app = library();
    for action in [
        Action::Start("alpha".to_string()),
        Action::SubmitWizard,
        Action::ConfirmDelete,
        Action::PickPath(PickTarget::VmDir),
    ] {
        let text = format!("{action:?}");
        let back = app.apply(action, &Ok(())).expect("handed back");
        assert_eq!(format!("{back:?}"), text);
    }
    let copied = app.apply(Action::CopyProfilePath("/vms/alpha.toml".to_string()), &Ok(()));
    assert!(copied.is_some());
    assert_eq!(last(&app).1, "copied /vms/alpha.toml");
    assert_eq!(
        app.apply(Action::AskDiscardSnapshot("alpha".to_string()), &Ok(())),
        Some(Action::Start("alpha".to_string())),
        "nothing to throw away, so it is a start"
    );
    app.apply(Action::DismissToast(0), &Ok(()));
    assert!(app.desk.toasts.is_empty());
    app.apply(Action::DismissToast(5), &Ok(()));
    app.apply(Action::ToggleLogPane, &Ok(()));
    assert!(app.desk.log_open);
    app.apply(Action::ToggleLogPane, &Ok(()));
    assert!(!app.desk.log_open);
    app.apply(Action::SwitchView(Surface::Disks), &Ok(()));
    assert_eq!(app.desk.view, Surface::Disks);
    app.apply(Action::OpenSettings, &Ok(()));
    assert!(app.desk.modal.is_open());
    app.apply(Action::CloseModal, &Ok(()));
    assert!(!app.desk.modal.is_open());
}

#[test]
fn a_session_with_sample_data_leaves_the_host_alone() {
    let mut app = preview(ScreenshotView::Main);
    let mut play = |action: Action| {
        assert_eq!(app.apply(action, &Ok(())), None);
        last(&app).1
    };
    assert_eq!(play(Action::Start("ubuntu-lab".to_string())), "Mock: started 'ubuntu-lab'");
    assert_eq!(play(Action::Refresh), "Mock data refreshed");
    assert_eq!(
        play(Action::CreateVmDir),
        "Mock mode: host-side action received; nothing was changed"
    );
    assert_eq!(
        play(Action::PickPath(PickTarget::VmDir)),
        "Mock mode: the file browser is not opened; type a path instead"
    );
    assert_eq!(play(Action::RunDiagnostics), "Mock: showing a sample host report");
    assert_eq!(
        play(Action::InstallWslEngine),
        "Mock: the Linux engine would be downloaded, verified and installed"
    );
    assert_eq!(play(Action::ResumeVm("aurora-lab".to_string())), "Mock: resumed 'aurora-lab'");
    assert_eq!(app.status_of("ubuntu-lab"), Status::Running);
    assert_eq!(app.status_of("aurora-lab"), Status::Running);
    assert!(app.snapshot_for("aurora-lab").is_none());
    assert!(app.wsl.engine.usable());
    assert!(app.supervisor.tasks().is_empty());
}

#[test]
fn sample_machines_and_disks_can_be_deleted() {
    let mut app = preview(ScreenshotView::Main);
    app.ask_delete("ubuntu-lab", NOTHING);
    app.apply(Action::ConfirmDelete, &Ok(()));
    assert_eq!(error_of(&app), "type 'ubuntu-lab' to confirm");
    if let Modal::Delete(s) = &mut app.desk.modal {
        s.typed = "ubuntu-lab".to_string();
    }
    app.apply(Action::ConfirmDelete, &Ok(()));
    assert!(app.vm("ubuntu-lab").is_none());
    assert!(app.scan.disks.iter().all(|d| d.attachments.iter().all(|a| a.vm != "ubuntu-lab")));
    assert_eq!(app.scan.disks.len(), 3);

    app.open_create_disk(&Vec::new());
    app.apply(Action::SubmitCreateDisk, &Ok(()));
    assert_eq!(app.scan.disks.len(), 4);
    assert_eq!(app.scan.disks[3].path, "mock-vms/disk-1.raw");
    app.apply(Action::AskDeleteDisk("mock-vms/disk-1.raw".to_string()), &Ok(()));
    app.apply(Action::ConfirmDeleteDisk, &Ok(()));
    assert_eq!(app.scan.disks.len(), 3);

    app.ask_edit_vm("aurora-lab", Ok(config("aurora-lab")), MAX_PLAYERS, &None);
    app.apply(Action::SubmitEditVm, &Err("boot.firmware is required".to_string()));
    assert_eq!(error_of(&app), "boot.firmware is required");
    app.apply(Action::SubmitEditVm, &Ok(()));
    assert_eq!(last(&app).1, "Mock: machine changes saved in memory");
}

#[test]
fn a_sample_that_cannot_be_read_opens_no_editor() {
    let mut app = preview(ScreenshotView::Main);
    app.ask_edit_vm("aurora-lab", Err("bad profile".to_string()), MAX_PLAYERS, &None);
    assert!(matches!(app.desk.modal, Modal::Closed));
    assert_eq!(
        last(&app),
        (ToastLevel::Error, "cannot open 'aurora-lab' for editing: bad profile".to_string())
    );
}

#[test]
fn the_sample_engine_is_refused_and_found_in_the_given_words() {
    let mut app = preview(ScreenshotView::Main);
    assert_eq!(
        app.wsl.engine.refusal().as_deref(),
        Some("Ubuntu has no engine: let the manager install one")
    );
    app.apply(Action::InstallWslEngine, &Ok(()));
    assert_eq!(app.wsl.engine.line().as_deref(), Some("entangled 0.2.17 in Ubuntu"));
}

// ---- sample data -----------------------------------------------------------

#[test]
fn fixture_covers_machine_disk_and_status_states() {
    let scan = mock::scan(Host::Linux, 1_790_000_000, "0.2.17");
    let statuses = mock::statuses();
    assert_eq!(scan.vms.len(), 5);
    assert_eq!(scan.disks.len(), 3);
    let all: Vec<Status> = scan
        .vms
        .iter()
        .filter_map(|vm| statuses.get(&vm.name).copied())
        .collect();
    assert!(all.contains(&Status::Running));
    assert!(all.contains(&Status::Installing));
    assert!(all.contains(&Status::Suspending));
    assert!(scan.disks.iter().any(|disk| disk.attachments.is_empty()));
    let names: Vec<&str> = scan.vms.iter().map(|v| v.name.as_str()).collect();
    let mut sorted = names.clone();
    sorted.sort();
    assert_eq!(names, sorted);
    let stats = mock::metrics();
    assert_eq!(stats.vms.get("nebula-dev").unwrap().cpu_percent.unwrap().part, 37);
}

#[test]
fn the_snapshot_fixture_shows_every_verdict_on_both_hosts() {
    for host in [Host::Linux, Host::Windows] {
        let scan = mock::scan(host, 1_790_000_000, "0.2.17");
        assert_eq!(scan.snapshots.len(), 3);
        let backend = Backend::Native;
        let states: Vec<FileState> = Vec::new();
        let find = |name: &str| scan.vms.iter().find(|vm| vm.name == name);

        let healthy = &scan.snapshots[0];
        let judged = verdict(healthy, backend, find("aurora-lab"), &states, host);
        assert!(judged.resumable(), "{:?}", judged.blocked);
        assert_eq!(
            healthy.path,
            path_for(host, find("aurora-lab").expect("machine"))
        );

        let foreign = verdict(&scan.snapshots[1], backend, None, &states, host);
        assert!(!foreign.resumable());
        let unreadable = verdict(&scan.snapshots[2], backend, None, &states, host);
        assert!(!unreadable.resumable());
    }
}
