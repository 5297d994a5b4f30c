//! What the surfaces say and offer.
use entangled_manager::backend::Backend;
use entangled_manager::cards::{live_stats_line, vm_card};
use entangled_manager::discovery::{DiskAttachment, DiskRow, ScanProblem};
use entangled_manager::editor::EditForm;
use entangled_manager::forms::{
    attach_candidates, device_name, doomed_line, edit_message, existing_disks, move_buttons,
    move_notes, move_progress, path_status_note, savable, size_note, step_mark, summary_rows,
};
use entangled_manager::host::Host;
use entangled_manager::launcher::{
    BootstrapFacts, DiskMode, EngineFacts, FirmwareFacts, GuestFamily, Pair, Place,
};
use entangled_manager::launching::LaunchFacts;
use entangled_manager::profile::{
    BootMode, BootSection, DiskSection, DisplaySection, GamepadBackend, GamepadSection,
    SoundBackend, SoundSection, VirtioTransport, VmConfig,
};
use entangled_manager::settings::Settings;
use entangled_manager::startup::{StartFacts, Startup};
use entangled_manager::state::{
    Action, EditVmSection, EditVmState, ManagerApp, Modal, MoveDiskState, ScreenshotView, Status,
    ToastLevel,
};
use entangled_manager::surfaces::{
    active_machines, banners, capabilities, describe, disk_row, dropped_note, host_status,
    problem_line, session_totals, snapshot_row, space_chip, storage_dirs, update_banner,
};
use entangled_manager::update::{UpdateInfo, Version};
use entangled_manager::wording::{
    accent_for, count, elapsed, glyph, line_color, pressure, shorten, shorten_end, variant_label,
    Button, Ink,
};

fn engine_facts(present: bool) -> EngineFacts {
    EngineFacts {
        chosen_is_file: false,
        beside: None,
        on_path: vec![Place { dir: "/usr/bin".to_string(), present }],
    }
}

fn app_on(host: Host, mock: bool, engine: bool) -> ManagerApp {
    let startup = Startup {
        vm_dir: None,
        entangled: None,
        screenshot: None,
        screenshot_view: ScreenshotView::Main,
        mock,
    };
    let facts = StartFacts {
        host,
        version: "0.2.17".to_string(),
        now: 10_000,
        now_unix: 1_790_000_000,
        settings_path: None,
        engine: engine_facts(engine),
        profiles: Vec::new(),
        refusal: "Ubuntu has no engine: let the manager install one".to_string(),
        summary: "entangled 0.2.17 in Ubuntu".to_string(),
    };
    let settings = Settings { vm_dir: "mock-vms".to_string(), ..Settings::default(Host::Linux, &None) };
    ManagerApp::new(&startup, settings, None, &facts)
}

fn preview() -> ManagerApp {
    app_on(Host::Linux, true, true)
}

fn labels(buttons: &[Button]) -> Vec<(&str, bool)> {
    buttons.iter().map(|b| (b.label.as_str(), b.enabled)).collect()
}

fn card(app: &ManagerApp, name: &str) -> entangled_manager::cards::Card {
    let vm = app.vm(name).expect("machine");
    vm_card(app, vm, &Vec::new(), "3 hours ago", None, None)
}

// ---- words -----------------------------------------------------------------

#[test]
fn accents_are_stable_and_in_range() {
    for name in ["debian-demo", "a", "very-long-machine-name-1234"] {
        let value = accent_for(name) as f32 / 100.0;
        assert_eq!(value, accent_for(name) as f32 / 100.0);
        assert!((0.0..1.0).contains(&value), "{name} → {value}");
    }
    assert_eq!(accent_for("a"), 97);
    assert_eq!(accent_for("aé"), (97 + 0xc3 + 0xa9) % 100);
}

#[test]
fn shorten_end_keeps_the_start_of_a_refusal() {
    let reason = "This was saved on Linux/KVM and the machine is set to run on \
                  Windows/WHP.";
    let short = shorten_end(reason, 30);
    assert!(short.starts_with("This was saved on"), "{short}");
    assert!(short.ends_with('…'), "{short}");
    assert!(short.chars().count() <= 30, "{short}");
    assert_eq!(shorten_end("short", 30), "short");
}

#[test]
fn shorten_keeps_the_tail_of_a_path() {
    assert_eq!(shorten("/vms/a.toml", 40), "/vms/a.toml");
    let long = "/home/spider/entangled-vms/some-really-long-name.toml";
    let short = shorten(long, 20);
    assert_eq!(short.chars().count(), 20);
    assert!(short.starts_with('…'));
    assert!(short.ends_with("name.toml"));
    assert_eq!(shorten("long", 0), "…");
}

#[test]
fn accents_are_stable_and_shortening_keeps_the_tail() {
    assert_eq!(accent_for("a.raw"), accent_for("a.raw"));
    assert!((0.0..1.0).contains(&(accent_for("desktop.raw") as f32 / 100.0)));
    let long = "D:/very/long/path/to/some/machine/desktop.raw";
    let short = shorten(long, 20);
    assert_eq!(short.chars().count(), 20);
    assert!(short.ends_with("desktop.raw"));
}

#[test]
fn accents_are_stable_and_shortening_keeps_the_file_name() {
    assert_eq!(accent_for("a.esnap"), accent_for("a.esnap"));
    assert!((0.0..1.0).contains(&(accent_for("ubuntu-lab.esnap") as f32 / 100.0)));
    let long = "D:/very/long/path/to/some/machine/ubuntu-lab.esnap";
    let short = shorten(long, 24);
    assert_eq!(short.chars().count(), 24);
    assert!(short.ends_with("ubuntu-lab.esnap"));
}

#[test]
fn elapsed_is_compact() {
    assert_eq!(elapsed(9), "9s");
    assert_eq!(elapsed(252), "4m12s");
    assert_eq!(elapsed(3600 + 7 * 60), "1h07m");
}

#[test]
fn severity_colouring_picks_out_failures() {
    assert_eq!(line_color("error: cannot open TAP"), Ink::Bad);
    assert_eq!(line_color("WARN cannot open a window"), Ink::Warn);
    assert_eq!(line_color("2026-08-19 INFO vm running"), Ink::Plain);
    assert_eq!(line_color("[    0.000000] Linux version"), Ink::Dim);
}

#[test]
fn small_words_fit_their_numbers() {
    assert_eq!(count(1, "image"), "1 image");
    assert_eq!(count(3, "image"), "3 images");
    assert_eq!(variant_label("netinst-iso"), "Official netinst ISO");
    assert_eq!(variant_label("anything"), "Graphical installer · network");
    assert_eq!(glyph(ToastLevel::Error), "×");
    assert_eq!(pressure(20, 100), Ink::Dim);
    assert_eq!(pressure(19, 100), Ink::Warn);
    assert_eq!(pressure(4, 100), Ink::Bad);
    assert_eq!(pressure(0, 0), Ink::Dim);
}

// ---- cards -----------------------------------------------------------------

#[test]
fn each_state_offers_its_own_buttons() {
    let app = preview();
    assert_eq!(
        labels(&card(&app, "ubuntu-lab").buttons),
        vec![("Start", true), ("Configure", true)]
    );
    assert_eq!(
        labels(&card(&app, "nebula-dev").buttons),
        vec![
            ("Stop", true),
            ("Pause", false),
            ("Restart", false),
            ("Suspend", false),
            ("Configure", false)
        ],
        "a machine that was not started from here cannot be controlled"
    );
    assert_eq!(card(&app, "nebula-dev").button_lines, 2);
    assert_eq!(
        labels(&card(&app, "installer-preview").buttons),
        vec![("Abort", true), ("Configure", false)]
    );
    assert_eq!(labels(&card(&app, "orion-build").buttons), vec![("Configure", false)]);
    let aurora = card(&app, "aurora-lab");
    assert_eq!(aurora.status, Status::Suspended);
    assert_eq!(
        labels(&aurora.buttons),
        vec![("Resume", true), ("Start fresh…", true), ("Configure", true)]
    );
    assert!(aurora.buttons[0].primary);
    assert_eq!(aurora.session[0].text, "saved 3 hours ago · 1.1 GiB");
    assert_eq!(
        labels(&aurora.menu),
        vec![
            ("Copy profile path", true),
            ("Forget the saved session", true),
            ("Delete machine", true)
        ]
    );
}

#[test]
fn a_machine_with_a_missing_disk_is_not_started() {
    let mut app = preview();
    for vm in &mut app.scan.vms {
        for disk in &mut vm.disks {
            disk.exists = false;
        }
    }
    let stopped = card(&app, "ubuntu-lab");
    assert_eq!(labels(&stopped.buttons), vec![("Configure", true)]);
    assert_eq!(stopped.storage.text, "disk image missing");
    assert_eq!(stopped.storage.ink, Ink::Bad);
    assert_eq!(labels(&card(&app, "aurora-lab").buttons)[1], ("Start fresh…", false));
}

#[test]
fn a_session_that_cannot_go_back_says_why() {
    let mut app = preview();
    for vm in &mut app.scan.vms {
        vm.memory_mib = 1024;
    }
    let aurora = card(&app, "aurora-lab");
    assert_eq!(labels(&aurora.buttons)[0], ("Resume", false));
    assert!(aurora.buttons[0].hint.contains("was 4096 MiB, is 1024 MiB"));
    assert_eq!(aurora.session.len(), 2);
    assert!(aurora.session[1].text.chars().count() <= 52);
}

#[test]
fn chips_tell_a_machines_shape() {
    let app = preview();
    let chips: Vec<String> = card(&app, "nebula-dev").chips.into_iter().map(|c| c.text).collect();
    assert_eq!(chips, vec!["8192 MiB", "8 vCPU", "2560×1440", "usernet"]);
    let storage = card(&app, "nebula-dev").storage.text;
    assert_eq!(storage, "Storage 64.0 GiB · 18.0 GiB on disk");
    let windows = app_on(Host::Windows, true, true);
    let chips = card(&windows, "nebula-dev").chips;
    assert_eq!(chips.last().unwrap().text, Backend::Native.label(Host::Windows));
}

#[test]
fn live_numbers_are_told_as_far_as_they_are_known() {
    let mut app = app_on(Host::Linux, false, true);
    app.scan = entangled_manager::mock::scan(Host::Linux, 1_790_000_000, "0.2.17");
    let facts = LaunchFacts {
        current_dir: None,
        engine: engine_facts(true),
        firmware: FirmwareFacts {
            named: None,
            installed: None,
            cached: Vec::new(),
            in_checkout: true,
        },
        bootstrap: BootstrapFacts {
            named: None,
            in_checkout: Pair { kernel: true, initrd: true },
            cached: Vec::new(),
        },
        uefi_in_cwd: true,
    };
    let launch = app.start("nebula-dev", &facts).expect("launch");
    app.launched(launch, Ok(())).expect("started");
    app.now += 125_000;
    let vm = app.vm("nebula-dev").unwrap();
    assert_eq!(live_stats_line(&app, vm, None, None).unwrap(), "up 2m 05s");
    assert_eq!(
        live_stats_line(&app, vm, Some(37), Some(1 << 30)).unwrap(),
        "up 2m 05s · CPU 37% · 1.0 GiB RAM"
    );
    let idle = app.vm("ubuntu-lab").unwrap();
    assert_eq!(live_stats_line(&app, idle, Some(1), None), None);
    assert_eq!(
        describe(&app.supervisor.tasks()[0], app.now),
        format!("{} nebula-dev · running 2m05s", app.supervisor.tasks()[0].kind.label())
    );
    assert_eq!(
        labels(&card(&app, "nebula-dev").buttons)[1],
        ("Pause", true),
        "a machine started from here can be controlled"
    );
    let row = app.disk_row("mock-vms/nebula-dev.raw").unwrap();
    let used = disk_row(&app, row);
    assert!(used.chips.iter().any(|c| c.text == "in use"));
    assert_eq!(
        labels(&used.buttons),
        vec![("Delete", false), ("Move…", false), ("Attach…", true), ("Reveal", true)]
    );
    assert!(!used.attached[0].detach.enabled);
    app.suspend("nebula-dev", true);
    app.now += 2_500;
    assert_eq!(
        card(&app, "nebula-dev").session[0].text,
        "writing memory to disk — 2 s"
    );
}

// ---- notices ---------------------------------------------------------------

#[test]
fn problems_come_with_their_fix() {
    let mut app = app_on(Host::Linux, false, false);
    app.startup_warning = Some("settings unreadable".to_string());
    app.scanner.error = Some("no such directory".to_string());
    let notices = banners(&app, false);
    assert_eq!(notices.len(), 3);
    assert_eq!(notices[0].text, "settings unreadable");
    assert_eq!(notices[1].button.as_ref().unwrap().label, "Create directory");
    assert_eq!(notices[2].button.as_ref().unwrap().label, "Locate it…");
    assert!(banners(&app, true)[1].button.is_none());
    assert!(banners(&preview(), true).is_empty());
}

#[test]
fn the_installer_is_offered_where_it_runs() {
    let mut app = app_on(Host::Windows, false, true);
    assert!(update_banner(&app).is_none());
    app.update_found(UpdateInfo {
        version: Version { major: 0, minor: 3, patch: 0 },
        installer_url: Some("https://example.invalid/setup.exe".to_string()),
        installer_name: None,
        page_url: "https://example.invalid".to_string(),
    });
    let offer = update_banner(&app).unwrap();
    assert_eq!(offer.title, "Entangled Desktop v0.3.0");
    assert_eq!(offer.note, "is available — this is v0.2.17");
    assert_eq!(labels(&offer.buttons), vec![("Skip", true), ("Download & install", true)]);
    app.install_update();
    let offer = update_banner(&app).unwrap();
    assert_eq!(labels(&offer.buttons), vec![("Skip", false), ("Downloading…", false)]);
    app.host = Host::Linux;
    app.update.downloading = false;
    let offer = update_banner(&app).unwrap();
    assert_eq!(offer.buttons[1].action, Action::OpenReleasePage);
}

// ---- rows ------------------------------------------------------------------

#[test]
fn rows_tell_disks_and_sessions_apart() {
    let app = preview();
    assert_eq!(active_machines(&app), 3);
    let loose = disk_row(&app, &app.scan.disks[2]);
    assert!(loose.attached.is_empty());
    assert_eq!(loose.sizes, "12.0 GiB apparent · 640 MiB on disk");
    let ubuntu = disk_row(&app, &app.scan.disks[1]);
    assert_eq!(ubuntu.chips[0].text, "NVRAM");
    assert_eq!(ubuntu.attached[0].chip.text, "ubuntu-lab (rw)");
    assert_eq!(storage_dirs(&app), vec!["mock-vms"]);
    assert_eq!(
        space_chip("/vms", 1 << 30, 2 << 30).text,
        "/vms — 1.0 GiB free of 2.0 GiB"
    );

    let rows = &app.scan.snapshots;
    assert_eq!(session_totals(rows), (1_919_942_656, 1_758_000_000));
    let healthy = snapshot_row(&app, &rows[0], &Vec::new(), "3 hours ago", "2026-08-21");
    assert_eq!(healthy.title, "aurora-lab");
    assert_eq!(healthy.chips[1].text, "resumable");
    assert!(healthy.shape.unwrap().text.ends_with("taken 3 hours ago"));
    assert!(healthy.buttons[2].enabled);
    let foreign = snapshot_row(&app, &rows[1], &Vec::new(), "2 days ago", "2026-08-19");
    assert_eq!(foreign.chips[1].text, "cannot resume here");
    assert!(!foreign.buttons[2].enabled);
    assert!(!foreign.notes.is_empty());
    let unreadable = snapshot_row(&app, &rows[2], &Vec::new(), "", "");
    assert_eq!(unreadable.title, "unknown machine");
    assert_eq!(unreadable.chips[0].text, "unreadable");
    assert!(unreadable.shape.is_none());
}

#[test]
fn the_host_is_described_in_lines() {
    let app = preview();
    assert_eq!(
        host_status(&app, Some(18)),
        vec!["5 machines · 0 active", "CPU 18%", "412 GiB storage free"]
    );
    assert_eq!(capabilities(Host::Linux)[0].text, "3D acceleration: available on both backends");
    assert_eq!(capabilities(Host::Windows)[1].text, "TAP networking: WSL (KVM) only");
    assert_eq!(dropped_note(0, "/l"), None);
    assert_eq!(
        dropped_note(7, "/l").unwrap(),
        "… 7 earlier lines are only in /l"
    );
    let problem = ScanProblem { path: "/vms/bad.toml".to_string(), message: "broken".to_string() };
    assert_eq!(problem_line(Host::Linux, &problem), "bad.toml: broken");
}

// ---- dialogs ---------------------------------------------------------------

#[test]
fn the_wizard_walks_through_its_steps() {
    let mut app = preview();
    app.open_wizard(&Vec::new());
    let Modal::Wizard(mut w) = app.desk.modal else {
        panic!("no wizard");
    };
    w.back();
    assert_eq!(w.step, 0);
    for step in [1, 2, 3, 3] {
        w.error = Some("old".to_string());
        w.forward();
        assert_eq!(w.step, step);
    }
    assert!(w.at_last_step());
    w.back();
    assert_eq!((w.step, w.error.is_none()), (2, true));
    assert_eq!(step_mark(0, 1).text, "OK");
    assert_eq!(step_mark(1, 1).text, "02");
    assert_eq!(step_mark(3, 1).ink, Ink::Faint);
    w.machine.disk_path = "kept.raw".to_string();
    w.choose_disk(DiskMode::UseExisting);
    assert_eq!(w.machine.disk_path, "kept.raw");
    w.choose_disk(DiskMode::CreateNew);
    assert!(w.machine.disk_path.is_empty());
    w.machine.family = GuestFamily::Ubuntu;
    let rows = summary_rows(Host::Linux, "/vms", &w.machine);
    assert_eq!(rows.len(), 5);
    assert_eq!(rows[0].1, "debian-1");
    assert_eq!(rows[3].1, "/vms/debian-1.raw · new 16 GiB sparse disk");
    assert_eq!(rows[4].1, "Newest verified cached Ubuntu ISO");
}

#[test]
fn only_images_of_the_library_can_be_chosen() {
    let app = preview();
    let mut rows: Vec<DiskRow> = app.scan.disks;
    rows[1].exists = false;
    rows[2].path = "/elsewhere/scratch-data.raw".to_string();
    assert_eq!(
        existing_disks(Host::Linux, "mock-vms", &rows),
        vec![("nebula-dev.raw".to_string(), "nebula-dev.raw  ·  64.0 GiB".to_string())]
    );
}

#[test]
fn the_first_machine_that_can_take_a_disk_is_selected() {
    let mut app = app_on(Host::Linux, false, true);
    app.scan = entangled_manager::mock::scan(Host::Linux, 1_790_000_000, "0.2.17");
    let disk = app.scan.disks[0].path.clone();
    let candidates = attach_candidates(&app, &disk);
    assert_eq!(
        candidates,
        vec!["aurora-lab", "installer-preview", "orion-build", "ubuntu-lab"],
        "all but the one that has it"
    );
    app.open_attach_disk(&disk);
    match &app.desk.modal {
        Modal::AttachDisk(s) => assert_eq!(s.selected.as_ref(), candidates.first()),
        _ => panic!("no dialog"),
    }
}

fn sample_config() -> VmConfig {
    VmConfig {
        name: "preview".to_string(),
        memory_mib: 4096,
        vcpus: 4,
        transport: VirtioTransport::Pci,
        boot: BootSection {
            mode: BootMode::Uefi,
            kernel: None,
            initramfs: None,
            cmdline: String::new(),
            firmware: Some("artifacts/firmware/CLOUDHV.fd".to_string()),
            nvram: Some("mock-vms/preview.nvram".to_string()),
        },
        cdrom: None,
        network: None,
        display: DisplaySection { width: 1920, height: 1080, virgl: true },
        sound: SoundSection { enabled: true, backend: SoundBackend::Auto },
        gamepad: GamepadSection { enabled: false, backend: GamepadBackend::Auto, players: 1 },
        disks: vec![DiskSection { path: "mock-vms/preview.raw".to_string(), writable: true }],
    }
}

#[test]
fn only_a_changed_and_valid_profile_is_saved() {
    let mut s = EditVmState {
        form: EditForm::mock("preview", Ok(sample_config()), 4).expect("a form"),
        section: EditVmSection::Hardware,
        error: Some("disk full".to_string()),
    };
    assert!(!savable(Host::Linux, &s, &Ok(())), "nothing changed");
    assert_eq!(edit_message(&s, &Ok(())).unwrap(), "disk full");
    s.form.memory_mib = 8192;
    assert!(savable(Host::Linux, &s, &Ok(())));
    assert!(!savable(Host::Linux, &s, &Err("invalid".to_string())));
    assert_eq!(edit_message(&s, &Err("invalid".to_string())).unwrap(), "invalid");
    assert_eq!(device_name(0), "vda");
    assert_eq!(device_name(25), "vdz");
    assert_eq!(device_name(26), "vd{");
    assert_eq!(device_name(256), "vda");
}

#[test]
fn the_move_dialog_counts_the_space() {
    let texts = |bill, free| -> Vec<(String, Ink)> {
        move_notes(bill, free).into_iter().map(|l| (l.text, l.ink)).collect()
    };
    assert!(texts(None, Some(1)).is_empty());
    let gib = 1u64 << 30;
    let bill = Some((gib, 4 * gib));
    assert_eq!(
        texts(bill, None)[0].0,
        "copies 1.0 GiB of data · image can grow to 4.0 GiB"
    );
    assert_eq!(texts(bill, Some(gib - 1))[1].1, Ink::Bad);
    assert_eq!(texts(bill, Some(gib))[1].1, Ink::Warn);
    assert_eq!(texts(bill, Some(4 * gib))[1].1, Ink::Faint);

    let mut s = MoveDiskState {
        row: DiskRow {
            path: "/vms/a.raw".to_string(),
            file_name: "a.raw".to_string(),
            exists: true,
            apparent_bytes: 0,
            allocated_bytes: None,
            attachments: vec![DiskAttachment {
                vm: "a".to_string(),
                profile: "/vms/a.toml".to_string(),
                declared: "a.raw".to_string(),
                writable: false,
            }],
            nvram: true,
            summary: Ok(String::new()),
        },
        dest: " ".to_string(),
        error: None,
        progress: None,
        running: false,
    };
    assert_eq!(labels(&move_buttons(&s)), vec![("Move", false), ("Cancel", true)]);
    s.dest = "/big".to_string();
    assert_eq!(labels(&move_buttons(&s)), vec![("Move", true), ("Cancel", true)]);
    s.running = true;
    s.progress = Some((gib, 4 * gib));
    assert_eq!(labels(&move_buttons(&s)), vec![("Moving…", false), ("Cancel", false)]);
    let (told, share) = move_progress(&s).unwrap();
    assert_eq!(told, "copied 1.0 GiB / 4.0 GiB");
    assert_eq!((share.part, share.whole), (gib, 4 * gib));
    assert_eq!(
        entangled_manager::forms::move_lines(&s, "/vms/a.nvram"),
        vec![
            "− /vms/a.raw",
            "− /vms/a.nvram  (moves along)",
            "profile of 'a' will be updated"
        ]
    );
}

#[test]
fn fields_say_what_they_found() {
    assert_eq!(size_note(&Ok(2048)).text, "= 2.0 KiB (2048 bytes)");
    assert_eq!(size_note(&Err("what?".to_string())).ink, Ink::Warn);
    assert_eq!(doomed_line("/vms/a.raw", 1024), "− /vms/a.raw  (1.0 KiB)");
    let found = path_status_note("/fw/CLOUDHV.fd", Some(4 << 20), "fetch it");
    assert_eq!(found[0].text, "found: /fw/CLOUDHV.fd  (4.0 MiB)");
    let missing = path_status_note("/fw/CLOUDHV.fd", None, "fetch it");
    assert_eq!(missing.len(), 2);
    assert_eq!(missing[1].text, "fetch it");
}
