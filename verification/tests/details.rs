//! The small answers that the surfaces and the engine are built from.
use entangled_manager::backend::Backend;
use entangled_manager::discovery::{DeletePlan, DiskAttachment, DiskRow};
use entangled_manager::editor::EditForm;
use entangled_manager::forms::{
    attach_ready, deletable, delete_disk_lines, destination_example, kept_line, name_typed,
};
use entangled_manager::host::Host;
use entangled_manager::hostcheck::Level;
use entangled_manager::launcher::{
    cache_root, install_firmware_dir, DiskMode, EngineFacts, FirmwareFacts, GuestFamily,
    NewMachine, Place, Runner,
};
use entangled_manager::metrics::{filetime_100ns, windows_cpu_times, windows_process_ns};
use entangled_manager::picker::FileFilter;
use entangled_manager::profile::{
    BootMode, BootSection, DiskSection, DisplaySection, GamepadBackend, GamepadSection,
    SoundBackend, SoundSection, VirtioTransport, VmConfig,
};
use entangled_manager::settings::Settings;
use entangled_manager::snapshots::is_session;
use entangled_manager::startup::{StartFacts, Startup};
use entangled_manager::state::{
    AttachDiskState, DeleteDiskState, DeleteState, ManagerApp, PendingInstall, ScreenshotView,
    Status, ToastLevel,
};
use entangled_manager::surfaces::{
    activity_label, linux_engine_line, pending_card, report_ink, shows_pending,
};
use entangled_manager::update::{installer_of_update, launch_block, UpdateInfo, Version};
use entangled_manager::wording::{toast_ink, variant_note, Ink};

fn app(mock: bool, engine: bool) -> ManagerApp {
    let startup = Startup {
        vm_dir: None,
        entangled: None,
        screenshot: None,
        screenshot_view: ScreenshotView::Main,
        mock,
    };
    let facts = StartFacts {
        host: Host::Linux,
        version: "0.2.17".to_string(),
        now: 10_000,
        now_unix: 1_790_000_000,
        settings_path: None,
        engine: EngineFacts {
            chosen_is_file: false,
            beside: None,
            on_path: vec![Place { dir: "/usr/bin".to_string(), present: engine }],
        },
        profiles: Vec::new(),
        refusal: "Ubuntu has no engine: let the manager install one".to_string(),
        summary: "entangled 0.2.17 in Ubuntu".to_string(),
    };
    let settings = Settings { vm_dir: "mock-vms".to_string(), ..Settings::default(Host::Linux, &None) };
    ManagerApp::new(&startup, settings, None, &facts)
}

fn row(attached: &[&str], nvram: bool) -> DiskRow {
    DiskRow {
        path: "/vms/a.raw".to_string(),
        file_name: "a.raw".to_string(),
        exists: true,
        apparent_bytes: 16 << 30,
        allocated_bytes: None,
        attachments: attached
            .iter()
            .map(|vm| DiskAttachment {
                vm: vm.to_string(),
                profile: format!("/vms/{vm}.toml"),
                declared: "a.raw".to_string(),
                writable: true,
            })
            .collect(),
        nvram,
        summary: Ok("blank".to_string()),
    }
}

fn pending(name: &str, disk_mode: DiskMode) -> PendingInstall {
    PendingInstall {
        name: name.to_string(),
        machine: NewMachine {
            name: name.to_string(),
            memory_mib: 4096,
            vcpus: 4,
            disk_gib: 20,
            disk_path: String::new(),
            disk_mode,
            family: GuestFamily::Ubuntu,
            iso_path: String::new(),
            variant: "text-netboot".to_string(),
            automated: true,
            headless: false,
            backend: Backend::Native,
        },
        profile_path: format!("/vms/{name}.toml"),
        applied: false,
    }
}

#[test]
fn only_a_found_engine_has_a_version() {
    let mut found = app(false, true);
    found.engine_version(Some("entangled 0.2.17".to_string()));
    assert_eq!(found.engine.as_ref().unwrap().version.as_deref(), Some("entangled 0.2.17"));
    let mut missing = app(false, false);
    missing.engine_version(Some("entangled 0.2.17".to_string()));
    assert!(missing.engine.is_err());
}

fn sample_config() -> VmConfig {
    VmConfig {
        name: "preview".to_string(),
        memory_mib: 4096,
        vcpus: 4,
        transport: VirtioTransport::Pci,
        boot: BootSection {
            mode: BootMode::Uefi,
            kernel: None,
            initramfs: None,
            cmdline: String::new(),
            firmware: Some("artifacts/firmware/CLOUDHV.fd".to_string()),
            nvram: Some("mock-vms/preview.nvram".to_string()),
        },
        cdrom: None,
        network: None,
        display: DisplaySection { width: 1920, height: 1080, virgl: true },
        sound: SoundSection { enabled: true, backend: SoundBackend::Auto },
        gamepad: GamepadSection { enabled: false, backend: GamepadBackend::Auto, players: 1 },
        disks: vec![DiskSection { path: "mock-vms/preview.raw".to_string(), writable: true }],
    }
}

#[test]
fn a_uefi_machine_is_offered_its_firmware_and_its_store() {
    let mut form = EditForm::mock("preview", Ok(sample_config()), 4).expect("a form");
    form.work_dir = "/srv".to_string();
    let nowhere =
        FirmwareFacts { named: None, installed: None, cached: Vec::new(), in_checkout: false };
    assert_eq!(form.suggested_firmware(Host::Linux, &nowhere), "artifacts/firmware/CLOUDHV.fd");
    let checkout = FirmwareFacts { in_checkout: true, ..nowhere };
    assert_eq!(
        form.suggested_firmware(Host::Linux, &checkout),
        "/srv/artifacts/firmware/CLOUDHV.fd"
    );
    let named = FirmwareFacts {
        named: Some(Place { dir: "/fw".to_string(), present: true }),
        ..checkout
    };
    assert_eq!(form.suggested_firmware(Host::Linux, &named), "/fw/CLOUDHV.fd");

    assert!(!form.disks.is_empty());
    assert_eq!(form.suggested_nvram("/vms/preview.nvram"), "/vms/preview.nvram");
    form.disks.clear();
    assert_eq!(form.suggested_nvram("/vms/other.nvram"), "preview.nvram");
}

#[test]
fn a_deletion_wants_the_name_typed() {
    let mut s = DeleteState {
        name: "demo".to_string(),
        typed: "dem".to_string(),
        plan: DeletePlan { remove: Vec::new(), kept_outside_vm_dir: Vec::new() },
        error: None,
    };
    assert!(!name_typed(&s));
    s.typed = " demo ".to_string();
    assert!(name_typed(&s));
    assert_eq!(
        kept_line("/elsewhere/a.raw"),
        "/elsewhere/a.raw lies outside the VM directory and is kept"
    );
}

#[test]
fn a_disk_in_use_is_not_deleted() {
    let texts = |s: &DeleteDiskState| -> Vec<(String, Ink)> {
        delete_disk_lines(s, "/vms/a.nvram").into_iter().map(|l| (l.text, l.ink)).collect()
    };
    let loose = DeleteDiskState { row: row(&[], false), error: None };
    assert!(deletable(&loose));
    assert_eq!(texts(&loose), vec![("− /vms/a.raw  (16.0 GiB)".to_string(), Ink::Faint)]);
    let used = DeleteDiskState { row: row(&["one", "two"], true), error: None };
    assert!(!deletable(&used));
    assert_eq!(
        texts(&used)[1..],
        [
            (
                "− /vms/a.nvram  (UEFI variable store — deleted with the disk)".to_string(),
                Ink::Faint
            ),
            ("Still attached to one, two — detach it there first".to_string(), Ink::Warn),
        ]
    );
}

#[test]
fn a_disk_is_attached_to_a_chosen_candidate() {
    let candidates = vec!["demo".to_string()];
    let mut s =
        AttachDiskState { disk: "/vms/a.raw".to_string(), selected: None, error: None };
    assert!(!attach_ready(&s, &candidates));
    s.selected = Some("demo".to_string());
    assert!(attach_ready(&s, &candidates));
    assert!(!attach_ready(&s, &Vec::new()));
    assert_eq!(destination_example(Host::Windows), "E:\\vm-storage");
    assert_eq!(destination_example(Host::Linux), "/mnt/bigdrive/vms");
}

#[test]
fn the_check_runs_where_the_machines_run() {
    let native = Runner {
        backend: Backend::Native,
        engine: "/usr/bin/entangled".to_string(),
        distro: "Ubuntu".to_string(),
        linux_engine: String::new(),
    };
    let (program, args) = native.doctor_command("/srv");
    assert_eq!(program, "/usr/bin/entangled");
    assert_eq!(args, vec!["doctor"]);
    let wsl = Runner { backend: Backend::Wsl, ..native };
    let (program, args) = wsl.doctor_command(r"D:\src");
    assert_eq!(program, "wsl.exe");
    assert_eq!(
        args,
        vec!["-d", "Ubuntu", "--cd", r"D:\src", "-e", "entangled", "doctor"]
    );
}

#[test]
fn artifacts_lie_beside_the_program_or_in_the_cache() {
    assert_eq!(
        install_firmware_dir(Host::Linux, "/opt/entangled/manager").as_deref(),
        Some("/opt/entangled/artifacts/firmware")
    );
    assert_eq!(install_firmware_dir(Host::Linux, ""), None);
    let platform = Some("/home/me/.cache".to_string());
    let named = Some("/cache".to_string());
    assert_eq!(cache_root(&named, &platform), named);
    assert_eq!(cache_root(&Some("  ".to_string()), &platform), platform);
    assert_eq!(cache_root(&None, &platform), platform);
    assert_eq!(cache_root(&None, &None), None);
}

#[test]
fn windows_times_are_read_in_two_halves() {
    assert_eq!(filetime_100ns(0, 7), 7);
    assert_eq!(filetime_100ns(1, 2), 0x1_0000_0002);
    assert_eq!(filetime_100ns(u32::MAX, u32::MAX), u64::MAX);
    assert_eq!(windows_cpu_times(30, 50, 20), (40, 70), "idle time is part of kernel time");
    assert_eq!(windows_cpu_times(90, 50, 20), (0, 70));
    assert_eq!(windows_process_ns(3, 4), 700);
    assert_eq!(windows_process_ns(u64::MAX, 1), u64::MAX);
}

#[test]
fn each_filter_shows_its_own_files() {
    assert_eq!(FileFilter::DiskImages.extensions(), vec!["raw", "img"]);
    assert_eq!(FileFilter::InstallerImages.extensions(), vec!["iso"]);
    assert_eq!(FileFilter::Firmware.extensions(), vec!["fd", "bin", "rom"]);
    assert_eq!(FileFilter::VariableStores.extensions(), vec!["nvram", "fd"]);
    assert!(is_session(Host::Linux, "/vms/a.esnap", true));
    assert!(!is_session(Host::Linux, "/vms/a.esnap", false));
    assert!(!is_session(Host::Linux, "/vms/a.raw", true));
    assert!(!is_session(Host::Linux, "/vms/.esnap", true));
}

#[test]
fn an_installation_shows_until_its_machine_does() {
    let app = app(true, true);
    let known = app.scan.vms[0].name.clone();
    assert!(!shows_pending(&app, &pending(&known, DiskMode::CreateNew)));
    let fresh = pending("fresh", DiskMode::CreateNew);
    assert!(shows_pending(&app, &fresh));

    let card = pending_card(&app, &fresh);
    assert_eq!(card.title, "fresh");
    assert_eq!(card.status, Status::Installing);
    let chips: Vec<&str> = card.chips.iter().map(|c| c.text.as_str()).collect();
    assert_eq!(chips, ["4096 MiB", "4 vCPU", "20 GiB disk", "Ubuntu"]);
    assert_eq!(
        card.note,
        "Ubuntu installer is running — this card becomes a machine when it finishes"
    );
    assert_eq!(card.buttons.len(), 1, "nothing has run under this name");
    assert!(!card.buttons[0].enabled);
    let existing = pending_card(&app, &pending("fresh", DiskMode::UseExisting));
    assert_eq!(existing.chips[2].text, "existing disk");
}

#[test]
fn an_update_names_its_installer_or_says_it_has_none() {
    let version = Version { major: 1, minor: 2, patch: 3 };
    let mut info = UpdateInfo {
        version,
        installer_url: Some("https://host/setup.exe".to_string()),
        installer_name: Some("setup.exe".to_string()),
        page_url: "https://host/releases".to_string(),
    };
    assert_eq!(
        installer_of_update(&info),
        Ok(("https://host/setup.exe".to_string(), "setup.exe".to_string()))
    );
    info.installer_name = None;
    assert_eq!(
        installer_of_update(&info),
        Err("this release carries no Windows installer asset".to_string())
    );
    assert_eq!(launch_block(Host::Windows, "setup.exe"), None);
    assert_eq!(
        launch_block(Host::Linux, "setup.exe").unwrap(),
        "setup.exe is a Windows installer; download it from the release page instead"
    );
}

#[test]
fn news_is_coloured_by_how_bad_it_is() {
    assert_eq!(toast_ink(ToastLevel::Info), Ink::Cyan);
    assert_eq!(toast_ink(ToastLevel::Success), Ink::Good);
    assert_eq!(toast_ink(ToastLevel::Warn), Ink::Warn);
    assert_eq!(toast_ink(ToastLevel::Error), Ink::Bad);
    assert_eq!(report_ink(Level::Missing), Ink::Warn);
    assert_eq!(report_ink(Level::Failure), Ink::Bad);
    assert_eq!(report_ink(Level::Info), Ink::Dim);
}

#[test]
fn labels_follow_what_they_stand_for() {
    assert_eq!(activity_label(true), "Hide activity");
    assert_eq!(activity_label(false), "Activity");
    assert_eq!(linux_engine_line(&Some("/opt/e".to_string())), "Linux engine: /opt/e");
    assert_eq!(
        linux_engine_line(&None),
        "Linux engine: whatever `entangled` resolves to inside WSL"
    );
    assert_eq!(variant_note("text-netboot"), "Fast, keyboard-driven network installer.");
    assert_eq!(
        variant_note("netinst-iso"),
        "Official netinst ISO fetched and verified for you."
    );
    assert_eq!(
        variant_note("gtk-netboot"),
        "Graphical Debian installer with verified network media."
    );
}

#[test]
fn surfaces_are_opened_by_name() {
    assert_eq!(ScreenshotView::named("main"), Ok(ScreenshotView::Main));
    assert_eq!(ScreenshotView::named("wizard-wsl-review"), Ok(ScreenshotView::WizardWslReview));
    assert_eq!(ScreenshotView::named("editor-boot"), Ok(ScreenshotView::EditorBoot));
    assert_eq!(
        ScreenshotView::named("attic"),
        Err("there is no surface 'attic'".to_string())
    );
}
