//! Backends, the engine and what it is told to do.
use entangled_manager::backend::{
    reachability, to_wsl_path, wsl_args, Backend, Reachability,
};
use entangled_manager::console::{attach_parent, Attach, ConsoleProbe};
use entangled_manager::diagnose::explain;
use entangled_manager::discovery::VmEntry;
use entangled_manager::host::Host;
use entangled_manager::hostcheck::{mock_report, parse, report, Level, Ran};
use entangled_manager::launcher::{
    install_spec, locate_engine, locate_firmware, missing_install_artifact, parse_version,
    resume_spec, run_spec, BootstrapFacts, DiskMode, EngineFacts, EngineOrigin, FirmwareFacts,
    FirmwareOrigin, GuestFamily, LaunchError, NewMachine, Pair, Place, Runner, BOOTSTRAP_KERNEL,
    FIRMWARE_FILE,
};
use entangled_manager::picker::{
    file_name_of, spec, start_directory, DirFacts, Kind, PickTarget, DISK_FILTER, FIRMWARE_FILTER,
    ISO_FILTER,
};
use entangled_manager::process::TaskKind;
use entangled_manager::profile::{SoundBackend, VirtioTransport};
use entangled_manager::settings::Settings;
use entangled_manager::update::{
    check_size, download_dir, is_installer_asset, latest_release_url, parse_latest, ApiAsset,
    ApiRelease, Version, REPO,
};
use entangled_manager::wslengine::{
    mock_status, EngineFault, EngineFound, Fault, Status, Target, MOCK_FIX, MOCK_WHAT,
};

fn texts(items: &[&str]) -> Vec<String> {
    items.iter().map(|s| s.to_string()).collect()
}

// ---- backends --------------------------------------------------------------

#[test]
fn windows_paths_land_under_mnt() {
    assert_eq!(
        to_wsl_path(r"D:\entangled-vms\ubuntu.toml").unwrap(),
        "/mnt/d/entangled-vms/ubuntu.toml"
    );
    assert_eq!(
        to_wsl_path("C:/Users/spider/vm.raw").unwrap(),
        "/mnt/c/Users/spider/vm.raw"
    );
}

#[test]
fn posix_paths_pass_through_and_junk_is_refused_with_a_fix() {
    assert_eq!(
        to_wsl_path("/home/spider/entangled").unwrap(),
        "/home/spider/entangled"
    );
    let unc = to_wsl_path(r"\\nas\share\vm.raw").unwrap_err();
    assert!(unc.0.contains("network path"), "{}", unc.0);
    let relative = to_wsl_path(r"vms\x.toml").unwrap_err();
    assert!(relative.0.contains("absolute path"), "{}", relative.0);
    assert!(to_wsl_path("").is_err());
}

#[test]
fn an_unreachable_machine_is_refused_before_launch() {
    let paths = texts(&[r"\\nas\vms\a.toml", "D:/a.raw"]);
    let result = reachability(Backend::Wsl, &paths);
    let message = result.refusal().expect("refused");
    assert!(message.contains("nas"), "{message}");
    assert_eq!(reachability(Backend::Native, &paths), Reachability::Fine);
}

#[test]
fn windows_drives_are_reachable_but_not_sparse() {
    let result = reachability(Backend::Wsl, &texts(&[r"D:\vms\a.raw"]));
    let caveat = result.caveat().expect("caveat");
    assert!(caveat.contains("sparse"), "{caveat}");
    assert_eq!(
        reachability(Backend::Wsl, &texts(&["/home/spider/entangled-vms/a.raw"])),
        Reachability::Fine
    );
}

#[test]
fn the_wsl_command_line_names_the_distro_the_cwd_and_the_linux_binary() {
    let args = wsl_args(
        "Ubuntu",
        "/home/spider/target/debug/entangled",
        &Some(r"D:\entangled-desktop".to_string()),
        &texts(&["run", "--control-stdin", "/mnt/d/a.toml"]),
    );
    assert_eq!(
        args,
        vec![
            "-d",
            "Ubuntu",
            "--cd",
            r"D:\entangled-desktop",
            "-e",
            "/home/spider/target/debug/entangled",
            "run",
            "--control-stdin",
            "/mnt/d/a.toml",
        ]
    );
    let fallback = wsl_args("Ubuntu", "  ", &None, &texts(&["doctor"]));
    assert_eq!(fallback, vec!["-d", "Ubuntu", "-e", "entangled", "doctor"]);
}

#[test]
fn capabilities_follow_the_kernel_not_the_host() {
    for host in [Host::Linux, Host::Windows, Host::Other] {
        assert!(Backend::Wsl.is_linux_kvm(host));
        assert!(Backend::Wsl.virgl_block(host).is_none());
        assert!(Backend::Wsl.tap_block(host).is_none());
        assert!(Backend::Wsl.debian_install_block(host).is_none());
        assert_eq!(Backend::Native.is_linux_kvm(host), host == Host::Linux);
    }
    let reason = Backend::Native
        .virgl_block(Host::Windows)
        .expect("blocked on WHP");
    assert!(reason.short.contains("Linux/KVM"), "{}", reason.short);
    assert!(reason.long.contains("ADR-0004"), "{}", reason.long);
    assert!(reason.short.len() < 90, "{}", reason.short);
    assert!(Backend::Native.tap_block(Host::Windows).is_some());
    assert!(Backend::Native.debian_install_block(Host::Windows).is_some());
    assert!(Backend::Wsl.available_on_host(Host::Windows));
    assert!(Backend::Native.virgl_block(Host::Linux).is_none());
    assert!(!Backend::Wsl.available_on_host(Host::Linux));
}

#[test]
fn only_this_engines_own_sound_backend_is_offered() {
    for host in [Host::Linux, Host::Windows] {
        for backend in [Backend::Native, Backend::Wsl] {
            let offered = backend.sound_backends(host);
            assert!(offered.contains(&SoundBackend::Auto));
            assert!(offered.contains(&SoundBackend::Null));
            let native = backend.native_sound_backend(host);
            assert_eq!(
                native,
                if backend.is_linux_kvm(host) {
                    SoundBackend::Alsa
                } else {
                    SoundBackend::Wasapi
                }
            );
            assert!(offered.contains(&native));
            let foreign = if native == SoundBackend::Alsa {
                SoundBackend::Wasapi
            } else {
                SoundBackend::Alsa
            };
            assert!(!offered.contains(&foreign), "{backend:?} offered {foreign:?}");
            assert!(backend.sound_backend_block(SoundBackend::Auto, host).is_none());
            assert!(backend.sound_backend_block(SoundBackend::Null, host).is_none());
            assert!(backend.sound_backend_block(native, host).is_none());
            let reason = backend
                .sound_backend_block(foreign, host)
                .expect("the other host's backend is blocked");
            assert!(reason.short.contains("auto"), "{}", reason.short);
            assert!(reason.short.len() < 90, "{}", reason.short);
        }
    }
}

#[test]
fn children_of_the_native_backend_are_never_refused() {
    let runner = native("/usr/bin/entangled");
    for path in ["/vms/a.toml", r"\\nas\a.toml", "relative.toml", ""] {
        assert_eq!(runner.path_arg(path).unwrap(), path);
    }
}

// ---- console ---------------------------------------------------------------

#[test]
fn only_the_windowed_case_lacks_a_console() {
    assert!(Attach::Inherited.has_console());
    assert!(Attach::Borrowed.has_console());
    assert!(!Attach::Detached.has_console());
}

#[test]
fn other_platforms_always_have_their_standard_handles() {
    for (usable, attached) in [(false, false), (true, false), (false, true)] {
        let probe = ConsoleProbe { usable, attached, opened: false };
        assert_eq!(attach_parent(Host::Linux, probe), Attach::Inherited);
    }
}

#[test]
fn a_windowed_manager_borrows_its_parents_console() {
    let probe = |usable, attached, opened| ConsoleProbe { usable, attached, opened };
    assert_eq!(attach_parent(Host::Windows, probe(true, false, false)), Attach::Inherited);
    assert_eq!(attach_parent(Host::Windows, probe(false, true, true)), Attach::Borrowed);
    assert_eq!(attach_parent(Host::Windows, probe(false, false, false)), Attach::Detached);
}

// ---- explanations ----------------------------------------------------------

#[test]
fn recognises_a_busy_tap() {
    let log = texts(&[
        "INFO vm{id=debian-demo}: attaching virtio-blk device",
        "error: cannot open TAP 'entangled0': Device or resource busy (os error 16)",
    ]);
    let hint = explain(&log).expect("hint");
    assert!(hint.contains("only one VM at a time"), "{hint}");
}

#[test]
fn recognises_a_missing_tap_and_permissions() {
    let missing = texts(&["error: cannot open TAP 'entangled9': No such device"]);
    assert!(explain(&missing).expect("hint").contains("setup-tap.sh"));
    let denied = texts(&["error: cannot open TAP 'entangled0': Permission denied"]);
    assert!(explain(&denied).expect("hint").contains("permission"));
}

#[test]
fn recognises_kvm_and_installer_failures() {
    assert!(explain(&texts(&["error: cannot open /dev/kvm: No such file"]))
        .expect("hint")
        .contains("doctor"));
    assert!(explain(&texts(&[
        "error: the installer exited but debian.raw does not look installed: no ext4"
    ]))
    .expect("hint")
    .contains("installer exited"));
}

#[test]
fn stays_silent_on_unknown_output() {
    assert!(explain(&texts(&["INFO vm: VM running", "guest login:"])).is_none());
    assert!(explain(&Vec::new()).is_none());
}

#[test]
fn prefers_the_newest_recognisable_line() {
    let log = texts(&[
        "error: cannot open /dev/kvm: nope",
        "error: cannot open TAP 'entangled0': Device or resource busy",
    ]);
    assert!(explain(&log).expect("hint").contains("TAP interface"));
}

#[test]
fn lines_that_say_nothing_hide_nothing() {
    let mut log = texts(&["error: cannot open /dev/kvm: nope"]);
    let known = explain(&log);
    log.push("guest login:".to_string());
    log.push(String::new());
    assert_eq!(explain(&log), known);
}

// ---- the host check --------------------------------------------------------

#[test]
fn missing_artifacts_are_marked_and_their_fix_is_not() {
    let lines = parse(
        "  firmware         MISSING — needed by every UEFI machine\n\
         \x20                  Entangled Desktop can download it: run \
         `entangled fetch firmware`\n\
         host looks ready to run VMs",
        true,
    );
    assert_eq!(lines.len(), 3);
    assert_eq!(lines[0].level, Level::Missing);
    assert_eq!(lines[1].level, Level::Info, "the fix is not a second fault");
    assert_eq!(lines[2].level, Level::Info);
}

#[test]
fn a_failed_run_marks_its_error_line() {
    let lines = parse("entangled doctor\nerror: /dev/kvm not found", false);
    assert_eq!(lines[1].level, Level::Failure);
}

#[test]
fn the_headline_counts_what_is_missing() {
    let mut report = mock_report();
    assert_eq!(report.headline(), "Machines can run; one thing is missing");
    report.lines.retain(|line| line.level != Level::Missing);
    assert_eq!(report.headline(), "Everything this host needs is in place");
    report.healthy = false;
    assert_eq!(report.headline(), "This host cannot run machines yet");
}

#[test]
fn blank_lines_are_dropped() {
    assert!(parse("\n\n   \n", true).is_empty());
}

#[test]
fn a_check_that_did_not_run_says_why() {
    let command = || "entangled doctor".to_string();
    let refused = report(Backend::Wsl, command(), Ran::Refused("no WSL here".to_string()));
    assert!(!refused.healthy);
    assert!(refused.lines.iter().any(|l| l.text.contains("no WSL here")));
    let failed = report(
        Backend::Native,
        command(),
        Ran::NotStarted("No such file".to_string()),
    );
    assert!(!failed.healthy);
    assert!(failed.lines.iter().any(|l| l.text.contains("No such file")));
    let ran = report(
        Backend::Native,
        command(),
        Ran::Finished {
            healthy: true,
            stdout: "all good\n".to_string(),
            stderr: String::new(),
        },
    );
    assert!(ran.healthy);
    assert_eq!(ran.command, "entangled doctor");
    assert_eq!(ran.lines.len(), 1);
}

// ---- what the engine is told -----------------------------------------------

fn machine() -> NewMachine {
    NewMachine {
        name: "demo".into(),
        memory_mib: 4096,
        vcpus: 4,
        disk_gib: 20,
        disk_path: String::new(),
        disk_mode: DiskMode::CreateNew,
        family: GuestFamily::Debian,
        iso_path: String::new(),
        variant: "text-netboot".into(),
        automated: true,
        headless: false,
        backend: Backend::Native,
    }
}

fn native(engine: &str) -> Runner {
    Runner {
        backend: Backend::Native,
        engine: engine.to_string(),
        distro: "Ubuntu".into(),
        linux_engine: String::new(),
    }
}

fn entry() -> VmEntry {
    VmEntry {
        name: "debian-demo".into(),
        profile_path: "/vms/debian-demo.toml".into(),
        memory_mib: 2048,
        vcpus: 2,
        transport: VirtioTransport::Pci,
        display: (1920, 1080),
        network_interface: Some("entangled0".into()),
        disks: vec![],
        uefi: false,
    }
}

fn install_line(machine: &NewMachine) -> String {
    install_spec(Host::Linux, &native("entangled"), "/vms", "/srv".to_string(), machine)
        .expect("spec")
        .command_line()
}

#[test]
fn install_arguments_match_the_cli_surface() {
    let spec = install_spec(
        Host::Linux,
        &native("/usr/bin/entangled"),
        "/vms",
        "/srv/entangled".to_string(),
        &machine(),
    )
    .expect("spec");
    assert_eq!(spec.kind, TaskKind::Install);
    assert_eq!(spec.vm, "demo");
    assert_eq!(spec.cwd, "/srv/entangled");
    assert_eq!(spec.log_path, "/vms/demo-install.log");
    let line = spec.command_line();
    for needle in [
        "install debian",
        "--disk /vms/demo.raw",
        "--size 20G",
        "--variant text-netboot",
        "--memory-mib 4096",
        "--name demo",
        "--auto",
    ] {
        assert!(line.contains(needle), "missing {needle} in {line}");
    }
    assert!(!line.contains("--headless"));
}

#[test]
fn the_ubuntu_install_names_the_distro_and_drops_the_variant() {
    let mut m = machine();
    m.family = GuestFamily::Ubuntu;
    let line = install_line(&m);
    assert!(line.contains("install ubuntu"), "{line}");
    assert!(!line.contains("--variant"), "{line}");
    assert!(
        line.contains("--size 20G") && line.contains("--name demo"),
        "{line}"
    );
    assert!(!line.contains("--network"), "{line}");
}

fn firmware(in_checkout: bool, cached: bool) -> FirmwareFacts {
    FirmwareFacts {
        named: None,
        installed: None,
        cached: vec![Place {
            dir: "/cache/firmware/firmware-edk2-stable202602-1".to_string(),
            present: cached,
        }],
        in_checkout,
    }
}

fn bootstrap(kernel: bool, initrd: bool, cached: Pair) -> BootstrapFacts {
    BootstrapFacts {
        named: None,
        in_checkout: Pair { kernel, initrd },
        cached: vec![cached],
    }
}

#[test]
fn each_distro_is_gated_on_its_own_artifact() {
    let none = Pair { kernel: false, initrd: false };
    let missing = |family, fw: &FirmwareFacts, bs: &BootstrapFacts| {
        missing_install_artifact(Host::Linux, "/checkout", family, fw, bs)
    };

    let fw = firmware(true, false);
    let bs = bootstrap(false, false, none);
    assert_eq!(missing(GuestFamily::Ubuntu, &fw, &bs), None);
    let debian = missing(GuestFamily::Debian, &fw, &bs).expect("no bootstrap kernel");
    assert!(debian.contains(BOOTSTRAP_KERNEL), "{debian}");
    assert!(
        debian.contains("entangled fetch bootstrap-kernel"),
        "the Debian pre-flight must name the way out: {debian}"
    );

    assert!(missing(GuestFamily::Debian, &fw, &bootstrap(true, false, none)).is_some());

    let fw = firmware(false, false);
    let bs = bootstrap(true, true, none);
    assert_eq!(missing(GuestFamily::Debian, &fw, &bs), None);
    let ubuntu = missing(GuestFamily::Ubuntu, &fw, &bs).expect("no firmware");
    assert!(ubuntu.contains(FIRMWARE_FILE), "{ubuntu}");
    assert!(
        ubuntu.contains("entangled fetch firmware"),
        "the firmware pre-flight must name the way out: {ubuntu}"
    );
    assert!(
        !ubuntu.contains("Copy artifacts/firmware/CLOUDHV.fd in from a Linux checkout"),
        "the old dead end came back: {ubuntu}"
    );

    let fw = firmware(false, true);
    assert_eq!(missing(GuestFamily::Ubuntu, &fw, &bs), None);
    assert_eq!(
        locate_firmware(Host::Linux, "/checkout", &fw).map(|(_, origin)| origin),
        Some(FirmwareOrigin::Cache)
    );

    let fw = firmware(false, false);
    let half = bootstrap(false, false, Pair { kernel: true, initrd: false });
    assert!(
        missing(GuestFamily::Debian, &fw, &half).is_some(),
        "half a cached pair is not a pair"
    );
    let whole = bootstrap(false, false, Pair { kernel: true, initrd: true });
    assert_eq!(missing(GuestFamily::Debian, &fw, &whole), None);
}

#[test]
fn the_default_family_is_the_one_this_host_can_install() {
    assert_eq!(GuestFamily::default_for_host(Host::Windows).cli_name(), "ubuntu");
    let default = GuestFamily::default_for_host(Host::Linux);
    assert_eq!(default.cli_name(), "debian");
    let mut m = machine();
    m.family = default;
    let line = install_line(&m);
    assert!(
        line.contains(&format!("install {}", default.cli_name())),
        "{line}"
    );
}

#[test]
fn installer_memory_has_a_floor_and_headless_is_optional() {
    let mut m = machine();
    m.memory_mib = 512;
    m.automated = false;
    m.headless = true;
    let line = install_line(&m);
    assert!(line.contains("--memory-mib 1536"), "{line}");
    assert!(line.contains("--headless"), "{line}");
    assert!(!line.contains("--auto"), "{line}");
}

#[test]
fn ubuntu_local_iso_and_existing_disk_reach_the_cli() {
    let mut m = machine();
    m.family = GuestFamily::Ubuntu;
    m.iso_path = "/isos/ubuntu.iso".into();
    m.disk_mode = DiskMode::UseExisting;
    m.disk_path = "kept.raw".into();
    let line = install_line(&m);
    assert!(line.contains("install ubuntu"), "{line}");
    assert!(line.contains("--iso /isos/ubuntu.iso"), "{line}");
    assert!(line.contains("/vms/kept.raw"), "{line}");
}

#[test]
fn run_spec_points_at_the_profile() {
    let spec = run_spec(
        Host::Linux,
        &native("/usr/bin/entangled"),
        &entry(),
        "/srv/entangled".to_string(),
        "/vms",
    )
    .expect("spec");
    assert_eq!(spec.kind, TaskKind::Run);
    assert_eq!(
        spec.command_line(),
        "/usr/bin/entangled run --control-stdin /vms/debian-demo.toml"
    );
    assert!(
        spec.control,
        "a run task must keep its child's stdin, or Pause and Restart have nowhere to go"
    );
    assert_eq!(spec.cwd, "/srv/entangled");
    assert_eq!(spec.log_path, "/vms/debian-demo-run.log");
}

#[test]
fn resume_spec_starts_the_snapshot_not_the_profile() {
    let spec = resume_spec(
        Host::Linux,
        &native("/usr/bin/entangled"),
        "debian-demo",
        "/vms/debian-demo.esnap",
        "/srv/entangled".to_string(),
        "/vms",
    )
    .expect("spec");
    assert_eq!(spec.kind, TaskKind::Run);
    assert_eq!(
        spec.command_line(),
        "/usr/bin/entangled resume --control-stdin /vms/debian-demo.esnap"
    );
    assert!(
        spec.control,
        "a resumed machine must be pausable and suspendable like any other"
    );
    assert_eq!(spec.log_path, "/vms/debian-demo-run.log");

    let through_wsl = resume_spec(
        Host::Windows,
        &Runner {
            backend: Backend::Wsl,
            engine: "C:/Program Files/Entangled/entangled.exe".into(),
            distro: "Ubuntu".into(),
            linux_engine: "/home/spider/entangled".into(),
        },
        "debian-demo",
        "D:/vms/debian-demo.esnap",
        "D:/entangled-desktop".to_string(),
        "D:/vms",
    )
    .expect("spec");
    assert!(
        through_wsl
            .command_line()
            .contains("/mnt/d/vms/debian-demo.esnap"),
        "{}",
        through_wsl.command_line()
    );
}

#[test]
fn the_wsl_backend_rewrites_the_program_and_the_paths() {
    let runner = Runner {
        backend: Backend::Wsl,
        engine: r"C:\Program Files\Entangled\entangled.exe".into(),
        distro: "Ubuntu".into(),
        linux_engine: "/home/spider/target/debug/entangled".into(),
    };
    let mut vm = entry();
    vm.profile_path = r"D:\entangled-vms\debian-demo.toml".into();
    let spec = run_spec(
        Host::Windows,
        &runner,
        &vm,
        r"D:\entangled-desktop".to_string(),
        r"D:\entangled-vms",
    )
    .expect("spec");
    assert_eq!(spec.program, "wsl.exe");
    assert!(spec.control, "the control pipe survives wsl.exe");
    let line = spec.command_line();
    assert!(line.contains("-d Ubuntu"), "{line}");
    assert!(
        line.contains("/home/spider/target/debug/entangled"),
        "{line}"
    );
    assert!(
        line.contains("/mnt/d/entangled-vms/debian-demo.toml"),
        "{line}"
    );
    assert_eq!(spec.log_path, r"D:\entangled-vms\debian-demo-run.log");
}

#[test]
fn an_untranslatable_path_fails_the_spec_not_the_boot() {
    let runner = Runner {
        backend: Backend::Wsl,
        engine: "entangled.exe".into(),
        distro: "Ubuntu".into(),
        linux_engine: String::new(),
    };
    let mut vm = entry();
    vm.profile_path = r"\\nas\vms\demo.toml".into();
    let error = run_spec(Host::Windows, &runner, &vm, r"D:\x".to_string(), r"D:\x")
        .expect_err("unreachable");
    assert!(error.contains("network path"), "{error}");
}

#[test]
fn explicit_binary_must_exist_and_is_reported_as_chosen() {
    let mut settings = Settings {
        entangled_binary: Some("/definitely/not/here/entangled".into()),
        ..Settings::default(Host::Linux, &None)
    };
    let facts = |chosen_is_file| EngineFacts {
        chosen_is_file,
        beside: None,
        on_path: Vec::new(),
    };
    assert!(matches!(
        locate_engine(&settings, Host::Linux, &facts(false)),
        Err(LaunchError::OverrideMissing(_))
    ));
    settings.entangled_binary = Some("/here/test-binary".into());
    let engine = locate_engine(&settings, Host::Linux, &facts(true)).expect("located");
    assert_eq!(engine.path, "/here/test-binary");
    assert_eq!(engine.origin, EngineOrigin::Chosen);
    assert!(engine.summary().contains("chosen in Settings"));
}

#[test]
fn the_engine_is_looked_for_beside_the_manager_first() {
    let settings = Settings::default(Host::Linux, &None);
    let place = |dir: &str, present| Place { dir: dir.to_string(), present };
    let facts = EngineFacts {
        chosen_is_file: false,
        beside: Some(place("/opt/entangled", true)),
        on_path: vec![place("/usr/bin", true)],
    };
    let engine = locate_engine(&settings, Host::Linux, &facts).expect("beside");
    assert_eq!(engine.path, "/opt/entangled/entangled");
    assert_eq!(engine.origin, EngineOrigin::BesideManager);
    let facts = EngineFacts {
        chosen_is_file: false,
        beside: Some(place("/opt/entangled", false)),
        on_path: vec![place("/usr/local/bin", false), place("/usr/bin", true)],
    };
    let engine = locate_engine(&settings, Host::Linux, &facts).expect("on the path");
    assert_eq!(engine.path, "/usr/bin/entangled");
    assert_eq!(engine.origin, EngineOrigin::OnPath);
    let facts = EngineFacts { chosen_is_file: false, beside: None, on_path: Vec::new() };
    let missing = locate_engine(&settings, Host::Windows, &facts).expect_err("nowhere");
    assert!(matches!(missing, LaunchError::NotFound));
    assert!(!missing.message().is_empty());
}

#[test]
fn the_version_line_is_parsed_or_dropped() {
    assert_eq!(parse_version("entangled 0.2.17\n"), Some("0.2.17".into()));
    assert_eq!(parse_version("entangled 0.2.0"), Some("0.2.0".into()));
    assert_eq!(parse_version("entangled"), None);
    assert_eq!(parse_version(""), None);
    assert_eq!(parse_version("bash: entangled: not found"), None);
}

// ---- file dialogs ----------------------------------------------------------

#[test]
fn every_target_has_a_title_and_the_media_targets_filter() {
    for target in [
        PickTarget::VmDir,
        PickTarget::EngineBinary,
        PickTarget::WorkDir,
        PickTarget::WizardIso,
        PickTarget::WizardDisk,
        PickTarget::EditorKernel,
        PickTarget::EditorInitramfs,
        PickTarget::EditorFirmware,
        PickTarget::EditorNvram,
        PickTarget::EditorCdrom,
        PickTarget::EditorAddDisk,
        PickTarget::MoveDestination,
    ] {
        let spec = spec(target);
        assert!(!spec.title.is_empty(), "{target:?} has no title");
    }
    assert_eq!(spec(PickTarget::WizardIso).filter, Some(ISO_FILTER));
    assert_eq!(
        spec(PickTarget::EditorFirmware).filter,
        Some(FIRMWARE_FILTER)
    );
    assert_eq!(spec(PickTarget::EditorAddDisk).filter, Some(DISK_FILTER));
    assert_eq!(spec(PickTarget::VmDir).kind, Kind::Directory);
    assert_eq!(spec(PickTarget::MoveDestination).kind, Kind::Directory);
}

#[test]
fn the_dialog_opens_next_to_what_the_field_already_names() {
    let facts = |current, parent, fallback: &[bool]| DirFacts {
        current,
        parent,
        fallback: fallback.to_vec(),
    };
    assert_eq!(
        start_directory(
            Host::Linux,
            "/tmp/entangled-picker-probe.raw",
            "/definitely/not/here",
            &facts(false, true, &[false, false, false, true]),
        ),
        "/tmp"
    );
    assert_eq!(
        start_directory(Host::Linux, "   ", "/tmp", &facts(false, false, &[true])),
        "/tmp"
    );
    assert_eq!(
        start_directory(
            Host::Linux,
            "",
            "/tmp/entangled-absent-dir/deeper",
            &facts(false, false, &[false, false, true, true]),
        ),
        "/tmp"
    );
}

#[test]
fn file_names_survive_both_separators() {
    assert_eq!(file_name_of(Host::Linux, "/vms/a.raw"), Some("a.raw".to_string()));
    assert_eq!(file_name_of(Host::Linux, "  "), None);
    assert_eq!(file_name_of(Host::Windows, r"D:\vms\a.raw"), Some("a.raw".to_string()));
}

// ---- releases --------------------------------------------------------------

fn v(text: &str) -> Version {
    Version::parse(text).expect("test version")
}

#[test]
fn versions_parse_the_shapes_github_serves() {
    assert_eq!(
        v("v0.2.17"),
        Version {
            major: 0,
            minor: 2,
            patch: 17
        }
    );
    assert_eq!(v("1.2.3"), v("v1.2.3"));
    assert_eq!(v("1.2").patch, 0);
    assert_eq!(v("1.2.3-rc1"), v("1.2.3"));
    assert_eq!(v("1.2.3+build9"), v("1.2.3"));
    for bad in ["", "v", "one.two", "1.2.3.4", "1..3", "-1.0.0"] {
        assert!(Version::parse(bad).is_none(), "{bad:?} must not parse");
    }
}

#[test]
fn version_ordering_is_numeric_not_lexicographic() {
    assert!(v("0.2.10") > v("0.2.9"));
    assert!(v("0.10.0") > v("0.9.99"));
    assert!(v("1.0.0") > v("0.99.99"));
    assert_eq!(v("0.2.0"), v("0.2.0"));
    assert!(v("0.2.10").is_later(&v("0.2.9")));
    assert!(!v("0.2.9").is_later(&v("0.2.9")));
}

#[test]
fn versions_are_read_as_they_are_written() {
    for text in ["0.0.0", "0.2.137", "18446744073709551615.1.2"] {
        assert_eq!(v(text).text(), text);
    }
}

fn release_json(tag: &str, extra: &str) -> String {
    format!(
        r#"{{
            "tag_name": "{tag}",
            "html_url": "https://github.com/{REPO}/releases/tag/{tag}",
            {extra}
            "assets": [
                {{"name": "SHA256SUMS.txt",
                  "browser_download_url": "https://example.invalid/sums"}},
                {{"name": "entangled-desktop-0.2.9-setup.exe",
                  "browser_download_url": "https://example.invalid/setup.exe"}}
            ]
        }}"#
    )
}

/// The answer of the release service, as a release or as what is wrong with it.
fn release(json: &str) -> Result<ApiRelease, String> {
    let value: serde_json::Value = serde_json::from_str(json).map_err(|e| e.to_string())?;
    let text = |name: &str| {
        value[name]
            .as_str()
            .map(str::to_string)
            .ok_or(format!("missing field `{name}`"))
    };
    let mut assets = Vec::new();
    for asset in value["assets"].as_array().cloned().unwrap_or_default() {
        assets.push(ApiAsset {
            name: asset["name"].as_str().unwrap_or_default().to_string(),
            browser_download_url: asset["browser_download_url"]
                .as_str()
                .unwrap_or_default()
                .to_string(),
        });
    }
    Ok(ApiRelease {
        tag_name: text("tag_name")?,
        html_url: text("html_url")?,
        draft: value["draft"].as_bool().unwrap_or(false),
        prerelease: value["prerelease"].as_bool().unwrap_or(false),
        assets,
    })
}

#[test]
fn a_newer_release_yields_the_installer_asset() {
    let info = parse_latest(release(&release_json("v0.2.9", "")), v("0.2.3"))
        .expect("parse")
        .expect("newer");
    assert_eq!(info.version, v("0.2.9"));
    assert_eq!(
        info.installer_url.as_deref(),
        Some("https://example.invalid/setup.exe")
    );
    assert_eq!(
        info.installer_name.as_deref(),
        Some("entangled-desktop-0.2.9-setup.exe")
    );
    assert!(info.page_url.contains("/releases/tag/v0.2.9"));
}

#[test]
fn an_equal_or_older_release_is_silence() {
    assert_eq!(
        parse_latest(release(&release_json("v0.2.9", "")), v("0.2.9")).expect("parse"),
        None
    );
    assert_eq!(
        parse_latest(release(&release_json("v0.2.9", "")), v("0.3.0")).expect("parse"),
        None
    );
}

#[test]
fn drafts_and_prereleases_are_never_offered() {
    for extra in ["\"draft\": true,", "\"prerelease\": true,"] {
        assert_eq!(
            parse_latest(release(&release_json("v9.9.9", extra)), v("0.2.0")).expect("parse"),
            None,
            "{extra} must be ignored"
        );
    }
}

#[test]
fn a_release_without_an_installer_still_reports_the_page() {
    let json = format!(
        r#"{{"tag_name": "v0.3.0",
             "html_url": "https://github.com/{REPO}/releases/tag/v0.3.0",
             "assets": []}}"#
    );
    let info = parse_latest(release(&json), v("0.2.0"))
        .expect("parse")
        .expect("newer");
    assert_eq!(info.installer_url, None);
    assert!(info.page_url.ends_with("v0.3.0"));
}

#[test]
fn garbage_answers_are_errors_not_panics() {
    assert!(parse_latest(release("not json"), v("0.2.0")).is_err());
    assert!(parse_latest(
        release(r#"{"tag_name": "not-a-version", "html_url": "x"}"#),
        v("0.2.0")
    )
    .is_err());
}

#[test]
fn installer_assets_are_recognised_by_shape() {
    assert!(is_installer_asset("entangled-desktop-0.2.9-setup.exe"));
    assert!(is_installer_asset("Entangled-SETUP.EXE"));
    assert!(!is_installer_asset("entangled-desktop-0.2.9.msi"));
    assert!(!is_installer_asset("setup.exe.sha256"));
    assert!(!is_installer_asset("entangled.exe"));
}

#[test]
fn download_dir_is_always_writable_shaped() {
    let home = Some("/home/spider".to_string());
    assert_eq!(
        download_dir(Host::Linux, &home, true, "/tmp"),
        "/home/spider/Downloads"
    );
    assert_eq!(download_dir(Host::Linux, &home, false, "/tmp"), "/tmp");
    assert_eq!(download_dir(Host::Linux, &None, true, "/tmp"), "/tmp");
}

#[test]
fn downloads_are_bounded() {
    assert!(latest_release_url().contains(REPO));
    assert!(check_size(100, 100).is_ok());
    let too_large = check_size(101, 100).unwrap_err();
    assert!(too_large.contains("100"), "{too_large}");
}

// ---- the engine inside WSL -------------------------------------------------

#[test]
fn the_status_gates_are_exact() {
    assert!(!Status::Unknown.usable());
    assert!(!Status::Checking.usable());
    assert!(!Status::Unknown.installable());

    let missing = mock_status(&format!("{MOCK_WHAT}. {MOCK_FIX}"));
    assert!(!missing.usable());
    assert!(missing.installable());
    assert!(missing
        .refusal()
        .expect("refusal")
        .contains("let the manager install one"));

    let broken = Status::Failed(EngineFault {
        fault: Fault::NoDistro,
        what: "WSL has no distribution called 'Fedora'".into(),
        fix: "install one".into(),
        sentence: "WSL has no distribution called 'Fedora'. install one".into(),
    });
    assert_eq!(
        broken.refusal().as_deref(),
        Some("WSL has no distribution called 'Fedora'. install one")
    );
    assert!(
        !broken.installable(),
        "there is nowhere to install an engine without a distribution"
    );

    let ready = Status::Ready(EngineFound {
        distro: "Ubuntu".into(),
        command: "entangled".into(),
        path: Some("/home/spider/.local/bin/entangled".into()),
        version: Some("0.2.137".into()),
        summary: "entangled 0.2.137 in Ubuntu".into(),
    });
    assert!(ready.usable());
    assert!(ready.refusal().is_none());
    assert!(ready.line().expect("line").contains("0.2.137"));
}

#[test]
fn the_check_target_ignores_whitespace_and_empty_paths() {
    assert_eq!(
        Target::new("Ubuntu", Some("  ")),
        Target::new("Ubuntu", None)
    );
    assert_eq!(
        Target::new(" Ubuntu ", Some(" /opt/e ")),
        Target::new("Ubuntu", Some("/opt/e"))
    );
    assert_ne!(Target::new("Ubuntu", None), Target::new("Debian", None));
}
