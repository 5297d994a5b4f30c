//! Profiles, disks, saved sessions, settings, children and measurements.
use entangled_manager::backend::Backend;
use entangled_manager::discovery::{
    apply_resources, attach_disk, delete, deleted, detach_disk, disk_refs, disk_rows,
    entry_from_config, format_bytes, is_image, is_profile, plan_delete, scan, validate_name,
    Byproducts, DeleteError, DirEntry, DirFile, DiskFacts, DiskInfo, DiskProbe, Loaded, Machine,
    Removal, VmEntry,
};
use entangled_manager::editor::{mock_profile, EditForm, NetworkChoice};
use entangled_manager::host::Host;
use entangled_manager::metrics::{
    format_uptime, host_cpu_times, host_memory, percent_of, process_cpu_time_ns, process_rss,
    push_capped, Reading, Sampler, Share, HISTORY,
};
use entangled_manager::process::{
    LogBuffer, Outcome, ProcessError, Supervisor, TaskKind, TaskSpec, TaskState, Waited, Watch,
    WatchStep, LOG_CAPACITY, STOP_GRACE_MS,
};
use entangled_manager::profile::{
    BootMode, BootSection, DiskSection, DisplaySection, GamepadBackend, GamepadSection,
    NetworkBackend, NetworkSection, SoundBackend, SoundSection, VirtioTransport, VmConfig,
};
use entangled_manager::settings::{config_path, home_dir, Settings, SettingsError};
use entangled_manager::snapshots::{
    host_of, nameable_here, path_for, snapshot_rows, verdict, what_is_lost, FileRecord, FileState,
    HostKind, SnapshotFacts, SnapshotRow,
};

const MAX_PLAYERS: u8 = 4;

fn config(name: &str, disk: &str) -> VmConfig {
    VmConfig {
        name: name.to_string(),
        memory_mib: 2048,
        vcpus: 2,
        transport: VirtioTransport::Mmio,
        boot: BootSection {
            mode: BootMode::DirectLinux,
            kernel: Some("artifacts/bootstrap/vmlinuz".to_string()),
            initramfs: Some("artifacts/bootstrap/initrd.img".to_string()),
            cmdline: "console=ttyS0 root=UUID=deadbeef rw".to_string(),
            firmware: None,
            nvram: None,
        },
        cdrom: None,
        network: Some(NetworkSection {
            backend: NetworkBackend::Tap,
            interface: Some("entangled0".to_string()),
            mac: None,
        }),
        display: DisplaySection { width: 1920, height: 1080, virgl: false },
        sound: SoundSection { enabled: false, backend: SoundBackend::Auto },
        gamepad: GamepadSection { enabled: false, backend: GamepadBackend::Auto, players: 1 },
        disks: vec![DiskSection { path: disk.to_string(), writable: true }],
    }
}

fn probe(bytes: u64) -> DiskProbe {
    DiskProbe {
        in_work_dir: false,
        in_profile_dir: false,
        exists: true,
        size_bytes: bytes,
        allocated_bytes: Some(bytes),
    }
}

fn write_vm(dir: &str, name: &str, bytes: u64) -> VmEntry {
    let cfg = config(name, &format!("{dir}/{name}.raw"));
    entry_from_config(
        Host::Linux,
        &format!("{dir}/{name}.toml"),
        &cfg,
        &None,
        &vec![probe(bytes)],
    )
}

const NOTHING: Byproducts = Byproducts {
    install_log: false,
    run_log: false,
    install_initrd: false,
    session: false,
};

// ---- the machine directory -------------------------------------------------

#[test]
fn scans_profiles_sorted_and_reports_broken_ones() {
    let seen = |name: &str, is_file: bool, loaded| DirEntry::Seen {
        path: format!("/vms/{name}"),
        is_file,
        loaded,
    };
    let problem = |name: &str| seen(name, true, Loaded::Profile(Err("broken".to_string())));
    let machine = |name: &str, bytes: u64| {
        let vm = write_vm("/vms", name, bytes);
        let facts = vec![facts(&format!("/vms/{name}.raw"), bytes, false)];
        seen(&format!("{name}.toml"), true, Loaded::Profile(Ok(Machine { vm, facts })))
    };
    assert!(is_profile(Host::Linux, "/vms/zeta.toml", true));
    assert!(!is_profile(Host::Linux, "/vms/notes.txt", true));
    assert!(!is_profile(Host::Linux, "/vms/dir.toml", false));
    let scan = scan(
        Host::Linux,
        "/vms",
        Ok(vec![
            problem("invalid.toml"),
            machine("zeta", 4096),
            problem("broken.toml"),
            seen("notes.txt", true, Loaded::Nothing),
            seen("dir.toml", false, Loaded::Nothing),
            machine("alpha", 2048),
        ]),
    )
    .expect("a scan");
    let names: Vec<&str> = scan.vms.iter().map(|v| v.name.as_str()).collect();
    assert_eq!(names, vec!["alpha", "zeta"]);
    assert_eq!(scan.vms[0].memory_mib, 2048);
    assert_eq!(scan.vms[0].vcpus, 2);
    assert_eq!(scan.vms[0].display, (1920, 1080));
    assert_eq!(scan.vms[0].network_interface.as_deref(), Some("entangled0"));
    assert_eq!(scan.vms[0].disks.len(), 1);
    assert!(scan.vms[0].disks[0].exists);
    assert_eq!(scan.vms[0].size_bytes(), 2048);
    let problems: Vec<&str> = scan.problems.iter().map(|p| p.path.as_str()).collect();
    assert_eq!(problems, vec!["/vms/broken.toml", "/vms/invalid.toml"]);
}

#[test]
fn relative_disks_resolve_against_the_work_dir() {
    let cfg = config("rel", "images/rel.raw");
    let there = DiskProbe { in_work_dir: true, ..probe(512) };
    let entry = entry_from_config(
        Host::Linux,
        "/scan/rel.toml",
        &cfg,
        &Some("/scan/work".to_string()),
        &vec![there],
    );
    assert!(entry.disks[0].exists);
    assert_eq!(entry.disks[0].resolved, "/scan/work/images/rel.raw");
    assert_eq!(entry.disks[0].declared, "images/rel.raw");

    let beside = DiskProbe { in_profile_dir: true, ..probe(512) };
    let entry = entry_from_config(
        Host::Linux,
        "/scan/rel.toml",
        &cfg,
        &Some("/scan/work".to_string()),
        &vec![beside],
    );
    assert_eq!(entry.disks[0].resolved, "/scan/images/rel.raw");
}

#[test]
fn delete_refuses_while_busy_and_on_name_mismatch() {
    let entry = write_vm("/vms", "guarded", 1024);
    let attempt = |busy, typed: &str| delete(Host::Linux, &entry, "/vms", NOTHING, busy, typed);
    assert!(matches!(attempt(true, "guarded"), Err(DeleteError::Busy(_))));
    assert!(matches!(
        attempt(false, "guardedx"),
        Err(DeleteError::NameMismatch(_))
    ));
    assert!(matches!(attempt(false, ""), Err(DeleteError::NameMismatch(_))));
}

#[test]
fn delete_removes_profile_disk_and_byproducts() {
    let entry = write_vm("/vms", "doomed", 1024);
    let there = Byproducts { run_log: true, install_initrd: true, ..NOTHING };
    // A trailing newline from the text field must still match.
    let plan = delete(Host::Linux, &entry, "/vms", there, false, "doomed\n").expect("delete");
    let all = vec![
        Removal::Removed,
        Removal::Removed,
        Removal::Removed,
        Removal::Removed,
    ];
    let removed = deleted(&plan.remove, &all).expect("removed");
    assert_eq!(removed.len(), 4, "removed: {removed:?}");
    for path in [
        "/vms/doomed.toml",
        "/vms/doomed.raw",
        "/vms/doomed-run.log",
        "/vms/doomed.install-initrd.img",
    ] {
        assert!(removed.iter().any(|p| p == path), "{path} in {removed:?}");
    }
    let failed = deleted(
        &plan.remove,
        &vec![
            Removal::Removed,
            Removal::Failed("denied".to_string()),
            Removal::Removed,
            Removal::Removed,
        ],
    )
    .unwrap_err();
    assert!(matches!(failed, DeleteError::Remove { .. }));
    assert!(failed.message().contains("denied"), "{}", failed.message());
}

#[test]
fn delete_keeps_disks_outside_the_vm_directory() {
    let cfg = config("shared-base", "/elsewhere/shared/base.raw");
    let entry = entry_from_config(
        Host::Linux,
        "/vms/shared-base.toml",
        &cfg,
        &None,
        &vec![probe(64)],
    );
    let plan = plan_delete(Host::Linux, &entry, "/vms", NOTHING);
    assert_eq!(plan.kept_outside_vm_dir, vec!["/elsewhere/shared/base.raw"]);
    let plan = delete(Host::Linux, &entry, "/vms", NOTHING, false, "shared-base").expect("delete");
    assert_eq!(plan.remove, vec!["/vms/shared-base.toml"]);
}

#[test]
fn apply_resources_rewrites_only_memory_and_vcpus() {
    let cfg = config("resized", "/vms/resized.raw");
    let edited = apply_resources(&cfg, 3072, 6).expect("changed");
    assert_eq!(edited.memory_mib, 3072);
    assert_eq!(edited.vcpus, 6);
    assert!(edited.boot.cmdline.contains("root=UUID=deadbeef"));
    assert_eq!(edited.network, cfg.network);
    assert_eq!(edited.disks, cfg.disks);
    assert!(apply_resources(&cfg, 2048, 2).is_none(), "nothing to write");
}

fn facts(canonical: &str, bytes: u64, nvram: bool) -> DiskFacts {
    DiskFacts {
        canonical: Some(canonical.to_string()),
        exists: true,
        apparent_bytes: bytes,
        allocated_bytes: None,
        nvram,
        summary: Ok("blank — no partition table".to_string()),
    }
}

#[test]
fn disk_rows_merge_profile_disks_and_loose_raws() {
    assert!(is_image(Host::Linux, "/vms/loose.raw", true));
    assert!(!is_image(Host::Linux, "/vms/notes.txt", true));
    let alpha = write_vm("/vms", "alpha", 4096);
    let image = |path: &str, bytes, nvram| DirFile {
        path: path.to_string(),
        is_file: true,
        facts: Some(facts(path, bytes, nvram)),
    };
    let rows = disk_rows(
        Host::Linux,
        &vec![alpha],
        vec![vec![facts("/vms/alpha.raw", 4096, true)]],
        vec![
            image("/vms/alpha.raw", 4096, true),
            image("/vms/loose.raw", 2048, false),
            DirFile { path: "/vms/notes.txt".to_string(), is_file: true, facts: None },
        ],
    );
    assert_eq!(rows.len(), 2, "{rows:?}");
    let alpha = rows.iter().find(|d| d.file_name == "alpha.raw").expect("alpha row");
    assert!(alpha.exists);
    assert!(alpha.nvram, "sidecar badge");
    assert_eq!(alpha.apparent_bytes, 4096);
    assert_eq!(alpha.attachments.len(), 1);
    assert_eq!(alpha.attachments[0].vm, "alpha");
    assert!(alpha.attachments[0].writable);
    assert_eq!(
        alpha.summary.as_deref(),
        Ok("blank — no partition table")
    );
    let loose = rows.iter().find(|d| d.file_name == "loose.raw").expect("loose row");
    assert!(loose.attachments.is_empty());
    assert!(!loose.nvram);
}

#[test]
fn a_disk_shared_by_two_vms_is_one_row_with_two_attachments() {
    let mut vms = Vec::new();
    let mut found = Vec::new();
    for name in ["one", "two"] {
        let cfg = config(name, "/vms/shared.raw");
        let entry = entry_from_config(
            Host::Linux,
            &format!("/vms/{name}.toml"),
            &cfg,
            &None,
            &vec![probe(1024)],
        );
        vms.push(entry);
        found.push(vec![facts("/vms/shared.raw", 1024, false)]);
    }
    let rows = disk_rows(Host::Linux, &vms, found, Vec::new());
    assert_eq!(rows.len(), 1, "{rows:?}");
    let vms: Vec<&str> = rows[0].attachments.iter().map(|a| a.vm.as_str()).collect();
    assert_eq!(vms, vec!["one", "two"]);
}

#[test]
fn missing_images_are_told_apart_by_their_paths() {
    let machine = |name: &str, disk: &str| {
        let gone = DiskProbe { exists: false, ..probe(0) };
        entry_from_config(
            Host::Linux,
            &format!("/vms/{name}.toml"),
            &config(name, disk),
            &None,
            &vec![gone],
        )
    };
    let missing = || DiskFacts { canonical: None, exists: false, ..facts("", 77, false) };
    let vms = vec![
        machine("one", "/vms/a.raw"),
        machine("two", "/vms//./a.raw"),
        machine("three", "/vms/b.raw"),
    ];
    let found = vec![vec![missing()], vec![missing()], vec![missing()]];
    let rows = disk_rows(Host::Linux, &vms, found, Vec::new());
    assert_eq!(rows.len(), 2);
    assert_eq!(rows[0].path, "/vms/a.raw");
    assert_eq!(rows[0].attachments.len(), 2);
    assert_eq!(rows[0].apparent_bytes, 0);
    assert_eq!(rows[0].summary, Err("the image file is missing".to_string()));
    assert_eq!(rows[1].attachments.len(), 1);
}

#[test]
fn mentions_come_in_the_order_of_the_machines_and_their_disks() {
    let mut two = write_vm("/vms", "two", 1);
    two.disks.push(DiskInfo { declared: "x.raw".to_string(), ..two.disks[0].clone() });
    let vms = vec![write_vm("/vms", "one", 1), two];
    let found = vec![
        vec![facts("/vms/one.raw", 1, false)],
        vec![facts("/vms/two.raw", 2, false), facts("/vms/two.raw", 3, true)],
    ];
    let files = vec![
        DirFile { path: "/vms/d.raw".to_string(), is_file: false, facts: None },
        DirFile {
            path: "/vms/two.raw".to_string(),
            is_file: true,
            facts: Some(facts("/vms/two.raw", 4, false)),
        },
    ];
    let refs = disk_refs(Host::Linux, &vms, found, files);
    let shown: Vec<(&str, Option<(&str, &str)>, u64)> = refs
        .iter()
        .map(|r| {
            let attachment = r.attachment.as_ref().map(|a| (a.vm.as_str(), a.declared.as_str()));
            (r.path.as_str(), attachment, r.facts.apparent_bytes)
        })
        .collect();
    assert_eq!(
        shown,
        [
            ("/vms/one.raw", Some(("one", "/vms/one.raw")), 1),
            ("/vms/two.raw", Some(("two", "/vms/two.raw")), 2),
            ("/vms/two.raw", Some(("two", "x.raw")), 3),
            ("/vms/two.raw", None, 4),
        ]
    );
}

#[test]
fn one_look_lists_machines_disks_and_sessions() {
    let seen = |name: &str, loaded| DirEntry::Seen {
        path: format!("/vms/{name}"),
        is_file: true,
        loaded,
    };
    let machine = |name: &str| {
        let vm = write_vm("/vms", name, 8);
        let facts = vec![facts(&format!("/vms/{name}.raw"), 8, false)];
        seen(&format!("{name}.toml"), Loaded::Profile(Ok(Machine { vm, facts })))
    };
    let image = |name: &str| {
        seen(name, Loaded::Image(facts(&format!("/vms/{name}"), 8, false)))
    };
    let saved = |name: &str| {
        let path = format!("/vms/{name}");
        let file_name = name.to_string();
        seen(name, Loaded::Session(SnapshotRow { path, file_name, ..row(Ok(session())) }))
    };
    let found = scan(
        Host::Linux,
        "/vms",
        Ok(vec![
            image("zeta.raw"),
            machine("zeta"),
            DirEntry::Unlisted("gone".to_string()),
            machine("alpha"),
            image("beta.raw"),
            saved("zeta.esnap"),
            saved("alpha.esnap"),
        ]),
    )
    .expect("a scan");
    let disks: Vec<(&str, usize)> =
        found.disks.iter().map(|d| (d.file_name.as_str(), d.attachments.len())).collect();
    assert_eq!(disks, [("alpha.raw", 1), ("beta.raw", 0), ("zeta.raw", 1)]);
    let sessions: Vec<&str> = found.snapshots.iter().map(|s| s.path.as_str()).collect();
    assert_eq!(sessions, ["/vms/alpha.esnap", "/vms/zeta.esnap"]);
    assert_eq!(found.problems.len(), 1);
    assert_eq!(found.problems[0].message, "gone");
}

#[test]
fn a_directory_that_cannot_be_read_is_told() {
    let refused = scan(Host::Linux, "/vms", Err("permission denied".to_string())).unwrap_err();
    assert!(refused.message().contains("/vms"), "{}", refused.message());
    assert!(refused.message().contains("permission denied"), "{}", refused.message());
}

#[test]
fn problems_sort_by_the_components_of_their_paths() {
    let broken = |path: &str| DirEntry::Seen {
        path: path.to_string(),
        is_file: true,
        loaded: Loaded::Profile(Err("broken".to_string())),
    };
    let order = |host, list: &[&str]| -> Vec<String> {
        let entries = list.iter().map(|path| broken(path)).collect();
        let scan = scan(host, "d", Ok(entries)).expect("a scan");
        scan.problems.into_iter().map(|p| p.path).collect()
    };
    assert_eq!(
        order(Host::Linux, &["d/a-b.toml", "d/a/x.toml", "/z.toml", "../q.toml", "./q.toml"]),
        ["/z.toml", "./q.toml", "../q.toml", "d/a/x.toml", "d/a-b.toml"]
    );
    assert_eq!(order(Host::Linux, &["\\.toml", "!.toml"]), ["!.toml", "\\.toml"]);
    assert_eq!(order(Host::Windows, &["!.toml", "\\x.toml"]), ["\\x.toml", "!.toml"]);
}

#[test]
fn attach_and_detach_rewrite_the_profile_through_control_api() {
    let cfg = config("editable", "/vms/editable.raw");
    let profile = "/vms/editable.toml";
    let extra = "/vms/extra.raw";
    let attached = attach_disk(Host::Linux, &cfg, profile, extra).expect("attach");
    assert_eq!(attached.disks.len(), 2);
    assert_eq!(attached.disks[1].path, extra);
    assert!(attached.disks[1].writable, "attached disks default writable");
    assert!(attached.boot.cmdline.contains("root=UUID=deadbeef"), "boot section kept");

    let error = attach_disk(Host::Linux, &attached, profile, extra).expect_err("duplicate");
    assert!(error.contains("already attached"), "{error}");

    let detached = detach_disk(Host::Linux, &attached, extra).expect("detach");
    assert_eq!(detached.disks.len(), 1);
    assert_eq!(detached, cfg, "a detach undoes an attach");

    let error = detach_disk(Host::Linux, &detached, extra).expect_err("unknown");
    assert!(error.contains("no disk entry"), "{error}");
}

#[test]
fn formats_sizes_and_validates_names() {
    assert_eq!(format_bytes(0), "0 B");
    assert_eq!(format_bytes(1023), "1023 B");
    assert_eq!(format_bytes(1024), "1.0 KiB");
    assert_eq!(format_bytes(16 * 1024 * 1024 * 1024), "16.0 GiB");
    assert_eq!(format_bytes(700 * 1024 * 1024), "700 MiB");

    assert!(validate_name("debian-demo").is_ok());
    assert!(validate_name("vm.1_a").is_ok());
    assert!(validate_name("").is_err());
    assert!(validate_name("-leading").is_err());
    assert!(validate_name("with space").is_err());
    assert!(validate_name("../escape").is_err());
    assert!(validate_name("sub/dir").is_err());
    assert!(validate_name(&"x".repeat(41)).is_err());
}

#[test]
fn the_disks_of_a_machine_are_summed_up() {
    let disk = |bytes, allocated| DiskInfo {
        declared: "d.raw".to_string(),
        resolved: "/vms/d.raw".to_string(),
        exists: true,
        writable: true,
        size_bytes: bytes,
        allocated_bytes: allocated,
    };
    let mut vm = write_vm("/vms", "two", 1000);
    vm.disks = vec![disk(1000, Some(10)), disk(24, Some(5))];
    assert_eq!(vm.size_bytes(), 1024);
    assert_eq!(vm.allocated_bytes(), Some(15));
    vm.disks = vec![disk(1000, Some(10)), disk(24, None)];
    assert_eq!(vm.allocated_bytes(), None, "one that does not say leaves it open");
}

// ---- the editor ------------------------------------------------------------

fn form() -> EditForm {
    EditForm::from_config(
        "/vms/edit-me.toml".to_string(),
        config("edit-me", "edit-me.raw"),
        MAX_PLAYERS,
    )
}

/// What a saved form gives when it is opened again.
fn saved(form: &EditForm) -> VmConfig {
    form.to_config(Ok(())).expect("valid")
}

fn reopened(cfg: VmConfig) -> EditForm {
    EditForm::from_config("/vms/edit-me.toml".to_string(), cfg, MAX_PLAYERS)
}

#[test]
fn loads_the_profile_into_fields() {
    let form = form();
    assert_eq!(form.name, "edit-me");
    assert_eq!(form.memory_mib, 2048);
    assert_eq!(form.vcpus, 2);
    assert_eq!(form.transport, VirtioTransport::Mmio);
    assert_eq!(form.boot_mode, BootMode::DirectLinux);
    assert_eq!(form.kernel, "artifacts/bootstrap/vmlinuz");
    assert_eq!(form.network, NetworkChoice::Tap);
    assert_eq!(form.interface, "entangled0");
    assert!(!form.virgl);
    assert_eq!(form.disks.len(), 1);
    assert!(!form.dirty(Host::Linux, true), "an untouched form is clean");
}

#[test]
fn mock_profile_is_valid_without_a_file() {
    let form = EditForm::mock("preview", decoded(&mock_profile("preview")), MAX_PLAYERS)
        .expect("mock");
    assert_eq!(form.name, "preview");
    assert_eq!(form.boot_mode, BootMode::Uefi);
    assert!(form.to_config(Ok(())).is_ok());
    assert_eq!(form.profile_path, "mock-vms/preview.toml");
    assert_eq!(form.memory_mib, 4096);
    assert_eq!(form.vcpus, 4);
    assert_eq!(form.nvram, "mock-vms/preview.nvram");
    assert_eq!(form.disks[0].path, "mock-vms/preview.raw");
    assert_eq!(form.network, NetworkChoice::Usernet);
    assert!(form.virgl);
}

#[test]
fn a_name_that_no_profile_can_hold_has_no_sample() {
    let text = mock_profile("a\"b");
    assert!(text.contains("name = \"a\\\"b\"\n"), "{text}");
    assert!(text.contains("path = \"mock-vms/a\"b.raw\"\n"), "{text}");
    let refused = EditForm::mock("a\"b", decoded(&text), MAX_PLAYERS).unwrap_err();
    assert_eq!(refused, decoded(&text).unwrap_err());
}

/// Reads the text of a profile, as far as the samples use the format.
fn decoded(text: &str) -> Result<VmConfig, String> {
    let table: toml::Table = text.parse().map_err(|e: toml::de::Error| e.to_string())?;
    let word = |value: &toml::Value| value.as_str().map(str::to_string);
    let number = |value: &toml::Value| value.as_integer().expect("a number");
    let boot = &table["boot"];
    Ok(VmConfig {
        name: word(&table["name"]).expect("a name"),
        memory_mib: number(&table["memory_mib"]) as u64,
        vcpus: number(&table["vcpus"]) as u32,
        transport: match table["transport"].as_str() {
            Some("pci") => VirtioTransport::Pci,
            _ => VirtioTransport::Mmio,
        },
        boot: BootSection {
            mode: match boot["mode"].as_str() {
                Some("uefi") => BootMode::Uefi,
                _ => BootMode::DirectLinux,
            },
            kernel: None,
            initramfs: None,
            cmdline: String::new(),
            firmware: word(&boot["firmware"]),
            nvram: word(&boot["nvram"]),
        },
        cdrom: None,
        network: Some(NetworkSection {
            backend: match table["network"]["backend"].as_str() {
                Some("usernet") => NetworkBackend::Usernet,
                _ => NetworkBackend::Tap,
            },
            interface: None,
            mac: None,
        }),
        display: DisplaySection {
            width: number(&table["display"]["width"]) as u32,
            height: number(&table["display"]["height"]) as u32,
            virgl: table["display"]["virgl"].as_bool() == Some(true),
        },
        sound: SoundSection {
            enabled: table["sound"]["enabled"].as_bool() == Some(true),
            backend: SoundBackend::Auto,
        },
        gamepad: GamepadSection { enabled: false, backend: GamepadBackend::Auto, players: 1 },
        disks: table["disk"]
            .as_array()
            .expect("disks")
            .iter()
            .map(|disk| DiskSection {
                path: word(&disk["path"]).expect("a path"),
                writable: disk["writable"].as_bool() == Some(true),
            })
            .collect(),
    })
}

#[test]
fn saves_resource_and_network_edits_through_control_api() {
    let mut form = form();
    form.memory_mib = 4096;
    form.vcpus = 6;
    form.network = NetworkChoice::Usernet;
    form.interface = String::new();
    form.virgl = true;
    assert!(form.dirty(Host::Linux, true));
    let cfg = saved(&form);
    assert_eq!(cfg.memory_mib, 4096);
    assert_eq!(cfg.vcpus, 6);
    assert_eq!(
        cfg.network.as_ref().unwrap().backend,
        NetworkBackend::Usernet
    );
    assert_eq!(cfg.network.as_ref().unwrap().interface, None);
    assert!(cfg.display.virgl);
    assert_eq!(cfg.boot.cmdline, "console=ttyS0 root=UUID=deadbeef rw");
    assert_eq!(cfg.disks.len(), 1);
}

#[test]
fn a_saved_form_reads_back_without_its_padding() {
    let mut form = form();
    form.kernel = "  /boot/vmlinuz ".into();
    form.initramfs = "  ".into();
    form.interface = " tap7 ".into();
    form.cmdline = " quiet ".into();
    let again = reopened(saved(&form));
    assert_eq!(again.kernel, "/boot/vmlinuz");
    assert_eq!(again.initramfs, "");
    assert_eq!(again.interface, "tap7");
    assert_eq!(again.cmdline, " quiet ");
    assert_eq!(again.edited_config(), form.edited_config());
    assert!(!again.dirty(Host::Linux, true));
}

#[test]
fn a_path_written_another_way_is_no_change() {
    let mut form = form();
    form.disks[0].path = ".//edit-me.raw".into();
    assert!(form.dirty(Host::Linux, true), "a leading dot is a component");
    form.disks[0].path = "edit-me.raw/".into();
    form.kernel = "artifacts//bootstrap/./vmlinuz".into();
    assert!(!form.dirty(Host::Linux, true));
    form.kernel = "artifacts\\bootstrap\\vmlinuz".into();
    assert!(form.dirty(Host::Linux, true));
    assert!(!form.dirty(Host::Windows, true));
}

#[test]
fn an_invalid_form_says_what_the_engine_says() {
    let mut form = form();
    form.interface = "  ".into();
    let error = form
        .to_config(Err("network.interface is required".to_string()))
        .expect_err("refused");
    assert_eq!(error, "network.interface is required");
    assert!(form.dirty(Host::Linux, false), "an invalid form is not clean");
    assert_eq!(form.edited_config().network.unwrap().interface, None);
}

#[test]
fn the_sound_card_is_opt_in_and_remembers_its_output() {
    let mut form = form();
    assert!(!form.sound, "a profile with no [sound] has no card");
    assert_eq!(form.sound_backend, SoundBackend::Auto);
    assert!(!form.dirty(Host::Linux, true));

    form.sound = true;
    form.sound_backend = SoundBackend::Null;
    assert!(form.dirty(Host::Linux, true));
    let cfg = saved(&form);
    assert!(cfg.sound.enabled);
    assert_eq!(cfg.sound.backend, SoundBackend::Null);

    let mut form = reopened(cfg);
    form.sound = false;
    let cfg = saved(&form);
    assert!(!cfg.sound.enabled);
    assert_eq!(cfg.sound.backend, SoundBackend::Null);
}

#[test]
fn the_gamepad_is_opt_in_and_leaves_a_hand_picked_backend_alone() {
    let mut form = form();
    assert!(!form.gamepad, "a profile with no [gamepad] has none");
    assert!(!form.dirty(Host::Linux, true));

    form.gamepad = true;
    assert!(form.dirty(Host::Linux, true));
    let cfg = saved(&form);
    assert!(cfg.gamepad.enabled);
    assert_eq!(cfg.gamepad.backend, GamepadBackend::Auto);

    let mut by_hand = config("edit-me", "edit-me.raw");
    by_hand.gamepad = GamepadSection {
        enabled: true,
        backend: GamepadBackend::Null,
        players: 1,
    };
    let mut form = reopened(by_hand);
    assert!(form.gamepad);
    form.gamepad = false;
    let cfg = saved(&form);
    assert!(!cfg.gamepad.enabled);
    assert_eq!(cfg.gamepad.backend, GamepadBackend::Null);
}

#[test]
fn the_gamepad_player_count_round_trips_and_stays_in_range() {
    let mut form = form();
    assert_eq!(form.gamepad_players, 1, "one player unless asked");

    form.gamepad = true;
    form.gamepad_players = 2;
    let cfg = saved(&form);
    assert_eq!(cfg.gamepad.players, 2);
    let mut form = reopened(cfg);
    assert_eq!(form.gamepad_players, 2);

    form.gamepad_players = 99;
    let cfg = saved(&form);
    assert_eq!(cfg.gamepad.players, MAX_PLAYERS);

    let mut form = reopened(cfg);
    form.gamepad_players = 2;
    form.gamepad = false;
    let cfg = saved(&form);
    assert!(!cfg.gamepad.enabled);
    assert_eq!(cfg.gamepad.players, 2);
}

#[test]
fn disk_edits_ride_the_same_form() {
    let mut form = form();
    form.disks.push(DiskSection {
        path: "scratch.raw".to_string(),
        writable: false,
    });
    form.disks[0].writable = false;
    let cfg = saved(&form);
    assert_eq!(cfg.disks.len(), 2);
    assert!(!cfg.disks[0].writable);
    assert_eq!(cfg.disks[1].path, "scratch.raw");
}

#[test]
fn typed_disks_are_added_and_removed() {
    let mut form = form();
    form.add_disk = "  ".to_string();
    form.add_typed_disk();
    assert_eq!(form.disks.len(), 1, "nothing typed, nothing added");
    form.add_disk = "  more.raw ".to_string();
    form.add_typed_disk();
    assert_eq!(form.disks.len(), 2);
    assert_eq!(form.disks[1].path, "more.raw");
    assert!(form.disks[1].writable);
    assert!(form.add_disk.is_empty());
    form.remove_disk(0);
    assert_eq!(form.disks.len(), 1);
    assert_eq!(form.disks[0].path, "more.raw");
    form.remove_disk(7);
    assert_eq!(form.disks.len(), 1);
}

// ---- saved sessions --------------------------------------------------------

fn session() -> SnapshotFacts {
    SnapshotFacts {
        vm_name: "ubuntu-lab".into(),
        created_unix: 1_787_303_645,
        writer: "entangled 0.2.0".into(),
        host: HostKind::KvmLinux,
        vcpus: 2,
        memory_bytes: 2048 << 20,
        transport: "pci".into(),
        boot_mode: "uefi".into(),
        files: Vec::new(),
        sections: 9,
    }
}

fn row(facts: Result<SnapshotFacts, String>) -> SnapshotRow {
    SnapshotRow {
        path: "/vms/ubuntu-lab.esnap".into(),
        file_name: "ubuntu-lab.esnap".into(),
        apparent_bytes: 539_500_000,
        allocated_bytes: Some(512 << 20),
        facts,
    }
}

fn vm() -> VmEntry {
    VmEntry {
        name: "ubuntu-lab".into(),
        profile_path: "/vms/ubuntu-lab.toml".into(),
        memory_mib: 2048,
        vcpus: 2,
        transport: VirtioTransport::Pci,
        display: (1920, 1080),
        network_interface: None,
        disks: Vec::new(),
        uefi: true,
    }
}

#[test]
fn a_matching_machine_on_the_right_engine_is_resumable() {
    let verdict = verdict(
        &row(Ok(session())),
        Backend::Wsl,
        Some(&vm()),
        &Vec::new(),
        Host::Windows,
    );
    assert!(verdict.resumable(), "{:?}", verdict.blocked);
    assert!(verdict.notes.is_empty(), "{:?}", verdict.notes);
}

#[test]
fn the_host_check_follows_the_backend_not_the_manager() {
    for host in [Host::Linux, Host::Windows] {
        assert_eq!(host_of(Backend::Wsl, host), Some(HostKind::KvmLinux));
        let linux_snapshot = row(Ok(session()));
        assert!(verdict(&linux_snapshot, Backend::Wsl, None, &Vec::new(), host)
            .blocked
            .is_empty());

        let mut windows = session();
        windows.host = HostKind::WhpWindows;
        let refusal = verdict(&row(Ok(windows)), Backend::Wsl, None, &Vec::new(), host);
        let message = refusal.blocked.first().expect("refused");
        assert!(message.contains("Windows/WHP"), "{message}");
        assert!(message.contains("Linux/KVM"), "{message}");
        if Backend::Wsl.available_on_host(host) {
            assert!(message.contains("Set this machine to run on"), "{message}");
        }
    }
}

#[test]
fn an_edited_machine_is_refused_and_the_field_is_named() {
    let against = |vm: &VmEntry| {
        verdict(
            &row(Ok(session())),
            Backend::Wsl,
            Some(vm),
            &Vec::new(),
            Host::Windows,
        )
    };
    let mut edited = vm();
    edited.memory_mib = 4096;
    let message = against(&edited).blocked.first().cloned().expect("refused");
    assert!(message.contains("was 2048 MiB, is 4096 MiB"), "{message}");

    let mut retransported = vm();
    retransported.transport = VirtioTransport::Mmio;
    let transport = against(&retransported);
    assert!(
        transport.blocked[0].contains("virtio transport"),
        "{:?}",
        transport.blocked
    );

    let mut rebooted = vm();
    rebooted.uefi = false;
    let boot = against(&rebooted);
    assert!(boot.blocked[0].contains("boot mode"), "{boot:?}");
}

#[test]
fn a_machine_whose_profile_is_gone_is_still_resumable() {
    let verdict = verdict(
        &row(Ok(session())),
        Backend::Wsl,
        None,
        &Vec::new(),
        Host::Windows,
    );
    assert!(verdict.resumable());
    assert!(
        verdict.notes.iter().any(|n| n.contains("carries its own")),
        "{:?}",
        verdict.notes
    );
}

#[test]
fn an_unreadable_file_is_a_row_with_one_reason() {
    let verdict = verdict(
        &row(Err("snapshot format version 8 cannot be restored".into())),
        Backend::Native,
        None,
        &Vec::new(),
        Host::Linux,
    );
    assert!(!verdict.resumable());
    assert!(verdict.blocked[0].contains("version 8"), "{:?}", verdict);
    assert_eq!(verdict.blocked.len(), 1);
}

#[test]
fn the_other_engines_paths_are_not_reported_as_missing() {
    assert!(nameable_here("/home/spider/vms/root.raw", false));
    assert!(!nameable_here("/mnt/d/vms/root.raw", true));
    assert!(nameable_here(r"D:\vms\root.raw", true));
    assert!(nameable_here("D:/vms/root.raw", true));
    assert!(!nameable_here(r"D:\vms\root.raw", false));
    assert!(!nameable_here("vms/root.raw", true));
    assert!(!nameable_here("vms/root.raw", false));

    for (host, path) in [
        (Host::Windows, "/mnt/d/vms/root.raw"),
        (Host::Linux, r"D:\vms\root.raw"),
    ] {
        let mut with_disk = session();
        with_disk.files = vec![FileRecord {
            role: "disk".to_string(),
            path: path.to_string(),
        }];
        let gone = vec![FileState::Failed("No such file".to_string())];
        let verdict = verdict(&row(Ok(with_disk)), Backend::Wsl, None, &gone, host);
        assert!(verdict.resumable(), "{:?}", verdict.blocked);
        assert!(
            verdict
                .notes
                .iter()
                .any(|n| n.contains("when the machine resumes")),
            "{:?}",
            verdict.notes
        );
    }
}

#[test]
fn a_disk_that_grew_is_refused_by_name() {
    let mut with_disk = session();
    with_disk.host = host_of(Backend::Native, Host::Linux).unwrap_or(HostKind::KvmLinux);
    with_disk.files = vec![FileRecord {
        role: "disk".to_string(),
        path: "/tmp/entangled-snap-gui/root.raw".to_string(),
    }];
    let grown = vec![FileState::Changed {
        path: "/tmp/entangled-snap-gui/root.raw".to_string(),
        what: "length".to_string(),
        snapshot: "64".to_string(),
        current: "128".to_string(),
    }];
    let verdict = verdict(&row(Ok(with_disk)), Backend::Native, None, &grown, Host::Linux);
    assert_eq!(verdict.blocked.len(), 1, "{:?}", verdict.blocked);
    let message = verdict.blocked.first().expect("refused");
    assert!(message.contains("root.raw"), "{message}");
    assert!(message.contains("was 64, is 128"), "{message}");
    assert!(message.contains("corrupt"), "{message}");
}

#[test]
fn a_snapshot_sits_beside_its_profile_under_the_machines_name() {
    assert_eq!(
        path_for(Host::Linux, &vm()),
        "/vms/ubuntu-lab.esnap",
        "the engine's bare `save` writes exactly here"
    );
}

#[test]
fn the_delete_confirmation_says_what_goes_and_what_stays() {
    let text = what_is_lost(&row(Ok(session())), "2026-08-21 09:14:05 UTC");
    assert!(text.contains("ubuntu-lab"), "{text}");
    assert!(text.contains("2026-08-21"), "{text}");
    assert!(
        text.contains("disks and its profile are untouched"),
        "{text}"
    );
}

#[test]
fn the_newest_session_comes_first() {
    let at = |name: &str, when| {
        let mut facts = session();
        facts.created_unix = when;
        SnapshotRow { file_name: name.to_string(), ..row(Ok(facts)) }
    };
    let rows = snapshot_rows(Host::Linux, vec![
        at("b.esnap", 10),
        at("new.esnap", 30),
        at("a.esnap", 10),
        SnapshotRow { file_name: "broken.esnap".to_string(), ..row(Err("no".to_string())) },
    ]);
    let names: Vec<&str> = rows.iter().map(|r| r.file_name.as_str()).collect();
    assert_eq!(names, vec!["new.esnap", "a.esnap", "b.esnap", "broken.esnap"]);
}

// ---- settings --------------------------------------------------------------

#[test]
fn backend_resolution_falls_back_to_what_this_host_has() {
    let mut settings = Settings {
        default_backend: Backend::Native,
        ..Settings::default(Host::Linux, &None)
    };
    assert_eq!(settings.backend_for("anything", Host::Linux), Backend::Native);

    settings.set_backend_for("lab", Backend::Wsl);
    assert_eq!(settings.backend_for("lab", Host::Linux), Backend::Native);
    assert_eq!(settings.backend_for("lab", Host::Windows), Backend::Wsl);

    settings.set_backend_for("lab", Backend::Native);
    assert!(settings.vm_backends.is_empty());
}

#[test]
fn an_oversized_memory_default_is_clamped_on_load() {
    const MAX_MEMORY_MIB: u64 = 65_536;
    let settings = Settings {
        default_memory_mib: MAX_MEMORY_MIB * 4,
        ..Settings::default(Host::Linux, &None)
    };
    let (vcpus, vm_dir) = (settings.default_vcpus, settings.vm_dir.clone());
    let back = settings.loaded(MAX_MEMORY_MIB);
    assert_eq!(back.default_memory_mib, MAX_MEMORY_MIB);
    assert_eq!(back.default_vcpus, vcpus);
    assert_eq!(back.vm_dir, vm_dir);
}

#[test]
fn settings_live_where_the_host_keeps_them() {
    let some = |s: &str| Some(s.to_string());
    assert_eq!(
        config_path(Host::Linux, &some("/cfg"), &None, &some("/home/s"), &None).unwrap(),
        "/cfg/entangled/manager.toml"
    );
    assert_eq!(
        config_path(Host::Linux, &None, &some("C:/A"), &some("/home/s"), &None).unwrap(),
        "/home/s/.config/entangled/manager.toml"
    );
    assert!(matches!(
        config_path(Host::Linux, &None, &None, &None, &None),
        Err(SettingsError::NoConfigDir)
    ));
    assert_eq!(home_dir(&None, &some("C:/Users/s")), some("C:/Users/s"));
    assert_eq!(Settings::default(Host::Linux, &some("/home/s")).vm_dir, "/home/s/entangled-vms");
    for error in [
        SettingsError::NoConfigDir,
        SettingsError::Read { path: "p".to_string(), source: "s".to_string() },
        SettingsError::Parse { path: "p".to_string(), source: "s".to_string() },
        SettingsError::Write { path: "p".to_string(), source: "s".to_string() },
        SettingsError::Serialize("s".to_string()),
    ] {
        assert!(!error.message().is_empty(), "{error:?}");
    }
}

// ---- children --------------------------------------------------------------

fn task(vm: &str) -> TaskSpec {
    TaskSpec {
        kind: TaskKind::Run,
        vm: vm.to_string(),
        program: "/bin/true".to_string(),
        args: Vec::new(),
        cwd: "/tmp".to_string(),
        log_path: format!("/tmp/{vm}.log"),
        control: false,
    }
}

#[test]
fn command_line_quotes_arguments_with_spaces() {
    let spec = TaskSpec {
        kind: TaskKind::Install,
        vm: "demo".into(),
        program: "/usr/bin/entangled".into(),
        args: vec!["install".into(), "--name".into(), "two words".into()],
        cwd: "/tmp".into(),
        log_path: "/tmp/demo.log".into(),
        control: false,
    };
    assert_eq!(
        spec.command_line(),
        "/usr/bin/entangled install --name \"two words\""
    );
}

#[test]
fn log_buffer_splits_lines_and_keeps_partials() {
    let mut log = LogBuffer::default();
    log.push_chunk("first\r\nsec");
    assert_eq!(log.lines.len(), 1);
    assert_eq!(log.lines[0].text, "first");
    assert_eq!(log.partial, "sec");
    log.push_chunk("ond\n");
    assert_eq!(log.lines[1].text, "second");
    assert!(log.partial.is_empty());
}

#[test]
fn log_buffer_is_bounded() {
    let mut log = LogBuffer::default();
    for i in 0..(LOG_CAPACITY + 10) {
        log.push_chunk(&format!("line {i}\n"));
    }
    assert_eq!(log.lines.len(), LOG_CAPACITY);
    assert_eq!(log.dropped, 10);
    assert_eq!(log.lines[0].text, "line 10");
}

#[test]
fn every_cut_gives_the_same_log() {
    let start = || {
        let mut log = LogBuffer::default();
        log.push_chunk("old\npart");
        log
    };
    let output = "ial\r\nnext\r\n\nmöre\rover\nrest";
    let mut whole = start();
    whole.push_chunk(output);
    assert_eq!(whole.tail(9).0, ["old", "partial", "next", "", "möreover", "rest"]);
    for (at, _) in output.char_indices() {
        let mut cut = start();
        cut.push_chunk(&output[..at]);
        cut.push_chunk(&output[at..]);
        assert_eq!(cut.tail(9), whole.tail(9), "cut at {at}");
    }
}

#[test]
fn chunks_may_be_cut_anywhere() {
    let mut whole = LogBuffer::default();
    whole.push_chunk("one\ntwo\r\nthr");
    let mut cut = LogBuffer::default();
    for piece in ["on", "e\ntw", "o\r", "\nth", "r"] {
        cut.push_chunk(piece);
    }
    assert_eq!(whole.tail(10), cut.tail(10));
    assert_eq!(whole.tail(1).0, vec!["two", "thr"]);
}

#[test]
fn a_log_holds_no_line_ends_and_no_endless_line() {
    let mut log = LogBuffer::default();
    log.push_chunk("a\rb\r\n\n");
    assert_eq!(log.lines[0].text, "ab");
    assert_eq!(log.lines[1].text, "");
    log.push_chunk(&"x".repeat(4096));
    assert_eq!(log.partial.len(), 4096);
    assert_eq!(log.lines.len(), 2);
    log.push_chunk("y");
    assert!(log.partial.is_empty());
    assert_eq!(log.lines[2].text.len(), 4097);
    assert_eq!(log.dropped + log.lines.len(), 3);
}

#[test]
fn unknown_program_is_a_typed_error() {
    let mut sup = Supervisor::new();
    let failed = ProcessError::Spawn {
        program: "/tmp/definitely-not-here".to_string(),
        source: "No such file".to_string(),
    };
    assert!(failed.message().contains("definitely-not-here"));
    assert!(matches!(
        sup.spawn(task("ghost"), Err(failed), 0),
        Err(ProcessError::Spawn { .. })
    ));
    assert!(!sup.is_busy("ghost"));
}

#[test]
fn unwritable_log_path_is_a_typed_error() {
    let mut sup = Supervisor::new();
    let failed = ProcessError::LogFile {
        path: "/tmp/missing-dir/nolog.log".to_string(),
        source: "No such directory".to_string(),
    };
    assert!(matches!(
        sup.spawn(task("nolog"), Err(failed), 0),
        Err(ProcessError::LogFile { .. })
    ));
}

#[test]
fn tracks_a_short_lived_child_and_captures_its_output() {
    let mut sup = Supervisor::new();
    let id = sup.spawn(task("echoer"), Ok(()), 0).expect("spawn");
    assert!(sup.is_busy("echoer"));
    assert!(matches!(
        sup.spawn(task("echoer"), Ok(()), 0),
        Err(ProcessError::Busy { .. })
    ));
    sup.output(id, "hello world\nto-st");
    sup.output(id, "derr\n");
    let watch = Watch::new();
    let exited = Waited::Exited { code: Some(3), status: "exit status: 3".to_string() };
    let outcome = watch.waited(exited, false).expect("over");
    sup.finished(id, outcome);

    let task = sup.task(id).expect("task");
    let TaskState::Finished(outcome) = task.state() else {
        panic!("expected a finished task");
    };
    assert!(!outcome.success);
    assert!(!outcome.stopped_by_user);
    assert_eq!(outcome.detail, "exited with status 3");
    let (lines, dropped) = task.log_tail(100);
    assert_eq!(dropped, 0);
    assert!(lines.iter().any(|l| l == "hello world"), "lines: {lines:?}");
    assert!(lines.iter().any(|l| l == "to-stderr"), "lines: {lines:?}");
}

#[test]
fn stop_terminates_a_long_running_child() {
    let mut sup = Supervisor::new();
    let id = sup.spawn(task("sleeper"), Ok(()), 0).expect("spawn");
    assert!(sup.is_busy("sleeper"));
    assert_eq!(sup.active_kind("sleeper"), Some(TaskKind::Run));

    let mut watch = Watch::new();
    assert_eq!(watch.poll(false, false, 10), WatchStep::Wait);
    sup.stop_at(0);
    assert!(sup.task(id).expect("task").stop_requested());
    assert_eq!(watch.poll(true, false, 20), WatchStep::Signal);
    assert_eq!(watch.signalled(true, false, 20), WatchStep::Wait);
    sup.stopping(id);
    assert!(matches!(sup.task(id).unwrap().state(), TaskState::Stopping));
    let exited = Waited::Exited { code: None, status: "signal: 15 (SIGTERM)".to_string() };
    sup.finished(id, watch.waited(exited, true).expect("over"));

    let TaskState::Finished(outcome) = sup.task(id).expect("task").state() else {
        panic!("expected a finished task");
    };
    assert!(outcome.stopped_by_user);
    assert!(outcome.success);
    assert!(outcome.detail.starts_with("stopped on request"));
    assert!(!sup.is_busy("sleeper"));
}

#[test]
fn kill_is_available_when_a_child_ignores_sigterm() {
    let mut watch = Watch::new();
    assert_eq!(watch.poll(true, false, 0), WatchStep::Signal);
    watch.signalled(true, false, 0);
    assert_eq!(watch.poll(true, false, STOP_GRACE_MS - 1), WatchStep::Wait);
    assert_eq!(watch.poll(true, true, STOP_GRACE_MS - 1), WatchStep::Kill);

    let mut patient = Watch::new();
    patient.poll(true, false, 0);
    patient.signalled(true, false, 0);
    assert_eq!(patient.poll(true, false, STOP_GRACE_MS + 1), WatchStep::Kill);
}

#[test]
fn finished_outcomes_are_reported_once_and_then_pruned() {
    let mut sup = Supervisor::new();
    for i in 0..3 {
        let id = sup.spawn(task(&format!("quick{i}")), Ok(()), 0).expect("spawn");
        let good = Outcome {
            success: true,
            detail: "exited normally".to_string(),
            stopped_by_user: false,
        };
        sup.finished(id, good);
    }
    assert!(!sup.any_active());
    let finished = sup.drain_finished();
    assert_eq!(finished.len(), 3);
    assert!(finished.iter().all(|(_, _, o)| o.success));
    assert!(sup.drain_finished().is_empty(), "reported only once");
    sup.prune(1);
    assert_eq!(sup.tasks().len(), 1);
}

#[test]
fn pruning_to_none_leaves_only_what_is_not_over() {
    let good = || Outcome {
        success: true,
        detail: "exited normally".to_string(),
        stopped_by_user: false,
    };
    let mut sup = Supervisor::new();
    let first = sup.spawn(task("first"), Ok(()), 0).expect("spawn");
    sup.spawn(task("running"), Ok(()), 0).expect("spawn");
    let third = sup.spawn(task("third"), Ok(()), 0).expect("spawn");
    sup.finished(first, good());
    sup.finished(third, good());
    assert_eq!(sup.drain_finished().len(), 2);
    let fresh = sup.spawn(task("fresh"), Ok(()), 0).expect("spawn");
    sup.finished(fresh, good());
    sup.prune(0);
    let left: Vec<&str> = sup.tasks().iter().map(|t| t.vm.as_str()).collect();
    assert_eq!(left, ["running", "fresh"]);
    assert_eq!(sup.drain_finished().len(), 1);
    sup.prune(0);
    sup.prune(0);
    assert_eq!(sup.tasks().len(), 1);
}

// ---- measurements ----------------------------------------------------------

#[test]
fn percentages_handle_first_samples_and_zero_denominators() {
    let percent = |part, whole| {
        percent_of(part, whole).map(|s| 100.0 * s.part as f32 / s.whole as f32)
    };
    assert_eq!(percent(50, 0), None);
    assert_eq!(percent(50, 100), Some(50.0));
    assert_eq!(percent(0, 100), Some(0.0));
    assert_eq!(percent(400, 100), Some(400.0));
}

#[test]
fn history_is_capped() {
    let mut history = Vec::new();
    for i in 0..(HISTORY + 25) {
        push_capped(&mut history, i as f32);
    }
    assert_eq!(history.len(), HISTORY);
    assert_eq!(history[0], 25.0, "oldest samples drop first");
}

#[test]
fn uptime_formats_all_three_shapes() {
    assert_eq!(format_uptime(42), "42s");
    assert_eq!(format_uptime(125), "2m 05s");
    assert_eq!(format_uptime(3 * 3600 + 125), "3h 02m");
}

#[test]
fn the_kernels_numbers_are_read() {
    let stat = "cpu  100 0 50 800 50 0 0 0 0 0\ncpu0 1 2 3 4\n";
    assert_eq!(host_cpu_times(stat), Some((150, 1000)));
    assert_eq!(host_cpu_times("intr 1 2 3\n"), None);
    let meminfo = "MemTotal:       32768 kB\nMemFree: 1 kB\nMemAvailable:   16384 kB\n";
    assert_eq!(host_memory(meminfo), Some((32768 * 1024, 16384 * 1024)));
    assert_eq!(host_memory("MemTotal: 1 kB\n"), None);
    let process = "42 (a (b) c) S 1 2 3 4 5 6 7 8 9 10 150 50 0 0";
    assert_eq!(process_cpu_time_ns(process, 100), Some(2_000_000_000));
    assert_eq!(process_rss("1000 25 3 4 5 6 7", 4096), Some(25 * 4096));
    assert_eq!(process_rss("", 4096), None);
}

#[test]
fn shares_are_measured_between_two_rounds() {
    let mut sampler = Sampler::new();
    let reading = |cpu_time| {
        vec![Reading {
            vm: "lab".to_string(),
            pid: 7,
            cpu_time: Some(cpu_time),
            rss: Some(1 << 20),
        }]
    };
    let first = sampler.sample(Some((10, 100)), &reading(0), 0, Some((64, 32)), None);
    assert_eq!(first.host.cpu_percent, None, "a first reading has no share");
    assert_eq!(first.host.mem_total, Some(64));
    assert_eq!(first.vms.get("lab").expect("measured").cpu_percent, None);
    let second = sampler.sample(
        Some((60, 200)),
        &reading(500_000_000),
        1_000_000_000,
        Some((64, 32)),
        None,
    );
    let host = second.host.cpu_percent.expect("share");
    assert_eq!((host.part, host.whole), (50, 100));
    let lab = second.vms.get("lab").expect("measured");
    let share: Share = lab.cpu_percent.expect("share");
    assert_eq!(share.part * 100 / share.whole, 50);
    assert_eq!(lab.rss_bytes, Some(1 << 20));
    assert_eq!(lab.history.len(), 1);
}
