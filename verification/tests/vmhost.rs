//! The virtual machine host's own pieces.
use entangled_manager::disk::{create_raw, parse_size, Attempt, DiskError};
use entangled_manager::profile::DiskSection;
use entangled_manager::run_vm::{
    asks_to_stop, attach_error, device_plan, extend_cmdline, finish, is_boot_processor, parse_mac,
    presentation, title, ControlEvent, Device, MacAddr, Presentation, TapSection, VmState,
};

#[test]
fn parses_suffixes() {
    assert_eq!(parse_size("32G").unwrap(), 32 << 30);
    assert_eq!(parse_size("512M").unwrap(), 512 << 20);
    assert_eq!(parse_size("1024").unwrap(), 1024);
    assert!(parse_size("").is_err());
    assert!(parse_size("12X").is_err());
    assert!(parse_size("999999999T").is_err()); // overflow
}

#[test]
fn creates_sparse_and_refuses_overwrite() {
    let path = "/tmp/vmhost-disk-test/t.raw";
    create_raw(path, 1 << 20, Attempt::Done).unwrap();
    assert!(matches!(
        create_raw(path, 1 << 20, Attempt::AlreadyThere),
        Err(DiskError::Exists(_))
    ));
}

#[test]
fn rejects_unaligned_sizes() {
    assert!(matches!(
        create_raw("/tmp/never-created.raw", 100, Attempt::Done),
        Err(DiskError::BadAlignment(100))
    ));
}

#[test]
fn clauses_are_appended_once_and_separated() {
    assert_eq!(
        extend_cmdline(
            "console=ttyS0 root=/dev/vda1",
            "virtio_mmio.device=4K@0xd0000000:5"
        ),
        "console=ttyS0 root=/dev/vda1 virtio_mmio.device=4K@0xd0000000:5"
    );
}

#[test]
fn handles_empty_inputs() {
    assert_eq!(extend_cmdline("  console=ttyS0 ", ""), "console=ttyS0");
    assert_eq!(extend_cmdline("", "a=1"), "a=1");
    assert_eq!(extend_cmdline("", ""), "");
}

#[test]
fn disk_errors_say_what_is_wrong() {
    let bad = parse_size("12X").unwrap_err();
    assert!(matches!(bad, DiskError::InvalidSize(_)));
    assert!(bad.message().contains("12X"), "{}", bad.message());
    assert!(DiskError::BadAlignment(100).message().contains("100"));
    let taken = create_raw("/d/t.raw", 1024, Attempt::AlreadyThere).unwrap_err();
    assert!(taken.message().contains("/d/t.raw"), "{}", taken.message());
    let failed = create_raw("/d/t.raw", 1024, Attempt::Failed("no space".to_string()));
    assert!(matches!(failed, Err(DiskError::Io(_))));
    assert!(failed.unwrap_err().message().contains("no space"));
}

#[test]
fn byte_counts_denote_themselves() {
    for n in [0u64, 1, 511, 512, 1 << 40, u64::MAX] {
        assert_eq!(parse_size(&n.to_string()).unwrap(), n);
    }
    assert_eq!(parse_size("2K").unwrap(), 2048);
    assert_eq!(parse_size("1T").unwrap(), 1 << 40);
}

#[test]
fn devices_are_attached_in_a_fixed_order() {
    let disks = vec![
        DiskSection { path: "a.raw".to_string(), writable: true },
        DiskSection { path: "b.raw".to_string(), writable: false },
    ];
    let network = Some(TapSection { interface: "entangled0".to_string(), mac: None });
    let plan = device_plan(&disks, &network);
    assert_eq!(plan.len(), 6);
    assert!(matches!(&plan[0], Device::Block(d) if d.path == "a.raw"));
    assert!(matches!(&plan[1], Device::Block(d) if d.path == "b.raw"));
    assert!(matches!(&plan[2], Device::Net { interface, .. } if interface == "entangled0"));
    assert!(matches!(&plan[3], Device::Gpu));
    assert!(matches!(&plan[4], Device::Keyboard));
    assert!(matches!(&plan[5], Device::Tablet));
    assert_eq!(device_plan(&disks, &None).len(), 5);
    assert!(attach_error(&plan[0], "gone").contains("a.raw"));
    assert!(attach_error(&plan[0], "gone").contains("gone"));
}

#[test]
fn hardware_addresses_have_six_hexadecimal_parts() {
    assert_eq!(
        parse_mac("52:54:00:ab:CD:ef").unwrap(),
        MacAddr(vec![0x52, 0x54, 0x00, 0xab, 0xcd, 0xef])
    );
    for bad in ["", "52:54:00:ab:cd", "52:54:00:ab:cd:ef:00", "52:54:00:ab:cd:zz", "5254"] {
        assert!(parse_mac(bad).is_err(), "{bad}");
    }
}

#[test]
fn a_failing_processor_fails_the_run() {
    let (state, result) = finish(&vec![Ok(()), Ok(())]);
    assert_eq!(state, VmState::Stopped);
    assert!(result.is_ok());
    let (state, result) = finish(&vec![Ok(()), Err("vcpu 1 broke".to_string())]);
    assert_eq!(state, VmState::Crashed);
    assert!(result.unwrap_err().contains("vcpu 1 broke"));
}

#[test]
fn a_machine_without_a_window_still_runs() {
    assert_eq!(presentation(false, true), Presentation::Windowed);
    assert_eq!(presentation(false, false), Presentation::Headless);
    assert_eq!(presentation(true, true), Presentation::Headless);
    assert!(title("demo").contains("demo"));
    assert!(asks_to_stop(ControlEvent::QuitRequested));
    assert!(asks_to_stop(ControlEvent::WindowCloseRequested));
    assert!(!asks_to_stop(ControlEvent::GrabToggled(true)));
    assert!(is_boot_processor(0));
    assert!(!is_boot_processor(1));
}
