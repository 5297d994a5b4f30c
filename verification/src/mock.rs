//! Sample data for looking at the manager without a host.
//!
//! Nothing here probes a host or creates files. A session with sample data uses
//! these values instead of a scan, of measurements and of children.
use crate::backend::Backend;
use crate::discovery::{DiskAttachment, DiskInfo, DiskRow, Scan, VmEntry};
use crate::host::Host;
use crate::metrics;
use crate::metrics::{HostStats, Share, VmStats};
use crate::paths;
use crate::profile::VirtioTransport;
use crate::snapshots;
use crate::snapshots::{HostKind, SnapshotFacts, SnapshotRow};
use crate::state::Status;
use crate::table::Table;
use crate::text;
use vstd::prelude::*;

verus! {

/// Where the sample machines lie.
pub const ROOT: &'static str = "mock-vms";

pub const GIB: u64 = 1_073_741_824;
pub const MIB: u64 = 1_048_576;

/// What an old session says to this build.
pub const UNREADABLE: &'static str =
    "snapshot format version 8 cannot be restored by this build (it writes and reads version 1)";

/// A file in the sample directory.
pub open spec fn at(host: Host, file: Seq<char>) -> Seq<char> {
    paths::joined(host, ROOT@, file)
}

// ---------------------------------------------------------------------------
// Machines
// ---------------------------------------------------------------------------

/// A sample machine, without its disk.
pub ghost struct Sample {
    pub name: Seq<char>,
    pub memory_mib: u64,
    pub vcpus: u32,
    pub display: (u32, u32),
    pub network: Option<Seq<char>>,
    pub uefi: bool,
    /// Nominal and allocated size of its disk, if it has one.
    pub disk: Option<(u64, u64)>,
}

/// The one disk of a sample machine.
pub open spec fn is_disk_info(d: DiskInfo, path: Seq<char>, apparent: u64, allocated: u64) -> bool {
    &&& d.declared@ == path
    &&& d.resolved@ == path
    &&& d.exists
    &&& d.writable
    &&& d.size_bytes == apparent
    &&& d.allocated_bytes == Some(allocated)
}

/// The machine is that sample.
pub open spec fn is_sample(vm: VmEntry, host: Host, s: Sample) -> bool {
    &&& vm.name@ == s.name
    &&& vm.profile_path@ == at(host, s.name + ".toml"@)
    &&& vm.memory_mib == s.memory_mib
    &&& vm.vcpus == s.vcpus
    &&& vm.transport == VirtioTransport::Pci
    &&& vm.display == s.display
    &&& text::opt_text(vm.network_interface) == s.network
    &&& vm.uefi == s.uefi
    &&& match s.disk {
        Some((apparent, allocated)) => vm.disks@.len() == 1 && is_disk_info(
            vm.disks@[0],
            at(host, s.name + ".raw"@),
            apparent,
            allocated,
        ),
        None => vm.disks@.len() == 0,
    }
}

/// The sample machines, in the order of their names. One is suspended and has a
/// session beside it, one is on its way there, one boots through firmware and one
/// has no disk yet.
pub open spec fn samples() -> Seq<Sample> {
    seq![
        Sample {
            name: "aurora-lab"@,
            memory_mib: 4096,
            vcpus: 4,
            display: (1920, 1080),
            network: Some("usernet"@),
            uefi: true,
            disk: Some((42_949_672_960, 11_811_160_064)),
        },
        Sample {
            name: "installer-preview"@,
            memory_mib: 2048,
            vcpus: 2,
            display: (1280, 800),
            network: None,
            uefi: false,
            disk: None,
        },
        Sample {
            name: "nebula-dev"@,
            memory_mib: 8192,
            vcpus: 8,
            display: (2560, 1440),
            network: Some("usernet"@),
            uefi: false,
            disk: Some((68_719_476_736, 19_327_352_832)),
        },
        Sample {
            name: "orion-build"@,
            memory_mib: 2048,
            vcpus: 2,
            display: (1280, 800),
            network: Some("usernet"@),
            uefi: false,
            disk: Some((17_179_869_184, 3_221_225_472)),
        },
        Sample {
            name: "ubuntu-lab"@,
            memory_mib: 4096,
            vcpus: 4,
            display: (1920, 1080),
            network: Some("entangled0"@),
            uefi: true,
            disk: Some((34_359_738_368, 9_663_676_416)),
        },
    ]
}

fn disk_info(path: &str, apparent: u64, allocated: u64) -> (r: DiskInfo)
    ensures
        is_disk_info(r, path@, apparent, allocated),
{
    DiskInfo {
        declared: path.to_owned(),
        resolved: path.to_owned(),
        exists: true,
        writable: true,
        size_bytes: apparent,
        allocated_bytes: Some(allocated),
    }
}

fn machine(
    host: Host,
    name: &str,
    shape: (u64, u32, (u32, u32)),
    network: Option<String>,
    uefi: bool,
    disk: Option<(u64, u64)>,
) -> (r: VmEntry)
    ensures
        is_sample(
            r,
            host,
            Sample {
                name: name@,
                memory_mib: shape.0,
                vcpus: shape.1,
                display: shape.2,
                network: text::opt_text(network),
                uefi,
                disk,
            },
        ),
{
    let mut disks: Vec<DiskInfo> = Vec::new();
    if let Some((apparent, allocated)) = disk {
        let path = paths::join(host, ROOT, &text::cat(name, ".raw"));
        disks.push(disk_info(&path, apparent, allocated));
    }
    VmEntry {
        name: name.to_owned(),
        profile_path: paths::join(host, ROOT, &text::cat(name, ".toml")),
        memory_mib: shape.0,
        vcpus: shape.1,
        transport: VirtioTransport::Pci,
        display: shape.2,
        network_interface: network,
        disks,
        uefi,
    }
}

fn machines(host: Host) -> (r: Vec<VmEntry>)
    ensures
        r@.len() == samples().len(),
        forall|i: int| 0 <= i < r@.len() ==> is_sample(#[trigger] r@[i], host, samples()[i]),
{
    let mut r: Vec<VmEntry> = Vec::new();
    r.push(
        machine(
            host,
            "aurora-lab",
            (4096, 4, (1920, 1080)),
            Some("usernet".to_owned()),
            true,
            Some((40 * GIB, 11 * GIB)),
        ),
    );
    r.push(
        machine(host, "installer-preview", (2048, 2, (1280, 800)), None, false, None),
    );
    r.push(
        machine(
            host,
            "nebula-dev",
            (8192, 8, (2560, 1440)),
            Some("usernet".to_owned()),
            false,
            Some((64 * GIB, 18 * GIB)),
        ),
    );
    r.push(
        machine(
            host,
            "orion-build",
            (2048, 2, (1280, 800)),
            Some("usernet".to_owned()),
            false,
            Some((16 * GIB, 3 * GIB)),
        ),
    );
    r.push(
        machine(
            host,
            "ubuntu-lab",
            (4096, 4, (1920, 1080)),
            Some("entangled0".to_owned()),
            true,
            Some((32 * GIB, 9 * GIB)),
        ),
    );
    r
}

// ---------------------------------------------------------------------------
// Disks
// ---------------------------------------------------------------------------

/// A sample disk, with the machine that attaches it if one does.
pub ghost struct SampleDisk {
    pub name: Seq<char>,
    pub apparent: u64,
    pub allocated: u64,
    pub nvram: bool,
    pub attached: bool,
    pub summary: Seq<char>,
}

/// The row is that sample: a disk of the machine of the same name.
pub open spec fn is_sample_row(row: DiskRow, host: Host, s: SampleDisk) -> bool {
    let path = at(host, s.name + ".raw"@);
    &&& row.path@ == path
    &&& row.file_name@ == s.name + ".raw"@
    &&& row.exists
    &&& row.apparent_bytes == s.apparent
    &&& row.allocated_bytes == Some(s.allocated)
    &&& row.nvram == s.nvram
    &&& row.summary matches Ok(text) && text@ == s.summary
    &&& if s.attached {
        &&& row.attachments@.len() == 1
        &&& row.attachments@[0].vm@ == s.name
        &&& row.attachments@[0].profile@ == at(host, s.name + ".toml"@)
        &&& row.attachments@[0].declared@ == path
        &&& row.attachments@[0].writable
    } else {
        row.attachments@.len() == 0
    }
}

/// The sample disks. One of them is attached to nothing.
pub open spec fn sample_disks() -> Seq<SampleDisk> {
    seq![
        SampleDisk {
            name: "nebula-dev"@,
            apparent: 68_719_476_736,
            allocated: 19_327_352_832,
            nvram: false,
            attached: true,
            summary: "GPT · EFI System 512 MiB · Linux filesystem 63.5 GiB"@,
        },
        SampleDisk {
            name: "ubuntu-lab"@,
            apparent: 34_359_738_368,
            allocated: 9_663_676_416,
            nvram: true,
            attached: true,
            summary: "GPT · EFI System 1 GiB · Linux filesystem 31 GiB"@,
        },
        SampleDisk {
            name: "scratch-data"@,
            apparent: 12_884_901_888,
            allocated: 671_088_640,
            nvram: false,
            attached: false,
            summary: "MBR · Linux filesystem 12 GiB"@,
        },
    ]
}

fn disk_row(
    host: Host,
    name: &str,
    apparent: u64,
    allocated: u64,
    nvram: bool,
    attached: bool,
    summary: &str,
) -> (r: DiskRow)
    ensures
        is_sample_row(
            r,
            host,
            SampleDisk { name: name@, apparent, allocated, nvram, attached, summary: summary@ },
        ),
{
    let file_name = text::cat(name, ".raw");
    let path = paths::join(host, ROOT, &file_name);
    let mut attachments: Vec<DiskAttachment> = Vec::new();
    if attached {
        attachments.push(
            DiskAttachment {
                vm: name.to_owned(),
                profile: paths::join(host, ROOT, &text::cat(name, ".toml")),
                declared: path.clone(),
                writable: true,
            },
        );
    }
    DiskRow {
        path,
        file_name,
        exists: true,
        apparent_bytes: apparent,
        allocated_bytes: Some(allocated),
        attachments,
        nvram,
        summary: Ok(summary.to_owned()),
    }
}

fn disks(host: Host) -> (r: Vec<DiskRow>)
    ensures
        r@.len() == sample_disks().len(),
        forall|i: int|
            0 <= i < r@.len() ==> is_sample_row(#[trigger] r@[i], host, sample_disks()[i]),
{
    let mut r: Vec<DiskRow> = Vec::new();
    r.push(
        disk_row(
            host,
            "nebula-dev",
            64 * GIB,
            18 * GIB,
            false,
            true,
            "GPT · EFI System 512 MiB · Linux filesystem 63.5 GiB",
        ),
    );
    r.push(
        disk_row(
            host,
            "ubuntu-lab",
            32 * GIB,
            9 * GIB,
            true,
            true,
            "GPT · EFI System 1 GiB · Linux filesystem 31 GiB",
        ),
    );
    r.push(
        disk_row(
            host,
            "scratch-data",
            12 * GIB,
            640 * MIB,
            false,
            false,
            "MBR · Linux filesystem 12 GiB",
        ),
    );
    r
}

// ---------------------------------------------------------------------------
// Sessions
// ---------------------------------------------------------------------------

/// A moment so many hours before now.
pub open spec fn taken(now: i64, hours_ago: int) -> int {
    now - hours_ago * 3600
}

/// The hypervisor whose sessions this host restores, or Linux's where there is
/// none.
pub open spec fn own_kind(host: Host) -> HostKind {
    match snapshots::spec_host_of(Backend::Native, host) {
        Some(kind) => kind,
        None => HostKind::KvmLinux,
    }
}

/// The hypervisor that is not this host's.
pub open spec fn other_kind(host: Host) -> HostKind {
    if host == Host::Windows {
        HostKind::KvmLinux
    } else {
        HostKind::WhpWindows
    }
}

/// A session that resumes: the one of the suspended machine.
pub open spec fn is_healthy(row: SnapshotRow, host: Host, now: i64, version: Seq<char>) -> bool {
    &&& row.path@ == at(host, "aurora-lab.esnap"@)
    &&& row.file_name@ == "aurora-lab.esnap"@
    &&& row.apparent_bytes == 1_140_850_688
    &&& row.allocated_bytes == Some(1_040_000_000u64)
    &&& row.facts matches Ok(f) && f.vm_name@ == "aurora-lab"@ && f.created_unix == taken(now, 3)
        && f.writer@ == "entangled "@ + version && f.host == own_kind(host) && f.vcpus == 4
        && f.memory_bytes == 4_294_967_296 && f.transport@ == "pci"@ && f.boot_mode@ == "uefi"@
        && f.files@.len() == 0 && f.sections == 14
}

/// A session from the other hypervisor, of a machine that is gone.
pub open spec fn is_foreign(row: SnapshotRow, host: Host, now: i64) -> bool {
    &&& row.path@ == at(host, "kepler-old.esnap"@)
    &&& row.file_name@ == "kepler-old.esnap"@
    &&& row.apparent_bytes == 565_182_464
    &&& row.allocated_bytes == Some(520_000_000u64)
    &&& row.facts matches Ok(f) && f.vm_name@ == "kepler-old"@ && f.created_unix == taken(now, 52)
        && f.writer@ == "entangled 0.2.0"@ && f.host == other_kind(host) && f.vcpus == 2
        && f.memory_bytes == 2_147_483_648 && f.transport@ == "pci"@ && f.boot_mode@ == "uefi"@
        && f.files@.len() == 0 && f.sections == 11
}

/// A session that this build cannot read.
pub open spec fn is_unreadable(row: SnapshotRow, host: Host) -> bool {
    &&& row.path@ == at(host, "vega-legacy.esnap"@)
    &&& row.file_name@ == "vega-legacy.esnap"@
    &&& row.apparent_bytes == 213_909_504
    &&& row.allocated_bytes == Some(198_000_000u64)
    &&& row.facts matches Err(e) && e@ == UNREADABLE@
}

fn sessions(host: Host, now: i64, version: &str) -> (r: Vec<SnapshotRow>)
    requires
        now >= i64::MIN + 187_200,
    ensures
        r@.len() == 3,
        is_healthy(r@[0], host, now, version@),
        is_foreign(r@[1], host, now),
        is_unreadable(r@[2], host),
{
    let own = match snapshots::host_of(Backend::Native, host) {
        Some(kind) => kind,
        None => HostKind::KvmLinux,
    };
    let other = if host.is_windows() {
        HostKind::KvmLinux
    } else {
        HostKind::WhpWindows
    };
    let mut r: Vec<SnapshotRow> = Vec::new();
    r.push(
        SnapshotRow {
            path: paths::join(host, ROOT, "aurora-lab.esnap"),
            file_name: "aurora-lab.esnap".to_owned(),
            apparent_bytes: 1_140_850_688,
            allocated_bytes: Some(1_040_000_000),
            facts: Ok(
                SnapshotFacts {
                    vm_name: "aurora-lab".to_owned(),
                    created_unix: now - 3 * 3600,
                    writer: text::cat("entangled ", version),
                    host: own,
                    vcpus: 4,
                    memory_bytes: 4096 * MIB,
                    transport: "pci".to_owned(),
                    boot_mode: "uefi".to_owned(),
                    files: Vec::new(),
                    sections: 14,
                },
            ),
        },
    );
    r.push(
        SnapshotRow {
            path: paths::join(host, ROOT, "kepler-old.esnap"),
            file_name: "kepler-old.esnap".to_owned(),
            apparent_bytes: 565_182_464,
            allocated_bytes: Some(520_000_000),
            facts: Ok(
                SnapshotFacts {
                    vm_name: "kepler-old".to_owned(),
                    created_unix: now - 52 * 3600,
                    writer: "entangled 0.2.0".to_owned(),
                    host: other,
                    vcpus: 2,
                    memory_bytes: 2048 * MIB,
                    transport: "pci".to_owned(),
                    boot_mode: "uefi".to_owned(),
                    files: Vec::new(),
                    sections: 11,
                },
            ),
        },
    );
    r.push(
        SnapshotRow {
            path: paths::join(host, ROOT, "vega-legacy.esnap"),
            file_name: "vega-legacy.esnap".to_owned(),
            apparent_bytes: 213_909_504,
            allocated_bytes: Some(198_000_000),
            facts: Err(UNREADABLE.to_owned()),
        },
    );
    r
}

// ---------------------------------------------------------------------------
// All of it
// ---------------------------------------------------------------------------

/// The scan is the sample one.
pub open spec fn is_sample_scan(scan: Scan, host: Host, now: i64, version: Seq<char>) -> bool {
    &&& scan.vms@.len() == samples().len()
    &&& forall|i: int|
        0 <= i < scan.vms@.len() ==> is_sample(#[trigger] scan.vms@[i], host, samples()[i])
    &&& scan.disks@.len() == sample_disks().len()
    &&& forall|i: int|
        0 <= i < scan.disks@.len() ==> is_sample_row(
            #[trigger] scan.disks@[i],
            host,
            sample_disks()[i],
        )
    &&& scan.snapshots@.len() == 3
    &&& is_healthy(scan.snapshots@[0], host, now, version)
    &&& is_foreign(scan.snapshots@[1], host, now)
    &&& is_unreadable(scan.snapshots@[2], host)
    &&& scan.problems@.len() == 0
}

/// The sample machines, disks and sessions. `now` is the time in seconds, so that
/// the sessions are always hours old.
pub fn scan(host: Host, now: i64, version: &str) -> (r: Scan)
    requires
        now >= i64::MIN + 187_200,
    ensures
        is_sample_scan(r, host, now, version@),
{
    Scan {
        vms: machines(host),
        problems: Vec::new(),
        disks: disks(host),
        snapshots: sessions(host, now, version),
    }
}

/// The statuses that the sample machines start with. The suspended one is left
/// out: its status comes from its session, as a real one does.
pub open spec fn sample_statuses() -> Map<Seq<char>, Status> {
    Map::empty().insert("nebula-dev"@, Status::Running).insert(
        "ubuntu-lab"@,
        Status::Stopped,
    ).insert("installer-preview"@, Status::Installing).insert("orion-build"@, Status::Suspending)
}

/// The statuses that the sample machines start with.
pub fn statuses() -> (r: Table<Status>)
    ensures
        r.wf(),
        r@ == sample_statuses(),
{
    let mut r: Table<Status> = Table::new();
    r.insert("nebula-dev", Status::Running);
    r.insert("ubuntu-lab", Status::Stopped);
    r.insert("installer-preview", Status::Installing);
    r.insert("orion-build", Status::Suspending);
    r
}

/// So much of a hundred.
pub open spec fn percent(part: u64) -> Share {
    Share { part, whole: 100 }
}

fn percents(parts: &Vec<u64>) -> (r: Vec<Share>)
    ensures
        r@ == parts@.map_values(|p: u64| percent(p)),
{
    let mut r: Vec<Share> = Vec::new();
    let mut i: usize = 0;
    while i < parts.len()
        invariant
            i <= parts@.len(),
            r@ == parts@.take(i as int).map_values(|p: u64| percent(p)),
        decreases parts@.len() - i,
    {
        let ghost done = r@;
        r.push(Share { part: parts[i], whole: 100 });
        assert(r@ =~= parts@.take(i + 1).map_values(|p: u64| percent(p)));
        i = i + 1;
    }
    assert(parts@.take(i as int) =~= parts@);
    r
}

/// The measurements are the sample ones.
pub open spec fn is_sample_metrics(s: metrics::Snapshot) -> bool {
    &&& s.host.cpu_percent == Some(percent(18))
    &&& s.host.history@ == seq![9u64, 13, 11, 16, 18].map_values(|p: u64| percent(p))
    &&& s.host.mem_total == Some(34_359_738_368u64)
    &&& s.host.mem_available == Some(20_401_094_656u64)
    &&& s.host.vm_dir_space == Some((442_381_631_488u64, 1_023_275_958_272u64))
    &&& s.vms.wf()
    &&& s.vms@.dom() == set!["nebula-dev"@]
    &&& s.vms@["nebula-dev"@].cpu_percent == Some(percent(37))
    &&& s.vms@["nebula-dev"@].rss_bytes == Some(5_704_253_440u64)
    &&& s.vms@["nebula-dev"@].history@ == seq![12u64, 18, 25, 21, 32, 37].map_values(
        |p: u64| percent(p),
    )
}

/// The sample measurements: one machine runs.
pub fn metrics() -> (r: metrics::Snapshot)
    ensures
        is_sample_metrics(r),
{
    let machine = VmStats {
        cpu_percent: Some(Share { part: 37, whole: 100 }),
        rss_bytes: Some(5 * GIB + 320 * MIB),
        history: percents(&vec![12u64, 18, 25, 21, 32, 37]),
    };
    let mut vms: Table<VmStats> = Table::new();
    vms.insert("nebula-dev", machine);
    assert(vms@.dom() =~= set!["nebula-dev"@]);
    let host = HostStats {
        cpu_percent: Some(Share { part: 18, whole: 100 }),
        history: percents(&vec![9u64, 13, 11, 16, 18]),
        mem_total: Some(32 * GIB),
        mem_available: Some(19 * GIB),
        vm_dir_space: Some((412 * GIB, 953 * GIB)),
    };
    metrics::Snapshot { host, vms }
}

} // verus!
