//! A machine's profile: the hardware, boot media and devices that a `*.toml`
//! file describes.
use crate::host::Host;
use crate::paths;
use crate::text;
use vstd::prelude::*;

verus! {

/// Which virtio transport the guest sees.
#[derive(Debug, Clone, Copy, PartialEq, Eq, Structural)]
pub enum VirtioTransport {
    Mmio,
    Pci,
}

impl VirtioTransport {
    pub open spec fn spec_name(self) -> Seq<char> {
        match self {
            VirtioTransport::Mmio => "mmio"@,
            VirtioTransport::Pci => "pci"@,
        }
    }

    /// The word a profile uses for it.
    pub fn name(self) -> (r: &'static str)
        ensures
            r@ == self.spec_name(),
    {
        match self {
            VirtioTransport::Mmio => "mmio",
            VirtioTransport::Pci => "pci",
        }
    }
}

/// How the guest starts.
#[derive(Debug, Clone, Copy, PartialEq, Eq, Structural)]
pub enum BootMode {
    /// The host loads a Linux kernel.
    DirectLinux,
    /// The host loads UEFI firmware, which boots from a disk.
    Uefi,
}

#[derive(Debug, Clone, Copy, PartialEq, Eq, Structural)]
pub enum NetworkBackend {
    Tap,
    Usernet,
}

#[derive(Debug, Clone, Copy, PartialEq, Eq, Structural)]
pub enum SoundBackend {
    Auto,
    Alsa,
    Wasapi,
    Null,
}

#[derive(Debug, Clone, Copy, PartialEq, Eq, Structural)]
pub enum GamepadBackend {
    Auto,
    Evdev,
    Xinput,
    Null,
}

#[derive(Debug, PartialEq, Eq)]
pub struct BootSection {
    pub mode: BootMode,
    pub kernel: Option<String>,
    pub initramfs: Option<String>,
    pub cmdline: String,
    pub firmware: Option<String>,
    pub nvram: Option<String>,
}

#[derive(Debug, PartialEq, Eq)]
pub struct DiskSection {
    pub path: String,
    pub writable: bool,
}

#[derive(Debug, PartialEq, Eq)]
pub struct CdromSection {
    pub path: String,
}

#[derive(Debug, PartialEq, Eq)]
pub struct NetworkSection {
    pub backend: NetworkBackend,
    pub interface: Option<String>,
    pub mac: Option<String>,
}

#[derive(Debug, Clone, Copy, PartialEq, Eq, Structural)]
pub struct DisplaySection {
    pub width: u32,
    pub height: u32,
    pub virgl: bool,
}

#[derive(Debug, Clone, Copy, PartialEq, Eq, Structural)]
pub struct SoundSection {
    pub enabled: bool,
    pub backend: SoundBackend,
}

#[derive(Debug, Clone, Copy, PartialEq, Eq, Structural)]
pub struct GamepadSection {
    pub enabled: bool,
    pub backend: GamepadBackend,
    pub players: u8,
}

/// A machine's profile.
#[derive(Debug, PartialEq, Eq)]
pub struct VmConfig {
    pub name: String,
    pub memory_mib: u64,
    pub vcpus: u32,
    pub transport: VirtioTransport,
    pub boot: BootSection,
    pub cdrom: Option<CdromSection>,
    pub network: Option<NetworkSection>,
    pub display: DisplaySection,
    pub sound: SoundSection,
    pub gamepad: GamepadSection,
    /// In guest device order.
    pub disks: Vec<DiskSection>,
}

/// The boot section as plain values.
pub ghost struct BootView {
    pub mode: BootMode,
    pub kernel: Option<Seq<char>>,
    pub initramfs: Option<Seq<char>>,
    pub cmdline: Seq<char>,
    pub firmware: Option<Seq<char>>,
    pub nvram: Option<Seq<char>>,
}

/// The network section as plain values.
pub ghost struct NetworkView {
    pub backend: NetworkBackend,
    pub interface: Option<Seq<char>>,
    pub mac: Option<Seq<char>>,
}

/// A disk entry as plain values.
pub ghost struct DiskView {
    pub path: Seq<char>,
    pub writable: bool,
}

/// A profile as plain values.
pub ghost struct ConfigView {
    pub name: Seq<char>,
    pub memory_mib: u64,
    pub vcpus: u32,
    pub transport: VirtioTransport,
    pub boot: BootView,
    pub cdrom: Option<Seq<char>>,
    pub network: Option<NetworkView>,
    pub display: DisplaySection,
    pub sound: SoundSection,
    pub gamepad: GamepadSection,
    pub disks: Seq<DiskView>,
}

impl View for BootSection {
    type V = BootView;

    open spec fn view(&self) -> BootView {
        BootView {
            mode: self.mode,
            kernel: text::opt_text(self.kernel),
            initramfs: text::opt_text(self.initramfs),
            cmdline: self.cmdline@,
            firmware: text::opt_text(self.firmware),
            nvram: text::opt_text(self.nvram),
        }
    }
}

impl View for NetworkSection {
    type V = NetworkView;

    open spec fn view(&self) -> NetworkView {
        NetworkView {
            backend: self.backend,
            interface: text::opt_text(self.interface),
            mac: text::opt_text(self.mac),
        }
    }
}

impl View for DiskSection {
    type V = DiskView;

    open spec fn view(&self) -> DiskView {
        DiskView { path: self.path@, writable: self.writable }
    }
}

/// Disk entries as plain values.
pub open spec fn disk_views(disks: Seq<DiskSection>) -> Seq<DiskView> {
    disks.map_values(|d: DiskSection| d@)
}

impl View for VmConfig {
    type V = ConfigView;

    open spec fn view(&self) -> ConfigView {
        ConfigView {
            name: self.name@,
            memory_mib: self.memory_mib,
            vcpus: self.vcpus,
            transport: self.transport,
            boot: self.boot@,
            cdrom: match self.cdrom {
                Some(c) => Some(c.path@),
                None => None,
            },
            network: match self.network {
                Some(n) => Some(n@),
                None => None,
            },
            display: self.display,
            sound: self.sound,
            gamepad: self.gamepad,
            disks: disk_views(self.disks@),
        }
    }
}

impl Clone for DiskSection {
    fn clone(&self) -> (r: DiskSection)
        ensures
            r == *self,
    {
        DiskSection { path: self.path.clone(), writable: self.writable }
    }
}

impl Clone for BootSection {
    fn clone(&self) -> (r: BootSection)
        ensures
            r == *self,
    {
        BootSection {
            mode: self.mode,
            kernel: text::clone_opt(&self.kernel),
            initramfs: text::clone_opt(&self.initramfs),
            cmdline: self.cmdline.clone(),
            firmware: text::clone_opt(&self.firmware),
            nvram: text::clone_opt(&self.nvram),
        }
    }
}

impl Clone for NetworkSection {
    fn clone(&self) -> (r: NetworkSection)
        ensures
            r == *self,
    {
        NetworkSection {
            backend: self.backend,
            interface: text::clone_opt(&self.interface),
            mac: text::clone_opt(&self.mac),
        }
    }
}

impl Clone for CdromSection {
    fn clone(&self) -> (r: CdromSection)
        ensures
            r == *self,
    {
        CdromSection { path: self.path.clone() }
    }
}

/// A copy of a list of disk entries.
pub fn clone_disks(disks: &Vec<DiskSection>) -> (r: Vec<DiskSection>)
    ensures
        r@ == disks@,
{
    let mut r: Vec<DiskSection> = Vec::new();
    let mut i: usize = 0;
    while i < disks.len()
        invariant
            i <= disks@.len(),
            r@ == disks@.take(i as int),
        decreases disks@.len() - i,
    {
        r.push(disks[i].clone());
        i = i + 1;
    }
    assert(disks@.take(i as int) =~= disks@);
    r
}

impl Clone for VmConfig {
    fn clone(&self) -> (r: VmConfig)
        ensures
            r@ == self@,
            r == (VmConfig { disks: r.disks, ..*self }),
            r.disks@ == self.disks@,
    {
        VmConfig {
            name: self.name.clone(),
            memory_mib: self.memory_mib,
            vcpus: self.vcpus,
            transport: self.transport,
            boot: self.boot.clone(),
            cdrom: match &self.cdrom {
                Some(c) => Some(c.clone()),
                None => None,
            },
            network: match &self.network {
                Some(n) => Some(n.clone()),
                None => None,
            },
            display: self.display,
            sound: self.sound,
            gamepad: self.gamepad,
            disks: clone_disks(&self.disks),
        }
    }
}

fn same_opt(a: &Option<String>, b: &Option<String>) -> (r: bool)
    ensures
        r == (text::opt_text(*a) == text::opt_text(*b)),
{
    match (a, b) {
        (Some(x), Some(y)) => text::same(x, y),
        (None, None) => true,
        _ => false,
    }
}

/// Two optional paths are the same.
pub open spec fn same_place(host: Host, a: Option<Seq<char>>, b: Option<Seq<char>>) -> bool {
    match (a, b) {
        (Some(x), Some(y)) => paths::same_path(host, x, y),
        (None, None) => true,
        _ => false,
    }
}

fn same_path_opt(host: Host, a: &Option<String>, b: &Option<String>) -> (r: bool)
    ensures
        r == same_place(host, text::opt_text(*a), text::opt_text(*b)),
{
    match (a, b) {
        (Some(x), Some(y)) => paths::same(host, x, y),
        (None, None) => true,
        _ => false,
    }
}

/// Two lists of disk entries are the same, one by one.
pub open spec fn same_entries(host: Host, a: Seq<DiskView>, b: Seq<DiskView>) -> bool {
    &&& a.len() == b.len()
    &&& forall|i: int|
        0 <= i < a.len() ==> (#[trigger] a[i]).writable == b[i].writable && paths::same_path(
            host,
            a[i].path,
            b[i].path,
        )
}

fn same_disks(host: Host, a: &Vec<DiskSection>, b: &Vec<DiskSection>) -> (r: bool)
    ensures
        r == same_entries(host, disk_views(a@), disk_views(b@)),
{
    let ghost x = disk_views(a@);
    let ghost y = disk_views(b@);
    if a.len() != b.len() {
        assert(x.len() != y.len());
        return false;
    }
    let mut i: usize = 0;
    while i < a.len()
        invariant
            x == disk_views(a@),
            y == disk_views(b@),
            a@.len() == b@.len(),
            i <= a@.len(),
            forall|j: int|
                0 <= j < i ==> (#[trigger] x[j]).writable == y[j].writable && paths::same_path(
                    host,
                    x[j].path,
                    y[j].path,
                ),
        decreases a@.len() - i,
    {
        proof {
            assert(x[i as int] == a@[i as int]@);
            assert(y[i as int] == b@[i as int]@);
        }
        if a[i].writable != b[i].writable || !paths::same(host, &a[i].path, &b[i].path) {
            return false;
        }
        i = i + 1;
    }
    true
}

/// Two profiles say the same: their paths lead to the same places, and the rest
/// is equal.
pub open spec fn same_profile(host: Host, a: ConfigView, b: ConfigView) -> bool {
    &&& a.name == b.name
    &&& a.memory_mib == b.memory_mib
    &&& a.vcpus == b.vcpus
    &&& a.transport == b.transport
    &&& a.boot.mode == b.boot.mode
    &&& same_place(host, a.boot.kernel, b.boot.kernel)
    &&& same_place(host, a.boot.initramfs, b.boot.initramfs)
    &&& a.boot.cmdline == b.boot.cmdline
    &&& same_place(host, a.boot.firmware, b.boot.firmware)
    &&& same_place(host, a.boot.nvram, b.boot.nvram)
    &&& same_place(host, a.cdrom, b.cdrom)
    &&& a.network == b.network
    &&& a.display == b.display
    &&& a.sound == b.sound
    &&& a.gamepad == b.gamepad
    &&& same_entries(host, a.disks, b.disks)
}

impl VmConfig {
    /// Whether two profiles say the same.
    pub fn same(&self, host: Host, other: &VmConfig) -> (r: bool)
        ensures
            r == same_profile(host, self@, other@),
    {
        let network = match (&self.network, &other.network) {
            (Some(a), Some(b)) => a.backend == b.backend && same_opt(&a.interface, &b.interface)
                && same_opt(&a.mac, &b.mac),
            (None, None) => true,
            _ => false,
        };
        let cdrom = match (&self.cdrom, &other.cdrom) {
            (Some(a), Some(b)) => paths::same(host, &a.path, &b.path),
            (None, None) => true,
            _ => false,
        };
        text::same(&self.name, &other.name) && self.memory_mib == other.memory_mib && self.vcpus
            == other.vcpus && self.transport == other.transport && self.boot.mode == other.boot.mode
            && same_path_opt(host, &self.boot.kernel, &other.boot.kernel) && same_path_opt(
            host,
            &self.boot.initramfs,
            &other.boot.initramfs,
        ) && text::same(&self.boot.cmdline, &other.boot.cmdline) && same_path_opt(
            host,
            &self.boot.firmware,
            &other.boot.firmware,
        ) && same_path_opt(host, &self.boot.nvram, &other.boot.nvram) && cdrom && network
            && self.display == other.display && self.sound == other.sound && self.gamepad
            == other.gamepad && same_disks(host, &self.disks, &other.disks)
    }
}

} // verus!
