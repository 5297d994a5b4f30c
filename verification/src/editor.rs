//! The edit form: a profile loaded into edit-friendly fields, and read back as a
//! profile. A form writes nothing itself, and a profile it does not model stays
//! as it was.
use crate::backend::Backend;
use crate::host::Host;
use crate::launcher;
use crate::launcher::{FirmwareFacts, UEFI_FIRMWARE};
use crate::paths;
use crate::profile;
use crate::profile::{
    BootMode, BootSection, BootView, CdromSection, ConfigView, DiskSection, DisplaySection,
    GamepadSection, NetworkBackend, NetworkSection, NetworkView, SoundBackend,
    SoundSection, VirtioTransport, VmConfig,
};
use crate::text;
use vstd::prelude::*;

verus! {

/// The network choice as the form shows it.
#[derive(Debug, Clone, Copy, PartialEq, Eq, Structural)]
pub enum NetworkChoice {
    /// No network at all.
    Off,
    Tap,
    Usernet,
}

impl NetworkChoice {
    /// Every choice, in the order the form shows them.
    pub const ALL: [NetworkChoice; 3] = [
        NetworkChoice::Off,
        NetworkChoice::Tap,
        NetworkChoice::Usernet,
    ];

    pub open spec fn spec_label(self) -> Seq<char> {
        match self {
            NetworkChoice::Off => "none"@,
            NetworkChoice::Tap => "tap"@,
            NetworkChoice::Usernet => "usernet"@,
        }
    }

    /// The word the form shows.
    pub fn label(self) -> (r: &'static str)
        ensures
            r@ == self.spec_label(),
    {
        match self {
            NetworkChoice::Off => "none",
            NetworkChoice::Tap => "tap",
            NetworkChoice::Usernet => "usernet",
        }
    }
}

/// Everything the editor can change, plus the profile it came from.
#[derive(Debug, PartialEq, Eq)]
pub struct EditForm {
    pub profile_path: String,
    /// Shown, never edited: the names of the profile, the disk and the logs
    /// derive from it.
    pub name: String,
    pub memory_mib: u64,
    pub vcpus: u32,
    pub transport: VirtioTransport,
    pub boot_mode: BootMode,
    // Path-like fields as text; empty means absent.
    pub kernel: String,
    pub initramfs: String,
    pub cmdline: String,
    pub firmware: String,
    pub nvram: String,
    pub cdrom: String,
    pub network: NetworkChoice,
    pub interface: String,
    pub mac: String,
    pub display_width: u32,
    pub display_height: u32,
    pub virgl: bool,
    /// Whether the guest gets a sound card at all.
    pub sound: bool,
    /// Kept while the card is off.
    pub sound_backend: SoundBackend,
    /// Whether the guest gets a gamepad. Its backend is not part of the form, so
    /// a hand-picked one stays.
    pub gamepad: bool,
    /// How many pads the guest gets. Kept while the gamepad is off.
    pub gamepad_players: u8,
    /// The largest number of pads.
    pub max_players: u8,
    /// In guest device order.
    pub disks: Vec<DiskSection>,
    /// Buffer for the "add disk" field.
    pub add_disk: String,
    /// Where this machine runs. Not part of the profile.
    pub backend: Backend,
    /// The backend the machine had when the form opened.
    pub base_backend: Backend,
    /// The working directory a launch would use. Never written anywhere.
    pub work_dir: String,
    /// The profile as it was loaded.
    pub base: VmConfig,
}

/// The text a form shows for an optional path.
pub open spec fn shown(value: Option<Seq<char>>) -> Seq<char> {
    match value {
        Some(v) => v,
        None => Seq::empty(),
    }
}

/// What a text field of a form means: nothing, when it is blank.
pub open spec fn meant(field: Seq<char>) -> Option<Seq<char>> {
    if text::trim_of(field).len() == 0 {
        None
    } else {
        Some(text::trim_of(field))
    }
}

/// The nearest number of players to `n` that a machine can have.
pub open spec fn players_of(n: u8, max: u8) -> u8 {
    if n < 1 {
        1
    } else if n > max {
        max
    } else {
        n
    }
}

fn players(n: u8, max: u8) -> (r: u8)
    requires
        max >= 1,
    ensures
        r == players_of(n, max),
        1 <= r <= max,
{
    if n < 1 {
        1
    } else if n > max {
        max
    } else {
        n
    }
}

fn text_of(value: &Option<String>) -> (r: String)
    ensures
        r@ == shown(text::opt_text(*value)),
{
    match value {
        Some(v) => v.clone(),
        None => String::new(),
    }
}

fn field_of(field: &str) -> (r: Option<String>)
    ensures
        text::opt_text(r) == meant(field@),
{
    let t = text::trim(field);
    if t.as_str().is_empty() {
        None
    } else {
        Some(t)
    }
}

pub open spec fn choice_of(network: Option<NetworkView>) -> NetworkChoice {
    match network {
        None => NetworkChoice::Off,
        Some(n) => match n.backend {
            NetworkBackend::Tap => NetworkChoice::Tap,
            NetworkBackend::Usernet => NetworkChoice::Usernet,
        },
    }
}

/// `form` shows `cfg` in its fields.
pub open spec fn shows(form: EditForm, cfg: ConfigView, max_players: u8) -> bool {
    &&& form.name@ == cfg.name
    &&& form.memory_mib == cfg.memory_mib
    &&& form.vcpus == cfg.vcpus
    &&& form.transport == cfg.transport
    &&& form.boot_mode == cfg.boot.mode
    &&& form.kernel@ == shown(cfg.boot.kernel)
    &&& form.initramfs@ == shown(cfg.boot.initramfs)
    &&& form.cmdline@ == cfg.boot.cmdline
    &&& form.firmware@ == shown(cfg.boot.firmware)
    &&& form.nvram@ == shown(cfg.boot.nvram)
    &&& form.cdrom@ == shown(cfg.cdrom)
    &&& form.network == choice_of(cfg.network)
    &&& form.interface@ == (match cfg.network {
        Some(n) => shown(n.interface),
        None => Seq::empty(),
    })
    &&& form.mac@ == (match cfg.network {
        Some(n) => shown(n.mac),
        None => Seq::empty(),
    })
    &&& form.display_width == cfg.display.width
    &&& form.display_height == cfg.display.height
    &&& form.virgl == cfg.display.virgl
    &&& form.sound == cfg.sound.enabled
    &&& form.sound_backend == cfg.sound.backend
    &&& form.gamepad == cfg.gamepad.enabled
    &&& form.gamepad_players == players_of(cfg.gamepad.players, max_players)
    &&& form.max_players == max_players
    &&& profile::disk_views(form.disks@) == cfg.disks
}

impl EditForm {
    /// A machine has at least one player's place.
    pub open spec fn wf(self) -> bool {
        self.max_players >= 1
    }

    pub open spec fn spec_resolve(self, host: Host, value: Seq<char>) -> Seq<char> {
        let path = text::trim_of(value);
        if paths::is_absolute_of(host, path) {
            path
        } else {
            paths::joined(host, self.work_dir@, path)
        }
    }

    /// A path field as the engine will resolve it: as given when absolute,
    /// against the working directory when relative.
    pub fn resolve(&self, host: Host, value: &str) -> (r: String)
        ensures
            r@ == self.spec_resolve(host, value@),
    {
        let path = text::trim(value);
        if paths::is_absolute(host, &path) {
            path
        } else {
            paths::join(host, &self.work_dir, &path)
        }
    }

    /// The variable store this machine should have if it names none: `sidecar`,
    /// which is the one beside its first disk, or a file named after a machine
    /// without disks.
    pub fn suggested_nvram(&self, sidecar: &str) -> (r: String)
        ensures
            r@ == (if self.disks@.len() > 0 {
                sidecar@
            } else {
                self.name@ + ".nvram"@
            }),
    {
        if self.disks.len() > 0 {
            sidecar.to_owned()
        } else {
            text::cat(&self.name, ".nvram")
        }
    }

    /// The firmware to offer when a UEFI machine names none: the one this
    /// computer has, or else the relative path that profiles carry, which at
    /// least tells what the file is called.
    pub fn suggested_firmware(&self, host: Host, facts: &FirmwareFacts) -> (r: String)
        ensures
            r@ == match launcher::firmware_at(host, self.work_dir@, *facts) {
                Some((path, _)) => path,
                None => UEFI_FIRMWARE@,
            },
    {
        match launcher::locate_firmware(host, &self.work_dir, facts) {
            Some((path, _)) => path,
            None => UEFI_FIRMWARE.to_owned(),
        }
    }

    /// Loads a profile into a form. A number of players out of range is brought
    /// into it.
    pub fn from_config(profile_path: String, cfg: VmConfig, max_players: u8) -> (r: EditForm)
        requires
            max_players >= 1,
        ensures
            r.wf(),
            r.profile_path == profile_path,
            r.base == cfg,
            shows(r, cfg@, max_players),
            r.add_disk@.len() == 0,
            r.backend == Backend::Native,
            r.base_backend == Backend::Native,
            r.work_dir@ == "."@,
    {
        let network = match &cfg.network {
            None => NetworkChoice::Off,
            Some(n) => match n.backend {
                NetworkBackend::Tap => NetworkChoice::Tap,
                NetworkBackend::Usernet => NetworkChoice::Usernet,
            },
        };
        let interface = match &cfg.network {
            Some(n) => text_of(&n.interface),
            None => String::new(),
        };
        let mac = match &cfg.network {
            Some(n) => text_of(&n.mac),
            None => String::new(),
        };
        EditForm {
            profile_path,
            name: cfg.name.clone(),
            memory_mib: cfg.memory_mib,
            vcpus: cfg.vcpus,
            transport: cfg.transport,
            boot_mode: cfg.boot.mode,
            kernel: text_of(&cfg.boot.kernel),
            initramfs: text_of(&cfg.boot.initramfs),
            cmdline: cfg.boot.cmdline.clone(),
            firmware: text_of(&cfg.boot.firmware),
            nvram: text_of(&cfg.boot.nvram),
            cdrom: match &cfg.cdrom {
                Some(c) => c.path.clone(),
                None => String::new(),
            },
            network,
            interface,
            mac,
            display_width: cfg.display.width,
            display_height: cfg.display.height,
            virgl: cfg.display.virgl,
            sound: cfg.sound.enabled,
            sound_backend: cfg.sound.backend,
            gamepad: cfg.gamepad.enabled,
            gamepad_players: players(cfg.gamepad.players, max_players),
            max_players,
            disks: profile::clone_disks(&cfg.disks),
            add_disk: String::new(),
            backend: Backend::Native,
            base_backend: Backend::Native,
            work_dir: ".".to_owned(),
            base: cfg,
        }
    }

    /// The profile the form describes: the loaded one, with what the form models
    /// replaced. The name and the gamepad's backend are not the form's to change.
    pub open spec fn edited(self) -> ConfigView {
        ConfigView {
            name: self.base.name@,
            memory_mib: self.memory_mib,
            vcpus: self.vcpus,
            transport: self.transport,
            boot: BootView {
                mode: self.boot_mode,
                kernel: meant(self.kernel@),
                initramfs: meant(self.initramfs@),
                cmdline: self.cmdline@,
                firmware: meant(self.firmware@),
                nvram: meant(self.nvram@),
            },
            cdrom: meant(self.cdrom@),
            network: match self.network {
                NetworkChoice::Off => None,
                NetworkChoice::Tap => Some(
                    NetworkView {
                        backend: NetworkBackend::Tap,
                        interface: meant(self.interface@),
                        mac: meant(self.mac@),
                    },
                ),
                NetworkChoice::Usernet => Some(
                    NetworkView {
                        backend: NetworkBackend::Usernet,
                        interface: None,
                        mac: meant(self.mac@),
                    },
                ),
            },
            display: DisplaySection {
                width: self.display_width,
                height: self.display_height,
                virgl: self.virgl,
            },
            sound: SoundSection { enabled: self.sound, backend: self.sound_backend },
            gamepad: GamepadSection {
                enabled: self.gamepad,
                backend: self.base.gamepad.backend,
                players: players_of(self.gamepad_players, self.max_players),
            },
            disks: profile::disk_views(self.disks@),
        }
    }

    /// The form applied to the loaded profile, before anything is checked.
    pub fn edited_config(&self) -> (r: VmConfig)
        requires
            self.wf(),
        ensures
            r@ == self.edited(),
    {
        VmConfig {
            name: self.base.name.clone(),
            memory_mib: self.memory_mib,
            vcpus: self.vcpus,
            transport: self.transport,
            boot: BootSection {
                mode: self.boot_mode,
                kernel: field_of(&self.kernel),
                initramfs: field_of(&self.initramfs),
                cmdline: self.cmdline.clone(),
                firmware: field_of(&self.firmware),
                nvram: field_of(&self.nvram),
            },
            cdrom: match field_of(&self.cdrom) {
                Some(path) => Some(CdromSection { path }),
                None => None,
            },
            network: match self.network {
                NetworkChoice::Off => None,
                NetworkChoice::Tap => Some(
                    NetworkSection {
                        backend: NetworkBackend::Tap,
                        interface: field_of(&self.interface),
                        mac: field_of(&self.mac),
                    },
                ),
                NetworkChoice::Usernet => Some(
                    NetworkSection {
                        backend: NetworkBackend::Usernet,
                        interface: None,
                        mac: field_of(&self.mac),
                    },
                ),
            },
            display: DisplaySection {
                width: self.display_width,
                height: self.display_height,
                virgl: self.virgl,
            },
            sound: SoundSection { enabled: self.sound, backend: self.sound_backend },
            gamepad: GamepadSection {
                enabled: self.gamepad,
                backend: self.base.gamepad.backend,
                players: players(self.gamepad_players, self.max_players),
            },
            disks: profile::clone_disks(&self.disks),
        }
    }

    /// The edited profile, if it is a valid one. `verdict` is what the engine's
    /// own rules say of [`EditForm::edited_config`], so the error is exactly the
    /// one a start would raise.
    pub fn to_config(&self, verdict: Result<(), String>) -> (r: Result<VmConfig, String>)
        requires
            self.wf(),
        ensures
            match verdict {
                Ok(()) => r matches Ok(cfg) && cfg@ == self.edited(),
                Err(m) => r == Err::<VmConfig, String>(m),
            },
    {
        match verdict {
            Ok(()) => Ok(self.edited_config()),
            Err(m) => Err(m),
        }
    }

    pub open spec fn is_dirty(self, host: Host, valid: bool) -> bool {
        self.backend != self.base_backend || !valid || !profile::same_profile(
            host,
            self.edited(),
            self.base@,
        )
    }

    /// Whether the form differs from what was loaded: in the profile or in the
    /// backend, since both are saved. A form that is no valid profile does.
    pub fn dirty(&self, host: Host, valid: bool) -> (r: bool)
        requires
            self.wf(),
        ensures
            r == self.is_dirty(host, valid),
    {
        if self.backend != self.base_backend || !valid {
            return true;
        }
        !self.edited_config().same(host, &self.base)
    }

    /// An editable profile that needs no file. `loaded` is what reading
    /// [`mock_profile`] gave: a name can be one that no profile can hold.
    pub fn mock(name: &str, loaded: Result<VmConfig, String>, max_players: u8) -> (r: Result<
        EditForm,
        String,
    >)
        requires
            max_players >= 1,
        ensures
            match loaded {
                Ok(cfg) => {
                    &&& r matches Ok(form)
                    &&& form.wf()
                    &&& form.profile_path@ == "mock-vms/"@ + name@ + ".toml"@
                    &&& form.base == cfg
                    &&& shows(form, cfg@, max_players)
                    &&& form.add_disk@.len() == 0
                    &&& form.backend == Backend::Native
                    &&& form.base_backend == Backend::Native
                    &&& form.work_dir@ == "."@
                },
                Err(e) => r == Err::<EditForm, String>(e),
            },
    {
        match loaded {
            Ok(cfg) => Ok(
                EditForm::from_config(text::cat3("mock-vms/", name, ".toml"), cfg, max_players),
            ),
            Err(e) => Err(e),
        }
    }
}

/// A text as `{:?}` writes it.
pub uninterp spec fn debug_text(s: Seq<char>) -> Seq<char>;

/// Writes a text with `format!("{:?}")`, which puts it in quotes and escapes what
/// cannot stand there. Which characters those are is not stated.
#[verifier::external_body]
fn debug(s: &str) -> (r: String)
    ensures
        r@ == debug_text(s@),
{
    format!("{:?}", s)
}

pub const MOCK_HARDWARE: &'static str =
    "\nmemory_mib = 4096\nvcpus = 4\ntransport = \"pci\"\n\n[boot]\nmode = \"uefi\"\nfirmware = \"artifacts/firmware/CLOUDHV.fd\"\nnvram = \"mock-vms/";

pub const MOCK_DISK: &'static str = ".nvram\"\n\n[[disk]]\npath = \"mock-vms/";

pub const MOCK_DEVICES: &'static str =
    ".raw\"\nwritable = true\n\n[network]\nbackend = \"usernet\"\n\n[display]\nwidth = 1920\nheight = 1080\nvirgl = true\n\n[sound]\nenabled = true\n";

/// The profile of a sample machine as a file would hold it: UEFI, one disk,
/// usernet, 3D and sound.
pub open spec fn mock_text(name: Seq<char>, quoted: Seq<char>) -> Seq<char> {
    "\nname = "@ + quoted + MOCK_HARDWARE@ + name + MOCK_DISK@ + name + MOCK_DEVICES@
}

/// The profile of a sample machine, its name quoted as `quoted`.
pub fn mock_profile_with(name: &str, quoted: &str) -> (r: String)
    ensures
        r@ == mock_text(name@, quoted@),
{
    let mut r = text::cat4("\nname = ", quoted, MOCK_HARDWARE, name);
    r.append(MOCK_DISK);
    r.append(name);
    r.append(MOCK_DEVICES);
    r
}

/// The profile of a sample machine, as a file would hold it.
pub fn mock_profile(name: &str) -> (r: String)
    ensures
        r@ == mock_text(name@, debug_text(name@)),
{
    mock_profile_with(name, &debug(name))
}

/// A text that a form shows and reads back as it is.
pub open spec fn neat(value: Option<Seq<char>>) -> bool {
    value matches Some(v) ==> v.len() > 0 && text::is_trimmed(v)
}

/// A profile that a form can show without loss: no blank or padded paths, no
/// interface without TAP, and a number of players in range.
pub open spec fn tidy(cfg: ConfigView, max_players: u8) -> bool {
    &&& neat(cfg.boot.kernel)
    &&& neat(cfg.boot.initramfs)
    &&& neat(cfg.boot.firmware)
    &&& neat(cfg.boot.nvram)
    &&& neat(cfg.cdrom)
    &&& cfg.network matches Some(n) ==> neat(n.interface) && neat(n.mac) && (n.backend
        == NetworkBackend::Usernet ==> n.interface is None)
    &&& 1 <= cfg.gamepad.players <= max_players
}

pub proof fn lemma_neat(value: Option<Seq<char>>)
    requires
        neat(value),
    ensures
        meant(shown(value)) == value,
{
    match value {
        Some(v) => {
            text::trim_is_idempotent(v);
        },
        None => {
            text::trim_is_idempotent(Seq::<char>::empty());
        },
    }
}

/// A form that nobody touched describes the profile it was loaded from, so it is
/// clean.
pub proof fn untouched_forms_are_clean(form: EditForm, host: Host)
    requires
        shows(form, form.base@, form.max_players),
        tidy(form.base@, form.max_players),
        form.backend == form.base_backend,
    ensures
        form.edited() == form.base@,
        !form.is_dirty(host, true),
{
    let cfg = form.base@;
    lemma_neat(cfg.boot.kernel);
    lemma_neat(cfg.boot.initramfs);
    lemma_neat(cfg.boot.firmware);
    lemma_neat(cfg.boot.nvram);
    lemma_neat(cfg.cdrom);
    match cfg.network {
        Some(n) => {
            lemma_neat(n.interface);
            lemma_neat(n.mac);
        },
        None => {},
    }
}

/// Whatever is edited, the machine's name and its gamepad backend stay, and the
/// number of players is one a machine can have.
pub proof fn edits_leave_the_rest_alone(form: EditForm)
    requires
        form.wf(),
    ensures
        form.edited().name == form.base@.name,
        form.edited().gamepad.backend == form.base@.gamepad.backend,
        1 <= form.edited().gamepad.players <= form.max_players,
{
}

proof fn lemma_meant(field: Seq<char>)
    ensures
        neat(meant(field)),
        shown(meant(field)) == text::trim_of(field),
{
    text::trim_is_idempotent(field);
}

/// A saved form reads back: opening the profile it wrote shows every field as it
/// was, without the white space around it, and with nothing to save.
pub proof fn saved_forms_read_back(form: EditForm, reopened: EditForm, host: Host)
    requires
        form.wf(),
        shows(reopened, form.edited(), form.max_players),
        reopened.base@ == form.edited(),
        reopened.backend == reopened.base_backend,
    ensures
        reopened.memory_mib == form.memory_mib,
        reopened.vcpus == form.vcpus,
        reopened.transport == form.transport,
        reopened.boot_mode == form.boot_mode,
        reopened.kernel@ == text::trim_of(form.kernel@),
        reopened.initramfs@ == text::trim_of(form.initramfs@),
        reopened.cmdline@ == form.cmdline@,
        reopened.firmware@ == text::trim_of(form.firmware@),
        reopened.nvram@ == text::trim_of(form.nvram@),
        reopened.cdrom@ == text::trim_of(form.cdrom@),
        reopened.network == form.network,
        form.network == NetworkChoice::Tap ==> reopened.interface@ == text::trim_of(form.interface@),
        form.network != NetworkChoice::Off ==> reopened.mac@ == text::trim_of(form.mac@),
        reopened.display_width == form.display_width,
        reopened.display_height == form.display_height,
        reopened.virgl == form.virgl,
        reopened.sound == form.sound,
        reopened.sound_backend == form.sound_backend,
        reopened.gamepad == form.gamepad,
        reopened.gamepad_players == players_of(form.gamepad_players, form.max_players),
        profile::disk_views(reopened.disks@) == profile::disk_views(form.disks@),
        reopened.edited() == form.edited(),
        !reopened.is_dirty(host, true),
{
    lemma_meant(form.kernel@);
    lemma_meant(form.initramfs@);
    lemma_meant(form.firmware@);
    lemma_meant(form.nvram@);
    lemma_meant(form.cdrom@);
    lemma_meant(form.interface@);
    lemma_meant(form.mac@);
    untouched_forms_are_clean(reopened, host);
}

/// Switching the sound card or the gamepad off and on loses no choice that was
/// made for it.
pub proof fn switches_keep_the_choices(form: EditForm, sound: bool, gamepad: bool)
    ensures
        ({
            let switched = (EditForm { sound, gamepad, ..form }).edited();
            &&& switched.sound.backend == form.edited().sound.backend
            &&& switched.gamepad.backend == form.edited().gamepad.backend
            &&& switched.gamepad.players == form.edited().gamepad.players
        }),
{
}

} // verus!
