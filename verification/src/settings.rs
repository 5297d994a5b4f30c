//! Persisted manager settings.
//!
//! The file itself, its directory and the environment are read outside; this
//! module holds what they mean.
use crate::backend::{Backend, DEFAULT_WSL_DISTRO};
use crate::host::Host;
use crate::paths;
use crate::table::Table;
use crate::text;
use vstd::prelude::*;

verus! {

/// Why the settings could not be read or written.
#[derive(Debug, PartialEq, Eq)]
pub enum SettingsError {
    NoConfigDir,
    Read { path: String, source: String },
    Parse { path: String, source: String },
    Write { path: String, source: String },
    Serialize(String),
}

impl SettingsError {
    pub open spec fn spec_message(self) -> Seq<char> {
        match self {
            SettingsError::NoConfigDir =>
                "cannot determine a configuration directory (set XDG_CONFIG_HOME or HOME)"@,
            SettingsError::Read { path, source } => "cannot read "@ + path@ + ": "@ + source@,
            SettingsError::Parse { path, source } => "cannot parse "@ + path@ + ": "@ + source@,
            SettingsError::Write { path, source } => "cannot write "@ + path@ + ": "@ + source@,
            SettingsError::Serialize(source) => "cannot serialize settings: "@ + source@,
        }
    }

    /// The sentence shown to the user.
    pub fn message(&self) -> (r: String)
        ensures
            r@ == self.spec_message(),
    {
        match self {
            SettingsError::NoConfigDir =>
                "cannot determine a configuration directory (set XDG_CONFIG_HOME or HOME)".to_owned(),
            SettingsError::Read { path, source } => text::cat4("cannot read ", path, ": ", source),
            SettingsError::Parse { path, source } => text::cat4(
                "cannot parse ",
                path,
                ": ",
                source,
            ),
            SettingsError::Write { path, source } => text::cat4(
                "cannot write ",
                path,
                ": ",
                source,
            ),
            SettingsError::Serialize(source) => text::cat("cannot serialize settings: ", source),
        }
    }
}

/// Per-machine backends.
pub type BackendTable = Table<Backend>;

/// A copy of per-machine backends.
pub fn clone_backends(table: &BackendTable) -> (r: BackendTable)
    ensures
        r.rows@ == table.rows@,
{
    let mut rows: Vec<(String, Backend)> = Vec::new();
    let mut i: usize = 0;
    while i < table.rows.len()
        invariant
            i <= table.rows@.len(),
            rows@ == table.rows@.take(i as int),
        decreases table.rows@.len() - i,
    {
        rows.push((table.rows[i].0.clone(), table.rows[i].1));
        i = i + 1;
    }
    assert(table.rows@.take(i as int) =~= table.rows@);
    Table { rows }
}


/// Everything the manager remembers between runs.
#[derive(Debug, PartialEq, Eq)]
pub struct Settings {
    /// Directory scanned for `*.toml` profiles and used for new disks.
    pub vm_dir: String,
    /// Explicit path to the `entangled` binary; `None` means it is looked for.
    pub entangled_binary: Option<String>,
    /// Working directory for spawned children, against which relative paths in
    /// a profile resolve.
    pub work_dir: Option<String>,
    /// Install without an installer window by default.
    pub headless_install: bool,
    /// Ask for a newer version once, on startup.
    pub check_updates_on_startup: bool,
    /// Ambient motion, hover easing and live status pulses.
    pub animations_enabled: bool,
    pub default_memory_mib: u64,
    pub default_vcpus: u32,
    pub default_disk_gib: u64,
    pub default_variant: String,
    /// Which hypervisor a new machine uses.
    pub default_backend: Backend,
    /// Per-machine overrides of `default_backend`, keyed by machine name.
    pub vm_backends: BackendTable,
    /// The WSL distribution the WSL backend talks to.
    pub wsl_distro: String,
    /// Path to the Linux build of `entangled`, as seen inside WSL.
    pub wsl_entangled: Option<String>,
}

impl Clone for Settings {
    fn clone(&self) -> (r: Settings)
        ensures
            r.vm_backends.rows@ == self.vm_backends.rows@,
            r == (Settings { vm_backends: r.vm_backends, ..*self }),
    {
        Settings {
            vm_dir: self.vm_dir.clone(),
            entangled_binary: text::clone_opt(&self.entangled_binary),
            work_dir: text::clone_opt(&self.work_dir),
            headless_install: self.headless_install,
            check_updates_on_startup: self.check_updates_on_startup,
            animations_enabled: self.animations_enabled,
            default_memory_mib: self.default_memory_mib,
            default_vcpus: self.default_vcpus,
            default_disk_gib: self.default_disk_gib,
            default_variant: self.default_variant.clone(),
            default_backend: self.default_backend,
            vm_backends: clone_backends(&self.vm_backends),
            wsl_distro: self.wsl_distro.clone(),
            wsl_entangled: text::clone_opt(&self.wsl_entangled),
        }
    }
}

/// The settings of a fresh installation, apart from the machine directory.
pub open spec fn has_defaults(s: Settings) -> bool {
    &&& s.entangled_binary is None
    &&& s.work_dir is None
    &&& !s.headless_install
    &&& s.check_updates_on_startup
    &&& s.animations_enabled
    &&& s.default_memory_mib == 2048
    &&& s.default_vcpus == 2
    &&& s.default_disk_gib == 16
    &&& s.default_variant@ == "text-netboot"@
    &&& s.default_backend == Backend::Native
    &&& s.vm_backends@ == Map::<Seq<char>, Backend>::empty()
    &&& s.wsl_distro@ == DEFAULT_WSL_DISTRO@
    &&& s.wsl_entangled is None
    &&& s.wf()
}

/// The name of the machine directory.
pub const VM_DIR_NAME: &'static str = "entangled-vms";

impl Settings {
    pub open spec fn wf(self) -> bool {
        self.vm_backends.wf()
    }

    /// The settings of a fresh installation for a user with this home directory.
    pub fn default(host: Host, home: &Option<String>) -> (r: Settings)
        ensures
            has_defaults(r),
            r.vm_dir@ == match *home {
                Some(dir) => paths::joined(host, dir@, VM_DIR_NAME@),
                None => VM_DIR_NAME@,
            },
    {
        Settings {
            vm_dir: match home {
                Some(dir) => paths::join(host, dir, VM_DIR_NAME),
                None => VM_DIR_NAME.to_owned(),
            },
            entangled_binary: None,
            work_dir: None,
            headless_install: false,
            check_updates_on_startup: true,
            animations_enabled: true,
            default_memory_mib: 2048,
            default_vcpus: 2,
            default_disk_gib: 16,
            default_variant: "text-netboot".to_owned(),
            default_backend: Backend::Native,
            vm_backends: Table::new(),
            wsl_distro: DEFAULT_WSL_DISTRO.to_owned(),
            wsl_entangled: None,
        }
    }

    /// What a settings file says, after the wizard's memory default is cut down
    /// to the largest machine that can be built.
    pub fn loaded(self, max_memory_mib: u64) -> (r: Settings)
        ensures
            r.default_memory_mib == (if self.default_memory_mib > max_memory_mib {
                max_memory_mib
            } else {
                self.default_memory_mib
            }),
            r == (Settings { default_memory_mib: r.default_memory_mib, ..self }),
    {
        let mut settings = self;
        if settings.default_memory_mib > max_memory_mib {
            settings.default_memory_mib = max_memory_mib;
        }
        settings
    }

    pub open spec fn spec_child_cwd(self, current: Option<String>) -> Seq<char> {
        match self.work_dir {
            Some(dir) => dir@,
            None => match current {
                Some(dir) => dir@,
                None => "."@,
            },
        }
    }

    /// Directory a spawned child runs in: the configured one, else the manager's
    /// own working directory.
    pub fn child_cwd(&self, current: &Option<String>) -> (r: String)
        ensures
            r@ == self.spec_child_cwd(*current),
    {
        match &self.work_dir {
            Some(dir) => dir.clone(),
            None => match current {
                Some(dir) => dir.clone(),
                None => ".".to_owned(),
            },
        }
    }

    /// What a machine was set to, before the host has its say.
    pub open spec fn chosen_backend(self, vm: Seq<char>) -> Backend {
        if self.vm_backends@.contains_key(vm) {
            self.vm_backends@[vm]
        } else {
            self.default_backend
        }
    }

    pub open spec fn spec_backend_for(self, vm: Seq<char>, host: Host) -> Backend {
        if self.chosen_backend(vm).available(host) {
            self.chosen_backend(vm)
        } else {
            Backend::Native
        }
    }

    /// Where a named machine runs: its own choice, else the default, and always
    /// the native backend when the chosen one does not exist on this host.
    pub fn backend_for(&self, vm: &str, host: Host) -> (r: Backend)
        requires
            self.wf(),
        ensures
            r == self.spec_backend_for(vm@, host),
    {
        let chosen = match self.vm_backends.get(vm) {
            Some(own) => *own,
            None => self.default_backend,
        };
        if chosen.available_on_host(host) {
            chosen
        } else {
            Backend::Native
        }
    }

    /// The per-machine backends once a machine has that one. Repeating the
    /// default needs no row.
    pub open spec fn backends_with(self, vm: Seq<char>, backend: Backend) -> Map<
        Seq<char>,
        Backend,
    > {
        if backend == self.default_backend {
            self.vm_backends@.remove(vm)
        } else {
            self.vm_backends@.insert(vm, backend)
        }
    }

    /// Records a machine's backend, dropping the row when it merely repeats the
    /// default.
    pub fn set_backend_for(&mut self, vm: &str, backend: Backend)
        requires
            old(self).wf(),
        ensures
            final(self).wf(),
            final(self).vm_backends@ == old(self).backends_with(vm@, backend),
            *final(self) == (Settings { vm_backends: final(self).vm_backends, ..*old(self) }),
    {
        if backend == self.default_backend {
            self.vm_backends.remove(vm);
        } else {
            self.vm_backends.insert(vm, backend);
        }
    }
}

/// A machine runs where it was last told to, wherever that exists, and no other
/// machine is affected.
pub proof fn backends_read_back(
    before: Settings,
    after: Settings,
    vm: Seq<char>,
    backend: Backend,
    other: Seq<char>,
    host: Host,
)
    requires
        after.vm_backends@ == before.backends_with(vm, backend),
        after.default_backend == before.default_backend,
    ensures
        after.spec_backend_for(vm, host) == (if backend.available(host) {
            backend
        } else {
            Backend::Native
        }),
        other != vm ==> after.spec_backend_for(other, host) == before.spec_backend_for(other, host),
        after.vm_backends@.contains_key(vm) ==> after.vm_backends@[vm] != after.default_backend,
{
}

/// No machine is left with a backend that its host does not have, so settings
/// brought over from another host strand none.
pub proof fn no_machine_is_stranded(settings: Settings, vm: Seq<char>, host: Host)
    ensures
        settings.spec_backend_for(vm, host).available(host),
        host != Host::Windows ==> settings.spec_backend_for(vm, host) == Backend::Native,
{
}

/// The value of an environment variable that is set to more than white space.
pub open spec fn set_value(value: Option<String>) -> Option<Seq<char>> {
    match value {
        Some(v) => if text::trim_of(v@).len() > 0 {
            Some(v@)
        } else {
            None
        },
        None => None,
    }
}

fn non_empty(value: &Option<String>) -> (r: Option<String>)
    ensures
        text::opt_text(r) == set_value(*value),
{
    match value {
        Some(v) => if text::trim(v).as_str().is_empty() {
            None
        } else {
            Some(v.clone())
        },
        None => None,
    }
}

pub open spec fn spec_home_dir(home: Option<String>, userprofile: Option<String>) -> Option<
    Seq<char>,
> {
    match set_value(home) {
        Some(dir) => Some(dir),
        None => set_value(userprofile),
    }
}

/// The user's home directory, from the values of `HOME` and `USERPROFILE`.
pub fn home_dir(home: &Option<String>, userprofile: &Option<String>) -> (r: Option<String>)
    ensures
        text::opt_text(r) == spec_home_dir(*home, *userprofile),
{
    match non_empty(home) {
        Some(dir) => Some(dir),
        None => non_empty(userprofile),
    }
}

pub open spec fn config_in(host: Host, dir: Seq<char>) -> Seq<char> {
    paths::joined(host, paths::joined(host, dir, "entangled"@), "manager.toml"@)
}

/// Where the settings live: `$XDG_CONFIG_HOME/entangled/manager.toml`,
/// `%APPDATA%\entangled\manager.toml` on Windows, else below `.config` in the
/// home directory.
pub fn config_path(
    host: Host,
    xdg_config_home: &Option<String>,
    appdata: &Option<String>,
    home: &Option<String>,
    userprofile: &Option<String>,
) -> (r: Result<String, SettingsError>)
    ensures
        ({
            let dir = match set_value(*xdg_config_home) {
                Some(dir) => Some(dir),
                None => match (if host == Host::Windows {
                    set_value(*appdata)
                } else {
                    None
                }) {
                    Some(dir) => Some(dir),
                    None => match spec_home_dir(*home, *userprofile) {
                        Some(dir) => Some(paths::joined(host, dir, ".config"@)),
                        None => None,
                    },
                },
            };
            match dir {
                Some(d) => r matches Ok(path) && path@ == config_in(host, d),
                None => r matches Err(SettingsError::NoConfigDir),
            }
        }),
{
    let dir = match non_empty(xdg_config_home) {
        Some(dir) => dir,
        None => {
            let app = if host.is_windows() {
                non_empty(appdata)
            } else {
                None
            };
            match app {
                Some(dir) => dir,
                None => match home_dir(home, userprofile) {
                    Some(dir) => paths::join(host, &dir, ".config"),
                    None => return Err(SettingsError::NoConfigDir),
                },
            }
        },
    };
    Ok(paths::join(host, &paths::join(host, &dir, "entangled"), "manager.toml"))
}

} // verus!
