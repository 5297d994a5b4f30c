//! Finding the Entangled engine, and turning what a user asks for into a
//! [`TaskSpec`].
//!
//! "Engine" is what the product calls the `entangled` binary in front of a
//! user: the manager is the application, the engine is the part that actually
//! runs a machine. A user should never have to know where it lives, so it is
//! looked for, and the result is reported as status.
use crate::backend;
use crate::backend::Backend;
use crate::discovery::VmEntry;
use crate::host::Host;
use crate::laws::installs;
use crate::paths;
use crate::process::{TaskKind, TaskSpec, TaskSpecView};
use crate::settings::Settings;
use crate::text;
use vstd::prelude::*;

verus! {

// ---------------------------------------------------------------------------
// Finding the engine
// ---------------------------------------------------------------------------

#[derive(Debug, Clone, PartialEq, Eq)]
pub enum LaunchError {
    /// The engine that the settings name is not a file.
    OverrideMissing(String),
    NotFound,
}

pub const ENGINE_NOT_FOUND: &'static str =
    "the Entangled engine is missing — it normally sits next to this manager. \
     Reinstall Entangled Desktop, or locate the file yourself under \
     Settings ▸ Advanced.";

impl LaunchError {
    pub open spec fn spec_message(self) -> Seq<char> {
        match self {
            LaunchError::OverrideMissing(path) =>
                "the engine you chose in Settings is not there any more: "@ + path@,
            LaunchError::NotFound => ENGINE_NOT_FOUND@,
        }
    }

    /// The error as the user sees it.
    pub fn message(&self) -> (r: String)
        ensures
            r@ == self.spec_message(),
    {
        match self {
            LaunchError::OverrideMissing(path) => text::cat(
                "the engine you chose in Settings is not there any more: ",
                path,
            ),
            LaunchError::NotFound => ENGINE_NOT_FOUND.to_owned(),
        }
    }
}

pub open spec fn binary_of(host: Host) -> Seq<char> {
    if host == Host::Windows {
        "entangled.exe"@
    } else {
        "entangled"@
    }
}

/// What the engine's file is called on this host.
pub fn binary(host: Host) -> (r: &'static str)
    ensures
        r@ == binary_of(host),
{
    if host.is_windows() {
        "entangled.exe"
    } else {
        "entangled"
    }
}

/// How the engine was found.
#[derive(Debug, Clone, Copy, PartialEq, Eq, Structural)]
pub enum EngineOrigin {
    /// An explicit path from the settings.
    Chosen,
    /// The normal case: shipped alongside the manager.
    BesideManager,
    /// Found on `PATH`: a developer checkout, usually.
    OnPath,
}

impl EngineOrigin {
    pub open spec fn spec_label(self) -> Seq<char> {
        match self {
            EngineOrigin::Chosen => "chosen in Settings"@,
            EngineOrigin::BesideManager => "next to the manager"@,
            EngineOrigin::OnPath => "found on PATH"@,
        }
    }

    /// The words a status line uses for it.
    pub fn label(self) -> (r: &'static str)
        ensures
            r@ == self.spec_label(),
    {
        match self {
            EngineOrigin::Chosen => "chosen in Settings",
            EngineOrigin::BesideManager => "next to the manager",
            EngineOrigin::OnPath => "found on PATH",
        }
    }
}

/// An engine that was found.
#[derive(Debug, PartialEq, Eq)]
pub struct Engine {
    pub path: String,
    pub origin: EngineOrigin,
    /// `None` until the engine was asked.
    pub version: Option<String>,
}

impl Clone for Engine {
    fn clone(&self) -> (r: Engine)
        ensures
            r == *self,
    {
        Engine {
            path: self.path.clone(),
            origin: self.origin,
            version: text::clone_opt(&self.version),
        }
    }
}

impl Engine {
    pub open spec fn spec_summary(self) -> Seq<char> {
        match self.version {
            Some(version) => "entangled "@ + version@ + " — "@ + self.origin.spec_label(),
            None => "entangled — "@ + self.origin.spec_label(),
        }
    }

    /// The one-line status: the version, if it is known, and where the engine
    /// was found.
    pub fn summary(&self) -> (r: String)
        ensures
            r@ == self.spec_summary(),
    {
        match &self.version {
            Some(version) => text::cat4("entangled ", version, " — ", self.origin.label()),
            None => text::cat("entangled — ", self.origin.label()),
        }
    }
}

/// A directory, and whether the file that is looked for lies in it.
#[derive(Debug, PartialEq, Eq)]
pub struct Place {
    pub dir: String,
    pub present: bool,
}

/// The first directory that holds the file.
pub open spec fn first_present(places: Seq<Place>) -> Option<Seq<char>>
    decreases places.len(),
{
    if places.len() == 0 {
        None
    } else if places[0].present {
        Some(places[0].dir@)
    } else {
        first_present(places.drop_first())
    }
}

fn first_dir(places: &Vec<Place>) -> (r: Option<String>)
    ensures
        text::opt_text(r) == first_present(places@),
{
    let mut i: usize = 0;
    assert(places@.skip(0) =~= places@);
    while i < places.len()
        invariant
            i <= places@.len(),
            first_present(places@) == first_present(places@.skip(i as int)),
        decreases places@.len() - i,
    {
        proof {
            assert(places@.skip(i as int).drop_first() =~= places@.skip(i + 1));
            assert(places@.skip(i as int)[0] == places@[i as int]);
        }
        if places[i].present {
            return Some(places[i].dir.clone());
        }
        i = i + 1;
    }
    None
}

/// What the host holds in the places where an engine may be.
#[derive(Debug, PartialEq, Eq)]
pub struct EngineFacts {
    /// The path that the settings name is a file.
    pub chosen_is_file: bool,
    /// The manager's own directory, where it is known.
    pub beside: Option<Place>,
    /// The directories of `PATH`, in its order.
    pub on_path: Vec<Place>,
}

/// Where an engine that the settings do not name is, as path and origin.
pub open spec fn engine_of(host: Host, facts: EngineFacts) -> Result<
    (Seq<char>, EngineOrigin),
    LaunchError,
> {
    let binary = binary_of(host);
    if facts.beside is Some && facts.beside->0.present {
        Ok((paths::joined(host, facts.beside->0.dir@, binary), EngineOrigin::BesideManager))
    } else {
        match first_present(facts.on_path@) {
            Some(dir) => Ok((paths::joined(host, dir, binary), EngineOrigin::OnPath)),
            None => Err(LaunchError::NotFound),
        }
    }
}

/// Looks for the engine: an explicit setting stands or fails on its own; without
/// one, the manager's own directory comes first, then `PATH`.
pub fn locate_engine(settings: &Settings, host: Host, facts: &EngineFacts) -> (r: Result<
    Engine,
    LaunchError,
>)
    ensures
        match settings.entangled_binary {
            Some(chosen) => if facts.chosen_is_file {
                r == Ok::<Engine, LaunchError>(
                    Engine { path: chosen, origin: EngineOrigin::Chosen, version: None },
                )
            } else {
                r == Err::<Engine, LaunchError>(LaunchError::OverrideMissing(chosen))
            },
            None => match engine_of(host, *facts) {
                Ok((path, origin)) => r matches Ok(e) && e.path@ == path && e.origin == origin
                    && e.version is None,
                Err(error) => r == Err::<Engine, LaunchError>(error),
            },
        },
{
    if let Some(chosen) = &settings.entangled_binary {
        return if facts.chosen_is_file {
            Ok(Engine { path: chosen.clone(), origin: EngineOrigin::Chosen, version: None })
        } else {
            Err(LaunchError::OverrideMissing(chosen.clone()))
        };
    }
    if let Some(place) = &facts.beside {
        if place.present {
            return Ok(
                Engine {
                    path: paths::join(host, &place.dir, binary(host)),
                    origin: EngineOrigin::BesideManager,
                    version: None,
                },
            );
        }
    }
    match first_dir(&facts.on_path) {
        Some(dir) => Ok(
            Engine {
                path: paths::join(host, &dir, binary(host)),
                origin: EngineOrigin::OnPath,
                version: None,
            },
        ),
        None => Err(LaunchError::NotFound),
    }
}

/// The version in an engine's own version line: its second word, if that starts
/// with a digit.
pub open spec fn version_said(output: Seq<char>) -> Option<Seq<char>> {
    let lines = text::lines_of(output);
    if lines.len() == 0 {
        None
    } else {
        let words = text::words_of(lines[0]);
        if words.len() >= 2 && words[1].len() > 0 && text::is_digit(words[1][0]) {
            Some(words[1])
        } else {
            None
        }
    }
}

/// Reads `entangled 0.2.0` as `0.2.0`. Anything unexpected is dropped, rather
/// than shown half-read in a status line.
pub fn parse_version(output: &str) -> (r: Option<String>)
    ensures
        text::opt_text(r) == version_said(output@),
{
    let lines = text::lines(output);
    if lines.len() == 0 {
        return None;
    }
    assert(text::texts(lines@)[0] == lines@[0]@);
    let words = text::words(&lines[0]);
    if words.len() < 2 {
        return None;
    }
    assert(text::texts(words@)[1] == words@[1]@);
    let word = text::chars_of(&words[1]);
    if word.len() > 0 && text::digit(word[0]) {
        Some(words[1].clone())
    } else {
        None
    }
}

// ---------------------------------------------------------------------------
// Starting a child
// ---------------------------------------------------------------------------

/// How a child is actually started: directly, or through `wsl.exe`.
#[derive(Debug, Clone, PartialEq, Eq)]
pub struct Runner {
    pub backend: Backend,
    /// The native engine.
    pub engine: String,
    pub distro: String,
    /// Path to the Linux build of `entangled` inside WSL. Empty means that the
    /// WSL `PATH` decides.
    pub linux_engine: String,
}

/// How a child is started, as plain values.
pub ghost struct RunnerView {
    pub backend: Backend,
    pub engine: Seq<char>,
    pub distro: Seq<char>,
    pub linux_engine: Seq<char>,
}

impl View for Runner {
    type V = RunnerView;

    open spec fn view(&self) -> RunnerView {
        RunnerView {
            backend: self.backend,
            engine: self.engine@,
            distro: self.distro@,
            linux_engine: self.linux_engine@,
        }
    }
}

/// How a child is started under these settings.
pub open spec fn runner_of(backend: Backend, engine: Seq<char>, settings: Settings) -> RunnerView {
    RunnerView {
        backend,
        engine,
        distro: settings.wsl_distro@,
        linux_engine: match settings.wsl_entangled {
            Some(path) => path@,
            None => Seq::empty(),
        },
    }
}

impl RunnerView {
    pub open spec fn program(self) -> Seq<char> {
        match self.backend {
            Backend::Native => self.engine,
            Backend::Wsl => backend::WSL_PROGRAM@,
        }
    }

    pub open spec fn args(self, cwd: Seq<char>, args: Seq<Seq<char>>) -> Seq<Seq<char>> {
        match self.backend {
            Backend::Native => args,
            Backend::Wsl => backend::wsl_args_of(self.distro, self.linux_engine, Some(cwd), args),
        }
    }
}

/// A path as an engine on `backend` sees it, or why it cannot.
pub open spec fn arg_of(backend: Backend, path: Seq<char>) -> Result<Seq<char>, Seq<char>> {
    match backend {
        Backend::Native => Ok(path),
        Backend::Wsl => backend::wsl_path_of(path),
    }
}

impl Runner {
    pub fn new(backend: Backend, engine: String, settings: &Settings) -> (r: Runner)
        ensures
            r@ == runner_of(backend, engine@, *settings),
    {
        Runner {
            backend,
            engine,
            distro: settings.wsl_distro.clone(),
            linux_engine: match &settings.wsl_entangled {
                Some(path) => path.clone(),
                None => String::new(),
            },
        }
    }

    /// A path as the engine will see it: as it is natively, under `/mnt` in
    /// WSL, and a refusal where it has no place there.
    pub fn path_arg(&self, path: &str) -> (r: Result<String, String>)
        ensures
            match arg_of(self.backend, path@) {
                Ok(arg) => r matches Ok(s) && s@ == arg,
                Err(m) => r matches Err(s) && s@ == m,
            },
    {
        match self.backend {
            Backend::Native => Ok(path.to_owned()),
            Backend::Wsl => match backend::to_wsl_path(path) {
                Ok(arg) => Ok(arg),
                Err(e) => Err(e.0),
            },
        }
    }

    /// Program and arguments of the engine's own host check.
    pub fn doctor_command(&self, cwd: &str) -> (r: (String, Vec<String>))
        ensures
            r.0@ == self@.program(),
            text::texts(r.1@) == self@.args(cwd@, seq!["doctor"@]),
    {
        let args = vec!["doctor".to_owned()];
        assert(text::texts(args@) =~= seq!["doctor"@]);
        self.command(cwd, args)
    }

    /// Program and arguments of an engine command line.
    pub fn command(&self, cwd: &str, args: Vec<String>) -> (r: (String, Vec<String>))
        ensures
            r.0@ == self@.program(),
            text::texts(r.1@) == self@.args(cwd@, text::texts(args@)),
    {
        match self.backend {
            Backend::Native => (self.engine.clone(), args),
            Backend::Wsl => (
                backend::WSL_PROGRAM.to_owned(),
                backend::wsl_args(&self.distro, &self.linux_engine, &Some(cwd.to_owned()), &args),
            ),
        }
    }
}

// ---------------------------------------------------------------------------
// A new machine
// ---------------------------------------------------------------------------

/// The installer variants. Debian only: the Ubuntu path installs from a verified
/// image and has none.
pub const VARIANTS: [&'static str; 3] = ["text-netboot", "gtk-netboot", "netinst-iso"];

#[derive(Debug, Clone, Copy, PartialEq, Eq, Structural)]
pub enum GuestFamily {
    Debian,
    Ubuntu,
}

impl GuestFamily {
    pub open spec fn spec_cli_name(self) -> Seq<char> {
        match self {
            GuestFamily::Debian => "debian"@,
            GuestFamily::Ubuntu => "ubuntu"@,
        }
    }

    /// The word the engine's command line uses.
    pub fn cli_name(self) -> (r: &'static str)
        ensures
            r@ == self.spec_cli_name(),
    {
        match self {
            GuestFamily::Debian => "debian",
            GuestFamily::Ubuntu => "ubuntu",
        }
    }

    pub open spec fn spec_label(self) -> Seq<char> {
        match self {
            GuestFamily::Debian => "Debian"@,
            GuestFamily::Ubuntu => "Ubuntu"@,
        }
    }

    /// The name the user sees.
    pub fn label(self) -> (r: &'static str)
        ensures
            r@ == self.spec_label(),
    {
        match self {
            GuestFamily::Debian => "Debian",
            GuestFamily::Ubuntu => "Ubuntu",
        }
    }

    pub open spec fn spec_default(host: Host) -> GuestFamily {
        if host == Host::Windows {
            GuestFamily::Ubuntu
        } else {
            GuestFamily::Debian
        }
    }

    /// What a new machine installs by default on this host: Ubuntu on Windows,
    /// which works there out of the box, and Debian elsewhere.
    pub fn default_for_host(host: Host) -> (r: GuestFamily)
        ensures
            r == GuestFamily::spec_default(host),
    {
        if host.is_windows() {
            GuestFamily::Ubuntu
        } else {
            GuestFamily::Debian
        }
    }
}

/// Whether the installer receives a fresh sparse disk or an existing image.
#[derive(Debug, Clone, Copy, PartialEq, Eq, Structural)]
pub enum DiskMode {
    CreateNew,
    UseExisting,
}

/// Everything the wizard collects.
#[derive(Debug, PartialEq, Eq)]
pub struct NewMachine {
    pub name: String,
    pub memory_mib: u64,
    pub vcpus: u32,
    pub disk_gib: u64,
    /// Empty means an image named after the machine, in the machine directory.
    pub disk_path: String,
    pub disk_mode: DiskMode,
    pub family: GuestFamily,
    /// Optional local Ubuntu installer image. Empty uses the verified cache.
    pub iso_path: String,
    pub variant: String,
    pub automated: bool,
    pub headless: bool,
    /// Where this machine will run once it exists, and where its installer runs
    /// now.
    pub backend: Backend,
}

impl Clone for NewMachine {
    fn clone(&self) -> (r: NewMachine)
        ensures
            r == *self,
    {
        NewMachine {
            name: self.name.clone(),
            memory_mib: self.memory_mib,
            vcpus: self.vcpus,
            disk_gib: self.disk_gib,
            disk_path: self.disk_path.clone(),
            disk_mode: self.disk_mode,
            family: self.family,
            iso_path: self.iso_path.clone(),
            variant: self.variant.clone(),
            automated: self.automated,
            headless: self.headless,
            backend: self.backend,
        }
    }
}

/// What the wizard collects, as plain values.
pub ghost struct MachineView {
    pub name: Seq<char>,
    pub memory_mib: u64,
    pub vcpus: u32,
    pub disk_gib: u64,
    pub disk_path: Seq<char>,
    pub disk_mode: DiskMode,
    pub family: GuestFamily,
    pub iso_path: Seq<char>,
    pub variant: Seq<char>,
    pub automated: bool,
    pub headless: bool,
    pub backend: Backend,
}

impl View for NewMachine {
    type V = MachineView;

    open spec fn view(&self) -> MachineView {
        MachineView {
            name: self.name@,
            memory_mib: self.memory_mib,
            vcpus: self.vcpus,
            disk_gib: self.disk_gib,
            disk_path: self.disk_path@,
            disk_mode: self.disk_mode,
            family: self.family,
            iso_path: self.iso_path@,
            variant: self.variant@,
            automated: self.automated,
            headless: self.headless,
            backend: self.backend,
        }
    }
}

impl MachineView {
    /// Where the machine's disk image lies.
    pub open spec fn disk_at(self, host: Host, vm_dir: Seq<char>) -> Seq<char> {
        let configured = text::trim_of(self.disk_path);
        if configured.len() == 0 {
            paths::joined(host, vm_dir, self.name + ".raw"@)
        } else if paths::is_absolute_of(host, configured) {
            configured
        } else {
            paths::joined(host, vm_dir, configured)
        }
    }
}

impl NewMachine {
    /// Where the machine's disk image lies.
    pub fn disk_path(&self, host: Host, vm_dir: &str) -> (r: String)
        ensures
            r@ == self@.disk_at(host, vm_dir@),
    {
        let configured = text::trim(&self.disk_path);
        if configured.as_str().is_empty() {
            return paths::join(host, vm_dir, &text::cat(&self.name, ".raw"));
        }
        if paths::is_absolute(host, &configured) {
            configured
        } else {
            paths::join(host, vm_dir, &configured)
        }
    }
}

/// The smallest memory an installer runs in.
pub const INSTALLER_MEMORY_MIB: u64 = 1536;

/// The arguments that name the installation media.
pub open spec fn media_of(backend: Backend, machine: MachineView) -> Result<
    Seq<Seq<char>>,
    Seq<char>,
> {
    match machine.family {
        GuestFamily::Debian => Ok(seq!["--variant"@, machine.variant]),
        GuestFamily::Ubuntu => {
            let iso = text::trim_of(machine.iso_path);
            if iso.len() == 0 {
                Ok(Seq::empty())
            } else {
                match arg_of(backend, iso) {
                    Ok(arg) => Ok(seq!["--iso"@, arg]),
                    Err(m) => Err(m),
                }
            }
        },
    }
}

/// The engine's arguments for an installation, before any wrapping for WSL.
pub open spec fn install_args(
    disk: Seq<char>,
    media: Seq<Seq<char>>,
    machine: MachineView,
) -> Seq<Seq<char>> {
    seq![
        "install"@,
        machine.family.spec_cli_name(),
        "--disk"@,
        disk,
        "--size"@,
        text::decimal_of(machine.disk_gib as nat) + "G"@,
        "--memory-mib"@,
        text::decimal_of(
            if machine.memory_mib < INSTALLER_MEMORY_MIB {
                INSTALLER_MEMORY_MIB as nat
            } else {
                machine.memory_mib as nat
            },
        ),
        "--name"@,
        machine.name,
    ] + media + (if machine.automated {
        seq!["--auto"@]
    } else {
        Seq::<Seq<char>>::empty()
    }) + (if machine.headless {
        seq!["--headless"@]
    } else {
        Seq::<Seq<char>>::empty()
    })
}

/// The child that installs a machine, or why a path of it cannot be handed
/// over.
pub open spec fn install_of(
    host: Host,
    runner: RunnerView,
    vm_dir: Seq<char>,
    cwd: Seq<char>,
    machine: MachineView,
) -> Result<TaskSpecView, Seq<char>> {
    match arg_of(runner.backend, machine.disk_at(host, vm_dir)) {
        Err(m) => Err(m),
        Ok(disk) => match media_of(runner.backend, machine) {
            Err(m) => Err(m),
            Ok(media) => Ok(
                TaskSpecView {
                    kind: TaskKind::Install,
                    vm: machine.name,
                    program: runner.program(),
                    args: runner.args(cwd, install_args(disk, media, machine)),
                    cwd,
                    log_path: paths::joined(host, vm_dir, machine.name + "-install.log"@),
                    control: false,
                },
            ),
        },
    }
}

/// The child that installs a machine.
///
/// The installer gets at least [`INSTALLER_MEMORY_MIB`], which Debian's needs
/// even when the finished machine is meant to be smaller. The network is left to
/// the engine, whose default per host is the right answer, and only Debian has a
/// variant. `cwd` matters: the engine resolves its boot artifacts against it.
pub fn install_spec(
    host: Host,
    runner: &Runner,
    vm_dir: &str,
    cwd: String,
    machine: &NewMachine,
) -> (r: Result<TaskSpec, String>)
    ensures
        match install_of(host, runner@, vm_dir@, cwd@, machine@) {
            Ok(spec) => r matches Ok(s) && s@ == spec,
            Err(m) => r matches Err(e) && e@ == m,
        },
        r matches Ok(s) ==> {
            let at: int = match runner.backend {
                Backend::Native => 0,
                Backend::Wsl => 6,
            };
            &&& s.vm@ == machine.name@
            &&& s.args@[at]@ == "install"@
            &&& s.args@[at + 5]@ == text::decimal_of(machine.disk_gib as nat) + "G"@
            &&& s.args@[at + 9]@ == machine.name@
            &&& machine.family == GuestFamily::Debian ==> s.args@[at + 1]@ == "debian"@ && s.args@[at
                + 10]@ == "--variant"@ && s.args@[at + 11]@ == machine.variant@
            &&& machine.family == GuestFamily::Ubuntu ==> s.args@[at + 1]@ == "ubuntu"@
        },
{
    let disk = runner.path_arg(&machine.disk_path(host, vm_dir))?;
    let memory: u64 = if machine.memory_mib < INSTALLER_MEMORY_MIB {
        INSTALLER_MEMORY_MIB
    } else {
        machine.memory_mib
    };
    let ghost d = disk@;
    let mut args: Vec<String> = Vec::new();
    args.push("install".to_owned());
    args.push(machine.family.cli_name().to_owned());
    args.push("--disk".to_owned());
    args.push(disk);
    args.push("--size".to_owned());
    args.push(text::cat(&text::decimal(machine.disk_gib), "G"));
    args.push("--memory-mib".to_owned());
    args.push(text::decimal(memory));
    args.push("--name".to_owned());
    args.push(machine.name.clone());
    let ghost head = text::texts(args@);
    match machine.family {
        GuestFamily::Debian => {
            args.push("--variant".to_owned());
            args.push(machine.variant.clone());
        },
        GuestFamily::Ubuntu => {
            let iso = text::trim(&machine.iso_path);
            if !iso.as_str().is_empty() {
                let arg = runner.path_arg(&iso)?;
                args.push("--iso".to_owned());
                args.push(arg);
            }
        },
    }
    let ghost media = media_of(runner.backend, machine@)->Ok_0;
    assert(text::texts(args@) =~= head + media);
    if machine.automated {
        args.push("--auto".to_owned());
    }
    if machine.headless {
        args.push("--headless".to_owned());
    }
    assert(text::texts(args@) =~= install_args(d, media, machine@));
    proof {
        installs::the_engine_is_told_what_was_asked_for(d, media, machine@);
        installs::the_chosen_media_is_installed_from(runner.backend, machine@);
    }
    let ghost own = text::texts(args@);
    let (program, args) = runner.command(&cwd, args);
    proof {
        let all = text::texts(args@);
        let at: int = match runner.backend {
            Backend::Native => 0,
            Backend::Wsl => 6,
        };
        assert forall|i: int| 0 <= i < own.len() implies all[at + i] == #[trigger] own[i] by {}
        assert forall|i: int| 0 <= i < all.len() implies #[trigger] all[i] == args@[i]@ by {}
        assert(own.subrange(10, 10 + media.len() as int) == media);
        if machine.family == GuestFamily::Debian {
            assert(own.subrange(10, 12)[0] == own[10]);
            assert(own.subrange(10, 12)[1] == own[11]);
        }
        assert(all[at] == own[0] && all[at + 1] == own[1] && all[at + 5] == own[5] && all[at + 9]
            == own[9]);
        if machine.family == GuestFamily::Debian {
            assert(all[at + 10] == own[10] && all[at + 11] == own[11]);
        }
    }
    Ok(
        TaskSpec {
            kind: TaskKind::Install,
            vm: machine.name.clone(),
            program,
            args,
            cwd,
            log_path: paths::join(host, vm_dir, &text::cat(&machine.name, "-install.log")),
            control: false,
        },
    )
}

/// The child that starts a machine: from its profile (`run`) or from a saved
/// session (`resume`).
pub open spec fn start_of(
    host: Host,
    runner: RunnerView,
    verb: Seq<char>,
    vm: Seq<char>,
    file: Seq<char>,
    cwd: Seq<char>,
    vm_dir: Seq<char>,
) -> Result<TaskSpecView, Seq<char>> {
    match arg_of(runner.backend, file) {
        Err(m) => Err(m),
        Ok(arg) => Ok(
            TaskSpecView {
                kind: TaskKind::Run,
                vm,
                program: runner.program(),
                args: runner.args(cwd, seq![verb, "--control-stdin"@, arg]),
                cwd,
                log_path: paths::joined(host, vm_dir, vm + "-run.log"@),
                control: true,
            },
        ),
    }
}

fn start_spec(
    host: Host,
    runner: &Runner,
    verb: &str,
    vm: &str,
    file: &str,
    cwd: String,
    vm_dir: &str,
) -> (r: Result<TaskSpec, String>)
    ensures
        match start_of(host, runner@, verb@, vm@, file@, cwd@, vm_dir@) {
            Ok(spec) => r matches Ok(s) && s@ == spec,
            Err(m) => r matches Err(e) && e@ == m,
        },
{
    let arg = runner.path_arg(file)?;
    let ghost a = arg@;
    let args = vec![verb.to_owned(), "--control-stdin".to_owned(), arg];
    assert(text::texts(args@) =~= seq![verb@, "--control-stdin"@, a]);
    let (program, args) = runner.command(&cwd, args);
    Ok(
        TaskSpec {
            kind: TaskKind::Run,
            vm: vm.to_owned(),
            program,
            args,
            cwd,
            log_path: paths::join(host, vm_dir, &text::cat(vm, "-run.log")),
            control: true,
        },
    )
}

/// The child that runs a machine from its profile. The manager keeps its
/// standard input as the lifecycle control channel.
pub fn run_spec(host: Host, runner: &Runner, vm: &VmEntry, cwd: String, vm_dir: &str) -> (r: Result<
    TaskSpec,
    String,
>)
    ensures
        match start_of(host, runner@, "run"@, vm.name@, vm.profile_path@, cwd@, vm_dir@) {
            Ok(spec) => r matches Ok(s) && s@ == spec,
            Err(m) => r matches Err(e) && e@ == m,
        },
{
    start_spec(host, runner, "run", &vm.name, &vm.profile_path, cwd, vm_dir)
}

/// The child that starts a machine from its saved session instead of booting
/// it. The snapshot carries the profile it was taken from, so the machine's name
/// is all that is needed besides.
pub fn resume_spec(
    host: Host,
    runner: &Runner,
    vm: &str,
    snapshot: &str,
    cwd: String,
    vm_dir: &str,
) -> (r: Result<TaskSpec, String>)
    ensures
        match start_of(host, runner@, "resume"@, vm@, snapshot@, cwd@, vm_dir@) {
            Ok(spec) => r matches Ok(s) && s@ == spec,
            Err(m) => r matches Err(e) && e@ == m,
        },
{
    start_spec(host, runner, "resume", vm, snapshot, cwd, vm_dir)
}

/// A resume is a start: under the same name it differs from a run in its
/// command line alone, so the log and the control channel are the same.
pub proof fn a_resume_is_a_start(
    host: Host,
    runner: RunnerView,
    vm: Seq<char>,
    profile: Seq<char>,
    snapshot: Seq<char>,
    cwd: Seq<char>,
    vm_dir: Seq<char>,
)
    ensures
        match (
            start_of(host, runner, "run"@, vm, profile, cwd, vm_dir),
            start_of(host, runner, "resume"@, vm, snapshot, cwd, vm_dir),
        ) {
            (Ok(run), Ok(resume)) => resume == (TaskSpecView { args: resume.args, ..run })
                && run.control,
            _ => true,
        },
{
}

/// The native backend hands every path over as it is, so no child of it fails
/// before it starts.
pub proof fn native_children_are_never_refused(
    host: Host,
    runner: RunnerView,
    verb: Seq<char>,
    vm: Seq<char>,
    file: Seq<char>,
    cwd: Seq<char>,
    vm_dir: Seq<char>,
    machine: MachineView,
)
    requires
        runner.backend == Backend::Native,
    ensures
        install_of(host, runner, vm_dir, cwd, machine) is Ok,
        start_of(host, runner, verb, vm, file, cwd, vm_dir) is Ok,
{
}

/// On the WSL backend the program is always `wsl.exe`, and the file a child
/// starts from is handed over as an absolute POSIX path.
pub proof fn wsl_children_get_posix_paths(
    host: Host,
    runner: RunnerView,
    verb: Seq<char>,
    vm: Seq<char>,
    file: Seq<char>,
    cwd: Seq<char>,
    vm_dir: Seq<char>,
)
    requires
        runner.backend == Backend::Wsl,
    ensures
        start_of(host, runner, verb, vm, file, cwd, vm_dir) matches Ok(spec) ==> {
            &&& spec.program == backend::WSL_PROGRAM@
            &&& spec.args.last().len() > 0
            &&& spec.args.last()[0] == '/'
        },
{
    backend::wsl_paths_are_absolute_and_stable(file);
    if let Ok(spec) = start_of(host, runner, verb, vm, file, cwd, vm_dir) {
        let arg = arg_of(runner.backend, file)->Ok_0;
        assert(spec.args.last() == arg);
    }
}

// ---------------------------------------------------------------------------
// What an installation needs
// ---------------------------------------------------------------------------

/// The bootstrap kernel a direct-Linux machine boots from, relative to the
/// child's working directory.
pub const BOOTSTRAP_KERNEL: &'static str = "artifacts/bootstrap/vmlinuz";

/// Its initramfs. Half a pair is not a pair: a kernel with no initramfs boots to
/// a panic.
pub const BOOTSTRAP_INITRD: &'static str = "artifacts/bootstrap/initrd.img";

/// The UEFI firmware an Ubuntu installation boots through, relative to the
/// child's working directory.
pub const UEFI_FIRMWARE: &'static str = "artifacts/firmware/CLOUDHV.fd";

/// Its file name on its own.
pub const FIRMWARE_FILE: &'static str = "CLOUDHV.fd";

/// How the UEFI firmware is obtained on Windows, in words a user can act on.
pub const FIRMWARE_FIX_WINDOWS: &'static str =
    "The firmware normally ships with Entangled Desktop, in artifacts\\firmware next to the \
     program. If it is not there, `entangled fetch firmware` downloads it (4 MiB, checked \
     against a digest built into this program), or reinstalling puts it back.";

/// How the UEFI firmware is obtained on the other hosts.
pub const FIRMWARE_FIX: &'static str =
    "The firmware normally ships with Entangled Desktop, in artifacts/firmware next to the \
     program. If it is not there, `entangled fetch firmware` downloads it (4 MiB, digest \
     checked), or build it with `bash guest/firmware/build-cloudhv.sh` (about 2.5 minutes).";

pub open spec fn spec_firmware_fix(host: Host) -> Seq<char> {
    if host == Host::Windows {
        FIRMWARE_FIX_WINDOWS@
    } else {
        FIRMWARE_FIX@
    }
}

/// How the UEFI firmware is obtained on this host.
pub fn firmware_fix(host: Host) -> (r: &'static str)
    ensures
        r@ == spec_firmware_fix(host),
{
    if host.is_windows() {
        FIRMWARE_FIX_WINDOWS
    } else {
        FIRMWARE_FIX
    }
}

/// Where a firmware image was found.
#[derive(Debug, Clone, Copy, PartialEq, Eq, Structural)]
pub enum FirmwareOrigin {
    /// A directory named by the environment.
    Directory,
    /// Beside the program: what the installer ships.
    Install,
    /// The verified cache.
    Cache,
    /// Under the child's working directory.
    Checkout,
}

impl FirmwareOrigin {
    pub open spec fn spec_label(self) -> Seq<char> {
        match self {
            FirmwareOrigin::Directory => "ENTANGLED_FIRMWARE_DIR"@,
            FirmwareOrigin::Install => "this installation"@,
            FirmwareOrigin::Cache => "the verified cache"@,
            FirmwareOrigin::Checkout => "the working directory"@,
        }
    }

    /// The words the panel shows.
    pub fn label(self) -> (r: &'static str)
        ensures
            r@ == self.spec_label(),
    {
        match self {
            FirmwareOrigin::Directory => "ENTANGLED_FIRMWARE_DIR",
            FirmwareOrigin::Install => "this installation",
            FirmwareOrigin::Cache => "the verified cache",
            FirmwareOrigin::Checkout => "the working directory",
        }
    }
}

/// What the host holds in the places where firmware may be.
#[derive(Debug, PartialEq, Eq)]
pub struct FirmwareFacts {
    /// The directory the environment names, if it names one.
    pub named: Option<Place>,
    /// The firmware directory beside the program, where the program's own place
    /// is known.
    pub installed: Option<Place>,
    /// The cache's release directories, in the order they are listed.
    pub cached: Vec<Place>,
    /// The image lies under the working directory.
    pub in_checkout: bool,
}

/// The firmware directory of a checkout.
pub open spec fn firmware_dir_of(host: Host, base: Seq<char>) -> Seq<char> {
    paths::joined(host, paths::joined(host, base, "artifacts"@), "firmware"@)
}

/// Where the firmware is, if it is anywhere.
pub open spec fn firmware_at(host: Host, cwd: Seq<char>, facts: FirmwareFacts) -> Option<
    (Seq<char>, FirmwareOrigin),
> {
    if facts.named is Some && facts.named->0.present {
        Some((paths::joined(host, facts.named->0.dir@, FIRMWARE_FILE@), FirmwareOrigin::Directory))
    } else if facts.installed is Some && facts.installed->0.present {
        Some((paths::joined(host, facts.installed->0.dir@, FIRMWARE_FILE@), FirmwareOrigin::Install))
    } else if first_present(facts.cached@) is Some {
        Some(
            (
                paths::joined(host, first_present(facts.cached@)->0, FIRMWARE_FILE@),
                FirmwareOrigin::Cache,
            ),
        )
    } else if facts.in_checkout {
        Some(
            (
                paths::joined(host, firmware_dir_of(host, cwd), FIRMWARE_FILE@),
                FirmwareOrigin::Checkout,
            ),
        )
    } else {
        None
    }
}

/// Whether a UEFI firmware is reachable from a child started in `cwd`, and from
/// where: a named directory, the installation, the verified cache (any release
/// of it), then the working directory.
pub fn locate_firmware(host: Host, cwd: &str, facts: &FirmwareFacts) -> (r: Option<
    (String, FirmwareOrigin),
>)
    ensures
        match firmware_at(host, cwd@, *facts) {
            Some((path, origin)) => r matches Some(f) && f.0@ == path && f.1 == origin,
            None => r is None,
        },
{
    if let Some(place) = &facts.named {
        if place.present {
            return Some((paths::join(host, &place.dir, FIRMWARE_FILE), FirmwareOrigin::Directory));
        }
    }
    if let Some(place) = &facts.installed {
        if place.present {
            return Some((paths::join(host, &place.dir, FIRMWARE_FILE), FirmwareOrigin::Install));
        }
    }
    if let Some(dir) = first_dir(&facts.cached) {
        return Some((paths::join(host, &dir, FIRMWARE_FILE), FirmwareOrigin::Cache));
    }
    if facts.in_checkout {
        return Some(
            (
                paths::join(host, &firmware_dir(host, cwd), FIRMWARE_FILE),
                FirmwareOrigin::Checkout,
            ),
        );
    }
    None
}

/// The firmware directory of a checkout at `base`.
pub fn firmware_dir(host: Host, base: &str) -> (r: String)
    ensures
        r@ == firmware_dir_of(host, base@),
{
    paths::join(host, &paths::join(host, base, "artifacts"), "firmware")
}

/// The firmware directory beside the program at `exe`.
pub fn install_firmware_dir(host: Host, exe: &str) -> (r: Option<String>)
    ensures
        text::opt_text(r) == match paths::parent_of(host, exe@) {
            Some(dir) => Some(firmware_dir_of(host, dir)),
            None => None,
        },
{
    match paths::parent(host, exe) {
        Some(dir) => Some(firmware_dir(host, &dir)),
        None => None,
    }
}

/// A bootstrap kernel and its initramfs, as far as they are there.
#[derive(Debug, Clone, Copy, PartialEq, Eq, Structural)]
pub struct Pair {
    pub kernel: bool,
    pub initrd: bool,
}

impl Pair {
    pub open spec fn whole(self) -> bool {
        self.kernel && self.initrd
    }
}

/// What the host holds in the places where the bootstrap pair may be.
#[derive(Debug, PartialEq, Eq)]
pub struct BootstrapFacts {
    /// In the directory the environment names, if it names one.
    pub named: Option<Pair>,
    pub in_checkout: Pair,
    /// In the cache's release directories.
    pub cached: Vec<Pair>,
}

pub open spec fn bootstrap_present(facts: BootstrapFacts) -> bool {
    ||| facts.named matches Some(pair) && pair.whole()
    ||| facts.in_checkout.whole()
    ||| exists|i: int| 0 <= i < facts.cached@.len() && (#[trigger] facts.cached@[i]).whole()
}

/// Whether a bootstrap kernel with its initramfs is reachable: both in one
/// place.
pub fn bootstrap_artifacts_present(facts: &BootstrapFacts) -> (r: bool)
    ensures
        r == bootstrap_present(*facts),
{
    if let Some(pair) = &facts.named {
        if pair.kernel && pair.initrd {
            return true;
        }
    }
    if facts.in_checkout.kernel && facts.in_checkout.initrd {
        return true;
    }
    let mut i: usize = 0;
    while i < facts.cached.len()
        invariant
            i <= facts.cached@.len(),
            forall|j: int| 0 <= j < i ==> !(#[trigger] facts.cached@[j]).whole(),
        decreases facts.cached@.len() - i,
    {
        if facts.cached[i].kernel && facts.cached[i].initrd {
            assert(facts.cached@[i as int].whole());
            return true;
        }
        i = i + 1;
    }
    false
}

pub const NO_FIRMWARE_HEAD: &'static str =
    "no UEFI firmware (CLOUDHV.fd) on this computer — not next to the \
     program, not in the verified cache, and not under ";
pub const NO_BOOTSTRAP_HEAD: &'static str =
    "no bootstrap kernel for the Debian installer — not at ";
pub const NO_BOOTSTRAP_FIX: &'static str =
    " and none in the \
     verified cache. Run `entangled fetch bootstrap-kernel` (about 13 MiB, checked \
     against a SHA-256 pinned in this build)";
pub const NO_BOOTSTRAP_WINDOWS: &'static str =
    ", or copy an artifacts/bootstrap/ directory in from a Linux checkout and \
     point Settings ▸ Advanced ▸ working directory at it.";
pub const NO_BOOTSTRAP_ELSEWHERE: &'static str =
    ", or build it with `bash guest/bootstrap-kernel/build.sh`.";

/// What keeps an installation from starting, if anything does.
pub open spec fn missing_artifact(
    host: Host,
    cwd: Seq<char>,
    family: GuestFamily,
    firmware: FirmwareFacts,
    bootstrap: BootstrapFacts,
) -> Option<Seq<char>> {
    match family {
        GuestFamily::Ubuntu => if firmware_at(host, cwd, firmware) is Some {
            None
        } else {
            Some(NO_FIRMWARE_HEAD@ + cwd + ". "@ + spec_firmware_fix(host))
        },
        GuestFamily::Debian => if bootstrap_present(bootstrap) {
            None
        } else {
            Some(
                NO_BOOTSTRAP_HEAD@ + paths::joined(host, cwd, BOOTSTRAP_KERNEL@) + NO_BOOTSTRAP_FIX@
                    + (if host == Host::Windows {
                    NO_BOOTSTRAP_WINDOWS@
                } else {
                    NO_BOOTSTRAP_ELSEWHERE@
                }),
            )
        },
    }
}

/// The artifact an installation of `family` would fail on, as a message ready to
/// show, or `None` when this host can install it now. Each family has its own:
/// Ubuntu needs firmware and no kernel, Debian the kernel and no firmware.
pub fn missing_install_artifact(
    host: Host,
    cwd: &str,
    family: GuestFamily,
    firmware: &FirmwareFacts,
    bootstrap: &BootstrapFacts,
) -> (r: Option<String>)
    ensures
        text::opt_text(r) == missing_artifact(host, cwd@, family, *firmware, *bootstrap),
{
    match family {
        GuestFamily::Ubuntu => {
            if locate_firmware(host, cwd, firmware).is_some() {
                return None;
            }
            Some(text::cat4(NO_FIRMWARE_HEAD, cwd, ". ", firmware_fix(host)))
        },
        GuestFamily::Debian => {
            if bootstrap_artifacts_present(bootstrap) {
                return None;
            }
            let way_out = if host.is_windows() {
                NO_BOOTSTRAP_WINDOWS
            } else {
                NO_BOOTSTRAP_ELSEWHERE
            };
            Some(
                text::cat4(
                    NO_BOOTSTRAP_HEAD,
                    &paths::join(host, cwd, BOOTSTRAP_KERNEL),
                    NO_BOOTSTRAP_FIX,
                    way_out,
                ),
            )
        },
    }
}

/// Each family is gated on its own artifact: what the other one needs changes
/// nothing.
pub proof fn each_family_has_its_own_gate(
    host: Host,
    cwd: Seq<char>,
    firmware: FirmwareFacts,
    other_firmware: FirmwareFacts,
    bootstrap: BootstrapFacts,
    other_bootstrap: BootstrapFacts,
)
    ensures
        missing_artifact(host, cwd, GuestFamily::Ubuntu, firmware, bootstrap) == missing_artifact(
            host,
            cwd,
            GuestFamily::Ubuntu,
            firmware,
            other_bootstrap,
        ),
        missing_artifact(host, cwd, GuestFamily::Debian, firmware, bootstrap) == missing_artifact(
            host,
            cwd,
            GuestFamily::Debian,
            other_firmware,
            bootstrap,
        ),
{
}

/// The cache directory: the one the environment names, unless that is blank, and
/// the platform's own otherwise.
pub fn cache_root(named: &Option<String>, platform: &Option<String>) -> (r: Option<String>)
    ensures
        r == match *named {
            Some(dir) => if text::trim_of(dir@).len() > 0 {
                Some(dir)
            } else {
                *platform
            },
            None => *platform,
        },
{
    if let Some(dir) = named {
        if !text::trim(dir).as_str().is_empty() {
            return Some(dir.clone());
        }
    }
    text::clone_opt(platform)
}

} // verus!
