//! Which hypervisor actually runs a machine, and what that choice can and
//! cannot do.
//!
//! On Linux there is one answer (KVM) and this module is a formality. On
//! Windows there are two, and they are different machines:
//!
//! - **Windows (WHP)**: `entangled.exe` runs natively on the Windows Hypervisor
//!   Platform. No TAP, no 3D, but no WSL either.
//! - **WSL (KVM)**: the *Linux* build of `entangled` runs inside WSL, which has
//!   `/dev/kvm` through nested virtualisation.
//!
//! The choice is a launch decision, not part of the guest's configuration, so
//! it lives in the manager's settings rather than in the machine's profile.
use crate::host::Host;
use crate::profile::SoundBackend;
use crate::text;
use vstd::prelude::*;

verus! {

/// The default WSL distribution the manager talks to: the name a user sees in
/// `wsl --list`.
pub const DEFAULT_WSL_DISTRO: &'static str = "Ubuntu";

/// The program that [`wsl_args`] belongs to.
pub const WSL_PROGRAM: &'static str = "wsl.exe";

/// Where a machine is run.
#[derive(Debug, Clone, Copy, PartialEq, Eq, Structural)]
pub enum Backend {
    /// The `entangled` binary for *this* operating system: KVM on Linux, WHP on
    /// Windows.
    Native,
    /// The Linux build of `entangled`, started through `wsl.exe`. Only
    /// meaningful on a Windows host.
    Wsl,
}

impl Default for Backend {
    fn default() -> (r: Backend)
        ensures
            r == Backend::Native,
    {
        Backend::Native
    }
}

/// A capability this backend cannot offer, in two lengths: the short line goes
/// inline, next to the control that is greyed out; the long one is the tooltip.
#[derive(Debug, Clone, Copy, PartialEq, Eq)]
pub struct Block {
    pub short: &'static str,
    pub long: &'static str,
}

pub const VIRGL_BLOCK_SHORT: &'static str =
    "Needs the Linux/KVM backend — switch this machine to \"WSL (KVM)\".";
pub const VIRGL_BLOCK_LONG: &'static str =
    "3D acceleration needs the Linux/KVM backend for now: the host renderer \
     (virglrenderer) speaks EGL, which Windows has no equivalent of yet \
     (ADR-0004). Switch this machine to \"WSL (KVM)\", or leave 3D off and \
     run with 2D — the guest still gets a desktop, drawn by its own processor.";
pub const TAP_BLOCK_SHORT: &'static str =
    "Linux only — use \"usernet\", which needs no host setup.";
pub const TAP_BLOCK_LONG: &'static str =
    "A host network interface (TAP) exists only on Linux; Windows has no TAP \
     device and the drivers that would provide one are GPL, which this \
     product cannot ship. Use \"usernet\" instead — a NAT that runs inside \
     Entangled, needs no host setup and no administrator.";
pub const DEBIAN_BLOCK_SHORT: &'static str =
    "Not available here — install Ubuntu, or switch to \"WSL (KVM)\".";
pub const DEBIAN_BLOCK_LONG: &'static str =
    "The Debian installer boots Entangled's own bootstrap kernel, and that \
     kernel is built on Linux only — there is no Windows build of it. \
     Install Ubuntu here (it boots verified media through UEFI and needs no \
     kernel), or switch this machine to \"WSL (KVM)\".";

pub const SOUND_BLOCK_SHORT: &'static str =
    "Belongs to the other engine — choose \"auto\", which fits both.";
pub const SOUND_BLOCK_LONG: &'static str =
    "This sound output exists on the other operating system only, and naming it \
     stops the machine from starting. Choose \"auto\", which finds the output this \
     engine has.";

impl Backend {
    /// Every backend, in the order the picker shows them.
    pub const ALL: [Backend; 2] = [Backend::Native, Backend::Wsl];

    pub open spec fn spec_label(self, host: Host) -> Seq<char> {
        match self {
            Backend::Native => if host == Host::Windows {
                "Windows (WHP)"@
            } else {
                "Linux (KVM)"@
            },
            Backend::Wsl => "WSL (KVM)"@,
        }
    }

    /// The name shown in the picker: the operating system, with the hypervisor
    /// in brackets.
    pub fn label(self, host: Host) -> (r: &'static str)
        ensures
            r@ == self.spec_label(host),
    {
        match self {
            Backend::Native => if host.is_windows() {
                "Windows (WHP)"
            } else {
                "Linux (KVM)"
            },
            Backend::Wsl => "WSL (KVM)",
        }
    }

    /// One sentence for the tooltip.
    pub fn tooltip(self, host: Host) -> (r: &'static str)
        ensures
            r@ == match self {
                Backend::Native => if host == Host::Windows {
                    "Runs the machine on Windows itself, through the Windows Hypervisor \
                     Platform. Its window is an ordinary Windows window. No 3D acceleration \
                     and no TAP networking yet."@
                } else {
                    "Runs the machine on this Linux host through KVM. Everything Entangled \
                     can do is available here."@
                },
                Backend::Wsl => "Runs the Linux build of Entangled inside WSL, which has KVM. This is the \
                     host that can do 3D acceleration and TAP networking — but the machine's \
                     window is opened by WSLg, and the machine's files must live on a drive \
                     WSL can reach."@,
            },
    {
        match self {
            Backend::Native => if host.is_windows() {
                "Runs the machine on Windows itself, through the Windows Hypervisor \
                     Platform. Its window is an ordinary Windows window. No 3D acceleration \
                     and no TAP networking yet."
            } else {
                "Runs the machine on this Linux host through KVM. Everything Entangled \
                     can do is available here."
            },
            Backend::Wsl => "Runs the Linux build of Entangled inside WSL, which has KVM. This is the \
                     host that can do 3D acceleration and TAP networking — but the machine's \
                     window is opened by WSLg, and the machine's files must live on a drive \
                     WSL can reach.",
        }
    }

    pub open spec fn available(self, host: Host) -> bool {
        self == Backend::Native || host == Host::Windows
    }

    /// Whether this host can offer the choice at all. WSL only exists as an
    /// alternative on Windows; elsewhere the native backend is all there is.
    pub fn available_on_host(self, host: Host) -> (r: bool)
        ensures
            r == self.available(host),
    {
        match self {
            Backend::Native => true,
            Backend::Wsl => host.is_windows(),
        }
    }

    pub open spec fn linux_kvm(self, host: Host) -> bool {
        self == Backend::Wsl || host == Host::Linux
    }

    /// True when this backend runs a Linux kernel with KVM underneath, which is
    /// what every Linux-only capability depends on.
    pub fn is_linux_kvm(self, host: Host) -> (r: bool)
        ensures
            r == self.linux_kvm(host),
    {
        match self {
            Backend::Native => host.is_linux(),
            Backend::Wsl => true,
        }
    }

    /// Why 3D is unavailable on this backend, or `None` when it works.
    pub fn virgl_block(self, host: Host) -> (r: Option<Block>)
        ensures
            r is None <==> self.linux_kvm(host),
            r matches Some(b) ==> b.short@ == VIRGL_BLOCK_SHORT@ && b.long@ == VIRGL_BLOCK_LONG@,
    {
        if self.is_linux_kvm(host) {
            None
        } else {
            Some(Block { short: VIRGL_BLOCK_SHORT, long: VIRGL_BLOCK_LONG })
        }
    }

    /// Why TAP networking is unavailable, or `None`.
    pub fn tap_block(self, host: Host) -> (r: Option<Block>)
        ensures
            r is None <==> self.linux_kvm(host),
            r matches Some(b) ==> b.short@ == TAP_BLOCK_SHORT@ && b.long@ == TAP_BLOCK_LONG@,
    {
        if self.is_linux_kvm(host) {
            None
        } else {
            Some(Block { short: TAP_BLOCK_SHORT, long: TAP_BLOCK_LONG })
        }
    }

    /// Why a Debian installation cannot start here, or `None`. The Debian
    /// installer boots the project's own bootstrap kernel, a Linux build with no
    /// cross build.
    pub fn debian_install_block(self, host: Host) -> (r: Option<Block>)
        ensures
            r is None <==> self.linux_kvm(host),
            r matches Some(b) ==> b.short@ == DEBIAN_BLOCK_SHORT@ && b.long@ == DEBIAN_BLOCK_LONG@,
    {
        if self.is_linux_kvm(host) {
            None
        } else {
            Some(Block { short: DEBIAN_BLOCK_SHORT, long: DEBIAN_BLOCK_LONG })
        }
    }

    pub open spec fn spec_native_sound(self, host: Host) -> SoundBackend {
        if self.linux_kvm(host) {
            SoundBackend::Alsa
        } else {
            SoundBackend::Wasapi
        }
    }

    /// The sound output of the operating system the engine runs on.
    pub fn native_sound_backend(self, host: Host) -> (r: SoundBackend)
        ensures
            r == self.spec_native_sound(host),
    {
        if self.is_linux_kvm(host) {
            SoundBackend::Alsa
        } else {
            SoundBackend::Wasapi
        }
    }

    pub open spec fn spec_sound_backends(self, host: Host) -> Seq<SoundBackend> {
        seq![SoundBackend::Auto, self.spec_native_sound(host), SoundBackend::Null]
    }

    /// The sound outputs a machine may name here. The other engine's is not
    /// among them: naming it is a refusal at start, not a fallback.
    pub fn sound_backends(self, host: Host) -> (r: Vec<SoundBackend>)
        ensures
            r@ == self.spec_sound_backends(host),
    {
        vec![SoundBackend::Auto, self.native_sound_backend(host), SoundBackend::Null]
    }

    /// Why a profile that names this sound output cannot start here, or `None`.
    pub fn sound_backend_block(self, sound: SoundBackend, host: Host) -> (r: Option<Block>)
        ensures
            r is None <==> self.spec_sound_backends(host).contains(sound),
            r matches Some(b) ==> b.short@ == SOUND_BLOCK_SHORT@ && b.long@ == SOUND_BLOCK_LONG@,
    {
        proof {
            let offered = self.spec_sound_backends(host);
            assert(offered[0] == SoundBackend::Auto);
            assert(offered[1] == self.spec_native_sound(host));
            assert(offered[2] == SoundBackend::Null);
        }
        match sound {
            SoundBackend::Auto | SoundBackend::Null => None,
            _ => if sound == self.native_sound_backend(host) {
                None
            } else {
                Some(Block { short: SOUND_BLOCK_SHORT, long: SOUND_BLOCK_LONG })
            },
        }
    }
}

/// A machine's files as seen from the chosen backend: either fine, or a reason
/// the launch is refused with a concrete fix.
#[derive(Debug, Clone, PartialEq, Eq)]
pub enum Reachability {
    Fine,
    /// Reachable, but with a caveat worth saying out loud.
    Caveat(String),
    Refused(String),
}

impl Reachability {
    /// Why the launch is refused, if it is.
    pub fn refusal(&self) -> (r: Option<String>)
        ensures
            text::opt_text(r) == match *self {
                Reachability::Refused(m) => Some(m@),
                _ => None,
            },
    {
        match self {
            Reachability::Refused(message) => Some(message.clone()),
            _ => None,
        }
    }

    /// What the user should know, if the launch is allowed with a caveat.
    pub fn caveat(&self) -> (r: Option<String>)
        ensures
            text::opt_text(r) == match *self {
                Reachability::Caveat(m) => Some(m@),
                _ => None,
            },
    {
        match self {
            Reachability::Caveat(message) => Some(message.clone()),
            _ => None,
        }
    }
}

/// Why a path has no place inside WSL, with the fix in the message.
#[derive(Debug, Clone, PartialEq, Eq)]
pub struct WslPathError(pub String);

/// `path` with forward slashes only.
pub open spec fn slashed(path: Seq<char>) -> Seq<char> {
    path.map_values(
        |c: char|
            if c == '\\' {
                '/'
            } else {
                c
            },
    )
}

pub const EMPTY_PATH: &'static str = "the path is empty";
pub const UNC_REFUSAL: &'static str =
    " is a network path (UNC). WSL cannot see it under /mnt automatically — \
     move the machine's files onto a local drive, or mount the share inside WSL \
     yourself and point the VM directory at the mount.";
pub const NO_DRIVE_REFUSAL: &'static str =
    " is not an absolute path with a drive letter, so there is no place for it \
     under /mnt in WSL. Pick the file again with the browse button — the manager \
     stores the full path.";
pub const DRVFS_CAVEAT: &'static str =
    "This machine's files are on a Windows drive. WSL reaches them, but that \
     filesystem cannot store sparse images — a disk that shows as 16 GiB will \
     really occupy 16 GiB once the guest has written across it, and it is slower \
     than a disk inside WSL's own filesystem.";

/// The path WSL sees for `path`, or why there is none.
pub open spec fn wsl_path_of(path: Seq<char>) -> Result<Seq<char>, Seq<char>> {
    let text = slashed(path);
    if text.len() == 0 {
        Err(EMPTY_PATH@)
    } else if text[0] == '/' && !(text.len() > 1 && text[1] == '/') {
        Ok(text)
    } else if text[0] == '/' {
        Err(path + UNC_REFUSAL@)
    } else if text.len() >= 3 && text::is_letter(text[0]) && text[1] == ':' && text[2] == '/' {
        Ok("/mnt/"@ + seq![text::lower_char(text[0])] + text.skip(2))
    } else {
        Err(path + NO_DRIVE_REFUSAL@)
    }
}

/// Translates a Windows path into the path WSL sees.
///
/// `D:\vms\ubuntu.toml` becomes `/mnt/d/vms/ubuntu.toml`. A path that is already
/// POSIX passes through. Everything else is refused here, rather than deep
/// inside `wsl.exe`.
pub fn to_wsl_path(path: &str) -> (r: Result<String, WslPathError>)
    ensures
        match wsl_path_of(path@) {
            Ok(t) => r matches Ok(s) && s@ == t,
            Err(m) => r matches Err(e) && e.0@ == m,
        },
{
    let raw = text::chars_of(path);
    let mut text: Vec<char> = Vec::new();
    let mut i: usize = 0;
    while i < raw.len()
        invariant
            raw@ == path@,
            i <= raw@.len(),
            text@ == slashed(path@.take(i as int)),
        decreases raw@.len() - i,
    {
        if raw[i] == '\\' {
            text.push('/');
        } else {
            text.push(raw[i]);
        }
        i = i + 1;
    }
    assert(path@.take(i as int) == path@);
    if text.len() == 0 {
        return Err(WslPathError(EMPTY_PATH.to_owned()));
    }
    if text[0] == '/' {
        if text.len() > 1 && text[1] == '/' {
            return Err(WslPathError(text::cat(path, UNC_REFUSAL)));
        }
        let s = text::string_of(&text, 0, text.len());
        assert(s@ == text@);
        return Ok(s);
    }
    if text.len() >= 3 && text::letter(text[0]) && text[1] == ':' && text[2] == '/' {
        let mut drive = String::new();
        drive.push(text[0]);
        let drive = text::lower(&drive);
        let mut s = "/mnt/".to_owned();
        s.append(&drive);
        s.append(&text::string_of(&text, 2, text.len()));
        proof {
            assert(drive@ =~= seq![text::lower_char(text@[0])]);
            assert(text@.subrange(2, text@.len() as int) == text@.skip(2));
        }
        return Ok(s);
    }
    Err(WslPathError(text::cat(path, NO_DRIVE_REFUSAL)))
}

/// Why the first path without a place in WSL has none.
pub open spec fn first_refusal(paths: Seq<Seq<char>>) -> Option<Seq<char>>
    decreases paths.len(),
{
    if paths.len() == 0 {
        None
    } else {
        match wsl_path_of(paths[0]) {
            Err(m) => Some(m),
            Ok(_) => first_refusal(paths.drop_first()),
        }
    }
}

/// The path lies on a Windows drive, as WSL sees it.
pub open spec fn on_windows_drive(path: Seq<char>) -> bool {
    wsl_path_of(path) matches Ok(t) && text::begins_with(t, "/mnt/"@)
}

/// Why a machine with these files cannot be started on `backend`, if it cannot.
pub open spec fn refusal_of(backend: Backend, paths: Seq<Seq<char>>) -> Option<Seq<char>> {
    if backend == Backend::Wsl {
        first_refusal(paths)
    } else {
        None
    }
}

/// What the user should know of starting it there.
pub open spec fn caveat_of(backend: Backend, paths: Seq<Seq<char>>) -> Option<Seq<char>> {
    if backend == Backend::Wsl && first_refusal(paths) is None && exists|i: int|
        0 <= i < paths.len() && on_windows_drive(#[trigger] paths[i]) {
        Some(DRVFS_CAVEAT@)
    } else {
        None
    }
}

/// What [`reachability`] answers for these paths: a refusal, a caveat, or
/// nothing.
pub open spec fn reach_of(backend: Backend, paths: Seq<Seq<char>>, r: Reachability) -> bool {
    match (refusal_of(backend, paths), caveat_of(backend, paths)) {
        (Some(m), _) => r matches Reachability::Refused(s) && s@ == m,
        (None, Some(m)) => r matches Reachability::Caveat(s) && s@ == m,
        (None, None) => r is Fine,
    }
}

/// Whether a machine whose files are `paths` can be started on `backend`, and
/// what the user should know if it can.
///
/// The native backend never has anything to say: the files are already where
/// the binary runs. On WSL a path that cannot be translated is a refusal, and a
/// path under `/mnt` is a caveat, because that filesystem has no sparse files.
pub fn reachability(backend: Backend, paths: &Vec<String>) -> (r: Reachability)
    ensures
        reach_of(backend, text::texts(paths@), r),
{
    match backend {
        Backend::Native => return Reachability::Fine,
        Backend::Wsl => {},
    }
    let ghost all = text::texts(paths@);
    let mut drive: bool = false;
    let mut i: usize = 0;
    proof {
        assert(all.skip(0) == all);
    }
    while i < paths.len()
        invariant
            all == text::texts(paths@),
            i <= paths@.len(),
            first_refusal(all) == first_refusal(all.skip(i as int)),
            drive == exists|j: int| 0 <= j < i && on_windows_drive(#[trigger] all[j]),
            backend == Backend::Wsl,
        decreases paths@.len() - i,
    {
        proof {
            assert(all[i as int] == paths@[i as int]@);
            assert(all.skip(i as int).drop_first() == all.skip(i + 1));
            assert(all.skip(i as int)[0] == all[i as int]);
        }
        match to_wsl_path(&paths[i]) {
            Err(e) => {
                return Reachability::Refused(e.0);
            },
            Ok(t) => {
                if text::begins(&t, "/mnt/") {
                    proof {
                        assert(on_windows_drive(all[i as int]));
                    }
                    drive = true;
                } else {
                    proof {
                        assert(!on_windows_drive(all[i as int]));
                    }
                }
            },
        }
        i = i + 1;
    }
    if drive {
        Reachability::Caveat(DRVFS_CAVEAT.to_owned())
    } else {
        Reachability::Fine
    }
}

/// The arguments `wsl.exe` takes to start `entangled` inside a distribution.
pub open spec fn wsl_args_of(
    distro: Seq<char>,
    linux_binary: Seq<char>,
    cwd: Option<Seq<char>>,
    args: Seq<Seq<char>>,
) -> Seq<Seq<char>> {
    seq!["-d"@, distro] + (match cwd {
        Some(dir) => seq!["--cd"@, dir],
        None => Seq::<Seq<char>>::empty(),
    }) + seq![
        "-e"@,
        if text::trim_of(linux_binary).len() == 0 {
            "entangled"@
        } else {
            text::trim_of(linux_binary)
        },
    ] + args
}

/// The `wsl.exe` command line that starts `entangled` inside a distribution.
///
/// `linux_binary` is the path to the *Linux* build; an empty one means whatever
/// `entangled` resolves to on the WSL `PATH`. `--cd` takes a Windows path, which
/// `wsl.exe` translates itself.
pub fn wsl_args(
    distro: &str,
    linux_binary: &str,
    cwd: &Option<String>,
    entangled_args: &Vec<String>,
) -> (r: Vec<String>)
    ensures
        text::texts(r@) == wsl_args_of(distro@, linux_binary@, text::opt_text(*cwd), text::texts(entangled_args@)),
{
    let mut args: Vec<String> = Vec::new();
    args.push("-d".to_owned());
    args.push(distro.to_owned());
    if let Some(dir) = cwd {
        args.push("--cd".to_owned());
        args.push(dir.clone());
    }
    args.push("-e".to_owned());
    let binary = text::trim(linux_binary);
    if binary.as_str().is_empty() {
        args.push("entangled".to_owned());
    } else {
        args.push(binary);
    }
    let ghost head = args@;
    let mut rest = text::clone_list(entangled_args);
    args.append(&mut rest);
    proof {
        assert(text::texts(args@) =~= text::texts(head) + text::texts(entangled_args@));
        assert(text::texts(args@) =~= wsl_args_of(
            distro@,
            linux_binary@,
            text::opt_text(*cwd),
            text::texts(entangled_args@),
        ));
    }
    args
}

/// What WSL is handed is an absolute POSIX path, and handing it over again
/// changes nothing.
pub proof fn wsl_paths_are_absolute_and_stable(path: Seq<char>)
    ensures
        wsl_path_of(path) matches Ok(t) ==> {
            &&& t.len() > 0
            &&& t[0] == '/'
            &&& !(t.len() > 1 && t[1] == '/')
            &&& wsl_path_of(t) == Ok::<Seq<char>, Seq<char>>(t)
        },
{
    reveal_strlit("/mnt/");
    if let Ok(t) = wsl_path_of(path) {
        assert forall|i: int| 0 <= i < t.len() implies t[i] != '\\' by {
            let text = slashed(path);
            assert forall|j: int| 0 <= j < text.len() implies text[j] != '\\' by {}
            if text[0] != '/' {
                if i >= 6 {
                    assert(t[i] == text[i - 4]);
                }
            }
        }
        assert(slashed(t) =~= t);
    }
}

/// The native backend refuses no machine for where its files lie, and the WSL
/// backend refuses exactly those with a file that has no place in WSL.
pub proof fn refusals_are_exact(backend: Backend, paths: Seq<Seq<char>>, r: Reachability)
    requires
        reach_of(backend, paths, r),
    ensures
        r is Refused <==> backend == Backend::Wsl && exists|i: int|
            0 <= i < paths.len() && wsl_path_of(#[trigger] paths[i]) is Err,
{
    lemma_first_refusal(paths);
}

proof fn lemma_first_refusal(paths: Seq<Seq<char>>)
    ensures
        first_refusal(paths) is Some <==> exists|i: int|
            0 <= i < paths.len() && wsl_path_of(#[trigger] paths[i]) is Err,
    decreases paths.len(),
{
    if paths.len() > 0 {
        let rest = paths.drop_first();
        lemma_first_refusal(rest);
        if wsl_path_of(paths[0]) is Ok {
            if first_refusal(rest) is Some {
                let i = choose|i: int| 0 <= i < rest.len() && wsl_path_of(#[trigger] rest[i]) is Err;
                assert(wsl_path_of(paths[i + 1]) is Err);
            }
            if exists|i: int| 0 <= i < paths.len() && wsl_path_of(#[trigger] paths[i]) is Err {
                let i = choose|i: int|
                    0 <= i < paths.len() && wsl_path_of(#[trigger] paths[i]) is Err;
                assert(wsl_path_of(rest[i - 1]) is Err);
            }
        }
    }
}

} // verus!
