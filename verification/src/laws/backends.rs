//! Promises about backends: where machines can run, and how WSL reaches their files.
use crate::backend;
use crate::backend::Backend;
use crate::host::Host;
use crate::launcher;
use crate::launcher::{BootstrapFacts, Engine};
use crate::paths;
use crate::profile;
use crate::profile::ConfigView;
use crate::run_vm;
use crate::text;
use crate::wslengine::Status;
use vstd::prelude::*;

verus! {

/// WSL is there on Windows alone; KVM is where Linux is, on the host or inside WSL; each
/// has its own sound and its own name.
pub proof fn backends_fit_their_host(backend: Backend, host: Host)
    ensures
        backend.available(host) <==> backend == Backend::Native || host == Host::Windows,
        backend == Backend::Wsl ==> backend.linux_kvm(host),
        backend == Backend::Native ==> (backend.linux_kvm(host) <==> host == Host::Linux),
        backend.linux_kvm(host) ==> backend.spec_native_sound(host) is Alsa,
        !backend.linux_kvm(host) ==> backend.spec_native_sound(host) is Wasapi,
        backend.spec_sound_backends(host).len() == 3,
        backend.spec_sound_backends(host)[0] is Auto,
        backend.spec_sound_backends(host)[1] == backend.spec_native_sound(host),
        backend.spec_sound_backends(host)[2] is Null,
        backend == Backend::Wsl ==> backend.spec_label(host) == "WSL (KVM)"@,
        backend == Backend::Native && host == Host::Windows ==> backend.spec_label(host)
            == "Windows (WHP)"@,
        backend == Backend::Native && host != Host::Windows ==> backend.spec_label(host)
            == "Linux (KVM)"@,
{
}

/// A path on a drive lies under that drive's mount, in lower case and with forward
/// slashes.
pub proof fn drives_are_mounted(drive: char, sep: char, rest: Seq<char>)
    requires
        text::is_letter(drive),
        sep == '\\' || sep == '/',
    ensures
        ({
            let path = seq![drive, ':', sep] + rest;
            let there = backend::wsl_path_of(path);
            &&& there is Ok
            &&& there->Ok_0.len() == rest.len() + 7
            &&& there->Ok_0.subrange(0, 5) == "/mnt/"@
            &&& there->Ok_0[5] == text::lower_char(drive)
            &&& there->Ok_0[6] == '/'
            &&& forall|i: int|
                0 <= i < rest.len() ==> #[trigger] there->Ok_0[i + 7] == (if rest[i] == '\\' {
                    '/'
                } else {
                    rest[i]
                })
        }),
{
    reveal_strlit("/mnt/");
    let path = seq![drive, ':', sep] + rest;
    let s = backend::slashed(path);
    assert(s[0] == drive && s[1] == ':' && s[2] == '/');
    let there = backend::wsl_path_of(path)->Ok_0;
    assert(there == "/mnt/"@ + seq![text::lower_char(drive)] + s.skip(2));
    assert(there.subrange(0, 5) =~= "/mnt/"@);
    assert forall|i: int| 0 <= i < rest.len() implies #[trigger] there[i + 7] == (if rest[i]
        == '\\' {
        '/'
    } else {
        rest[i]
    }) by {
        assert(there[i + 7] == s[i + 3]);
        assert(path[i + 3] == rest[i]);
    }
}

/// A path that is Linux's already stays as it is; shares, relative paths and nothing at all
/// have no place in WSL.
pub proof fn other_paths_have_no_mount(path: Seq<char>)
    ensures
        path.len() == 0 ==> backend::wsl_path_of(path) is Err,
        path.len() > 0 && path[0] == '/' && (path.len() == 1 || (path[1] != '/' && path[1] != '\\'))
            && !text::holds_char(path, '\\') ==> backend::wsl_path_of(path) == Ok::<
            Seq<char>,
            Seq<char>,
        >(path),
        path.len() > 1 && path[0] == '\\' && path[1] == '\\' ==> backend::wsl_path_of(path) is Err,
        path.len() > 0 && path[0] != '/' && path[0] != '\\' && (path.len() < 2 || path[1] != ':')
            ==> backend::wsl_path_of(path) is Err,
{
    let s = backend::slashed(path);
    if !text::holds_char(path, '\\') {
        assert forall|i: int| 0 <= i < path.len() implies path[i] != '\\' by {}
        assert(s =~= path);
    }
}

/// A machine is refused on WSL for the first of its files that has no place there, and on
/// its own host for none; files on a drive of Windows are warned of.
pub proof fn files_are_refused_where_they_have_no_place(
    backend: Backend,
    paths: Seq<Seq<char>>,
)
    ensures
        backend == Backend::Native ==> backend::refusal_of(backend, paths) is None
            && backend::caveat_of(backend, paths) is None,
        backend == Backend::Wsl ==> (backend::refusal_of(backend, paths) is None <==> forall|
            i: int,
        |
            0 <= i < paths.len() ==> backend::wsl_path_of(#[trigger] paths[i]) is Ok),
        backend::caveat_of(backend, paths) is Some <==> backend == Backend::Wsl
            && backend::refusal_of(backend, paths) is None && exists|i: int|
            0 <= i < paths.len() && backend::wsl_path_of(#[trigger] paths[i]) is Ok
                && text::begins_with(backend::wsl_path_of(paths[i])->Ok_0, "/mnt/"@),
{
    lemma_first_refusal(paths);
    if exists|i: int| 0 <= i < paths.len() && backend::on_windows_drive(#[trigger] paths[i]) {
        let i = choose|i: int|
            0 <= i < paths.len() && backend::on_windows_drive(#[trigger] paths[i]);
        assert(backend::wsl_path_of(paths[i]) is Ok);
    }
    if exists|i: int|
        0 <= i < paths.len() && backend::wsl_path_of(#[trigger] paths[i]) is Ok
            && text::begins_with(backend::wsl_path_of(paths[i])->Ok_0, "/mnt/"@) {
        let i = choose|i: int|
            0 <= i < paths.len() && backend::wsl_path_of(#[trigger] paths[i]) is Ok
                && text::begins_with(backend::wsl_path_of(paths[i])->Ok_0, "/mnt/"@);
        assert(backend::on_windows_drive(paths[i]));
    }
}

proof fn lemma_first_refusal(paths: Seq<Seq<char>>)
    ensures
        backend::first_refusal(paths) is None <==> forall|i: int|
            0 <= i < paths.len() ==> backend::wsl_path_of(#[trigger] paths[i]) is Ok,
    decreases paths.len(),
{
    if paths.len() > 0 {
        let rest = paths.drop_first();
        lemma_first_refusal(rest);
        assert forall|i: int| 0 <= i < rest.len() implies #[trigger] rest[i] == paths[i + 1] by {}
        assert forall|i: int| 0 < i < paths.len() implies #[trigger] paths[i] == rest[i - 1] by {}
    }
}

/// A command inside WSL names the distribution, the directory and the engine, and then all
/// its own arguments.
pub proof fn commands_are_handed_to_wsl(
    distro: Seq<char>,
    engine: Seq<char>,
    dir: Seq<char>,
    args: Seq<Seq<char>>,
    i: int,
)
    requires
        0 <= i < args.len(),
    ensures
        ({
            let all = backend::wsl_args_of(distro, engine, Some(dir), args);
            let bare = backend::wsl_args_of(distro, engine, None, args);
            &&& all.len() == args.len() + 6
            &&& all[0] == "-d"@
            &&& all[1] == distro
            &&& all[2] == "--cd"@
            &&& all[3] == dir
            &&& all[4] == "-e"@
            &&& all[i + 6] == args[i]
            &&& bare.len() == args.len() + 4
            &&& bare[1] == distro
            &&& bare[2] == "-e"@
            &&& bare[3] == all[5]
            &&& bare[i + 4] == args[i]
            &&& text::trim_of(engine).len() > 0 ==> all[5] == text::trim_of(engine)
            &&& text::trim_of(engine).len() == 0 ==> all[5] == "entangled"@
        }),
{
}

/// Profiles are the same when every value is, every path leads to the same place and every
/// disk may be written alike.
pub proof fn profiles_are_the_same_in_everything(host: Host, a: ConfigView, b: ConfigView)
    ensures
        profile::same_profile(host, a, b) <==> {
            &&& a.name == b.name
            &&& a.memory_mib == b.memory_mib
            &&& a.vcpus == b.vcpus
            &&& a.transport == b.transport
            &&& a.boot.mode == b.boot.mode
            &&& a.boot.cmdline == b.boot.cmdline
            &&& a.network == b.network
            &&& a.display == b.display
            &&& a.sound == b.sound
            &&& a.gamepad == b.gamepad
            &&& a.boot.kernel is Some <==> b.boot.kernel is Some
            &&& a.boot.kernel is Some ==> paths::same_path(host, a.boot.kernel->0, b.boot.kernel->0)
            &&& a.boot.initramfs is Some <==> b.boot.initramfs is Some
            &&& a.boot.initramfs is Some ==> paths::same_path(
                host,
                a.boot.initramfs->0,
                b.boot.initramfs->0,
            )
            &&& a.boot.firmware is Some <==> b.boot.firmware is Some
            &&& a.boot.firmware is Some ==> paths::same_path(
                host,
                a.boot.firmware->0,
                b.boot.firmware->0,
            )
            &&& a.boot.nvram is Some <==> b.boot.nvram is Some
            &&& a.boot.nvram is Some ==> paths::same_path(host, a.boot.nvram->0, b.boot.nvram->0)
            &&& a.cdrom is Some <==> b.cdrom is Some
            &&& a.cdrom is Some ==> paths::same_path(host, a.cdrom->0, b.cdrom->0)
            &&& a.disks.len() == b.disks.len()
            &&& forall|i: int|
                0 <= i < a.disks.len() ==> (#[trigger] a.disks[i]).writable == b.disks[i].writable
                    && paths::same_path(host, a.disks[i].path, b.disks[i].path)
        },
{
}

/// The version of an engine is the second word of the first line that it prints, where that
/// begins with a digit.
pub proof fn versions_are_the_second_word(output: Seq<char>)
    ensures
        launcher::version_said(output) matches Some(v) ==> text::lines_of(output).len() > 0
            && text::words_of(text::lines_of(output)[0]).len() >= 2 && v == text::words_of(
            text::lines_of(output)[0],
        )[1] && v.len() > 0 && '0' <= v[0] <= '9',
        text::lines_of(output).len() > 0 && text::words_of(text::lines_of(output)[0]).len() >= 2
            && text::words_of(text::lines_of(output)[0])[1].len() > 0 && '0' <= text::words_of(
            text::lines_of(output)[0],
        )[1][0] <= '9' ==> launcher::version_said(output) is Some,
{
}

/// The engine has the name that its host gives programs.
pub proof fn engines_are_named_by_their_host(host: Host)
    ensures
        host == Host::Windows ==> launcher::binary_of(host) == "entangled.exe"@,
        host != Host::Windows ==> launcher::binary_of(host) == "entangled"@,
{
}

/// An engine is summed up with its version, where that is known, and with its origin.
pub proof fn engines_are_summed_up(engine: Engine)
    ensures
        text::ends_with(engine.spec_summary(), engine.origin.spec_label()),
        engine.version matches Some(v) ==> text::holds(engine.spec_summary(), v@),
{
    let said = engine.spec_summary();
    let tail = engine.origin.spec_label();
    assert(said.subrange(said.len() - tail.len(), said.len() as int) =~= tail);
    if let Some(v) = engine.version {
        text::lemma_held("entangled "@, v@, " — "@ + tail);
        assert("entangled "@ + v@ + (" — "@ + tail) =~= said);
    }
}

/// A bootstrap is there when one of the places that may have it has it whole.
pub proof fn a_bootstrap_is_whole_somewhere(facts: BootstrapFacts, i: int)
    ensures
        facts.named is Some && facts.named->0.whole() ==> launcher::bootstrap_present(facts),
        facts.in_checkout.whole() ==> launcher::bootstrap_present(facts),
        0 <= i < facts.cached@.len() && facts.cached@[i].whole() ==> launcher::bootstrap_present(
            facts,
        ),
        launcher::bootstrap_present(facts) ==> (facts.named is Some && facts.named->0.whole())
            || facts.in_checkout.whole() || exists|j: int|
            0 <= j < facts.cached@.len() && (#[trigger] facts.cached@[j]).whole(),
{
}

/// Only a check that failed refuses the engine inside WSL, and in its own words.
pub proof fn a_failed_check_speaks_for_itself(status: Status)
    ensures
        status.spec_refusal() is Some <==> status is Failed,
        status matches Status::Failed(fault) ==> status.spec_refusal() == Some(fault.sentence@),
{
}

/// A network address is six octets, each as it is written.
pub proof fn addresses_are_six_octets(mac: Seq<u8>, parts: Seq<Seq<char>>, i: int)
    requires
        run_vm::denotes(mac, parts),
        0 <= i < 6,
    ensures
        parts.len() == 6,
        mac.len() == 6,
        run_vm::octet_of(parts[i]) == Some(mac[i] as nat),
{
}

/// A hexadecimal digit more makes a number sixteen times what it was, and the digit.
pub proof fn hexadecimals_count_by_sixteen(s: Seq<char>, d: char)
    ensures
        run_vm::hex_of(Seq::empty()) == Some(0nat),
        run_vm::hex_of(s) is Some && run_vm::hex_digit(d) is Some ==> run_vm::hex_of(s.push(d))
            == Some(16 * run_vm::hex_of(s)->0 + run_vm::hex_digit(d)->0),
        run_vm::hex_of(s) is None || run_vm::hex_digit(d) is None ==> run_vm::hex_of(
            s.push(d),
        ) is None,
{
    assert(s.push(d).drop_last() =~= s);
}

} // verus!
