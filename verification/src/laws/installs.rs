//! Promises about installing a machine: the engine's command line holds everything the
//! wizard collected, and what an installation needs is looked for first.
use crate::backend;
use crate::backend::Backend;
use crate::host::Host;
use crate::launcher;
use crate::launcher::{
    BootstrapFacts, FirmwareFacts, FirmwareOrigin, GuestFamily, MachineView, Place, RunnerView,
};
use crate::paths;
use crate::process::TaskKind;
use crate::text;
use vstd::prelude::*;

verus! {

/// The engine's own arguments, as they stand on its command line, hold what the wizard
/// collected: family, disk, size, memory, name, media and the two switches, each where
/// the engine looks for it.
pub proof fn the_engine_is_told_what_was_asked_for(
    disk: Seq<char>,
    media: Seq<Seq<char>>,
    machine: MachineView,
)
    ensures
        ({
            let args = launcher::install_args(disk, media, machine);
            let auto: int = if machine.automated {
                1
            } else {
                0
            };
            let headless: int = if machine.headless {
                1
            } else {
                0
            };
            &&& args.len() == 10 + media.len() + auto + headless
            &&& args[0] == "install"@
            &&& machine.family == GuestFamily::Debian ==> args[1] == "debian"@
            &&& machine.family == GuestFamily::Ubuntu ==> args[1] == "ubuntu"@
            &&& args[2] == "--disk"@
            &&& args[3] == disk
            &&& args[4] == "--size"@
            &&& args[5] == text::decimal_of(machine.disk_gib as nat) + "G"@
            &&& args[6] == "--memory-mib"@
            &&& machine.memory_mib >= 1536 ==> args[7] == text::decimal_of(
                machine.memory_mib as nat,
            )
            &&& machine.memory_mib < 1536 ==> args[7] == text::decimal_of(1536)
            &&& args[8] == "--name"@
            &&& args[9] == machine.name
            &&& args.subrange(10, 10 + media.len() as int) == media
            &&& machine.automated ==> args[10 + media.len() as int] == "--auto"@
            &&& machine.headless ==> args[10 + media.len() + auto] == "--headless"@
        }),
{
    let args = launcher::install_args(disk, media, machine);
    assert(args.subrange(10, 10 + media.len() as int) =~= media);
}

/// A Debian installation runs the variant that was chosen; an Ubuntu one runs from the
/// chosen image, and from the engine's own where none was chosen.
pub proof fn the_chosen_media_is_installed_from(backend: Backend, machine: MachineView)
    ensures
        machine.family == GuestFamily::Debian ==> launcher::media_of(backend, machine) == Ok::<
            Seq<Seq<char>>,
            Seq<char>,
        >(seq!["--variant"@, machine.variant]),
        machine.family == GuestFamily::Ubuntu && text::trim_of(machine.iso_path).len() == 0
            ==> launcher::media_of(backend, machine) == Ok::<Seq<Seq<char>>, Seq<char>>(
            Seq::empty(),
        ),
        machine.family == GuestFamily::Ubuntu && text::trim_of(machine.iso_path).len() > 0
            && backend == Backend::Native ==> launcher::media_of(backend, machine) == Ok::<
            Seq<Seq<char>>,
            Seq<char>,
        >(seq!["--iso"@, text::trim_of(machine.iso_path)]),
        machine.family == GuestFamily::Ubuntu && text::trim_of(machine.iso_path).len() > 0
            && backend == Backend::Wsl ==> match backend::wsl_path_of(
            text::trim_of(machine.iso_path),
        ) {
            Ok(seen) => launcher::media_of(backend, machine) == Ok::<Seq<Seq<char>>, Seq<char>>(
                seq!["--iso"@, seen],
            ),
            Err(m) => launcher::media_of(backend, machine) == Err::<Seq<Seq<char>>, Seq<char>>(m),
        },
{
}

/// The native installer of a Debian machine is started with the variant chosen for it
/// right after the word that announces it, so machines that differ in nothing else are
/// installed by different command lines.
pub proof fn variants_tell_installations_apart(
    host: Host,
    runner: RunnerView,
    vm_dir: Seq<char>,
    cwd: Seq<char>,
    machine: MachineView,
    other: MachineView,
)
    requires
        runner.backend == Backend::Native,
        machine.family == GuestFamily::Debian,
        other == (MachineView { variant: other.variant, ..machine }),
    ensures
        launcher::install_of(host, runner, vm_dir, cwd, machine) matches Ok(spec) && spec.args[10]
            == "--variant"@ && spec.args[11] == machine.variant,
        launcher::install_of(host, runner, vm_dir, cwd, machine) == launcher::install_of(
            host,
            runner,
            vm_dir,
            cwd,
            other,
        ) ==> machine.variant == other.variant,
{
    let one = launcher::install_of(host, runner, vm_dir, cwd, machine)->Ok_0;
    let two = launcher::install_of(host, runner, vm_dir, cwd, other)->Ok_0;
    assert(one.args[11] == machine.variant);
    assert(two.args[11] == other.variant);
}

/// An installer natively is the engine itself, and through WSL it is `wsl.exe` with the
/// engine's own arguments behind its own. Either way it runs in the given directory,
/// belongs to the machine, logs beside the machines and takes no control commands.
pub proof fn installers_run_the_engine(
    host: Host,
    runner: RunnerView,
    vm_dir: Seq<char>,
    cwd: Seq<char>,
    machine: MachineView,
)
    ensures
        launcher::install_of(host, runner, vm_dir, cwd, machine) matches Ok(spec) ==> {
            &&& spec.kind == TaskKind::Install
            &&& spec.vm == machine.name
            &&& spec.cwd == cwd
            &&& !spec.control
            &&& spec.log_path == paths::joined(host, vm_dir, machine.name + "-install.log"@)
            &&& runner.backend == Backend::Native ==> spec.program == runner.engine && spec.args[0]
                == "install"@ && spec.args[3] == machine.disk_at(host, vm_dir)
            &&& runner.backend == Backend::Wsl ==> spec.program == "wsl.exe"@ && spec.args[1]
                == runner.distro && spec.args[3] == cwd && spec.args[6] == "install"@ && (
            backend::wsl_path_of(machine.disk_at(host, vm_dir)) matches Ok(seen) && spec.args[9]
                == seen)
        },
{
}

/// A machine's disk is the file that was named, in the machine directory unless the
/// name says otherwise; where none was named it carries the machine's own name.
pub proof fn disks_lie_where_they_were_named(host: Host, machine: MachineView, vm_dir: Seq<char>)
    ensures
        text::trim_of(machine.disk_path).len() == 0 ==> machine.disk_at(host, vm_dir)
            == paths::joined(host, vm_dir, machine.name + ".raw"@),
        paths::is_absolute_of(host, text::trim_of(machine.disk_path)) && text::trim_of(
            machine.disk_path,
        ).len() > 0 ==> machine.disk_at(host, vm_dir) == text::trim_of(machine.disk_path),
        !paths::is_absolute_of(host, text::trim_of(machine.disk_path)) && text::trim_of(
            machine.disk_path,
        ).len() > 0 ==> machine.disk_at(host, vm_dir) == paths::joined(
            host,
            vm_dir,
            text::trim_of(machine.disk_path),
        ),
{
}

/// What a search through places gives is the first that has the file, and it gives
/// nothing exactly when none has.
pub proof fn the_first_place_wins(places: Seq<Place>)
    ensures
        launcher::first_present(places) is None <==> forall|i: int|
            0 <= i < places.len() ==> !(#[trigger] places[i]).present,
        forall|i: int|
            0 <= i < places.len() && (#[trigger] places[i]).present && (forall|j: int|
                0 <= j < i ==> !(#[trigger] places[j]).present) ==> launcher::first_present(places)
                == Some(places[i].dir@),
    decreases places.len(),
{
    if places.len() > 0 {
        let rest = places.drop_first();
        the_first_place_wins(rest);
        assert forall|i: int| 0 < i < places.len() implies #[trigger] places[i] == rest[i - 1] by {}
        if places[0].present {
        } else {
            if launcher::first_present(places) is None {
                assert forall|i: int| 0 <= i < places.len() implies !(
                #[trigger] places[i]).present by {
                    if i > 0 {
                        assert(!rest[i - 1].present);
                    }
                }
            } else {
                let k = choose|k: int| 0 <= k < rest.len() && (#[trigger] rest[k]).present;
                assert(places[k + 1].present);
            }
            assert forall|i: int|
                0 <= i < places.len() && (#[trigger] places[i]).present && (forall|j: int|
                    0 <= j < i ==> !(#[trigger] places[j]).present) implies launcher::first_present(
                places,
            ) == Some(places[i].dir@) by {
                assert(i > 0);
                assert forall|j: int| 0 <= j < i - 1 implies !(#[trigger] rest[j]).present by {
                    assert(places[j + 1] == rest[j]);
                }
                assert(rest[i - 1].present);
            }
        }
    }
}

/// An engine that the settings do not name is the one beside the manager, else the
/// first on the search path, and is missing exactly when neither is there.
pub proof fn the_engine_beside_the_manager_comes_first(host: Host, facts: launcher::EngineFacts)
    ensures
        ({
            let name = if host == Host::Windows {
                "entangled.exe"@
            } else {
                "entangled"@
            };
            &&& facts.beside is Some && facts.beside->0.present ==> launcher::engine_of(host, facts)
                == Ok::<(Seq<char>, launcher::EngineOrigin), launcher::LaunchError>(
                (
                    paths::joined(host, facts.beside->0.dir@, name),
                    launcher::EngineOrigin::BesideManager,
                ),
            )
            &&& !(facts.beside is Some && facts.beside->0.present) ==> (launcher::engine_of(
                host,
                facts,
            ) is Err <==> forall|i: int|
                0 <= i < facts.on_path@.len() ==> !(#[trigger] facts.on_path@[i]).present)
            &&& !(facts.beside is Some && facts.beside->0.present) ==> forall|i: int|
                0 <= i < facts.on_path@.len() && (#[trigger] facts.on_path@[i]).present && (forall|
                    j: int,
                |
                    0 <= j < i ==> !(#[trigger] facts.on_path@[j]).present) ==> launcher::engine_of(
                    host,
                    facts,
                ) == Ok::<(Seq<char>, launcher::EngineOrigin), launcher::LaunchError>(
                    (
                        paths::joined(host, facts.on_path@[i].dir@, name),
                        launcher::EngineOrigin::OnPath,
                    ),
                )
        }),
{
    the_first_place_wins(facts.on_path@);
}

/// Firmware is missing exactly when no place has it: not the named directory, not the
/// installation, not the cache and not the checkout. What is found lies in a place that
/// has it, and the named directory comes before the rest.
pub proof fn firmware_is_found_where_it_lies(host: Host, cwd: Seq<char>, facts: FirmwareFacts)
    ensures
        launcher::firmware_at(host, cwd, facts) is None <==> {
            &&& !(facts.named matches Some(place) && place.present)
            &&& !(facts.installed matches Some(place) && place.present)
            &&& forall|i: int|
                0 <= i < facts.cached@.len() ==> !(#[trigger] facts.cached@[i]).present
            &&& !facts.in_checkout
        },
        facts.named is Some && facts.named->0.present ==> launcher::firmware_at(host, cwd, facts)
            == Some(
            (paths::joined(host, facts.named->0.dir@, "CLOUDHV.fd"@), FirmwareOrigin::Directory),
        ),
        launcher::firmware_at(host, cwd, facts) matches Some(found) ==> {
            &&& found.1 == FirmwareOrigin::Directory ==> (facts.named matches Some(place)
                && place.present)
            &&& found.1 == FirmwareOrigin::Install ==> (facts.installed matches Some(place)
                && place.present && found.0 == paths::joined(host, place.dir@, "CLOUDHV.fd"@))
            &&& found.1 == FirmwareOrigin::Cache ==> exists|i: int|
                0 <= i < facts.cached@.len() && (#[trigger] facts.cached@[i]).present
            &&& found.1 == FirmwareOrigin::Checkout ==> facts.in_checkout && found.0
                == paths::joined(
                host,
                paths::joined(host, paths::joined(host, cwd, "artifacts"@), "firmware"@),
                "CLOUDHV.fd"@,
            )
        },
{
    the_first_place_wins(facts.cached@);
}

/// An installation is refused exactly when what its family boots from is nowhere: the
/// firmware for Ubuntu, a kernel with its initramfs in one place for Debian. The
/// refusal says where it was looked for.
pub proof fn an_installation_needs_its_own_artifact(
    host: Host,
    cwd: Seq<char>,
    firmware: FirmwareFacts,
    bootstrap: BootstrapFacts,
)
    ensures
        launcher::missing_artifact(host, cwd, GuestFamily::Ubuntu, firmware, bootstrap) is None <==> {
            ||| firmware.named matches Some(place) && place.present
            ||| firmware.installed matches Some(place) && place.present
            ||| exists|i: int|
                0 <= i < firmware.cached@.len() && (#[trigger] firmware.cached@[i]).present
            ||| firmware.in_checkout
        },
        launcher::missing_artifact(host, cwd, GuestFamily::Debian, firmware, bootstrap) is None <==> {
            ||| bootstrap.named matches Some(pair) && pair.kernel && pair.initrd
            ||| bootstrap.in_checkout.kernel && bootstrap.in_checkout.initrd
            ||| exists|i: int|
                0 <= i < bootstrap.cached@.len() && (#[trigger] bootstrap.cached@[i]).kernel
                    && bootstrap.cached@[i].initrd
        },
        launcher::missing_artifact(host, cwd, GuestFamily::Ubuntu, firmware, bootstrap) matches
            Some(m) ==> text::holds(m, cwd),
        launcher::missing_artifact(host, cwd, GuestFamily::Debian, firmware, bootstrap) matches
            Some(m) ==> text::holds(m, paths::joined(host, cwd, "artifacts/bootstrap/vmlinuz"@)),
{
    firmware_is_found_where_it_lies(host, cwd, firmware);
    if launcher::missing_artifact(host, cwd, GuestFamily::Ubuntu, firmware, bootstrap) is Some {
        let head = launcher::NO_FIRMWARE_HEAD@;
        let tail = ". "@ + launcher::spec_firmware_fix(host);
        text::lemma_held(head, cwd, tail);
        assert(head + cwd + tail =~= head + cwd + ". "@ + launcher::spec_firmware_fix(host));
    }
    if let Some(m) = launcher::missing_artifact(
        host,
        cwd,
        GuestFamily::Debian,
        firmware,
        bootstrap,
    ) {
        let head = launcher::NO_BOOTSTRAP_HEAD@;
        let place = paths::joined(host, cwd, "artifacts/bootstrap/vmlinuz"@);
        let tail = m.skip((head + place).len() as int);
        text::lemma_held(head, place, tail);
        assert(head + place + tail =~= m);
    }
    if exists|i: int|
        0 <= i < bootstrap.cached@.len() && (#[trigger] bootstrap.cached@[i]).kernel
            && bootstrap.cached@[i].initrd {
        let i = choose|i: int|
            0 <= i < bootstrap.cached@.len() && (#[trigger] bootstrap.cached@[i]).kernel
                && bootstrap.cached@[i].initrd;
        assert(bootstrap.cached@[i].whole());
    }
}

/// What to do about missing firmware is told by the host.
pub proof fn missing_firmware_is_mended_by_host(host: Host)
    ensures
        host == Host::Windows ==> launcher::spec_firmware_fix(host)
            == launcher::FIRMWARE_FIX_WINDOWS@,
        host != Host::Windows ==> launcher::spec_firmware_fix(host) == launcher::FIRMWARE_FIX@,
{
}

} // verus!
