//! Promises about the wizard: which machines it lets through, and what it starts.
use crate::backend;
use crate::backend::Backend;
use crate::discovery;
use crate::forms;
use crate::host::Host;
use crate::installing::WizardFacts;
use crate::launcher;
use crate::launcher::{DiskMode, GuestFamily, MachineView, NewMachine};
use crate::launching::LaunchFacts;
use crate::laws::{installs, starts};
use crate::paths;
use crate::process::TaskKind;
use crate::state::ManagerApp;
use crate::text;
use vstd::prelude::*;

verus! {

/// A name stands exactly when it has one to forty bytes, holds nothing but letters,
/// digits, dashes, underscores and dots, and starts with a letter or a digit.
pub proof fn names_are_plain(name: Seq<char>)
    ensures
        discovery::name_fault(name) is None <==> {
            &&& 0 < name.len()
            &&& vstd::utf8::encode_utf8(name).len() <= 40
            &&& forall|i: int|
                0 <= i < name.len() ==> ('a' <= #[trigger] name[i] <= 'z' || 'A' <= name[i] <= 'Z'
                    || '0' <= name[i] <= '9' || name[i] == '-' || name[i] == '_' || name[i] == '.')
            &&& ('a' <= name[0] <= 'z' || 'A' <= name[0] <= 'Z' || '0' <= name[0] <= '9')
        },
{
    assert forall|c: char| #[trigger] discovery::is_name_char(c) <==> ('a' <= c <= 'z' || 'A' <= c
        <= 'Z' || '0' <= c <= '9' || c == '-' || c == '_' || c == '.') by {}
    if name.len() > 0 && forall|i: int|
        0 <= i < name.len() ==> ('a' <= #[trigger] name[i] <= 'z' || 'A' <= name[i] <= 'Z' || '0'
            <= name[i] <= '9' || name[i] == '-' || name[i] == '_' || name[i] == '.') {
        assert forall|i: int| 0 <= i < name.len() implies discovery::is_name_char(
            #[trigger] name[i],
        ) by {}
    }
    if discovery::name_fault(name) is None {
        assert forall|i: int| 0 <= i < name.len() implies ('a' <= #[trigger] name[i] <= 'z' || 'A'
            <= name[i] <= 'Z' || '0' <= name[i] <= '9' || name[i] == '-' || name[i] == '_'
            || name[i] == '.') by {
            assert(discovery::is_name_char(name[i]));
        }
    }
}

/// A machine is let through exactly when its name stands and belongs to no other
/// machine or profile, its disk lies directly in the machine directory and is new where
/// a new one is wanted and a file where an existing one is, its installer image is a
/// file where one is named, and nothing is being installed under its name.
pub proof fn the_wizard_lets_through_what_can_be_made(
    app: ManagerApp,
    m: MachineView,
    facts: WizardFacts,
)
    ensures
        app.wizard_fault(m, facts) is None <==> {
            let name = text::trim_of(m.name);
            let disk = m.disk_at(app.host, app.settings.vm_dir@);
            &&& discovery::name_fault(name) is None
            &&& !facts.profile_exists
            &&& forall|i: int|
                0 <= i < app.scan.vms@.len() ==> (#[trigger] app.scan.vms@[i]).name@ != name
            &&& paths::parent_of(app.host, disk) is Some
            &&& paths::same_path(
                app.host,
                paths::parent_of(app.host, disk)->0,
                app.settings.vm_dir@,
            )
            &&& m.disk_mode == DiskMode::CreateNew ==> !facts.disk_exists
            &&& m.disk_mode == DiskMode::UseExisting ==> facts.disk_is_file
            &&& m.family == GuestFamily::Ubuntu && text::trim_of(m.iso_path).len() > 0
                ==> facts.iso_is_file
            &&& forall|i: int|
                0 <= i < app.supervisor.tasks@.len() && (
                #[trigger] app.supervisor.tasks@[i]).vm@ == name
                    ==> app.supervisor.tasks@[i].state is Finished
        },
{
    let name = text::trim_of(m.name);
    starts::busy_means_an_unfinished_child(app.supervisor.tasks@, name);
    starts::a_name_stands_for_its_first_machine(app.scan.vms@, name);
}

/// The refusal of a disk or an installer image names it.
pub proof fn a_refused_file_is_named(app: ManagerApp, m: MachineView, facts: WizardFacts)
    requires
        discovery::name_fault(text::trim_of(m.name)) is None,
        !facts.profile_exists,
        app.spec_vm(text::trim_of(m.name)) is None,
        app.wizard_fault(m, facts) is Some,
    ensures
        ({
            let said = app.wizard_fault(m, facts)->0;
            ||| text::holds(said, app.settings.vm_dir@)
            ||| text::holds(said, m.disk_at(app.host, app.settings.vm_dir@))
            ||| text::holds(said, text::trim_of(m.iso_path))
            ||| text::holds(said, text::trim_of(m.name))
        }),
{
    let said = app.wizard_fault(m, facts)->0;
    let dir = app.settings.vm_dir@;
    let disk = m.disk_at(app.host, dir);
    let iso = text::trim_of(m.iso_path);
    let name = text::trim_of(m.name);
    if !crate::installing::directly_in(app.host, disk, dir) {
        text::lemma_held(
            "keep the installer disk directly in "@,
            dir,
            " so the generated profile stays visible to the manager"@,
        );
    } else if m.disk_mode == DiskMode::CreateNew && facts.disk_exists {
        let tail = " already exists — choose 'Use existing' or another file name"@;
        text::lemma_held(Seq::empty(), disk, tail);
        assert(Seq::<char>::empty() + disk + tail =~= said);
    } else if m.disk_mode == DiskMode::UseExisting && !facts.disk_is_file {
        text::lemma_held("existing disk "@, disk, " was not found"@);
    } else if m.family == GuestFamily::Ubuntu && iso.len() > 0 && !facts.iso_is_file {
        text::lemma_held("installer ISO "@, iso, " was not found"@);
    } else {
        let tail = "'"@ + " is already being installed"@;
        text::lemma_held("'"@, name, tail);
        assert("'"@ + name + tail =~= said);
    }
}

/// An installation comes to a child exactly when its backend can be used, its files can
/// be seen from there, and what its family boots from is there. The child installs the
/// machine under its name without the white space around it.
pub proof fn what_is_installed_is_what_was_asked_for(
    app: ManagerApp,
    given: MachineView,
    cli: Seq<char>,
    facts: LaunchFacts,
)
    ensures
        given.backend == Backend::Native ==> (app.install_news(given, cli, facts).1 is Ok
            <==> launcher::missing_artifact(
            app.host,
            app.settings.spec_child_cwd(facts.current_dir),
            given.family,
            facts.firmware,
            facts.bootstrap,
        ) is None),
        given.backend == Backend::Wsl && app.install_news(given, cli, facts).1 is Ok ==> {
            &&& !(app.wsl.engine is Failed)
            &&& backend::wsl_path_of(given.disk_at(app.host, app.settings.vm_dir@)) is Ok
            &&& backend::wsl_path_of(
                paths::joined(
                    app.host,
                    app.settings.vm_dir@,
                    text::trim_of(given.name) + ".toml"@,
                ),
            ) is Ok
        },
        app.install_news(given, cli, facts).1 matches Ok(spec) ==> {
            &&& spec.kind == TaskKind::Install
            &&& spec.vm == text::trim_of(given.name)
            &&& given.backend == Backend::Native ==> {
                &&& spec.program == cli
                &&& spec.args[9] == text::trim_of(given.name)
                &&& spec.args[5] == text::decimal_of(given.disk_gib as nat) + "G"@
                &&& given.family == GuestFamily::Debian ==> spec.args[1] == "debian"@
                    && spec.args[11] == given.variant
                &&& given.family == GuestFamily::Ubuntu ==> spec.args[1] == "ubuntu"@
            }
            &&& given.backend == Backend::Wsl ==> spec.program == "wsl.exe"@ && spec.args[1]
                == app.settings.wsl_distro@ && spec.args[15] == text::trim_of(given.name)
        },
{
    let name = text::trim_of(given.name);
    let m = MachineView { name, ..given };
    let dir = app.settings.vm_dir@;
    let cwd = app.settings.spec_child_cwd(facts.current_dir);
    let runner = launcher::runner_of(m.backend, cli, app.settings);
    installs::installers_run_the_engine(app.host, runner, dir, cwd, m);
    let files = seq![
        paths::joined(app.host, dir, name + ".toml"@),
        given.disk_at(app.host, dir),
    ];
    if given.backend == Backend::Wsl {
        reveal_with_fuel(backend::first_refusal, 3);
        assert(files.drop_first() =~= seq![given.disk_at(app.host, dir)]);
        assert(files.drop_first().drop_first() =~= Seq::<Seq<char>>::empty());
        assert(files[0] == paths::joined(app.host, dir, name + ".toml"@));
        assert(files.drop_first()[0] == given.disk_at(app.host, dir));
    }
}

/// The last step sums up what will be made: the name, the installer, the hardware, the disk,
/// and for Ubuntu the image.
pub proof fn the_wizard_sums_up(host: Host, vm_dir: Seq<char>, m: NewMachine)
    ensures
        ({
            let lines = forms::summary(host, vm_dir, m);
            &&& lines[0].1 == m.name@
            &&& lines[1].1 == m.family.spec_label() + " · "@ + (if m.automated {
                "automatic"@
            } else {
                "interactive"@
            })
            &&& lines[2].1 == text::decimal_of(m.memory_mib as nat) + " MiB memory · "@
                + text::decimal_of(m.vcpus as nat) + " vCPU"@
            &&& text::begins_with(lines[3].1, m@.disk_at(host, vm_dir))
            &&& m.disk_mode is CreateNew ==> text::holds(
                lines[3].1,
                text::decimal_of(m.disk_gib as nat),
            )
            &&& m.family is Ubuntu <==> lines.len() == 5
            &&& m.family is Ubuntu && text::trim_of(m.iso_path@).len() > 0 ==> lines[4].1
                == text::trim_of(m.iso_path@)
        }),
{
    let said = forms::summary(host, vm_dir, m)[3].1;
    let place = m@.disk_at(host, vm_dir);
    assert(said.subrange(0, place.len() as int) =~= place);
    if m.disk_mode is CreateNew {
        let size = text::decimal_of(m.disk_gib as nat);
        text::lemma_held(place + " · "@ + "new "@, size, " GiB sparse disk"@);
        assert(place + " · "@ + "new "@ + size + " GiB sparse disk"@ =~= said);
    }
}

} // verus!
