//! Promises about starting, stopping and resuming machines: what is refused, what a
//! child is started with, and what a request does to a running one.
use crate::backend;
use crate::backend::Backend;
use crate::discovery::{DiskInfo, VmEntry};
use crate::host::Host;
use crate::launcher;
use crate::launcher::RunnerView;
use crate::launching;
use crate::launching::LaunchFacts;
use crate::laws::sessions;
use crate::paths;
use crate::process;
use crate::process::{Task, TaskKind};
use crate::profile::VirtioTransport;
use crate::snapshots::{FileState, HostKind, SnapshotRow};
use crate::state;
use crate::state::{ManagerApp, ToastLevel};
use crate::text;
use crate::wslengine;
use vstd::prelude::*;

verus! {

/// A machine is busy exactly when a child of its name has not finished.
pub proof fn busy_means_an_unfinished_child(tasks: Seq<Task>, name: Seq<char>)
    ensures
        process::busy_in(tasks, name) <==> exists|i: int|
            0 <= i < tasks.len() && (#[trigger] tasks[i]).vm@ == name
                && !(tasks[i].state is Finished),
{
    if exists|i: int|
        0 <= i < tasks.len() && (#[trigger] tasks[i]).vm@ == name && !(tasks[i].state is Finished) {
        let i = choose|i: int|
            0 <= i < tasks.len() && (#[trigger] tasks[i]).vm@ == name
                && !(tasks[i].state is Finished);
        assert(process::holds_vm(tasks[i], name));
    }
}

/// The machine that a name stands for is the first of that name, and there is none
/// exactly when no machine has it.
pub proof fn a_name_stands_for_its_first_machine(vms: Seq<VmEntry>, name: Seq<char>)
    ensures
        state::vm_at(vms, name) is None <==> forall|i: int|
            0 <= i < vms.len() ==> (#[trigger] vms[i]).name@ != name,
        state::vm_at(vms, name) matches Some(vm) ==> vm.name@ == name && exists|i: int|
            0 <= i < vms.len() && #[trigger] vms[i] == vm && forall|j: int|
                0 <= j < i ==> (#[trigger] vms[j]).name@ != name,
    decreases vms.len(),
{
    if vms.len() > 0 && vms[0].name@ != name {
        let rest = vms.drop_first();
        a_name_stands_for_its_first_machine(rest, name);
        if state::vm_at(vms, name) is None {
            assert forall|i: int| 0 <= i < vms.len() implies (#[trigger] vms[i]).name@ != name by {
                if i > 0 {
                    assert(rest[i - 1] == vms[i]);
                }
            }
        } else {
            let vm = state::vm_at(vms, name)->0;
            let i = choose|i: int|
                0 <= i < rest.len() && #[trigger] rest[i] == vm && forall|j: int|
                    0 <= j < i ==> (#[trigger] rest[j]).name@ != name;
            assert(vms[i + 1] == vm);
            assert forall|j: int| 0 <= j < i + 1 implies (#[trigger] vms[j]).name@ != name by {
                if j > 0 {
                    assert(rest[j - 1] == vms[j]);
                }
            }
        }
    } else if vms.len() > 0 {
        assert(vms[0].name@ == name);
    }
}

/// A disk is missing exactly when one of them is not there.
pub proof fn a_disk_is_missing_when_it_is_not_there(disks: Seq<DiskInfo>)
    ensures
        launching::missing_disk(disks) is None <==> forall|i: int|
            0 <= i < disks.len() ==> (#[trigger] disks[i]).exists,
    decreases disks.len(),
{
    if disks.len() > 0 {
        let rest = disks.drop_first();
        a_disk_is_missing_when_it_is_not_there(rest);
        if disks[0].exists {
            if launching::missing_disk(disks) is None {
                assert forall|i: int| 0 <= i < disks.len() implies (#[trigger] disks[i]).exists by {
                    if i > 0 {
                        assert(rest[i - 1] == disks[i]);
                    }
                }
            } else {
                let k = choose|k: int| 0 <= k < rest.len() && !(#[trigger] rest[k]).exists;
                assert(!disks[k + 1].exists);
            }
        } else {
            assert(!disks[0].exists);
        }
    }
}

/// The disk that is told as missing is the first that is.
pub proof fn the_first_missing_disk_is_told(disks: Seq<DiskInfo>, i: int)
    requires
        0 <= i < disks.len(),
        !disks[i].exists,
        forall|j: int| 0 <= j < i ==> (#[trigger] disks[j]).exists,
    ensures
        launching::missing_disk(disks) == Some(disks[i].resolved@),
    decreases disks.len(),
{
    if i > 0 {
        let rest = disks.drop_first();
        assert(disks[0].exists);
        assert(rest[i - 1] == disks[i]);
        assert forall|j: int| 0 <= j < i - 1 implies (#[trigger] rest[j]).exists by {
            assert(rest[j] == disks[j + 1]);
        }
        the_first_missing_disk_is_told(rest, i - 1);
    }
}

/// A start gets as far as an engine only for a machine that is there, has no child that
/// runs, and has all of its disks.
pub proof fn only_a_whole_idle_machine_starts(app: ManagerApp, name: Seq<char>)
    ensures
        app.start_refusal(name) is None <==> {
            &&& forall|i: int|
                0 <= i < app.supervisor.tasks@.len() && (
                #[trigger] app.supervisor.tasks@[i]).vm@ == name
                    ==> app.supervisor.tasks@[i].state is Finished
            &&& exists|k: int|
                0 <= k < app.scan.vms@.len() && (#[trigger] app.scan.vms@[k]).name@ == name
            &&& app.spec_vm(name) matches Some(vm) ==> forall|i: int|
                0 <= i < vm.disks@.len() ==> (#[trigger] vm.disks@[i]).exists
        },
{
    busy_means_an_unfinished_child(app.supervisor.tasks@, name);
    a_name_stands_for_its_first_machine(app.scan.vms@, name);
    if let Some(vm) = app.spec_vm(name) {
        a_disk_is_missing_when_it_is_not_there(vm.disks@);
    }
}

/// A refused start says why: it names the machine, or the disk that is missing.
pub proof fn a_refused_start_says_why(app: ManagerApp, name: Seq<char>)
    ensures
        app.start_refusal(name) matches Some((_, text)) ==> {
            ||| text::holds(text, name)
            ||| app.spec_vm(name) matches Some(vm) && exists|k: int|
                0 <= k < vm.disks@.len() && !(#[trigger] vm.disks@[k]).exists && text::holds(
                    text,
                    vm.disks@[k].resolved@,
                )
        },
        app.spec_vm(name) is None && !process::busy_in(app.supervisor.tasks@, name) ==> (
        app.start_refusal(name) matches Some((level, _)) && level == ToastLevel::Error),
        process::busy_in(app.supervisor.tasks@, name) ==> (app.start_refusal(name) matches Some((
            level,
            _,
        )) && level == ToastLevel::Warn),
{
    if process::busy_in(app.supervisor.tasks@, name) {
        text::lemma_held("'"@, name, "'"@ + launching::ALREADY_BUSY@);
        assert("'"@ + name + ("'"@ + launching::ALREADY_BUSY@) =~= launching::about(
            name,
            launching::ALREADY_BUSY@,
        ));
    } else if app.spec_vm(name) is None {
        text::lemma_held("'"@, name, "'"@ + launching::GONE_FROM_DISK@);
        assert("'"@ + name + ("'"@ + launching::GONE_FROM_DISK@) =~= launching::about(
            name,
            launching::GONE_FROM_DISK@,
        ));
    } else {
        let vm = app.spec_vm(name)->0;
        lemma_first_missing(vm.disks@);
        if let Some(disk) = launching::missing_disk(vm.disks@) {
            text::lemma_held("disk "@, disk, " is missing"@);
        }
    }
}

/// What is told as missing is the place of a disk that is not there.
proof fn lemma_first_missing(disks: Seq<DiskInfo>)
    ensures
        launching::missing_disk(disks) matches Some(disk) ==> exists|k: int|
            0 <= k < disks.len() && !(#[trigger] disks[k]).exists && disks[k].resolved@ == disk,
    decreases disks.len(),
{
    if disks.len() > 0 {
        let rest = disks.drop_first();
        lemma_first_missing(rest);
        if disks[0].exists {
            if let Some(disk) = launching::missing_disk(disks) {
                let k = choose|k: int|
                    0 <= k < rest.len() && !(#[trigger] rest[k]).exists && rest[k].resolved@ == disk;
                assert(disks[k + 1] == rest[k]);
            }
        } else {
            assert(!disks[0].exists);
        }
    }
}

/// A machine is started by the verb, with the manager as its controller, from its file:
/// by the engine itself natively, and through `wsl.exe` in the chosen distribution with
/// the path as WSL sees it. The child belongs to the machine and logs beside it.
pub proof fn a_start_runs_the_engine_on_the_file(
    host: Host,
    runner: RunnerView,
    verb: Seq<char>,
    vm: Seq<char>,
    file: Seq<char>,
    cwd: Seq<char>,
    vm_dir: Seq<char>,
)
    ensures
        launcher::start_of(host, runner, verb, vm, file, cwd, vm_dir) matches Ok(spec) ==> {
            &&& spec.kind == TaskKind::Run
            &&& spec.vm == vm
            &&& spec.cwd == cwd
            &&& spec.control
            &&& spec.log_path == paths::joined(host, vm_dir, vm + "-run.log"@)
            &&& runner.backend == Backend::Native ==> {
                &&& spec.program == runner.engine
                &&& spec.args.len() == 3
                &&& spec.args[0] == verb
                &&& spec.args[1] == "--control-stdin"@
                &&& spec.args[2] == file
            }
            &&& runner.backend == Backend::Wsl ==> {
                &&& spec.program == "wsl.exe"@
                &&& spec.args.len() == 9
                &&& spec.args[0] == "-d"@
                &&& spec.args[1] == runner.distro
                &&& spec.args[2] == "--cd"@
                &&& spec.args[3] == cwd
                &&& spec.args[4] == "-e"@
                &&& text::trim_of(runner.linux_engine).len() == 0 ==> spec.args[5] == "entangled"@
                &&& text::trim_of(runner.linux_engine).len() > 0 ==> spec.args[5] == text::trim_of(
                    runner.linux_engine,
                )
                &&& spec.args[6] == verb
                &&& spec.args[7] == "--control-stdin"@
                &&& backend::wsl_path_of(file) == Ok::<Seq<char>, Seq<char>>(spec.args[8])
            }
        },
        launcher::start_of(host, runner, verb, vm, file, cwd, vm_dir) is Err <==> runner.backend
            == Backend::Wsl && backend::wsl_path_of(file) is Err,
{
}

/// A machine comes to a child exactly when its backend can be used and, on WSL, its
/// profile and all of its disks can be seen from there. The child is the one that runs
/// its profile, in the working directory that the settings name.
pub proof fn what_starts_is_the_machine_on_its_backend(
    app: ManagerApp,
    vm: VmEntry,
    cli: Seq<char>,
    facts: LaunchFacts,
)
    ensures
        app.start_news(vm, cli, facts).1 is Some <==> {
            ||| app.spec_backend(vm.name@) == Backend::Native
            ||| !(app.wsl.engine is Failed) && backend::wsl_path_of(vm.profile_path@) is Ok && (
            forall|i: int|
                0 <= i < vm.disks@.len() ==> backend::wsl_path_of(
                    (#[trigger] vm.disks@[i]).resolved@,
                ) is Ok)
        },
        app.start_news(vm, cli, facts).1 matches Some(spec) ==> {
            &&& spec.vm == vm.name@
            &&& spec.kind == TaskKind::Run
            &&& app.settings.work_dir matches Some(dir) ==> spec.cwd == dir@
            &&& app.spec_backend(vm.name@) == Backend::Native ==> spec.program == cli && spec.args
                == seq!["run"@, "--control-stdin"@, vm.profile_path@]
            &&& app.spec_backend(vm.name@) == Backend::Wsl ==> spec.program == "wsl.exe"@
                && spec.args[1] == app.settings.wsl_distro@ && spec.args[6] == "run"@ && Ok::<
                Seq<char>,
                Seq<char>,
            >(spec.args[8]) == backend::wsl_path_of(vm.profile_path@)
        },
        app.start_news(vm, cli, facts).1 is None ==> exists|k: int|
            0 <= k < app.start_news(vm, cli, facts).0.len() && (#[trigger] app.start_news(
                vm,
                cli,
                facts,
            ).0[k]).level == ToastLevel::Error,
{
    let name = vm.name@;
    let chosen = app.spec_backend(name);
    let files = state::files_of(vm);
    let cwd = app.settings.spec_child_cwd(facts.current_dir);
    let runner = launcher::runner_of(chosen, cli, app.settings);
    a_start_runs_the_engine_on_the_file(
        app.host,
        runner,
        "run"@,
        name,
        vm.profile_path@,
        cwd,
        app.settings.vm_dir@,
    );
    lemma_refusals(files);
    assert(files[0] == vm.profile_path@);
    assert forall|i: int| 0 <= i < vm.disks@.len() implies files[i + 1] == (
    #[trigger] vm.disks@[i]).resolved@ by {}
    if chosen == Backend::Wsl {
        if backend::first_refusal(files) is None {
            assert(backend::wsl_path_of(files[0]) is Ok);
            assert forall|i: int| 0 <= i < vm.disks@.len() implies backend::wsl_path_of(
                (#[trigger] vm.disks@[i]).resolved@,
            ) is Ok by {
                assert(backend::wsl_path_of(files[i + 1]) is Ok);
            }
        } else {
            let k = choose|k: int|
                0 <= k < files.len() && backend::wsl_path_of(#[trigger] files[k]) is Err;
            if k > 0 {
                assert(files[k] == vm.disks@[k - 1].resolved@);
            }
        }
    }
    let news = app.start_news(vm, cli, facts);
    if news.1 is None {
        assert(news.0[news.0.len() - 1].level == ToastLevel::Error);
    }
    if chosen == Backend::Native {
        assert(news.1->0.args =~= seq!["run"@, "--control-stdin"@, vm.profile_path@]);
    }
}

/// A path is refused exactly when one of them has no place in WSL.
proof fn lemma_refusals(paths: Seq<Seq<char>>)
    ensures
        backend::first_refusal(paths) is None <==> forall|i: int|
            0 <= i < paths.len() ==> backend::wsl_path_of(#[trigger] paths[i]) is Ok,
    decreases paths.len(),
{
    if paths.len() > 0 {
        let rest = paths.drop_first();
        lemma_refusals(rest);
        if backend::wsl_path_of(paths[0]) is Ok {
            if backend::first_refusal(rest) is None {
                assert forall|i: int| 0 <= i < paths.len() implies backend::wsl_path_of(
                    #[trigger] paths[i],
                ) is Ok by {
                    if i > 0 {
                        assert(rest[i - 1] == paths[i]);
                    }
                }
            } else {
                let k = choose|k: int|
                    0 <= k < rest.len() && backend::wsl_path_of(#[trigger] rest[k]) is Err;
                assert(paths[k + 1] == rest[k]);
            }
        } else {
            assert(backend::wsl_path_of(paths[0]) is Err);
        }
    }
}

/// The user is warned of a boot artifact exactly when the one that this machine boots
/// from is not where it would be looked for.
pub proof fn a_missing_boot_artifact_is_warned_of(uefi: bool, cwd: Seq<char>, facts: LaunchFacts)
    ensures
        uefi ==> (launching::boot_warning(uefi, cwd, facts) is Some <==> !facts.uefi_in_cwd),
        !uefi ==> (launching::boot_warning(uefi, cwd, facts) is None <==> {
            ||| facts.bootstrap.named matches Some(pair) && pair.kernel && pair.initrd
            ||| facts.bootstrap.in_checkout.kernel && facts.bootstrap.in_checkout.initrd
            ||| exists|i: int|
                0 <= i < facts.bootstrap.cached@.len() && (
                #[trigger] facts.bootstrap.cached@[i]).kernel && facts.bootstrap.cached@[i].initrd
        }),
        launching::boot_warning(uefi, cwd, facts) matches Some(text) ==> text::holds(text, cwd),
{
    if exists|i: int|
        0 <= i < facts.bootstrap.cached@.len() && (#[trigger] facts.bootstrap.cached@[i]).kernel
            && facts.bootstrap.cached@[i].initrd {
        let i = choose|i: int|
            0 <= i < facts.bootstrap.cached@.len() && (
            #[trigger] facts.bootstrap.cached@[i]).kernel && facts.bootstrap.cached@[i].initrd;
        assert(facts.bootstrap.cached@[i].whole());
    }
    if uefi {
        text::lemma_held(
            "no "@ + launcher::UEFI_FIRMWARE@ + " under "@,
            cwd,
            launching::NO_FIRMWARE_WARNING@,
        );
    } else {
        text::lemma_held("no bootstrap kernel under "@, cwd, launching::NO_KERNEL_WARNING@);
    }
}

/// A resume gets as far as an engine exactly for a session that can be read, whose
/// machine has no child that runs, and that nothing stands against: not the hypervisor,
/// not the machine's shape, not the files.
pub proof fn only_a_sound_session_of_an_idle_machine_resumes(
    app: ManagerApp,
    row: SnapshotRow,
    states: Seq<FileState>,
)
    requires
        row.facts matches Ok(f) ==> states.len() == f.files@.len(),
        app.resume_refusal(row, states) is None,
    ensures
        row.facts is Ok,
        ({
            let f = row.facts->Ok_0;
            let chosen = app.spec_backend(f.vm_name@);
            &&& forall|i: int|
                0 <= i < app.supervisor.tasks@.len() && (
                #[trigger] app.supervisor.tasks@[i]).vm@ == f.vm_name@
                    ==> app.supervisor.tasks@[i].state is Finished
            &&& (chosen == Backend::Wsl || app.host == Host::Linux) ==> f.host == HostKind::KvmLinux
            &&& (chosen == Backend::Native && app.host == Host::Windows) ==> f.host
                == HostKind::WhpWindows
            &&& app.spec_vm(f.vm_name@) matches Some(vm) ==> {
                &&& f.vcpus == vm.vcpus
                &&& f.memory_bytes == vm.memory_mib << 20
                &&& (f.transport@ == "pci"@ || vm.transport == VirtioTransport::Mmio)
                &&& (f.boot_mode@ == "uefi"@ || !vm.uefi)
            }
            &&& forall|i: int|
                0 <= i < f.files@.len() && crate::snapshots::is_nameable(
                    (#[trigger] f.files@[i]).path@,
                    app.host == Host::Windows,
                ) ==> states[i] is Unchanged || states[i] is Note
        }),
{
    if let Ok(f) = row.facts {
        busy_means_an_unfinished_child(app.supervisor.tasks@, f.vm_name@);
        sessions::what_resumes_is_what_was_saved(
            row,
            app.spec_backend(f.vm_name@),
            app.spec_vm(f.vm_name@),
            states,
            app.host,
        );
    }
}

/// Asking once for a stop asks the child to stop; asking again kills it; neither
/// changes another child.
pub proof fn a_second_stop_kills(before: ManagerApp, after: ManagerApp, name: Seq<char>)
    requires
        launching::stop_asked(before, after, name),
        before.supervisor.wf(),
    ensures
        after.supervisor.tasks@.len() == before.supervisor.tasks@.len(),
        forall|i: int|
            0 <= i < before.supervisor.tasks@.len() ==> {
                let t = before.supervisor.tasks@[i];
                let u = #[trigger] after.supervisor.tasks@[i];
                if t.vm@ == name && !(t.state is Finished) {
                    &&& t.stop ==> u == (Task { kill: true, ..t })
                    &&& !t.stop ==> u == (Task { stop: true, ..t })
                } else {
                    u == t
                }
            },
        after.desk.toasts@.len() == before.desk.toasts@.len() + 1,
{
    let tasks = before.supervisor.tasks@;
    assert(after.told().len() == before.told().len() + 1);
    if process::busy_in(tasks, name) {
        lemma_first_active(tasks, name);
        let p = state::active_pos(tasks, name);
        assert forall|i: int| 0 <= i < tasks.len() implies {
            let t = tasks[i];
            let u = #[trigger] after.supervisor.tasks@[i];
            if t.vm@ == name && !(t.state is Finished) {
                &&& t.stop ==> u == (Task { kill: true, ..t })
                &&& !t.stop ==> u == (Task { stop: true, ..t })
            } else {
                u == t
            }
        } by {
            if tasks[i].vm@ == name && !(tasks[i].state is Finished) {
                process::one_child_per_machine(before.supervisor, i, p);
            }
        }
    } else {
        busy_means_an_unfinished_child(tasks, name);
    }
}

/// Where a machine has a running child, the first of them is found.
proof fn lemma_first_active(tasks: Seq<Task>, name: Seq<char>)
    requires
        process::busy_in(tasks, name),
    ensures
        process::active_at(tasks, name, state::active_pos(tasks, name)),
{
    let i = choose|i: int| 0 <= i < tasks.len() && process::holds_vm(#[trigger] tasks[i], name);
    lemma_some_first(tasks, name, i);
}

proof fn lemma_some_first(tasks: Seq<Task>, name: Seq<char>, i: int)
    requires
        0 <= i < tasks.len(),
        process::holds_vm(tasks[i], name),
    ensures
        exists|k: int| process::active_at(tasks, name, k),
    decreases i,
{
    if exists|j: int| 0 <= j < i && process::holds_vm(#[trigger] tasks[j], name) {
        let j = choose|j: int| 0 <= j < i && process::holds_vm(#[trigger] tasks[j], name);
        lemma_some_first(tasks, name, j);
    } else {
        assert(process::active_at(tasks, name, i));
    }
}

/// The status of a machine follows its child: an unfinished one that writes itself to a
/// file is suspending, an installer is installing, a machine that was asked to stop is
/// stopping, any other is running. Without one it is suspended exactly when its saved
/// session is there.
pub proof fn the_status_follows_the_child(app: ManagerApp, name: Seq<char>, i: int)
    requires
        app.supervisor.wf(),
        !app.mock_statuses@.contains_key(name),
    ensures
        ({
            let tasks = app.supervisor.tasks@;
            0 <= i < tasks.len() && tasks[i].vm@ == name && !(tasks[i].state is Finished)
                ==> app.spec_status(name) == (if tasks[i].suspend_since is Some {
                state::Status::Suspending
            } else if tasks[i].kind == TaskKind::Install {
                state::Status::Installing
            } else if tasks[i].stop {
                state::Status::Stopping
            } else {
                state::Status::Running
            })
        }),
        (forall|k: int|
            0 <= k < app.supervisor.tasks@.len() && (#[trigger] app.supervisor.tasks@[k]).vm@
                == name ==> app.supervisor.tasks@[k].state is Finished) ==> (app.spec_status(name)
            == state::Status::Suspended <==> app.spec_snapshot_for(name) is Some) && (
        app.spec_status(name) == state::Status::Stopped <==> app.spec_snapshot_for(name) is None),
{
    let tasks = app.supervisor.tasks@;
    busy_means_an_unfinished_child(tasks, name);
    if 0 <= i < tasks.len() && tasks[i].vm@ == name && !(tasks[i].state is Finished) {
        assert(process::holds_vm(tasks[i], name));
        lemma_first_active(tasks, name);
        process::one_child_per_machine(app.supervisor, i, state::active_pos(tasks, name));
    }
}

/// The backend that a new machine starts out with is the saved default, unless this host
/// does not have it or the check of WSL has failed; then it is the native one.
pub proof fn new_machines_get_a_usable_backend(app: ManagerApp)
    ensures
        app.settings.default_backend == Backend::Wsl && app.host == Host::Windows && !(
        app.wsl.engine is Failed) <==> app.spec_preferred() == Backend::Wsl,
{
}

/// Only a failed check of WSL stands in the way of the WSL backend, in its own words, and
/// nothing stands in the way of the native one.
pub proof fn only_a_failed_check_blocks_wsl(app: ManagerApp, fault: wslengine::EngineFault)
    ensures
        app.spec_block(Backend::Native) is None,
        app.wsl.engine == wslengine::Status::Failed(fault) ==> app.spec_block(Backend::Wsl) == Some(
            fault.sentence@,
        ),
        !(app.wsl.engine is Failed) ==> app.spec_block(Backend::Wsl) is None,
{
}

} // verus!
