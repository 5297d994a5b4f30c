//! Promises about what is shown: cards, tables and the words on them.
use crate::cards;
use crate::discovery;
use crate::discovery::{DiskAttachment, DiskRow, VmEntry};
use crate::host::Host;
use crate::metrics;
use crate::paths;
use crate::picker::PickTarget;
use crate::process;
use crate::process::{Task, TaskState};
use crate::snapshots::{FileState, SnapshotRow};
use crate::state;
use crate::state::{Action, ManagerApp, PendingInstall};
use crate::surfaces;
use crate::text;
use crate::update::UpdateInfo;
use crate::wording;
use vstd::prelude::*;

verus! {

/// A card shows the machine's memory, its processors, its screen and its network.
pub proof fn a_card_shows_the_machine(app: ManagerApp, vm: VmEntry)
    ensures
        ({
            let chips = cards::card_chips(app, vm);
            &&& chips.len() >= 3
            &&& chips[0].text == text::decimal_of(vm.memory_mib as nat) + " MiB"@
            &&& chips[1].text == text::decimal_of(vm.vcpus as nat) + " vCPU"@
            &&& chips[2].text == text::decimal_of(vm.display.0 as nat) + "×"@ + text::decimal_of(
                vm.display.1 as nat,
            )
            &&& vm.network_interface matches Some(i) ==> chips.len() > 3 && chips[3].text == i@
            &&& app.host == Host::Windows ==> chips.last().text == app.spec_backend(
                vm.name@,
            ).spec_label(app.host)
            &&& app.host != Host::Windows ==> chips.len() == 3 + (if vm.network_interface is Some {
                1int
            } else {
                0
            })
        }),
{
}

/// A card says when an image is missing, and only then; else how large the images are.
pub proof fn a_card_says_what_is_missing(vm: VmEntry, i: int)
    ensures
        0 <= i < vm.disks@.len() && !vm.disks@[i].exists ==> cards::storage_view(vm).text
            == "disk image missing"@ && cards::storage_view(vm).ink is Bad,
        (forall|j: int| 0 <= j < vm.disks@.len() ==> (#[trigger] vm.disks@[j]).exists)
            ==> cards::storage_view(vm).ink is Dim && text::begins_with(
            cards::storage_view(vm).text,
            "Storage "@ + discovery::bytes_shown(
                (discovery::total_size(vm.disks@) as u64) as nat,
            ),
        ),
{
    if forall|j: int| 0 <= j < vm.disks@.len() ==> (#[trigger] vm.disks@[j]).exists {
        let head = "Storage "@ + discovery::bytes_shown(
            (discovery::total_size(vm.disks@) as u64) as nat,
        );
        let said = cards::storage_view(vm).text;
        assert(said.subrange(0, head.len() as int) =~= head);
    }
}

/// A running machine shows how long it runs, and what it uses where that is known.
pub proof fn a_card_shows_what_is_used(task: Task, now: u64, cpu: Option<u64>, rss: Option<u64>)
    requires
        now >= task.started_at,
    ensures
        ({
            let said = cards::stats_text(task, now, cpu, rss);
            let up = "up "@ + metrics::uptime_shown(((now - task.started_at) / 1000) as u64);
            &&& text::begins_with(said, up)
            &&& cpu is None && rss is None ==> said == up
            &&& cpu is Some ==> text::holds(said, "CPU "@ + text::decimal_of(cpu->0 as nat) + "%"@)
            &&& rss is Some ==> text::ends_with(
                said,
                discovery::bytes_shown(rss->0 as nat) + " RAM"@,
            )
        }),
{
    let said = cards::stats_text(task, now, cpu, rss);
    let up = "up "@ + metrics::uptime_shown(((now - task.started_at) / 1000) as u64);
    assert(said.subrange(0, up.len() as int) =~= up);
    if cpu is Some {
        let part = "CPU "@ + text::decimal_of(cpu->0 as nat) + "%"@;
        let tail = said.skip((up + " · "@ + part).len() as int);
        text::lemma_held(up + " · "@, part, tail);
        assert(up + " · "@ + part + tail =~= said);
    }
    if rss is Some {
        let part = discovery::bytes_shown(rss->0 as nat) + " RAM"@;
        assert(said.subrange(said.len() - part.len(), said.len() as int) =~= part);
    }
}

/// Seconds are rounded to the nearest.
pub proof fn seconds_are_rounded(ms: nat)
    ensures
        1000 * cards::rounded_secs(ms) <= ms + 500,
        ms <= 1000 * cards::rounded_secs(ms) + 500,
{
}

/// A machine offers what its state allows: a start when it is stopped and whole, the resuming
/// of a session that may resume, a stop when it runs, and an end to what stops or installs.
pub proof fn a_machine_offers_what_its_state_allows(
    app: ManagerApp,
    vm: VmEntry,
    states: Seq<FileState>,
)
    ensures
        ({
            let buttons = cards::state_buttons(app, vm, states);
            let whole = forall|j: int|
                0 <= j < vm.disks@.len() ==> (#[trigger] vm.disks@[j]).exists;
            let status = app.spec_status(vm.name@);
            &&& status is Stopped && whole ==> buttons.len() == 1 && buttons[0].action
                == Action::Start(vm.name) && buttons[0].enabled
            &&& status is Stopped && !whole ==> buttons.len() == 0
            &&& status is Suspended ==> buttons.len() == 2 && buttons[0].action
                == Action::ResumeVm(vm.name) && buttons[1].action == Action::AskDiscardSnapshot(
                vm.name,
            ) && buttons[1].enabled == whole
            &&& status is Suspended ==> (buttons[0].enabled <==> cards::resume_block(
                app,
                vm.name@,
                states,
            ).len() == 0)
            &&& status is Running ==> {
                let task = state::active_of(app.supervisor.tasks@, vm.name@);
                let control = task is Some && task->0.control;
                &&& buttons.len() == 4
                &&& buttons[0].action == Action::Stop(vm.name) && buttons[0].enabled
                &&& buttons[1].action == Action::TogglePause(vm.name) && buttons[1].enabled
                    == control
                &&& buttons[1].label == (if task is Some && task->0.paused {
                    "Resume"@
                } else {
                    "Pause"@
                })
                &&& buttons[2].action == Action::Reset(vm.name) && buttons[2].enabled == control
                &&& buttons[3].action == Action::Suspend(vm.name) && buttons[3].enabled == control
            }
            &&& status is Stopping || status is Installing ==> buttons.len() == 1
                && buttons[0].action == Action::Stop(vm.name) && buttons[0].enabled
        }),
{
}

/// What keeps a session from resuming is what the verdict on it says.
pub proof fn the_verdict_keeps_a_session(
    app: ManagerApp,
    name: Seq<char>,
    states: Seq<FileState>,
)
    ensures
        app.spec_snapshot_for(name) is None ==> cards::resume_block(app, name, states).len() == 0,
        app.spec_snapshot_for(name) matches Some(row) ==> cards::resume_block(app, name, states)
            == app.spec_verdict(row, states).0,
{
}

/// Configuring is for machines at rest.
pub proof fn machines_at_rest_are_configured(app: ManagerApp, vm: VmEntry)
    ensures
        cards::configure_view(app, vm).action == Action::AskEditVm(vm.name),
        cards::configure_view(app, vm).enabled <==> app.spec_status(vm.name@) is Stopped
            || app.spec_status(vm.name@) is Suspended,
{
}

/// A card's menu ends with the deletion, which only a machine at rest allows; a saved
/// session can be forgotten there, and a log opened.
pub proof fn a_menu_ends_with_the_deletion(app: ManagerApp, vm: VmEntry)
    ensures
        ({
            let menu = cards::card_menu(app, vm);
            let status = app.spec_status(vm.name@);
            let n = menu.len() as int;
            &&& n >= 2
            &&& menu[0].action == Action::CopyProfilePath(vm.profile_path)
            &&& menu[n - 1].action == Action::AskDelete(vm.name)
            &&& menu[n - 1].enabled <==> status is Stopped || status is Suspended
            &&& state::newest_of(app.supervisor.tasks@, vm.name@) matches Some(t) ==> menu[1].action
                == Action::SelectLog(t.id)
            &&& app.spec_snapshot_for(vm.name@) matches Some(row) ==> n >= 3 && menu[n - 2].action
                == Action::AskDeleteSnapshot(row.path) && (menu[n - 2].enabled
                <==> status is Suspended)
        }),
{
}

/// A suspended machine tells what was saved; one that is suspending, for how long; and why
/// a session cannot resume is told with it.
pub proof fn a_suspended_machine_tells_of_its_session(
    app: ManagerApp,
    vm: VmEntry,
    states: Seq<FileState>,
    age: Seq<char>,
)
    ensures
        ({
            let lines = cards::suspend_lines(app, vm, states, age);
            let status = app.spec_status(vm.name@);
            &&& status is Suspending ==> lines.len() == 1
            &&& !(status is Suspending) && !(status is Suspended) ==> lines.len() == 0
            &&& status is Suspended ==> (app.spec_snapshot_for(vm.name@) matches Some(row) ==> {
                &&& lines.len() == (if app.spec_verdict(row, states).0.len() > 0 {
                    2int
                } else {
                    1
                })
                &&& lines[0].hint == row.path@
                &&& text::ends_with(
                    lines[0].text,
                    discovery::bytes_shown(row.apparent_bytes as nat),
                )
                &&& row.facts is Ok ==> text::begins_with(lines[0].text, "saved "@ + age)
                &&& lines.len() == 2 ==> lines[1].ink is Warn
            })
        }),
{
    let lines = cards::suspend_lines(app, vm, states, age);
    if app.spec_status(vm.name@) is Suspended {
        if let Some(row) = app.spec_snapshot_for(vm.name@) {
            let shown = discovery::bytes_shown(row.apparent_bytes as nat);
            let said = lines[0].text;
            assert(said.subrange(said.len() - shown.len(), said.len() as int) =~= shown);
            if row.facts is Ok {
                let head = "saved "@ + age;
                assert(said.subrange(0, head.len() as int) =~= head);
            }
        }
    }
}

/// Trouble is told at the top: what went wrong at the start, with the scan, and with the
/// engine, in this order, with what can be done about it.
pub proof fn trouble_is_told_at_the_top(app: ManagerApp, dir_exists: bool)
    ensures
        ({
            let told = surfaces::notices(app, dir_exists);
            let n = told.len() as int;
            &&& app.startup_warning matches Some(w) ==> n > 0 && told[0].text == w@
            &&& app.engine matches Err(e) ==> n > 0 && told[n - 1].text == e@ && (
            told[n - 1].button matches Some(b) && b.action == Action::PickPath(
                PickTarget::EngineBinary,
            ) && b.enabled)
            &&& app.scanner.error matches Some(e) ==> {
                let k: int = if app.startup_warning is Some {
                    1
                } else {
                    0
                };
                &&& n > k
                &&& told[k].text == e@
                &&& dir_exists ==> told[k].button is None
                &&& !dir_exists ==> (told[k].button matches Some(b) && b.action
                    == Action::CreateVmDir && b.enabled)
            }
            &&& n == (if app.startup_warning is Some {
                1int
            } else {
                0
            }) + (if app.scanner.error is Some {
                1int
            } else {
                0
            }) + (if app.engine is Err {
                1int
            } else {
                0
            })
        }),
{
}

/// An offered update can be skipped, and installed where there is an installer for the
/// host; elsewhere its page opens.
pub proof fn an_update_is_offered(host: Host, info: UpdateInfo, downloading: bool)
    ensures
        ({
            let buttons = surfaces::offer_buttons(host, info, downloading);
            &&& buttons.len() == 2
            &&& buttons[0].action is DismissUpdate && buttons[0].enabled == !downloading
            &&& host == Host::Windows && info.installer_url is Some ==> buttons[1].action
                is InstallUpdate && buttons[1].enabled == !downloading
            &&& host != Host::Windows || info.installer_url is None ==> buttons[1].action
                is OpenReleasePage && buttons[1].enabled
        }),
{
}

/// Machines are counted as busy one by one.
pub proof fn busy_machines_are_counted(app: ManagerApp, vms: Seq<VmEntry>, vm: VmEntry)
    ensures
        surfaces::busy_count(app, Seq::empty()) == 0,
        surfaces::busy_count(app, vms.push(vm)) == surfaces::busy_count(app, vms) + (
        if app.spec_busy(vm.name@) {
            1int
        } else {
            0
        }),
        surfaces::child_count(app, Seq::empty()) == 0,
        surfaces::child_count(app, vms.push(vm)) == surfaces::child_count(app, vms) + (
        if process::busy_in(app.supervisor.tasks@, vm.name@) {
            1int
        } else {
            0
        }),
{
    assert(vms.push(vm).drop_last() =~= vms);
}

/// A pending installation shows what it installs, and can be aborted while it goes on.
pub proof fn an_installation_shows_what_it_installs(app: ManagerApp, p: PendingInstall)
    ensures
        ({
            let chips = surfaces::pending_chips(p);
            let buttons = surfaces::pending_buttons(app, p);
            &&& chips.len() == 4
            &&& chips[0].text == text::decimal_of(p.machine.memory_mib as nat) + " MiB"@
            &&& chips[1].text == text::decimal_of(p.machine.vcpus as nat) + " vCPU"@
            &&& p.machine.disk_mode is CreateNew ==> chips[2].text == text::decimal_of(
                p.machine.disk_gib as nat,
            ) + " GiB disk"@
            &&& !(p.machine.disk_mode is CreateNew) ==> chips[2].text == "existing disk"@
            &&& buttons.len() > 0
            &&& buttons[0].action == Action::Stop(p.name)
            &&& buttons[0].enabled <==> process::busy_in(app.supervisor.tasks@, p.name@)
            &&& state::newest_of(app.supervisor.tasks@, p.name@) matches Some(t) ==> buttons.len()
                == 2 && buttons[1].action == Action::SelectLog(t.id)
        }),
{
}

/// An image's row marks firmware variables, a missing file, and use.
pub proof fn a_row_is_marked(row: DiskRow, busy: bool)
    ensures
        ({
            let chips = surfaces::disk_chips(row, busy);
            &&& chips.len() == (if row.nvram {
                1int
            } else {
                0
            }) + (if row.exists {
                0int
            } else {
                1
            }) + (if busy {
                1int
            } else {
                0
            })
            &&& row.nvram ==> chips[0].text == "NVRAM"@
            &&& busy ==> chips.last().text == "in use"@
            &&& !row.exists ==> (exists|i: int|
                0 <= i < chips.len() && (#[trigger] chips[i]).text == "missing"@ && chips[i].ink
                    is Bad)
        }),
{
    let chips = surfaces::disk_chips(row, busy);
    if !row.exists {
        let k: int = if row.nvram {
            1
        } else {
            0
        };
        assert(chips[k].text == "missing"@);
    }
}

/// An attachment names its machine and whether it may write, and can be undone while the
/// machine is idle.
pub proof fn an_attachment_can_be_undone(app: ManagerApp, list: Seq<DiskAttachment>, i: int)
    requires
        0 <= i < list.len(),
    ensures
        ({
            let shown = surfaces::attached_views(app, list);
            let a = list[i];
            &&& shown.len() == list.len()
            &&& shown[i].0.text == a.vm@ + (if a.writable {
                " (rw)"@
            } else {
                " (ro)"@
            })
            &&& shown[i].1.action == (Action::DetachDisk {
                vm: a.vm,
                profile: a.profile,
                declared: a.declared,
            })
            &&& shown[i].1.enabled <==> !app.spec_busy(a.vm@)
        }),
{
}

/// What sessions take adds up, where a session whose space is unknown counts for none.
pub proof fn sessions_add_up(rows: Seq<SnapshotRow>, row: SnapshotRow)
    ensures
        surfaces::total_apparent(Seq::empty()) == 0,
        surfaces::total_on_disk(Seq::empty()) == 0,
        surfaces::total_apparent(rows.push(row)) == surfaces::total_apparent(rows)
            + row.apparent_bytes,
        surfaces::total_on_disk(rows.push(row)) == surfaces::total_on_disk(rows) + (
        if row.allocated_bytes is Some {
            row.allocated_bytes->0 as int
        } else {
            0
        }),
{
    assert(rows.push(row).drop_last() =~= rows);
}

/// A session says where it was saved and whether it resumes here, or that it cannot be read.
pub proof fn a_session_says_whether_it_resumes(row: SnapshotRow, resumable: bool, busy: bool)
    ensures
        ({
            let chips = surfaces::session_chips(row, resumable, busy);
            &&& row.facts matches Ok(f) ==> chips.len() >= 2 && chips[0].text == f.host.spec_name()
                && chips[1].text == (if resumable {
                "resumable"@
            } else {
                "cannot resume here"@
            })
            &&& row.facts is Err ==> chips[0].text == "unreadable"@ && chips[0].ink is Bad
            &&& busy ==> chips.last().text == "machine is running"@
            &&& chips.len() == (if row.facts is Ok {
                2int
            } else {
                1
            }) + (if busy {
                1int
            } else {
                0
            })
        }),
{
}

/// What blocks a session comes before what is merely noted; of either the first are shown.
pub proof fn blocks_come_before_notes(blocked: Seq<Seq<char>>, notes: Seq<Seq<char>>)
    ensures
        blocked.len() > 0 ==> surfaces::session_notes(blocked, notes).len() == (if blocked.len()
            == 1 {
            1int
        } else {
            2
        }) && surfaces::session_notes(blocked, notes)[0].text == blocked[0]
            && surfaces::session_notes(blocked, notes)[0].ink is Warn,
        blocked.len() > 1 ==> surfaces::session_notes(blocked, notes)[1].text == blocked[1],
        blocked.len() == 0 && notes.len() > 0 ==> surfaces::session_notes(blocked, notes).len() == 1
            && surfaces::session_notes(blocked, notes)[0].text == notes[0],
        blocked.len() == 0 && notes.len() == 0 ==> surfaces::session_notes(blocked, notes).len()
            == 0,
{
}

/// A child's line says what it does, for which machine, and how it goes or went.
pub proof fn a_child_is_titled_by_its_state(task: Task, now: u64)
    ensures
        text::begins_with(
            surfaces::task_title(task, now),
            task.kind.spec_label() + " "@ + task.vm@,
        ),
        task.state is Stopping ==> text::ends_with(surfaces::task_title(task, now), "stopping"@),
        task.state matches TaskState::Finished(outcome) ==> text::ends_with(
            surfaces::task_title(task, now),
            outcome.detail@,
        ),
        task.state is Running && now >= task.started_at ==> text::ends_with(
            surfaces::task_title(task, now),
            "running "@ + wording::elapsed_of(((now - task.started_at) / 1000) as nat),
        ),
{
    let said = surfaces::task_title(task, now);
    let head = task.kind.spec_label() + " "@ + task.vm@;
    assert(said.subrange(0, head.len() as int) =~= head);
    let tail = match task.state {
        TaskState::Running => "running "@ + wording::elapsed_of(
            metrics::beyond(now, task.started_at) as nat / 1000,
        ),
        TaskState::Stopping => "stopping"@,
        TaskState::Finished(outcome) => outcome.detail@,
    };
    assert(said.subrange(said.len() - tail.len(), said.len() as int) =~= tail);
}

/// The directories of images are the machines' own and those of the images, each once.
pub proof fn image_directories_hold_the_images(
    host: Host,
    vm_dir: Seq<char>,
    rows: Seq<DiskRow>,
    row: DiskRow,
)
    ensures
        surfaces::image_dirs(host, vm_dir, Seq::empty()) == seq![vm_dir],
        surfaces::image_dirs(host, vm_dir, rows)[0] == vm_dir,
        paths::parent_of(host, row.path@) is None ==> surfaces::image_dirs(
            host,
            vm_dir,
            rows.push(row),
        ) == surfaces::image_dirs(host, vm_dir, rows),
        paths::parent_of(host, row.path@) matches Some(dir) ==> crate::moving::among(
            host,
            surfaces::image_dirs(host, vm_dir, rows.push(row)),
            dir,
        ) || surfaces::image_dirs(host, vm_dir, rows.push(row)).last() == dir,
    decreases rows.len(),
{
    assert(rows.push(row).drop_last() =~= rows);
    if rows.len() > 0 {
        image_directories_hold_the_images(host, vm_dir, rows.drop_last(), row);
    }
    lemma_some_directory(host, vm_dir, rows);
}

proof fn lemma_some_directory(host: Host, vm_dir: Seq<char>, rows: Seq<DiskRow>)
    ensures
        surfaces::image_dirs(host, vm_dir, rows).len() > 0,
        surfaces::image_dirs(host, vm_dir, rows)[0] == vm_dir,
    decreases rows.len(),
{
    if rows.len() > 0 {
        lemma_some_directory(host, vm_dir, rows.drop_last());
    }
}

/// What needs KVM is told to be on WSL only where the host has none of its own.
pub proof fn capabilities_are_told_by_host(host: Host, i: int)
    requires
        0 <= i < 3,
    ensures
        surfaces::capability_views(host).len() == 3,
        host == Host::Windows ==> text::ends_with(
            surfaces::capability_views(host)[i].text,
            ": WSL (KVM) only"@,
        ),
        host == Host::Linux ==> text::ends_with(
            surfaces::capability_views(host)[i].text,
            ": available on both backends"@,
        ),
{
    let said = surfaces::capability_views(host)[i].text;
    if host == Host::Windows {
        let t = ": WSL (KVM) only"@;
        assert(said.subrange(said.len() - t.len(), said.len() as int) =~= t);
    }
    if host == Host::Linux {
        let t = ": available on both backends"@;
        assert(said.subrange(said.len() - t.len(), said.len() as int) =~= t);
    }
}

/// A line of a log is coloured by the worst that it says.
pub proof fn lines_are_coloured_by_the_worst(line: Seq<char>)
    ensures
        ({
            let l = text::lower_of(line);
            let bad = text::holds(l, "error"@) || text::holds(l, "panic"@) || text::holds(
                l,
                "failed"@,
            );
            &&& wording::ink_of_line(line) is Bad <==> bad
            &&& wording::ink_of_line(line) is Warn <==> !bad && text::holds(l, "warn"@)
            &&& wording::ink_of_line(line) is Plain <==> !bad && !text::holds(l, "warn"@) && (
            text::holds(l, " info "@) || text::begins_with(l, "info"@))
        }),
{
}

/// What is used is what is not free.
pub proof fn used_is_not_free(free: u64, total: u64)
    ensures
        total >= free ==> wording::used_of(free, total) + free == total,
        total < free ==> wording::used_of(free, total) == 0,
{
}

/// A span of time is shown in its two largest units.
pub proof fn spans_are_shown_in_two_units(h: nat, m: nat, s: nat)
    requires
        m < 60,
        s < 60,
    ensures
        h > 0 ==> wording::elapsed_of(3600 * h + 60 * m + s) == text::decimal_of(h) + "h"@
            + text::two_digits_of(m) + "m"@,
        m > 0 ==> wording::elapsed_of(60 * m + s) == text::decimal_of(m) + "m"@
            + text::two_digits_of(s) + "s"@,
        wording::elapsed_of(s) == text::decimal_of(s) + "s"@,
{
    let t = 3600 * h + 60 * m + s;
    assert(t / 3600 == h);
    assert((t % 3600) / 60 == m);
    let u = 60 * m + s;
    assert(u / 3600 == 0);
    assert((u % 3600) / 60 == m);
    assert(u % 60 == s);
}

/// One thing is one, and any other number of them are several.
pub proof fn things_are_counted(n: nat, thing: Seq<char>)
    ensures
        n == 1 ==> wording::counted(n, thing) == text::decimal_of(1) + " "@ + thing,
        n != 1 ==> wording::counted(n, thing) == text::decimal_of(n) + " "@ + thing + "s"@,
{
    reveal_strlit("");
    if n == 1 {
        assert(text::decimal_of(1) + " "@ + thing + ""@ =~= text::decimal_of(1) + " "@ + thing);
    }
}

/// A size is told with what it takes on disk where that is known.
pub proof fn sizes_tell_what_is_on_disk(apparent: u64, allocated: Option<u64>, word: Seq<char>)
    ensures
        text::begins_with(
            wording::sizes_of(apparent, allocated, word),
            discovery::bytes_shown(apparent as nat) + word,
        ),
        allocated is None ==> wording::sizes_of(apparent, allocated, word)
            == discovery::bytes_shown(apparent as nat) + word,
        allocated matches Some(n) ==> text::ends_with(
            wording::sizes_of(apparent, allocated, word),
            discovery::bytes_shown(n as nat) + " on disk"@,
        ),
{
    let said = wording::sizes_of(apparent, allocated, word);
    let head = discovery::bytes_shown(apparent as nat) + word;
    assert(said.subrange(0, head.len() as int) =~= head);
    if let Some(n) = allocated {
        let tail = discovery::bytes_shown(n as nat) + " on disk"@;
        assert(said.subrange(said.len() - tail.len(), said.len() as int) =~= tail);
    }
}

/// The host's line counts the machines and those that are active, and tells its load and its
/// room where they are known.
pub proof fn the_host_is_summed_up(app: ManagerApp, cpu: Option<u64>)
    ensures
        ({
            let lines = surfaces::host_lines(app, cpu);
            &&& lines[0] == text::decimal_of(app.scan.vms@.len()) + " machines · "@
                + text::decimal_of(surfaces::child_count(app, app.scan.vms@)) + " active"@
            &&& cpu matches Some(p) ==> lines.len() > 1 && lines[1] == "CPU "@ + text::decimal_of(
                p as nat,
            ) + "%"@
            &&& app.stats.host.vm_dir_space matches Some((free, _)) ==> lines.last()
                == discovery::bytes_shown(free as nat) + " storage free"@
            &&& lines.len() == 1 + (if cpu is Some {
                1int
            } else {
                0
            }) + (if app.stats.host.vm_dir_space is Some {
                1int
            } else {
                0
            })
        }),
{
}

/// A machine is live while it runs, installs or stops.
pub proof fn machines_live_while_they_run(status: state::Status)
    ensures
        cards::is_live(status) <==> status is Running || status is Installing || status is Stopping,
{
}

/// A session's line tells the shape that was saved and when, and who wrote it; of one that
/// cannot be read there is none.
pub proof fn a_session_tells_its_shape(row: SnapshotRow, age: Seq<char>, taken: Seq<char>)
    ensures
        surfaces::session_shape(row, age, taken) is Some <==> row.facts is Ok,
        row.facts matches Ok(f) ==> {
            let line = surfaces::session_shape(row, age, taken)->0;
            &&& text::begins_with(line.text, text::decimal_of(f.vcpus as nat) + " vCPU · "@)
            &&& text::holds(line.text, discovery::bytes_shown(f.memory_bytes as nat))
            &&& text::holds(line.text, f.transport@)
            &&& text::holds(line.text, f.boot_mode@)
            &&& text::ends_with(line.text, age)
            &&& text::begins_with(line.hint, taken)
            &&& text::ends_with(line.hint, f.writer@)
        },
{
    if let Ok(f) = row.facts {
        let line = surfaces::session_shape(row, age, taken)->0;
        let said = line.text;
        let head = text::decimal_of(f.vcpus as nat) + " vCPU · "@;
        let memory = discovery::bytes_shown(f.memory_bytes as nat);
        let p1 = head + memory + " RAM · "@;
        let p2 = p1 + f.transport@ + " · "@;
        let p3 = p2 + f.boot_mode@;
        assert(said.subrange(0, head.len() as int) =~= head);
        text::lemma_held(head, memory, said.skip((head + memory).len() as int));
        assert(head + memory + said.skip((head + memory).len() as int) =~= said);
        text::lemma_held(p1, f.transport@, said.skip((p1 + f.transport@).len() as int));
        assert(p1 + f.transport@ + said.skip((p1 + f.transport@).len() as int) =~= said);
        text::lemma_held(p2, f.boot_mode@, said.skip(p3.len() as int));
        assert(p2 + f.boot_mode@ + said.skip(p3.len() as int) =~= said);
        assert(said.subrange(said.len() - age.len(), said.len() as int) =~= age);
        let hint = line.hint;
        assert(hint.subrange(0, taken.len() as int) =~= taken);
        assert(hint.subrange(hint.len() - f.writer@.len(), hint.len() as int) =~= f.writer@);
    }
}

/// A button that cannot be pressed says what stands in its way.
pub proof fn dead_buttons_say_why(app: ManagerApp, a: DiskAttachment, hint: Seq<char>)
    ensures
        cards::control_hint(true, hint) == hint,
        cards::control_hint(false, hint) == cards::NOT_FROM_HERE@,
        !surfaces::detach_view(app, a).enabled ==> surfaces::detach_view(app, a).hint
            == cards::STOP_THE_MACHINE@,
        surfaces::detach_view(app, a).enabled ==> text::ends_with(
            surfaces::detach_view(app, a).hint,
            a.vm@,
        ),
        surfaces::attachment_chip(app, a).ink is Good <==> app.spec_busy(a.vm@),
{
    if !app.spec_busy(a.vm@) {
        let said = surfaces::detach_view(app, a).hint;
        assert(said.subrange(said.len() - a.vm@.len(), said.len() as int) =~= a.vm@);
    }
}

} // verus!
