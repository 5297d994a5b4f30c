//! The machine cards: what each says, and what it offers in which state.
//!
//! A card never offers what would be refused. Where something cannot be done, the
//! button stays and its hint says why.
use crate::app;
use crate::backend::Backend;
use crate::discovery;
use crate::discovery::{DiskInfo, VmEntry};
use crate::metrics;
use crate::process::Task;
use crate::snapshots::FileState;
use crate::state;
use crate::state::{Action, ManagerApp, Status};
use crate::text;
use crate::wording;
use crate::wording::{Button, ButtonView, Chip, ChipView, Ink};
use vstd::prelude::*;

verus! {

pub const NOT_FROM_HERE: &'static str = "This VM was not started from here";
pub const RESUME_HINT: &'static str =
    "Put the machine back exactly as you left it — the same programs, the same windows.";
pub const FRESH_HINT: &'static str =
    "Boot the machine from scratch. The saved session cannot survive that — the guest writes to the disk it was pinned to — so it is thrown away first, and you are asked before anything happens.";
pub const CONTINUE_HINT: &'static str = "Let the machine continue exactly where it stopped";
pub const PAUSE_HINT: &'static str = "Freeze the machine; nothing in it makes progress";
pub const RESTART_HINT: &'static str =
    "Reboot the machine in place, as the guest's own Restart does";
pub const SUSPEND_HINT: &'static str =
    "Write the whole machine to a file and stop it. Opening it again puts you back exactly here. A machine with 2 GiB of memory takes a few seconds; a desktop takes longer.";
pub const KILL_HINT: &'static str = "Shutdown was requested; force it";
pub const CONFIGURE_HINT: &'static str = "Memory, vCPUs, boot, network, disks, display";
pub const CONFIGURE_SUSPENDED_HINT: &'static str =
    "Memory, vCPUs, boot, network, disks, display. Changing the hardware makes the saved session unrestorable — a snapshot only goes back onto the machine it came off.";
pub const STOP_THE_MACHINE: &'static str = "Stop the machine first";
pub const FORGET_HINT: &'static str =
    "Delete the snapshot and leave the machine stopped. Its disks and settings are untouched.";
pub const SUSPENDING_HINT: &'static str =
    "Only the pages the guest has actually touched are written, which is usually about a quarter of its memory. A 2 GiB machine takes a few seconds; a desktop-sized one longer.";
pub const INSTALL_HINT: &'static str =
    "Saves the installer to Downloads and starts it; it upgrades this installation in place";

/// Characters of a path that a card shows.
pub const PATH_ROOM: usize = 46;
/// Characters of a refusal that a card shows.
pub const REASON_ROOM: usize = 52;

/// The separator between two reasons in one hint.
pub const PARAGRAPH: &'static str = "\n\n";

/// A line of text with a colour, and what it says when it is pointed at.
#[derive(Debug, PartialEq, Eq)]
pub struct Line {
    pub text: String,
    pub ink: Ink,
    pub hint: String,
}

/// A line as plain values.
pub ghost struct LineView {
    pub text: Seq<char>,
    pub ink: Ink,
    pub hint: Seq<char>,
}

impl View for Line {
    type V = LineView;

    open spec fn view(&self) -> LineView {
        LineView { text: self.text@, ink: self.ink, hint: self.hint@ }
    }
}

/// The lines as plain values.
pub open spec fn lines_of(lines: Seq<Line>) -> Seq<LineView> {
    lines.map_values(|l: Line| l@)
}

/// Adds a line.
pub fn add_line(lines: &mut Vec<Line>, text: String, ink: Ink, hint: String)
    ensures
        lines_of(final(lines)@) == lines_of(old(lines)@).push(
            (LineView { text: text@, ink, hint: hint@ }),
        ),
{
    let ghost before = lines_of(lines@);
    lines.push(Line { text, ink, hint });
    assert(lines_of(lines@) =~= before.push((LineView { text: text@, ink, hint: hint@ })));
}

// ---------------------------------------------------------------------------
// What a card says
// ---------------------------------------------------------------------------

/// The chips of a machine: its shape, its network, and where it runs if there is a
/// choice.
pub open spec fn card_chips(app: ManagerApp, vm: VmEntry) -> Seq<ChipView> {
    let shape = seq![
        wording::chip_view(text::decimal_of(vm.memory_mib as nat) + " MiB"@, Ink::Cyan),
        wording::chip_view(text::decimal_of(vm.vcpus as nat) + " vCPU"@, Ink::Violet),
        wording::chip_view(
            text::decimal_of(vm.display.0 as nat) + "×"@ + text::decimal_of(vm.display.1 as nat),
            Ink::Dim,
        ),
    ];
    let network = match vm.network_interface {
        Some(interface) => shape.push(wording::chip_view(interface@, Ink::Good)),
        None => shape,
    };
    if Backend::Wsl.available(app.host) {
        network.push(
            wording::chip_view(app.spec_backend(vm.name@).spec_label(app.host), Ink::Accent),
        )
    } else {
        network
    }
}

/// Some disk of the machine is not there.
pub open spec fn lacks_disk(disks: Seq<DiskInfo>) -> bool {
    exists|i: int| 0 <= i < disks.len() && !(#[trigger] disks[i]).exists
}

fn misses_disk(disks: &Vec<DiskInfo>) -> (r: bool)
    ensures
        r == lacks_disk(disks@),
{
    let mut i: usize = 0;
    while i < disks.len()
        invariant
            i <= disks@.len(),
            forall|j: int| 0 <= j < i ==> (#[trigger] disks@[j]).exists,
        decreases disks@.len() - i,
    {
        if !disks[i].exists {
            assert(!disks@[i as int].exists);
            return true;
        }
        i = i + 1;
    }
    false
}

/// What a card says of a machine's storage.
pub open spec fn storage_view(vm: VmEntry) -> LineView {
    if lacks_disk(vm.disks@) {
        LineView { text: "disk image missing"@, ink: Ink::Bad, hint: Seq::empty() }
    } else {
        LineView {
            text: "Storage "@ + wording::sizes_of(
                discovery::total_size(vm.disks@) as u64,
                match discovery::total_allocated(vm.disks@) {
                    Some(n) => Some(n as u64),
                    None => None,
                },
                ""@,
            ),
            ink: Ink::Dim,
            hint: Seq::empty(),
        }
    }
}

/// The disks' sizes can be summed up.
pub open spec fn summable(disks: Seq<DiskInfo>) -> bool {
    &&& discovery::total_size(disks) <= u64::MAX
    &&& discovery::total_allocated(disks) matches Some(n) ==> n <= u64::MAX
}

fn storage_line(vm: &VmEntry) -> (r: Line)
    requires
        !lacks_disk(vm.disks@) ==> summable(vm.disks@),
    ensures
        r@ == storage_view(*vm),
{
    if misses_disk(&vm.disks) {
        return Line {
            text: "disk image missing".to_owned(),
            ink: Ink::Bad,
            hint: String::new(),
        };
    }
    let sizes = wording::sizes(vm.size_bytes(), vm.allocated_bytes(), "");
    Line { text: text::cat("Storage ", &sizes), ink: Ink::Dim, hint: String::new() }
}

/// The numbers of an active machine: how long it runs, its share of a core in
/// percent and its resident memory, as far as they are known.
pub open spec fn stats_text(task: Task, now: u64, cpu: Option<u64>, rss: Option<u64>) -> Seq<char> {
    let up = "up "@ + metrics::uptime_shown(metrics::beyond(now, task.started_at) / 1000);
    let with_cpu = match cpu {
        Some(percent) => up + " · "@ + ("CPU "@ + text::decimal_of(percent as nat) + "%"@),
        None => up,
    };
    match rss {
        Some(bytes) => with_cpu + " · "@ + (discovery::bytes_shown(bytes as nat) + " RAM"@),
        None => with_cpu,
    }
}

/// The card shows live numbers in this state.
pub open spec fn is_live(status: Status) -> bool {
    status == Status::Running || status == Status::Installing || status == Status::Stopping
}

/// Seconds, rounded to the nearest, a half to the even one.
pub open spec fn rounded_secs(ms: nat) -> nat {
    let s = ms / 1000;
    if ms % 1000 > 500 || (ms % 1000 == 500 && s % 2 == 1) {
        s + 1
    } else {
        s
    }
}

fn round_secs(ms: u64) -> (r: u64)
    ensures
        r == rounded_secs(ms as nat),
{
    let s: u64 = ms / 1000;
    if ms % 1000 > 500 || (ms % 1000 == 500 && s % 2 == 1) {
        s + 1
    } else {
        s
    }
}

/// The reasons against resuming a machine from its session, if it has one.
pub open spec fn resume_block(app: ManagerApp, name: Seq<char>, states: Seq<FileState>) -> Seq<
    Seq<char>,
> {
    match app.spec_snapshot_for(name) {
        Some(row) => app.spec_verdict(row, states).0,
        None => Seq::empty(),
    }
}

/// The states are those of the files that the machine's session names.
pub open spec fn states_fit(app: ManagerApp, name: Seq<char>, states: Seq<FileState>) -> bool {
    app.spec_snapshot_for(name) matches Some(row) ==> row.facts matches Ok(f) ==> states.len()
        == f.files@.len()
}

/// How long a machine has been writing itself to a file, in milliseconds.
pub open spec fn suspending_ms(app: ManagerApp, name: Seq<char>) -> u64 {
    match state::active_of(app.supervisor.tasks@, name) {
        Some(t) => match t.suspend_since {
            Some(since) => metrics::beyond(app.now, since),
            None => 0,
        },
        None => 0,
    }
}

/// What a machine in one of the two snapshot states says. While it is written
/// there is no progress to report, so the time it takes is told; afterwards when
/// that was, how large it is, and the first reason against going back. `age` says
/// when the session was saved.
pub open spec fn suspend_lines(
    app: ManagerApp,
    vm: VmEntry,
    states: Seq<FileState>,
    age: Seq<char>,
) -> Seq<LineView> {
    match app.spec_status(vm.name@) {
        Status::Suspending => seq![
            LineView {
                text: "writing memory to disk — "@ + text::decimal_of(
                    rounded_secs(suspending_ms(app, vm.name@) as nat),
                ) + " s"@,
                ink: Ink::Violet,
                hint: SUSPENDING_HINT@,
            },
        ],
        Status::Suspended => match app.spec_snapshot_for(vm.name@) {
            None => Seq::empty(),
            Some(row) => {
                let blocked = app.spec_verdict(row, states).0;
                let saved = (if row.facts is Ok {
                    "saved "@ + age
                } else {
                    "saved session unreadable"@
                }) + " · "@ + discovery::bytes_shown(row.apparent_bytes as nat);
                let first = seq![LineView { text: saved, ink: Ink::Violet, hint: row.path@ }];
                if blocked.len() > 0 {
                    first.push(
                        LineView {
                            text: wording::head_of(blocked[0], REASON_ROOM as nat),
                            ink: Ink::Warn,
                            hint: text::join_of(blocked, PARAGRAPH@),
                        },
                    )
                } else {
                    first
                }
            },
        },
        _ => Seq::empty(),
    }
}

/// What a machine in one of the two snapshot states says.
pub fn suspend_line(app: &ManagerApp, vm: &VmEntry, states: &Vec<FileState>, age: &str) -> (r: Vec<
    Line,
>)
    requires
        app.wf(),
        states_fit(*app, vm.name@, states@),
    ensures
        lines_of(r@) == suspend_lines(*app, *vm, states@, age@),
{
    let mut r: Vec<Line> = Vec::new();
    match app.status_of(&vm.name) {
        Status::Suspending => {
            let ms: u64 = match app.supervisor.active_task(&vm.name) {
                Some(task) => match task.suspending_for(app.now) {
                    Some(ms) => ms,
                    None => 0,
                },
                None => 0,
            };
            let text = text::cat3(
                "writing memory to disk — ",
                &text::decimal(round_secs(ms)),
                " s",
            );
            add_line(&mut r, text, Ink::Violet, SUSPENDING_HINT.to_owned());
        },
        Status::Suspended => {
            if let Some(row) = app.snapshot_for(&vm.name) {
                let verdict = app.snapshot_verdict(row, states);
                let start = if row.facts.is_ok() {
                    text::cat("saved ", age)
                } else {
                    "saved session unreadable".to_owned()
                };
                let saved = text::cat3(&start, " · ", &discovery::format_bytes(row.apparent_bytes));
                add_line(&mut r, saved, Ink::Violet, row.path.clone());
                if verdict.blocked.len() > 0 {
                    add_line(
                        &mut r,
                        wording::shorten_end(&verdict.blocked[0], REASON_ROOM),
                        Ink::Warn,
                        text::join(&verdict.blocked, PARAGRAPH),
                    );
                }
            }
        },
        _ => {},
    }
    assert(lines_of(r@) =~= suspend_lines(*app, *vm, states@, age@));
    r
}

/// The live numbers of an active machine. `cpu` is its share of a core in whole
/// percent.
pub fn live_stats_line(app: &ManagerApp, vm: &VmEntry, cpu: Option<u64>, rss: Option<u64>) -> (r:
    Option<String>)
    requires
        app.wf(),
    ensures
        match state::active_of(app.supervisor.tasks@, vm.name@) {
            Some(task) if is_live(app.spec_status(vm.name@)) => r matches Some(t) && t@
                == stats_text(task, app.now, cpu, rss),
            _ => r is None,
        },
{
    match app.status_of(&vm.name) {
        Status::Running | Status::Installing | Status::Stopping => {},
        _ => return None,
    }
    let task = match app.supervisor.active_task(&vm.name) {
        Some(task) => task,
        None => return None,
    };
    let ms: u64 = if app.now >= task.started_at {
        app.now - task.started_at
    } else {
        0
    };
    let mut line = text::cat("up ", &metrics::format_uptime(ms / 1000));
    if let Some(percent) = cpu {
        line = text::cat3(&line, " · ", &text::cat3("CPU ", &text::decimal(percent), "%"));
    }
    if let Some(bytes) = rss {
        line = text::cat3(&line, " · ", &text::cat(&discovery::format_bytes(bytes), " RAM"));
    }
    Some(line)
}

// ---------------------------------------------------------------------------
// What a card offers
// ---------------------------------------------------------------------------

/// The running child of the machine has a control channel.
pub open spec fn controllable(app: ManagerApp, name: Seq<char>) -> bool {
    state::active_of(app.supervisor.tasks@, name) matches Some(t) && t.control
}

/// The machine was asked to pause.
pub open spec fn pausing(app: ManagerApp, name: Seq<char>) -> bool {
    state::active_of(app.supervisor.tasks@, name) matches Some(t) && t.paused
}

/// What a control button says when it is pointed at.
pub open spec fn control_hint(controllable: bool, hint: Seq<char>) -> Seq<char> {
    if controllable {
        hint
    } else {
        NOT_FROM_HERE@
    }
}

/// The buttons for what a machine's state allows.
pub open spec fn state_buttons(app: ManagerApp, vm: VmEntry, states: Seq<FileState>) -> Seq<
    ButtonView,
> {
    let name = vm.name;
    let blocked = resume_block(app, name@, states);
    let control = controllable(app, name@);
    match app.spec_status(name@) {
        Status::Stopped => if lacks_disk(vm.disks@) {
            Seq::empty()
        } else {
            seq![wording::primary_view("Start"@, ""@, Action::Start(name))]
        },
        Status::Suspended => seq![
            if blocked.len() == 0 {
                wording::primary_view("Resume"@, RESUME_HINT@, Action::ResumeVm(name))
            } else {
                wording::ghost_view(
                    "Resume"@,
                    text::join_of(blocked, PARAGRAPH@),
                    false,
                    Ink::Violet,
                    Action::ResumeVm(name),
                )
            },
            wording::ghost_view(
                "Start fresh…"@,
                FRESH_HINT@,
                !lacks_disk(vm.disks@),
                Ink::Warn,
                Action::AskDiscardSnapshot(name),
            ),
        ],
        Status::Suspending => match state::active_of(app.supervisor.tasks@, name@) {
            Some(t) => seq![
                wording::ghost_view(
                    "View activity"@,
                    ""@,
                    true,
                    Ink::Cyan,
                    Action::SelectLog(t.id),
                ),
            ],
            None => Seq::empty(),
        },
        Status::Running => seq![
            wording::ghost_view("Stop"@, ""@, true, Ink::Warn, Action::Stop(name)),
            wording::ghost_view(
                if pausing(app, name@) {
                    "Resume"@
                } else {
                    "Pause"@
                },
                control_hint(
                    control,
                    if pausing(app, name@) {
                        CONTINUE_HINT@
                    } else {
                        PAUSE_HINT@
                    },
                ),
                control,
                Ink::Violet,
                Action::TogglePause(name),
            ),
            wording::ghost_view(
                "Restart"@,
                control_hint(control, RESTART_HINT@),
                control,
                Ink::Violet,
                Action::Reset(name),
            ),
            wording::ghost_view(
                "Suspend"@,
                control_hint(control, SUSPEND_HINT@),
                control,
                Ink::Violet,
                Action::Suspend(name),
            ),
        ],
        Status::Stopping => seq![
            wording::ghost_view("Kill"@, KILL_HINT@, true, Ink::Bad, Action::Stop(name)),
        ],
        Status::Installing => seq![
            wording::ghost_view("Abort"@, ""@, true, Ink::Bad, Action::Stop(name)),
        ],
    }
}

/// The machine is at rest: it can be configured and deleted.
pub open spec fn at_rest(status: Status) -> bool {
    status == Status::Stopped || status == Status::Suspended
}

/// The button that opens the editor.
pub open spec fn configure_view(app: ManagerApp, vm: VmEntry) -> ButtonView {
    let status = app.spec_status(vm.name@);
    wording::ghost_view(
        "Configure"@,
        match status {
            Status::Stopped => CONFIGURE_HINT@,
            Status::Suspended => CONFIGURE_SUSPENDED_HINT@,
            _ => STOP_THE_MACHINE@,
        },
        at_rest(status),
        Ink::Violet,
        Action::AskEditVm(vm.name),
    )
}

/// All buttons of a card.
pub open spec fn card_buttons(app: ManagerApp, vm: VmEntry, states: Seq<FileState>) -> Seq<
    ButtonView,
> {
    state_buttons(app, vm, states).push(configure_view(app, vm))
}

/// The menu of a card.
pub open spec fn card_menu(app: ManagerApp, vm: VmEntry) -> Seq<ButtonView> {
    let status = app.spec_status(vm.name@);
    let copy = seq![
        wording::ghost_view(
            "Copy profile path"@,
            ""@,
            true,
            Ink::Plain,
            Action::CopyProfilePath(vm.profile_path),
        ),
    ];
    let log = match state::newest_of(app.supervisor.tasks@, vm.name@) {
        Some(t) => copy.push(
            wording::ghost_view(
                "Open activity log"@,
                ""@,
                true,
                Ink::Plain,
                Action::SelectLog(t.id),
            ),
        ),
        None => copy,
    };
    let forget = match app.spec_snapshot_for(vm.name@) {
        Some(row) => log.push(
            wording::ghost_view(
                "Forget the saved session"@,
                FORGET_HINT@,
                status == Status::Suspended,
                Ink::Plain,
                Action::AskDeleteSnapshot(row.path),
            ),
        ),
        None => log,
    };
    forget.push(
        wording::ghost_view(
            "Delete machine"@,
            ""@,
            at_rest(status),
            Ink::Plain,
            Action::AskDelete(vm.name),
        ),
    )
}

fn or_not_from_here(controllable: bool, hint: &'static str) -> (r: &'static str)
    ensures
        r@ == control_hint(controllable, hint@),
{
    if controllable {
        hint
    } else {
        NOT_FROM_HERE
    }
}

fn running_buttons(app: &ManagerApp, vm: &VmEntry) -> (r: Vec<Button>)
    requires
        app.wf(),
        app.spec_status(vm.name@) == Status::Running,
    ensures
        forall|states: Seq<FileState>|
            wording::buttons_of(r@) == #[trigger] state_buttons(*app, *vm, states),
{
    let name = &vm.name;
    let control = app.has_control(name);
    let paused = app.is_paused(name);
    let (label, hint) = if paused {
        ("Resume", CONTINUE_HINT)
    } else {
        ("Pause", PAUSE_HINT)
    };
    let mut r: Vec<Button> = Vec::new();
    wording::add_button(
        &mut r,
        wording::ghost_button("Stop", "", true, Ink::Warn, Action::Stop(name.clone())),
    );
    wording::add_button(
        &mut r,
        wording::ghost_button(
            label,
            or_not_from_here(control, hint),
            control,
            Ink::Violet,
            Action::TogglePause(name.clone()),
        ),
    );
    wording::add_button(
        &mut r,
        wording::ghost_button(
            "Restart",
            or_not_from_here(control, RESTART_HINT),
            control,
            Ink::Violet,
            Action::Reset(name.clone()),
        ),
    );
    wording::add_button(
        &mut r,
        wording::ghost_button(
            "Suspend",
            or_not_from_here(control, SUSPEND_HINT),
            control,
            Ink::Violet,
            Action::Suspend(name.clone()),
        ),
    );
    assert forall|states: Seq<FileState>|
        wording::buttons_of(r@) == #[trigger] state_buttons(*app, *vm, states) by {
        assert(wording::buttons_of(r@) =~= state_buttons(*app, *vm, states));
    }
    r
}

fn suspended_buttons(app: &ManagerApp, vm: &VmEntry, states: &Vec<FileState>) -> (r: Vec<Button>)
    requires
        app.wf(),
        states_fit(*app, vm.name@, states@),
        app.spec_status(vm.name@) == Status::Suspended,
    ensures
        wording::buttons_of(r@) == state_buttons(*app, *vm, states@),
{
    let name = &vm.name;
    let blocked: Vec<String> = match app.snapshot_for(name) {
        Some(row) => app.snapshot_verdict(row, states).blocked,
        None => Vec::new(),
    };
    assert(text::texts(blocked@) =~= resume_block(*app, name@, states@));
    let mut r: Vec<Button> = Vec::new();
    if blocked.len() == 0 {
        wording::add_button(
            &mut r,
            wording::primary_button("Resume", RESUME_HINT, Action::ResumeVm(name.clone())),
        );
    } else {
        wording::add_button(
            &mut r,
            wording::ghost_button(
                "Resume",
                &text::join(&blocked, PARAGRAPH),
                false,
                Ink::Violet,
                Action::ResumeVm(name.clone()),
            ),
        );
    }
    wording::add_button(
        &mut r,
        wording::ghost_button(
            "Start fresh…",
            FRESH_HINT,
            !misses_disk(&vm.disks),
            Ink::Warn,
            Action::AskDiscardSnapshot(name.clone()),
        ),
    );
    assert(wording::buttons_of(r@) =~= state_buttons(*app, *vm, states@));
    r
}

/// The buttons of a card. `states` are those of the files that the machine's
/// session names.
pub fn buttons(app: &ManagerApp, vm: &VmEntry, states: &Vec<FileState>) -> (r: Vec<Button>)
    requires
        app.wf(),
        states_fit(*app, vm.name@, states@),
    ensures
        wording::buttons_of(r@) == card_buttons(*app, *vm, states@),
{
    let name = &vm.name;
    let status = app.status_of(name);
    let mut r: Vec<Button> = match status {
        Status::Running => running_buttons(app, vm),
        Status::Suspended => suspended_buttons(app, vm, states),
        _ => Vec::new(),
    };
    match status {
        Status::Stopped => if !misses_disk(&vm.disks) {
            wording::add_button(
                &mut r,
                wording::primary_button("Start", "", Action::Start(name.clone())),
            );
        },
        Status::Suspending => if let Some(task) = app.supervisor.active_task(name) {
            wording::add_button(
                &mut r,
                wording::ghost_button(
                    "View activity",
                    "",
                    true,
                    Ink::Cyan,
                    Action::SelectLog(task.id),
                ),
            );
        },
        Status::Stopping => wording::add_button(
            &mut r,
            wording::ghost_button("Kill", KILL_HINT, true, Ink::Bad, Action::Stop(name.clone())),
        ),
        Status::Installing => wording::add_button(
            &mut r,
            wording::ghost_button("Abort", "", true, Ink::Bad, Action::Stop(name.clone())),
        ),
        _ => {},
    }
    assert(wording::buttons_of(r@) =~= state_buttons(*app, *vm, states@));
    let (hint, idle) = match status {
        Status::Stopped => (CONFIGURE_HINT, true),
        Status::Suspended => (CONFIGURE_SUSPENDED_HINT, true),
        _ => (STOP_THE_MACHINE, false),
    };
    wording::add_button(
        &mut r,
        wording::ghost_button(
            "Configure",
            hint,
            idle,
            Ink::Violet,
            Action::AskEditVm(name.clone()),
        ),
    );
    r
}

/// The menu of a card.
pub fn menu(app: &ManagerApp, vm: &VmEntry) -> (r: Vec<Button>)
    requires
        app.wf(),
    ensures
        wording::buttons_of(r@) == card_menu(*app, *vm),
{
    let name = &vm.name;
    let (idle, suspended) = match app.status_of(name) {
        Status::Stopped => (true, false),
        Status::Suspended => (true, true),
        _ => (false, false),
    };
    let mut r: Vec<Button> = Vec::new();
    wording::add_button(
        &mut r,
        wording::ghost_button(
            "Copy profile path",
            "",
            true,
            Ink::Plain,
            Action::CopyProfilePath(vm.profile_path.clone()),
        ),
    );
    match app.supervisor.newest_index(name) {
        Some(i) => {
            proof {
                state::lemma_newest(app.supervisor.tasks@, name@, i as int);
            }
            wording::add_button(
                &mut r,
                wording::ghost_button(
                    "Open activity log",
                    "",
                    true,
                    Ink::Plain,
                    Action::SelectLog(app.supervisor.tasks[i].id),
                ),
            );
        },
        None => {
            proof {
                state::lemma_no_newest(app.supervisor.tasks@, name@);
            }
        },
    }
    if let Some(row) = app.snapshot_for(name) {
        wording::add_button(
            &mut r,
            wording::ghost_button(
                "Forget the saved session",
                FORGET_HINT,
                suspended,
                Ink::Plain,
                Action::AskDeleteSnapshot(row.path.clone()),
            ),
        );
    }
    wording::add_button(
        &mut r,
        wording::ghost_button(
            "Delete machine",
            "",
            idle,
            Ink::Plain,
            Action::AskDelete(name.clone()),
        ),
    );
    assert(wording::buttons_of(r@) =~= card_menu(*app, *vm));
    r
}

/// The chips of a machine.
pub fn chips(app: &ManagerApp, vm: &VmEntry) -> (r: Vec<Chip>)
    requires
        app.wf(),
    ensures
        wording::chips_of(r@) == card_chips(*app, *vm),
{
    let mut r: Vec<Chip> = Vec::new();
    wording::add_chip(&mut r, text::cat(&text::decimal(vm.memory_mib), " MiB"), Ink::Cyan);
    wording::add_chip(&mut r, text::cat(&text::decimal(vm.vcpus as u64), " vCPU"), Ink::Violet);
    let display = text::cat3(
        &text::decimal(vm.display.0 as u64),
        "×",
        &text::decimal(vm.display.1 as u64),
    );
    wording::add_chip(&mut r, display, Ink::Dim);
    if let Some(interface) = &vm.network_interface {
        wording::add_chip(&mut r, interface.clone(), Ink::Good);
    }
    if Backend::Wsl.available_on_host(app.host) {
        let label = app.backend_of(&vm.name).label(app.host);
        wording::add_chip(&mut r, label.to_owned(), Ink::Accent);
    }
    assert(wording::chips_of(r@) =~= card_chips(*app, *vm));
    r
}

/// A machine's card.
pub struct Card {
    pub title: String,
    pub status: Status,
    /// Its place on the accent ramp, in hundredths.
    pub accent: u32,
    pub chips: Vec<Chip>,
    pub storage: Line,
    pub path: Line,
    /// The live numbers, if it is active.
    pub stats: Option<String>,
    pub session: Vec<Line>,
    pub buttons: Vec<Button>,
    pub menu: Vec<Button>,
    /// The lines that the buttons take.
    pub button_lines: u32,
}

/// The card of a machine. `age` says when its session was saved, and `cpu` and
/// `rss` are what was measured of it.
pub fn vm_card(
    app: &ManagerApp,
    vm: &VmEntry,
    states: &Vec<FileState>,
    age: &str,
    cpu: Option<u64>,
    rss: Option<u64>,
) -> (r: Card)
    requires
        app.wf(),
        states_fit(*app, vm.name@, states@),
        !lacks_disk(vm.disks@) ==> summable(vm.disks@),
    ensures
        r.title == vm.name,
        r.status == app.spec_status(vm.name@),
        r.accent == wording::sum_of(vstd::utf8::encode_utf8(vm.name@)) % 100,
        wording::chips_of(r.chips@) == card_chips(*app, *vm),
        r.storage@ == storage_view(*vm),
        r.path@ == (LineView {
            text: wording::tail_of(vm.profile_path@, PATH_ROOM as nat),
            ink: Ink::Faint,
            hint: vm.profile_path@,
        }),
        match state::active_of(app.supervisor.tasks@, vm.name@) {
            Some(task) if is_live(app.spec_status(vm.name@)) => text::opt_text(r.stats) == Some(
                stats_text(task, app.now, cpu, rss),
            ),
            _ => r.stats is None,
        },
        lines_of(r.session@) == suspend_lines(*app, *vm, states@, age@),
        wording::buttons_of(r.buttons@) == card_buttons(*app, *vm, states@),
        wording::buttons_of(r.menu@) == card_menu(*app, *vm),
        r.button_lines == (if app.spec_status(vm.name@) == Status::Running {
            2int
        } else {
            1
        }),
{
    let status = app.status_of(&vm.name);
    Card {
        title: vm.name.clone(),
        status,
        accent: wording::accent_for(&vm.name),
        chips: chips(app, vm),
        storage: storage_line(vm),
        path: Line {
            text: wording::shorten(&vm.profile_path, PATH_ROOM),
            ink: Ink::Faint,
            hint: vm.profile_path.clone(),
        },
        stats: live_stats_line(app, vm, cpu, rss),
        session: suspend_line(app, vm, states, age),
        buttons: buttons(app, vm, states),
        menu: menu(app, vm),
        button_lines: match status {
            Status::Running => 2,
            _ => 1,
        },
    }
}

/// A machine whose card lets it be configured or deleted is not busy: what is
/// offered is not refused.
pub proof fn idle_cards_are_not_busy(app: ManagerApp, name: Seq<char>)
    requires
        app.mock_mode || app.mock_statuses@ == Map::<Seq<char>, Status>::empty(),
        at_rest(app.spec_status(name)),
    ensures
        !app.spec_busy(name),
{
}

/// Only a machine with a child that can be controlled can be paused, restarted or
/// suspended.
pub proof fn control_needs_a_channel(app: ManagerApp, vm: VmEntry, states: Seq<FileState>, i: int)
    requires
        0 <= i < card_buttons(app, vm, states).len(),
        card_buttons(app, vm, states)[i].enabled,
        match card_buttons(app, vm, states)[i].action {
            Action::TogglePause(_) | Action::Reset(_) | Action::Suspend(_) => true,
            _ => false,
        },
    ensures
        controllable(app, vm.name@),
{
}

/// A machine with a missing disk is not booted: neither started nor started fresh.
pub proof fn missing_disks_are_not_booted(
    app: ManagerApp,
    vm: VmEntry,
    states: Seq<FileState>,
    i: int,
)
    requires
        lacks_disk(vm.disks@),
        0 <= i < card_buttons(app, vm, states).len(),
        card_buttons(app, vm, states)[i].enabled,
    ensures
        match card_buttons(app, vm, states)[i].action {
            Action::Start(_) | Action::AskDiscardSnapshot(_) => false,
            _ => true,
        },
{
}

} // verus!
