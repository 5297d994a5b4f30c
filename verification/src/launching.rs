//! Starting, stopping and resuming machines, and what becomes of their children.
//!
//! An operation that starts a child hands back a [`Launch`]. The child is started
//! outside, and [`ManagerApp::launched`] takes what that gave.
use crate::app;
use crate::backend;
use crate::backend::{Backend, Reachability};
use crate::discovery::{DiskInfo, Removal, VmEntry};
use crate::host::Host;
use crate::launcher;
use crate::laws::starts;
use crate::launcher::{BootstrapFacts, EngineFacts, FirmwareFacts, Runner, UEFI_FIRMWARE};
use crate::process;
use crate::process::{ProcessError, Task, TaskSpec, TaskSpecView};
use crate::settings::Settings;
use crate::snapshots;
use crate::snapshots::{FileState, SnapshotRow};
use crate::state;
use crate::state::{
    DeleteSnapshotState, Desk, DiscardSnapshotState, ManagerApp, Modal, PendingInstall, Toast,
    ToastLevel, ToastView,
};
use crate::text;
use vstd::prelude::*;

verus! {

/// What the host holds that a start depends on.
#[derive(Debug, PartialEq, Eq)]
pub struct LaunchFacts {
    /// The directory the manager itself runs in.
    pub current_dir: Option<String>,
    pub engine: EngineFacts,
    pub firmware: FirmwareFacts,
    pub bootstrap: BootstrapFacts,
    /// The firmware lies where a relative profile looks for it.
    pub uefi_in_cwd: bool,
}

/// What a child is started for.
pub enum Purpose {
    /// To boot a machine, on a backend.
    Start { name: String, backend: Backend },
    /// To go on where a machine left off.
    Resume { name: String },
    /// To install a machine.
    Install(PendingInstall),
}

/// A child to be started.
pub struct Launch {
    pub spec: TaskSpec,
    pub purpose: Purpose,
}

/// A control command for a running machine.
#[derive(Debug, Clone, Copy, PartialEq, Eq, Structural)]
pub enum Command {
    Pause,
    Continue,
    Reset,
    Save,
}

// ---------------------------------------------------------------------------
// Words
// ---------------------------------------------------------------------------

pub open spec fn about(name: Seq<char>, rest: Seq<char>) -> Seq<char> {
    "'"@ + name + "'"@ + rest
}

/// A sentence that starts with a machine's name.
pub fn say(name: &str, rest: &str) -> (r: String)
    ensures
        r@ == about(name@, rest@),
{
    text::cat4("'", name, "'", rest)
}

pub const ALREADY_BUSY: &'static str = " is already busy";
pub const GONE_FROM_DISK: &'static str = " is gone from disk";
pub const NOT_RUNNING: &'static str = " is not running";
pub const NO_CONTROL: &'static str = " has no control channel — it was not started from here";

/// Why a machine cannot do something on a backend.
pub open spec fn cannot_on(
    name: Seq<char>,
    verb: Seq<char>,
    backend: Backend,
    host: Host,
    why: Seq<char>,
) -> Seq<char> {
    about(name, " cannot "@ + verb + " on "@ + backend.spec_label(host) + ": "@ + why)
}

fn cannot(name: &str, verb: &str, backend: Backend, host: Host, why: &str) -> (r: String)
    ensures
        r@ == cannot_on(name@, verb@, backend, host, why@),
{
    let head = text::cat5(" cannot ", verb, " on ", backend.label(host), ": ");
    let rest = text::cat(&head, why);
    let s = say(name, &rest);
    assert(rest@ =~= " cannot "@ + verb@ + " on "@ + backend.spec_label(host) + ": "@ + why@);
    s
}

pub const NO_FIRMWARE_WARNING: &'static str =
    " — a profile with relative boot paths will fail to \
     start (Settings ▸ Advanced ▸ working directory)";
pub const NO_KERNEL_WARNING: &'static str =
    " and none in the verified cache — a \
     profile that boots one will fail to start. `entangled fetch \
     bootstrap-kernel` downloads it";

/// Which boot artifact of a machine is missing, as a warning.
pub open spec fn boot_warning(uefi: bool, cwd: Seq<char>, facts: LaunchFacts) -> Option<Seq<char>> {
    if uefi {
        if facts.uefi_in_cwd {
            None
        } else {
            Some("no "@ + UEFI_FIRMWARE@ + " under "@ + cwd + NO_FIRMWARE_WARNING@)
        }
    } else if launcher::bootstrap_present(facts.bootstrap) {
        None
    } else {
        Some("no bootstrap kernel under "@ + cwd + NO_KERNEL_WARNING@)
    }
}

fn warn_of_boot(uefi: bool, cwd: &str, facts: &LaunchFacts) -> (r: Option<String>)
    ensures
        text::opt_text(r) == boot_warning(uefi, cwd@, *facts),
{
    if uefi {
        if facts.uefi_in_cwd {
            None
        } else {
            Some(text::cat5("no ", UEFI_FIRMWARE, " under ", cwd, NO_FIRMWARE_WARNING))
        }
    } else if launcher::bootstrap_artifacts_present(&facts.bootstrap) {
        None
    } else {
        Some(text::cat3("no bootstrap kernel under ", cwd, NO_KERNEL_WARNING))
    }
}

/// The message that a text comes to, if there is one.
pub open spec fn note(level: ToastLevel, text: Option<Seq<char>>) -> Seq<ToastView> {
    match text {
        Some(t) => seq![state::fresh(level, t)],
        None => Seq::empty(),
    }
}

/// The first disk that is not there.
pub open spec fn missing_disk(disks: Seq<DiskInfo>) -> Option<Seq<char>>
    decreases disks.len(),
{
    if disks.len() == 0 {
        None
    } else if !disks[0].exists {
        Some(disks[0].resolved@)
    } else {
        missing_disk(disks.drop_first())
    }
}

fn first_missing(disks: &Vec<DiskInfo>) -> (r: Option<String>)
    ensures
        text::opt_text(r) == missing_disk(disks@),
{
    let mut i: usize = 0;
    assert(disks@.skip(0) =~= disks@);
    while i < disks.len()
        invariant
            i <= disks@.len(),
            missing_disk(disks@) == missing_disk(disks@.skip(i as int)),
        decreases disks@.len() - i,
    {
        proof {
            assert(disks@.skip(i as int).drop_first() =~= disks@.skip(i + 1));
            assert(disks@.skip(i as int)[0] == disks@[i as int]);
        }
        if !disks[i].exists {
            return Some(disks[i].resolved.clone());
        }
        i = i + 1;
    }
    None
}

/// The files of a machine that must be visible from its backend.
pub fn machine_paths(vm: &VmEntry) -> (r: Vec<String>)
    ensures
        text::texts(r@) == state::files_of(*vm),
{
    let mut out: Vec<String> = Vec::new();
    out.push(vm.profile_path.clone());
    let ghost all = state::files_of(*vm);
    let mut i: usize = 0;
    assert(text::texts(out@) =~= all.take(1));
    while i < vm.disks.len()
        invariant
            all == state::files_of(*vm),
            i <= vm.disks@.len(),
            text::texts(out@) == all.take(i + 1),
        decreases vm.disks@.len() - i,
    {
        let ghost before = text::texts(out@);
        out.push(vm.disks[i].resolved.clone());
        proof {
            assert(all[i + 1] == vm.disks@[i as int].resolved@);
            assert(text::texts(out@) =~= before.push(vm.disks@[i as int].resolved@));
            assert(all.take(i + 2) =~= all.take(i + 1).push(all[i + 1]));
        }
        i = i + 1;
    }
    assert(all.take(i + 1) =~= all);
    out
}

// ---------------------------------------------------------------------------
// Starting
// ---------------------------------------------------------------------------

impl Desk {
    /// Shows messages, in their order.
    pub fn tell(&mut self, news: Vec<Toast>)
        ensures
            final(self).told() == old(self).told() + state::toast_views(news@),
            *final(self) == (Desk { toasts: final(self).toasts, ..*old(self) }),
    {
        let ghost before = self.told();
        let ghost more = state::toast_views(news@);
        let mut news = news;
        self.toasts.append(&mut news);
        assert(self.told() =~= before + more);
    }
}

impl ManagerApp {
    /// What starting a machine with an engine tells, and the child it comes to.
    pub open spec fn start_news(self, vm: VmEntry, cli: Seq<char>, facts: LaunchFacts) -> (
        Seq<ToastView>,
        Option<TaskSpecView>,
    ) {
        let name = vm.name@;
        let chosen = self.spec_backend(name);
        let files = state::files_of(vm);
        let cwd = self.settings.spec_child_cwd(facts.current_dir);
        if self.spec_block(chosen) is Some {
            (
                seq![
                    state::fresh(
                        ToastLevel::Error,
                        cannot_on(name, "start"@, chosen, self.host, self.spec_block(chosen)->0),
                    ),
                ],
                None,
            )
        } else if backend::refusal_of(chosen, files) is Some {
            (
                seq![
                    state::fresh(
                        ToastLevel::Error,
                        cannot_on(
                            name,
                            "start"@,
                            chosen,
                            self.host,
                            backend::refusal_of(chosen, files)->0,
                        ),
                    ),
                ],
                None,
            )
        } else {
            let notes = note(ToastLevel::Warn, backend::caveat_of(chosen, files)) + note(
                ToastLevel::Warn,
                boot_warning(vm.uefi, cwd, facts),
            );
            match launcher::start_of(
                self.host,
                launcher::runner_of(chosen, cli, self.settings),
                "run"@,
                name,
                vm.profile_path@,
                cwd,
                self.settings.vm_dir@,
            ) {
                Ok(spec) => (notes, Some(spec)),
                Err(m) => (notes.push(state::fresh(ToastLevel::Error, m)), None),
            }
        }
    }

    fn plan_start(&self, vm: &VmEntry, cli: String, facts: &LaunchFacts) -> (r: (
        Vec<Toast>,
        Option<TaskSpec>,
    ))
        requires
            self.wf(),
        ensures
            state::toast_views(r.0@) == self.start_news(*vm, cli@, *facts).0,
            match self.start_news(*vm, cli@, *facts).1 {
                Some(spec) => r.1 matches Some(s) && s@ == spec,
                None => r.1 is None,
            },
    {
        let chosen = self.backend_of(&vm.name);
        let mut news: Vec<Toast> = Vec::new();
        if let Some(refusal) = self.backend_block(chosen) {
            news.push(
                Toast {
                    text: cannot(&vm.name, "start", chosen, self.host, &refusal),
                    level: ToastLevel::Error,
                    born: None,
                },
            );
            assert(state::toast_views(news@) =~= self.start_news(*vm, cli@, *facts).0);
            return (news, None);
        }
        let files = machine_paths(vm);
        let ghost shown = text::texts(files@);
        match backend::reachability(chosen, &files) {
            Reachability::Refused(message) => {
                news.push(
                    Toast {
                        text: cannot(&vm.name, "start", chosen, self.host, &message),
                        level: ToastLevel::Error,
                        born: None,
                    },
                );
                assert(state::toast_views(news@) =~= self.start_news(*vm, cli@, *facts).0);
                return (news, None);
            },
            Reachability::Caveat(message) => {
                news.push(Toast { text: message, level: ToastLevel::Warn, born: None });
            },
            Reachability::Fine => {},
        }
        assert(state::toast_views(news@) =~= note(
            ToastLevel::Warn,
            backend::caveat_of(chosen, shown),
        ));
        let ghost first = state::toast_views(news@);
        let cwd = self.settings.child_cwd(&facts.current_dir);
        let ghost dir = cwd@;
        if let Some(message) = warn_of_boot(vm.uefi, &cwd, facts) {
            news.push(Toast { text: message, level: ToastLevel::Warn, born: None });
        }
        assert(state::toast_views(news@) =~= first + note(
            ToastLevel::Warn,
            boot_warning(vm.uefi, dir, *facts),
        ));
        let ghost notes = state::toast_views(news@);
        let runner = Runner::new(chosen, cli, &self.settings);
        match launcher::run_spec(self.host, &runner, vm, cwd, &self.settings.vm_dir) {
            Ok(spec) => (news, Some(spec)),
            Err(message) => {
                let ghost m = message@;
                news.push(Toast { text: message, level: ToastLevel::Error, born: None });
                assert(state::toast_views(news@) =~= notes.push(state::fresh(ToastLevel::Error, m)));
                (news, None)
            },
        }
    }

    /// What a start is refused for before an engine is looked for.
    pub open spec fn start_refusal(self, name: Seq<char>) -> Option<(ToastLevel, Seq<char>)> {
        if process::busy_in(self.supervisor.tasks@, name) {
            Some((ToastLevel::Warn, about(name, ALREADY_BUSY@)))
        } else {
            match self.spec_vm(name) {
                None => Some((ToastLevel::Error, about(name, GONE_FROM_DISK@))),
                Some(vm) => match missing_disk(vm.disks@) {
                    Some(disk) => Some(
                        (ToastLevel::Error, "disk "@ + disk + " is missing"@),
                    ),
                    None => None,
                },
            }
        }
    }

    fn refuse_start(&self, name: &str) -> (r: Option<(ToastLevel, String)>)
        ensures
            match self.start_refusal(name@) {
                Some((level, m)) => r matches Some(x) && x.0 == level && x.1@ == m,
                None => r is None && self.spec_vm(name@) is Some,
            },
            r is None ==> forall|i: int|
                0 <= i < self.spec_vm(name@)->0.disks@.len() ==> (
                #[trigger] self.spec_vm(name@)->0.disks@[i]).exists,
            r is None ==> forall|i: int|
                0 <= i < self.supervisor.tasks@.len() && (
                #[trigger] self.supervisor.tasks@[i]).vm@ == name@
                    ==> self.supervisor.tasks@[i].state is Finished,
    {
        proof {
            starts::only_a_whole_idle_machine_starts(*self, name@);
        }
        if self.supervisor.is_busy(name) {
            return Some((ToastLevel::Warn, say(name, ALREADY_BUSY)));
        }
        match self.vm(name) {
            None => Some((ToastLevel::Error, say(name, GONE_FROM_DISK))),
            Some(vm) => match first_missing(&vm.disks) {
                Some(disk) => Some((ToastLevel::Error, text::cat3("disk ", &disk, " is missing"))),
                None => None,
            },
        }
    }

    /// What an attempt that got as far as an engine did: the engine was looked
    /// for, `news` was told, and but for the dialog nothing else changed.
    pub open spec fn attempted_within(
        before: ManagerApp,
        after: ManagerApp,
        facts: EngineFacts,
        news: Seq<ToastView>,
    ) -> bool {
        &&& app::relocated(before, after.engine, facts)
        &&& after.desk.requests@ == before.desk.requests@ + app::probe_requests(
            before.mock_mode,
            after.engine,
        )
        &&& after.told() == before.told() + news
        &&& after == (ManagerApp { engine: after.engine, desk: after.desk, ..before })
        &&& after.desk == (Desk {
            toasts: after.desk.toasts,
            requests: after.desk.requests,
            modal: after.desk.modal,
            ..before.desk
        })
    }

    /// The same, with the dialog as it was.
    pub open spec fn attempted(
        before: ManagerApp,
        after: ManagerApp,
        facts: EngineFacts,
        news: Seq<ToastView>,
    ) -> bool {
        Self::attempted_within(before, after, facts, news) && after.desk.modal == before.desk.modal
    }

    /// Starts a machine: hands back the child to be started, or tells why there
    /// is none.
    ///
    /// Everything the chosen backend needs is checked first, rather than
    /// discovered as a failure three layers down. A boot artifact that is not
    /// where this profile may look for it is only a warning.
    pub fn start(&mut self, name: &str, facts: &LaunchFacts) -> (r: Option<Launch>)
        requires
            old(self).wf(),
        ensures
            final(self).wf(),
            match old(self).start_refusal(name@) {
                Some((level, m)) => r is None && app::told_one(*old(self), *final(self), level, m),
                None => match final(self).engine {
                    Err(m) => {
                        &&& r is None
                        &&& Self::attempted(
                            *old(self),
                            *final(self),
                            facts.engine,
                            seq![state::fresh(ToastLevel::Error, m@)],
                        )
                    },
                    Ok(engine) => {
                        let vm = old(self).spec_vm(name@)->0;
                        let news = old(self).start_news(vm, engine.path@, *facts);
                        &&& Self::attempted(*old(self), *final(self), facts.engine, news.0)
                        &&& match news.1 {
                            Some(spec) => r matches Some(launch) && launch.spec@ == spec && (
                            launch.purpose matches Purpose::Start { name: n, backend }
                                && n@ == name@ && backend == old(self).spec_backend(name@)),
                            None => r is None,
                        }
                    },
                },
            },
            r is Some ==> (old(self).spec_vm(name@) matches Some(vm) && forall|i: int|
                0 <= i < vm.disks@.len() ==> (#[trigger] vm.disks@[i]).exists),
            r matches Some(launch) ==> {
                let vm = old(self).spec_vm(name@)->0;
                &&& launch.spec.vm@ == name@
                &&& old(self).spec_backend(name@) == Backend::Native ==> text::texts(
                    launch.spec.args@,
                ) == seq!["run"@, "--control-stdin"@, vm.profile_path@]
            },
    {
        if let Some((level, message)) = self.refuse_start(name) {
            self.toast(level, message);
            return None;
        }
        let vm = match self.vm(name) {
            Some(vm) => vm.clone(),
            None => return None,
        };
        proof {
            lemma_vm_name(old(self).scan.vms@, name@);
        }
        let ghost told0 = self.told();
        let cli = match self.engine_path(&facts.engine) {
            Some(cli) => cli,
            None => {
                assert(self.told() =~= told0 + seq![
                    state::fresh(ToastLevel::Error, self.engine->Err_0@),
                ]);
                return None;
            },
        };
        let ghost path = cli@;
        let (news, spec) = self.plan_start(&vm, cli, facts);
        proof {
            let seen = old(self).spec_vm(name@)->0;
            assert(state::files_of(vm) =~= state::files_of(seen));
            assert(self.start_news(vm, path, *facts) == old(self).start_news(seen, path, *facts));
            starts::what_starts_is_the_machine_on_its_backend(*old(self), seen, path, *facts);
        }
        self.desk.tell(news);
        match spec {
            Some(spec) => Some(
                Launch {
                    spec,
                    purpose: Purpose::Start {
                        name: name.to_owned(),
                        backend: self.backend_of(name),
                    },
                },
            ),
            None => None,
        }
    }
}

/// A machine that was found under a name has that name.
pub proof fn lemma_vm_name(vms: Seq<VmEntry>, name: Seq<char>)
    ensures
        state::vm_at(vms, name) matches Some(vm) ==> vm.name@ == name,
    decreases vms.len(),
{
    if vms.len() > 0 && vms[0].name@ != name {
        lemma_vm_name(vms.drop_first(), name);
    }
}

// ---------------------------------------------------------------------------
// Stopping, pausing, restarting, suspending
// ---------------------------------------------------------------------------

/// The machine's running child became `t`, a message was told, and nothing else
/// changed.
pub open spec fn child_became(
    before: ManagerApp,
    after: ManagerApp,
    name: Seq<char>,
    t: Task,
    level: ToastLevel,
    text: Seq<char>,
) -> bool {
    &&& after.supervisor.tasks@ == before.supervisor.tasks@.update(
        state::active_pos(before.supervisor.tasks@, name),
        t,
    )
    &&& after.supervisor.next_id == before.supervisor.next_id
    &&& app::told_one(
        ManagerApp { supervisor: after.supervisor, ..before },
        after,
        level,
        text,
    )
}

/// Why a machine cannot be reached over a control channel, if it cannot.
pub open spec fn unreachable_text(task: Option<Task>, name: Seq<char>) -> Option<Seq<char>> {
    match task {
        None => Some(about(name, NOT_RUNNING@)),
        Some(t) => if t.control {
            None
        } else {
            Some(about(name, NO_CONTROL@))
        },
    }
}

/// What asking a machine to shut down does.
pub open spec fn stop_asked(before: ManagerApp, after: ManagerApp, name: Seq<char>) -> bool {
    match before.spec_child(name) {
        None => app::told_one(
            before,
            after,
            ToastLevel::Warn,
            about(name, NOT_RUNNING@),
        ),
        Some(t) => if t.stop {
            child_became(
                before,
                after,
                name,
                Task { kill: true, ..t },
                ToastLevel::Warn,
                "killing "@ + state::quoted(name),
            )
        } else {
            child_became(
                before,
                after,
                name,
                Task { stop: true, ..t },
                ToastLevel::Info,
                "asking "@ + state::quoted(name) + " to shut down"@,
            )
        },
    }
}

impl ManagerApp {
    pub open spec fn spec_child(self, name: Seq<char>) -> Option<Task> {
        state::active_of(self.supervisor.tasks@, name)
    }

    /// Asks a machine to shut down; asked again, kills it.
    pub fn stop(&mut self, name: &str)
        requires
            old(self).wf(),
        ensures
            final(self).wf(),
            stop_asked(*old(self), *final(self), name@),
    {
        let i = match self.supervisor.active_index(name) {
            Some(i) => i,
            None => {
                self.toast(ToastLevel::Warn, say(name, NOT_RUNNING));
                return;
            },
        };
        proof {
            state::lemma_active(self.supervisor.tasks@, name@, i as int);
        }
        if self.supervisor.tasks[i].stop_requested() {
            self.supervisor.kill_at(i);
            self.toast(ToastLevel::Warn, text::cat("killing ", &state::quote(name)));
        } else {
            self.supervisor.stop_at(i);
            self.toast(
                ToastLevel::Info,
                text::cat3("asking ", &state::quote(name), " to shut down"),
            );
        }
    }

    /// Where a control command for a machine goes: its running child, if that
    /// has a control channel.
    pub fn control_target(&self, name: &str) -> (r: Option<u64>)
        ensures
            r == (match self.spec_child(name@) {
                Some(t) => if t.control {
                    Some(t.id)
                } else {
                    None
                },
                None => None,
            }),
    {
        match self.supervisor.active_index(name) {
            Some(i) => {
                proof {
                    state::lemma_active(self.supervisor.tasks@, name@, i as int);
                }
                if self.supervisor.tasks[i].has_control() {
                    Some(self.supervisor.tasks[i].id)
                } else {
                    None
                }
            },
            None => None,
        }
    }

    /// The command that toggling a machine's pause comes to.
    pub fn pause_command(&self, name: &str) -> (r: Command)
        ensures
            r == (if self.spec_child(name@) matches Some(t) && t.paused {
                Command::Continue
            } else {
                Command::Pause
            }),
    {
        if self.is_paused(name) {
            Command::Continue
        } else {
            Command::Pause
        }
    }

    /// Freezes a running machine, or lets it continue. `delivered` tells whether
    /// [`ManagerApp::pause_command`] reached it.
    pub fn toggle_pause(&mut self, name: &str, delivered: bool)
        requires
            old(self).wf(),
        ensures
            final(self).wf(),
            match unreachable_text(old(self).spec_child(name@), name@) {
                Some(m) => app::told_one(*old(self), *final(self), ToastLevel::Warn, m),
                None => {
                    let t = old(self).spec_child(name@)->0;
                    if delivered {
                        child_became(
                            *old(self),
                            *final(self),
                            name@,
                            Task { paused: !t.paused, ..t },
                            ToastLevel::Info,
                            about(
                                name@,
                                if t.paused {
                                    " resumed"@
                                } else {
                                    " paused"@
                                },
                            ),
                        )
                    } else {
                        app::told_one(
                            *old(self),
                            *final(self),
                            ToastLevel::Error,
                            "could not reach "@ + state::quoted(name@) + " to pause it"@,
                        )
                    }
                },
            },
    {
        let i = match self.supervisor.active_index(name) {
            Some(i) => i,
            None => {
                self.toast(ToastLevel::Warn, say(name, NOT_RUNNING));
                return;
            },
        };
        proof {
            state::lemma_active(self.supervisor.tasks@, name@, i as int);
        }
        if !self.supervisor.tasks[i].has_control() {
            self.toast(ToastLevel::Warn, say(name, NO_CONTROL));
            return;
        }
        if !delivered {
            self.toast(
                ToastLevel::Error,
                text::cat3("could not reach ", &state::quote(name), " to pause it"),
            );
            return;
        }
        let paused = self.supervisor.tasks[i].pause_requested();
        self.supervisor.pause_at(i, !paused);
        self.toast(
            ToastLevel::Info,
            say(
                name,
                if paused {
                    " resumed"
                } else {
                    " paused"
                },
            ),
        );
    }

    /// Reboots a running machine in place. `delivered` tells whether the command
    /// reached it.
    pub fn reset(&mut self, name: &str, delivered: bool)
        requires
            old(self).wf(),
        ensures
            final(self).wf(),
            match unreachable_text(old(self).spec_child(name@), name@) {
                Some(m) => app::told_one(*old(self), *final(self), ToastLevel::Warn, m),
                None => if delivered {
                    app::told_one(
                        *old(self),
                        *final(self),
                        ToastLevel::Info,
                        "restarting "@ + state::quoted(name@),
                    )
                } else {
                    app::told_one(
                        *old(self),
                        *final(self),
                        ToastLevel::Error,
                        "could not reach "@ + state::quoted(name@) + " to restart it"@,
                    )
                },
            },
    {
        let i = match self.supervisor.active_index(name) {
            Some(i) => i,
            None => {
                self.toast(ToastLevel::Warn, say(name, NOT_RUNNING));
                return;
            },
        };
        proof {
            state::lemma_active(self.supervisor.tasks@, name@, i as int);
        }
        if !self.supervisor.tasks[i].has_control() {
            self.toast(ToastLevel::Warn, say(name, NO_CONTROL));
        } else if delivered {
            self.toast(ToastLevel::Info, text::cat("restarting ", &state::quote(name)));
        } else {
            self.toast(
                ToastLevel::Error,
                text::cat3("could not reach ", &state::quote(name), " to restart it"),
            );
        }
    }

    /// Writes a running machine to a file and stops it. `delivered` tells whether
    /// the command reached it. A machine that is being written already is left
    /// alone.
    pub fn suspend(&mut self, name: &str, delivered: bool)
        requires
            old(self).wf(),
        ensures
            final(self).wf(),
            match unreachable_text(old(self).spec_child(name@), name@) {
                Some(m) => app::told_one(*old(self), *final(self), ToastLevel::Warn, m),
                None => {
                    let t = old(self).spec_child(name@)->0;
                    if t.suspend_since is Some {
                        *final(self) == *old(self)
                    } else if delivered {
                        child_became(
                            *old(self),
                            *final(self),
                            name@,
                            Task { suspend_since: Some(old(self).now), ..t },
                            ToastLevel::Info,
                            "suspending "@ + state::quoted(name@)
                                + " — writing its memory to disk"@,
                        )
                    } else {
                        app::told_one(
                            *old(self),
                            *final(self),
                            ToastLevel::Error,
                            "could not reach "@ + state::quoted(name@) + " to suspend it"@,
                        )
                    }
                },
            },
    {
        let i = match self.supervisor.active_index(name) {
            Some(i) => i,
            None => {
                self.toast(ToastLevel::Warn, say(name, NOT_RUNNING));
                return;
            },
        };
        proof {
            state::lemma_active(self.supervisor.tasks@, name@, i as int);
        }
        if !self.supervisor.tasks[i].has_control() {
            self.toast(ToastLevel::Warn, say(name, NO_CONTROL));
            return;
        }
        if self.supervisor.tasks[i].suspend_requested() {
            return;
        }
        if !delivered {
            self.toast(
                ToastLevel::Error,
                text::cat3("could not reach ", &state::quote(name), " to suspend it"),
            );
            return;
        }
        self.supervisor.suspend_at(i, self.now);
        self.toast(
            ToastLevel::Info,
            text::cat3("suspending ", &state::quote(name), " — writing its memory to disk"),
        );
    }
}

// ---------------------------------------------------------------------------
// Saved sessions
// ---------------------------------------------------------------------------

/// What deleting a file comes to. One that was already gone is as good as
/// deleted: that is what was asked for.
pub open spec fn removal_fault(path: Seq<char>, removal: Removal) -> Option<Seq<char>> {
    match removal {
        Removal::Failed(e) => Some("cannot delete "@ + path + ": "@ + e@),
        _ => None,
    }
}

/// What deleting a file comes to.
pub fn remove_if_present(path: &str, removal: Removal) -> (r: Result<(), String>)
    ensures
        match removal_fault(path@, removal) {
            Some(m) => r matches Err(e) && e@ == m,
            None => r is Ok,
        },
{
    match removal {
        Removal::Failed(e) => Err(text::cat4("cannot delete ", path, ": ", &e)),
        _ => Ok(()),
    }
}

pub const SESSION_GONE: &'static str = "that saved session is gone from the list";
pub const SESSION_BUSY: &'static str =
    "that machine is busy — a snapshot must not be deleted underneath it";
pub const UNREADABLE_SESSION: &'static str = " cannot be read, so there is nothing to resume";

impl ManagerApp {
    /// What a resume is refused for before an engine is looked for.
    pub open spec fn resume_refusal(self, row: SnapshotRow, states: Seq<FileState>) -> Option<
        (ToastLevel, Seq<char>),
    > {
        match row.spec_vm_name() {
            None => Some((ToastLevel::Error, row.path@ + UNREADABLE_SESSION@)),
            Some(name) => if process::busy_in(self.supervisor.tasks@, name) {
                Some((ToastLevel::Warn, about(name, ALREADY_BUSY@)))
            } else if self.spec_verdict(row, states).0.len() > 0 {
                Some((ToastLevel::Error, self.spec_verdict(row, states).0[0]))
            } else {
                None
            },
        }
    }

    fn refuse_resume(&self, row: &SnapshotRow, states: &Vec<FileState>) -> (r: Option<
        (ToastLevel, String),
    >)
        requires
            self.wf(),
            row.facts matches Ok(f) ==> states@.len() == f.files@.len(),
        ensures
            match self.resume_refusal(*row, states@) {
                Some((level, m)) => r matches Some(x) && x.0 == level && x.1@ == m,
                None => r is None && row.spec_vm_name() is Some,
            },
    {
        let name = match row.vm_name() {
            Some(name) => name,
            None => {
                return Some((ToastLevel::Error, text::cat(&row.path, UNREADABLE_SESSION)));
            },
        };
        if self.supervisor.is_busy(name) {
            return Some((ToastLevel::Warn, say(name, ALREADY_BUSY)));
        }
        let verdict = self.snapshot_verdict(row, states);
        if verdict.blocked.len() > 0 {
            assert(text::texts(verdict.blocked@)[0] == verdict.blocked@[0]@);
            return Some((ToastLevel::Error, verdict.blocked[0].clone()));
        }
        assert(text::texts(verdict.blocked@).len() == 0);
        None
    }

    /// What resuming a session with an engine tells, and the child it comes to.
    pub open spec fn resume_news(
        self,
        name: Seq<char>,
        path: Seq<char>,
        cli: Seq<char>,
        current_dir: Option<String>,
    ) -> (Seq<ToastView>, Option<TaskSpecView>) {
        let chosen = self.spec_backend(name);
        let files = seq![path];
        if backend::refusal_of(chosen, files) is Some {
            (
                seq![
                    state::fresh(
                        ToastLevel::Error,
                        cannot_on(
                            name,
                            "resume"@,
                            chosen,
                            self.host,
                            backend::refusal_of(chosen, files)->0,
                        ),
                    ),
                ],
                None,
            )
        } else {
            let notes = note(ToastLevel::Warn, backend::caveat_of(chosen, files));
            match launcher::start_of(
                self.host,
                launcher::runner_of(chosen, cli, self.settings),
                "resume"@,
                name,
                path,
                self.settings.spec_child_cwd(current_dir),
                self.settings.vm_dir@,
            ) {
                Ok(spec) => (notes, Some(spec)),
                Err(m) => (notes.push(state::fresh(ToastLevel::Error, m)), None),
            }
        }
    }

    fn plan_resume(
        &self,
        name: &str,
        path: &str,
        cli: String,
        current_dir: &Option<String>,
    ) -> (r: (Vec<Toast>, Option<TaskSpec>))
        requires
            self.wf(),
        ensures
            state::toast_views(r.0@) == self.resume_news(name@, path@, cli@, *current_dir).0,
            match self.resume_news(name@, path@, cli@, *current_dir).1 {
                Some(spec) => r.1 matches Some(s) && s@ == spec,
                None => r.1 is None,
            },
    {
        let chosen = self.backend_of(name);
        let mut news: Vec<Toast> = Vec::new();
        let files = vec![path.to_owned()];
        assert(text::texts(files@) =~= seq![path@]);
        match backend::reachability(chosen, &files) {
            Reachability::Refused(message) => {
                news.push(
                    Toast {
                        text: cannot(name, "resume", chosen, self.host, &message),
                        level: ToastLevel::Error,
                        born: None,
                    },
                );
                assert(state::toast_views(news@) =~= self.resume_news(
                    name@,
                    path@,
                    cli@,
                    *current_dir,
                ).0);
                return (news, None);
            },
            Reachability::Caveat(message) => {
                news.push(Toast { text: message, level: ToastLevel::Warn, born: None });
            },
            Reachability::Fine => {},
        }
        assert(state::toast_views(news@) =~= note(
            ToastLevel::Warn,
            backend::caveat_of(chosen, seq![path@]),
        ));
        let ghost notes = state::toast_views(news@);
        let runner = Runner::new(chosen, cli, &self.settings);
        let cwd = self.settings.child_cwd(current_dir);
        match launcher::resume_spec(self.host, &runner, name, path, cwd, &self.settings.vm_dir) {
            Ok(spec) => (news, Some(spec)),
            Err(message) => {
                let ghost m = message@;
                news.push(Toast { text: message, level: ToastLevel::Error, born: None });
                assert(state::toast_views(news@) =~= notes.push(state::fresh(ToastLevel::Error, m)));
                (news, None)
            },
        }
    }

    /// What resuming a session does.
    pub open spec fn resumed(
        before: ManagerApp,
        after: ManagerApp,
        row: SnapshotRow,
        states: Seq<FileState>,
        facts: LaunchFacts,
        r: Option<Launch>,
    ) -> bool {
        match before.resume_refusal(row, states) {
            Some((level, m)) => r is None && app::told_one(before, after, level, m),
            None => match after.engine {
                Err(m) => r is None && Self::attempted(
                    before,
                    after,
                    facts.engine,
                    seq![state::fresh(ToastLevel::Error, m@)],
                ),
                Ok(engine) => {
                    let name = row.spec_vm_name()->0;
                    let news = before.resume_news(
                        name,
                        row.path@,
                        engine.path@,
                        facts.current_dir,
                    );
                    &&& Self::attempted(before, after, facts.engine, news.0)
                    &&& match news.1 {
                        Some(spec) => r matches Some(launch) && launch.spec@ == spec && (
                        launch.purpose matches Purpose::Resume { name: n } && n@ == name),
                        None => r is None,
                    }
                },
            },
        }
    }

    /// Starts a saved session, whether or not a profile of that name still
    /// exists here. The verdict is taken again at this moment, from `states`: a
    /// disk can change between two scans.
    fn resume_row(&mut self, row: &SnapshotRow, states: &Vec<FileState>, facts: &LaunchFacts) -> (r:
        Option<Launch>)
        requires
            old(self).wf(),
            row.facts matches Ok(f) ==> states@.len() == f.files@.len(),
        ensures
            final(self).wf(),
            Self::resumed(*old(self), *final(self), *row, states@, *facts, r),
    {
        if let Some((level, message)) = self.refuse_resume(row, states) {
            self.toast(level, message);
            return None;
        }
        let name: String = match row.vm_name() {
            Some(name) => name.to_owned(),
            None => return None,
        };
        let ghost told0 = self.told();
        let cli = match self.engine_path(&facts.engine) {
            Some(cli) => cli,
            None => {
                assert(self.told() =~= told0 + seq![
                    state::fresh(ToastLevel::Error, self.engine->Err_0@),
                ]);
                return None;
            },
        };
        let ghost path = cli@;
        let (news, spec) = self.plan_resume(&name, &row.path, cli, &facts.current_dir);
        assert(self.resume_news(name@, row.path@, path, facts.current_dir) == old(self).resume_news(
            name@,
            row.path@,
            path,
            facts.current_dir,
        ));
        self.desk.tell(news);
        match spec {
            Some(spec) => Some(Launch { spec, purpose: Purpose::Resume { name } }),
            None => None,
        }
    }

    /// Starts the session in that file. `states` tells what became of the files
    /// the machine had open.
    pub fn resume_snapshot(
        &mut self,
        path: &str,
        states: &Vec<FileState>,
        facts: &LaunchFacts,
    ) -> (r: Option<Launch>)
        requires
            old(self).wf(),
            old(self).spec_session(path@) matches Some(row) ==> (row.facts matches Ok(f)
                ==> states@.len() == f.files@.len()),
        ensures
            final(self).wf(),
            match old(self).spec_session(path@) {
                Some(row) => Self::resumed(*old(self), *final(self), row, states@, *facts, r),
                None => r is None && app::told_one(
                    *old(self),
                    *final(self),
                    ToastLevel::Error,
                    path@ + " is gone from the list"@,
                ),
            },
    {
        let row = match self.session(path) {
            Some(row) => row.clone(),
            None => {
                self.toast(ToastLevel::Error, text::cat(path, " is gone from the list"));
                return None;
            },
        };
        proof {
            lemma_same_session(*old(self), old(self).spec_session(path@)->0, row, states@);
        }
        self.resume_row(&row, states, facts)
    }

    /// Starts a machine from its saved session instead of booting it.
    pub fn resume_vm(&mut self, name: &str, states: &Vec<FileState>, facts: &LaunchFacts) -> (r:
        Option<Launch>)
        requires
            old(self).wf(),
            old(self).spec_snapshot_for(name@) matches Some(row) ==> (row.facts matches Ok(f)
                ==> states@.len() == f.files@.len()),
        ensures
            final(self).wf(),
            match old(self).spec_snapshot_for(name@) {
                Some(row) => Self::resumed(*old(self), *final(self), row, states@, *facts, r),
                None => r is None && app::told_one(
                    *old(self),
                    *final(self),
                    ToastLevel::Warn,
                    about(name@, " has no saved session to come back from"@),
                ),
            },
    {
        let row = match self.snapshot_for(name) {
            Some(row) => row.clone(),
            None => {
                self.toast(
                    ToastLevel::Warn,
                    say(name, " has no saved session to come back from"),
                );
                return None;
            },
        };
        proof {
            lemma_same_session(*old(self), old(self).spec_snapshot_for(name@)->0, row, states@);
        }
        self.resume_row(&row, states, facts)
    }
}

/// Sessions that say the same are judged the same.
proof fn lemma_same_session(
    app: ManagerApp,
    a: SnapshotRow,
    b: SnapshotRow,
    states: Seq<FileState>,
)
    requires
        snapshots::same_session(a, b),
    ensures
        app.resume_refusal(a, states) == app.resume_refusal(b, states),
        a.spec_vm_name() == b.spec_vm_name(),
{
    let name = ManagerApp::session_vm(a);
    if let (Ok(x), Ok(y)) = (a.facts, b.facts) {
        if let Some(vm) = app.spec_vm(name) {
            assert(snapshots::shape_changed(x, vm) == snapshots::shape_changed(y, vm));
        }
    }
    assert(app.spec_verdict(a, states) == app.spec_verdict(b, states));
}

/// What asking whether a saved session is to be deleted does.
pub open spec fn session_deletion_asked(before: ManagerApp, after: ManagerApp, path: Seq<char>) -> bool {
    match before.spec_session(path) {
        None => app::told_one(before, after, ToastLevel::Error, SESSION_GONE@),
        Some(row) => if row.spec_vm_name() matches Some(name) && before.spec_busy(name) {
            app::told_one(before, after, ToastLevel::Warn, SESSION_BUSY@)
        } else {
            &&& after.desk.modal matches Modal::DeleteSnapshot(s) && s.error is None
                && snapshots::same_session(row, s.row)
            &&& app::only_modal(before, after)
        },
    }
}

/// What asking whether a saved session is to be thrown away does. `start` tells that
/// there is none.
pub open spec fn discard_asked(before: ManagerApp, after: ManagerApp, name: Seq<char>, start: bool) -> bool {
    match before.spec_snapshot_for(name) {
        None => start && after == before,
        Some(row) => {
            &&& !start
            &&& after.desk.modal matches Modal::DiscardSnapshot(s) && s.error is None
                && s.vm@ == name && snapshots::same_session(row, s.row)
            &&& app::only_modal(before, after)
        },
    }
}

impl ManagerApp {
    /// Asks whether a saved session is to be deleted, unless its machine is busy.
    pub fn ask_delete_snapshot(&mut self, path: &str)
        requires
            old(self).wf(),
        ensures
            session_deletion_asked(*old(self), *final(self), path@),
    {
        let row = match self.session(path) {
            Some(row) => row.clone(),
            None => {
                self.toast(ToastLevel::Error, SESSION_GONE.to_owned());
                return;
            },
        };
        let busy = match row.vm_name() {
            Some(name) => self.is_busy(name),
            None => false,
        };
        if busy {
            self.toast(ToastLevel::Warn, SESSION_BUSY.to_owned());
            return;
        }
        self.desk.modal = Modal::DeleteSnapshot(DeleteSnapshotState { row, error: None });
    }

    /// The file that the open confirmation is about to delete.
    pub fn session_to_delete(&self) -> (r: Option<String>)
        ensures
            r == match self.desk.modal {
                Modal::DeleteSnapshot(s) => Some(s.row.path),
                Modal::DiscardSnapshot(s) => Some(s.row.path),
                _ => None,
            },
    {
        match &self.desk.modal {
            Modal::DeleteSnapshot(s) => Some(s.row.path.clone()),
            Modal::DiscardSnapshot(s) => Some(s.row.path.clone()),
            _ => None,
        }
    }

    /// Takes what deleting the confirmed session gave.
    pub fn confirm_delete_snapshot(&mut self, removal: Removal)
        ensures
            match old(self).desk.modal {
                Modal::DeleteSnapshot(s) => match removal_fault(s.row.path@, removal) {
                    None => app::concluded(
                        *old(self),
                        *final(self),
                        ToastLevel::Success,
                        "deleted the saved session "@ + s.row.path@,
                    ),
                    Some(m) => app::faulted_only(*old(self), *final(self), m),
                },
                _ => *final(self) == *old(self),
            },
    {
        let path = match &self.desk.modal {
            Modal::DeleteSnapshot(s) => s.row.path.clone(),
            _ => return,
        };
        match remove_if_present(&path, removal) {
            Ok(()) => {
                self.conclude(
                    ToastLevel::Success,
                    text::cat("deleted the saved session ", &path),
                );
            },
            Err(message) => self.desk.modal.fail(message),
        }
    }

    /// Asks whether a machine is to be booted although it has a saved session.
    /// Without one there is nothing to ask, and the result tells that it is to be
    /// started.
    pub fn ask_discard_snapshot(&mut self, name: &str) -> (r: bool)
        ensures
            discard_asked(*old(self), *final(self), name@, r),
    {
        let row = match self.snapshot_for(name) {
            Some(row) => row.clone(),
            None => return true,
        };
        self.desk.modal = Modal::DiscardSnapshot(
            DiscardSnapshotState { vm: name.to_owned(), row, error: None },
        );
        false
    }

    /// Takes what deleting the session of a machine that is to be booted gave,
    /// and hands back the machine to be started now.
    ///
    /// The session is deleted rather than left: the booted guest writes to the
    /// disk within seconds, and from then on it could only be refused.
    pub fn confirm_discard_snapshot(&mut self, removal: Removal) -> (r: Option<String>)
        ensures
            match old(self).desk.modal {
                Modal::DiscardSnapshot(s) => match removal_fault(s.row.path@, removal) {
                    None => {
                        &&& r == Some(s.vm)
                        &&& final(self).desk.modal is Closed
                        &&& final(self).told() == old(self).told()
                        &&& app::rescanned(
                            *old(self),
                            old(self).desk.requests@,
                            *final(self),
                            true,
                        )
                        &&& app::kept(*old(self), *final(self))
                    },
                    Some(m) => r is None && app::faulted_only(*old(self), *final(self), m),
                },
                _ => r is None && *final(self) == *old(self),
            },
    {
        let (vm, path) = match &self.desk.modal {
            Modal::DiscardSnapshot(s) => (s.vm.clone(), s.row.path.clone()),
            _ => return None,
        };
        match remove_if_present(&path, removal) {
            Ok(()) => {
                self.desk.modal = Modal::Closed;
                self.request_scan(true);
                Some(vm)
            },
            Err(message) => {
                self.desk.modal.fail(message);
                None
            },
        }
    }
}

// ---------------------------------------------------------------------------
// What became of a child that was to be started
// ---------------------------------------------------------------------------

impl ManagerApp {
    /// What starting a child gave, for a machine that boots or resumes.
    pub open spec fn machine_launched(
        before: ManagerApp,
        after: ManagerApp,
        started: Result<u64, ProcessError>,
        text: Seq<char>,
    ) -> bool {
        let mid = ManagerApp { supervisor: after.supervisor, ..before };
        match started {
            Ok(id) => app::told_one(
                ManagerApp { desk: Desk { log_selected: Some(id), ..before.desk }, ..mid },
                after,
                ToastLevel::Success,
                text,
            ),
            Err(e) => app::told_one(mid, after, ToastLevel::Error, e.spec_message()),
        }
    }

    /// What starting a child gave, for an installation.
    pub open spec fn install_launched(
        before: ManagerApp,
        after: ManagerApp,
        pending: PendingInstall,
        started: Result<u64, ProcessError>,
    ) -> bool {
        match started {
            Ok(id) => {
                &&& after.pending@ == before.pending@.push(pending)
                &&& after.settings.vm_backends@ == before.settings.backends_with(
                    pending.name@,
                    pending.machine.backend,
                )
                &&& after.settings == (Settings {
                    vm_backends: after.settings.vm_backends,
                    ..before.settings
                })
                &&& after.told() == before.told().push(
                    state::fresh(
                        ToastLevel::Success,
                        "installing "@ + state::quoted(pending.name@)
                            + " — watch the log below"@,
                    ),
                )
                &&& after.desk.requests@ == before.desk.requests@ + before.save_requests()
                &&& after == (ManagerApp {
                    supervisor: after.supervisor,
                    pending: after.pending,
                    settings: after.settings,
                    desk: after.desk,
                    ..before
                })
                &&& after.desk == (Desk {
                    log_selected: Some(id),
                    log_open: true,
                    modal: Modal::Closed,
                    toasts: after.desk.toasts,
                    requests: after.desk.requests,
                    ..before.desk
                })
            },
            Err(e) => app::faulted_only(
                ManagerApp { supervisor: after.supervisor, ..before },
                after,
                e.spec_message(),
            ),
        }
    }

    /// Takes whether a child could be started. The machine keeps the backend it
    /// was installed on.
    pub fn launched(&mut self, launch: Launch, started: Result<(), ProcessError>) -> (r: Result<
        u64,
        ProcessError,
    >)
        requires
            old(self).wf(),
            old(self).supervisor.next_id < u64::MAX,
        ensures
            final(self).wf(),
            process::spawn_gives(
                old(self).supervisor,
                final(self).supervisor,
                launch.spec,
                started,
                old(self).now,
                r,
            ),
            match launch.purpose {
                Purpose::Start { name, backend } => Self::machine_launched(
                    *old(self),
                    *final(self),
                    r,
                    "starting "@ + state::quoted(name@) + " on "@ + backend.spec_label(
                        old(self).host,
                    ) + (if backend == Backend::Wsl {
                        " — its window opens through WSLg"@
                    } else {
                        ""@
                    }),
                ),
                Purpose::Resume { name } => Self::machine_launched(
                    *old(self),
                    *final(self),
                    r,
                    "resuming "@ + state::quoted(name@) + " where it left off"@,
                ),
                Purpose::Install(pending) => Self::install_launched(
                    *old(self),
                    *final(self),
                    pending,
                    r,
                ),
            },
    {
        let id = self.supervisor.spawn(launch.spec, started, self.now);
        match launch.purpose {
            Purpose::Start { name, backend } => {
                let window = if backend == Backend::Wsl {
                    " — its window opens through WSLg"
                } else {
                    ""
                };
                let text = text::cat5(
                    "starting ",
                    &state::quote(&name),
                    " on ",
                    backend.label(self.host),
                    window,
                );
                self.show_launch(&id, text);
            },
            Purpose::Resume { name } => {
                let text = text::cat3(
                    "resuming ",
                    &state::quote(&name),
                    " where it left off",
                );
                self.show_launch(&id, text);
            },
            Purpose::Install(pending) => {
                self.show_install(&id, pending);
            },
        }
        id
    }

    fn show_launch(&mut self, id: &Result<u64, ProcessError>, text: String)
        ensures
            Self::machine_launched(*old(self), *final(self), *id, text@),
            final(self).supervisor == old(self).supervisor,
    {
        match id {
            Ok(id) => {
                self.desk.log_selected = Some(*id);
                self.toast(ToastLevel::Success, text);
            },
            Err(e) => self.toast(ToastLevel::Error, e.message()),
        }
    }

    fn show_install(&mut self, id: &Result<u64, ProcessError>, pending: PendingInstall)
        requires
            old(self).settings.wf(),
        ensures
            Self::install_launched(*old(self), *final(self), pending, *id),
            final(self).supervisor == old(self).supervisor,
            final(self).settings.wf(),
    {
        match id {
            Ok(id) => {
                let text = text::cat3(
                    "installing ",
                    &state::quote(&pending.name),
                    " — watch the log below",
                );
                self.settings.set_backend_for(&pending.name, pending.machine.backend);
                self.pending.push(pending);
                self.desk.log_selected = Some(*id);
                self.desk.log_open = true;
                self.desk.modal = Modal::Closed;
                self.persist_settings_quietly();
                self.toast(ToastLevel::Success, text);
            },
            Err(e) => self.desk.modal.fail(e.message()),
        }
    }
}

} // verus!
