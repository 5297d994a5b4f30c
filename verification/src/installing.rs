//! Submitting the wizard, and what becomes of the children: outcomes become
//! messages, and a finished installation gets the memory and processors that
//! were asked for.
use crate::app;
use crate::backend;
use crate::backend::Reachability;
use crate::diagnose;
use crate::discovery;
use crate::host::Host;
use crate::launcher;
use crate::launcher::{DiskMode, GuestFamily, MachineView, NewMachine, Runner};
use crate::launching;
use crate::launching::{Launch, LaunchFacts, Purpose};
use crate::paths;
use crate::process;
use crate::process::{Outcome, Task, TaskKind, TaskSpec, TaskSpecView};
use crate::state;
use crate::state::{Desk, ManagerApp, Modal, PendingInstall, Toast, ToastLevel, ToastView};
use crate::text;
use vstd::prelude::*;

verus! {

/// What the host holds that a new machine depends on.
#[derive(Debug, Clone, Copy, PartialEq, Eq, Structural)]
pub struct WizardFacts {
    /// There is a profile of that name.
    pub profile_exists: bool,
    /// There is something where the disk is to be.
    pub disk_exists: bool,
    /// It is a file.
    pub disk_is_file: bool,
    /// The named installer image is a file.
    pub iso_is_file: bool,
}

pub const ENGINE_UNFOUND: &'static str =
    "the Entangled engine could not be found — see Settings ▸ Advanced";

/// The path is directly in that directory.
pub open spec fn directly_in(host: Host, path: Seq<char>, dir: Seq<char>) -> bool {
    paths::parent_of(host, path) matches Some(p) && paths::same_path(host, p, dir)
}

fn lies_directly_in(host: Host, path: &str, dir: &str) -> (r: bool)
    ensures
        r == directly_in(host, path@, dir@),
{
    match paths::parent(host, path) {
        Some(p) => paths::same(host, &p, dir),
        None => false,
    }
}

impl ManagerApp {
    /// Why a machine cannot be created as the wizard describes it, if it cannot.
    pub open spec fn wizard_fault(self, m: MachineView, facts: WizardFacts) -> Option<Seq<char>> {
        let name = text::trim_of(m.name);
        let dir = self.settings.vm_dir@;
        let disk = m.disk_at(self.host, dir);
        let iso = text::trim_of(m.iso_path);
        if discovery::name_fault(name) is Some {
            discovery::name_fault(name)
        } else if facts.profile_exists || self.spec_vm(name) is Some {
            Some("a machine named "@ + state::quoted(name) + " already exists"@)
        } else if !directly_in(self.host, disk, dir) {
            Some(
                "keep the installer disk directly in "@ + dir
                    + " so the generated profile stays visible to the manager"@,
            )
        } else if m.disk_mode == DiskMode::CreateNew && facts.disk_exists {
            Some(disk + " already exists — choose 'Use existing' or another file name"@)
        } else if m.disk_mode == DiskMode::UseExisting && !facts.disk_is_file {
            Some("existing disk "@ + disk + " was not found"@)
        } else if m.family == GuestFamily::Ubuntu && iso.len() > 0 && !facts.iso_is_file {
            Some("installer ISO "@ + iso + " was not found"@)
        } else if process::busy_in(self.supervisor.tasks@, name) {
            Some(launching::about(name, " is already being installed"@))
        } else {
            None
        }
    }

    /// Why a machine cannot be created as described, if it cannot. Asked before
    /// anything is created on disk.
    pub fn check_wizard(&self, machine: &NewMachine, facts: WizardFacts) -> (r: Option<String>)
        ensures
            text::opt_text(r) == self.wizard_fault(machine@, facts),
    {
        let name = text::trim(&machine.name);
        if let Err(e) = discovery::validate_name(&name) {
            return Some(e);
        }
        if facts.profile_exists || self.vm(&name).is_some() {
            return Some(
                text::cat3("a machine named ", &state::quote(&name), " already exists"),
            );
        }
        let disk = machine.disk_path(self.host, &self.settings.vm_dir);
        if !lies_directly_in(self.host, &disk, &self.settings.vm_dir) {
            return Some(
                text::cat3(
                    "keep the installer disk directly in ",
                    &self.settings.vm_dir,
                    " so the generated profile stays visible to the manager",
                ),
            );
        }
        match machine.disk_mode {
            DiskMode::CreateNew => {
                if facts.disk_exists {
                    return Some(
                        text::cat(
                            &disk,
                            " already exists — choose 'Use existing' or another file name",
                        ),
                    );
                }
            },
            DiskMode::UseExisting => {
                if !facts.disk_is_file {
                    return Some(text::cat3("existing disk ", &disk, " was not found"));
                }
            },
        }
        let iso = text::trim(&machine.iso_path);
        if machine.family == GuestFamily::Ubuntu && !iso.as_str().is_empty() && !facts.iso_is_file {
            return Some(text::cat3("installer ISO ", &iso, " was not found"));
        }
        if self.supervisor.is_busy(&name) {
            return Some(launching::say(&name, " is already being installed"));
        }
        None
    }

    /// What installing a machine with an engine tells, and the child it comes to
    /// or what is shown in the wizard instead. `given` is the machine as it was
    /// typed.
    pub open spec fn install_news(self, given: MachineView, cli: Seq<char>, facts: LaunchFacts) -> (
        Seq<ToastView>,
        Result<TaskSpecView, Seq<char>>,
    ) {
        let name = text::trim_of(given.name);
        let m = MachineView { name, ..given };
        let dir = self.settings.vm_dir@;
        let files = seq![
            paths::joined(self.host, dir, name + ".toml"@),
            given.disk_at(self.host, dir),
        ];
        let cwd = self.settings.spec_child_cwd(facts.current_dir);
        if self.spec_block(m.backend) is Some {
            (Seq::empty(), Err(self.spec_block(m.backend)->0))
        } else if backend::refusal_of(m.backend, files) is Some {
            (Seq::empty(), Err(backend::refusal_of(m.backend, files)->0))
        } else {
            (
                launching::note(ToastLevel::Warn, backend::caveat_of(m.backend, files)),
                match launcher::missing_artifact(
                    self.host,
                    cwd,
                    m.family,
                    facts.firmware,
                    facts.bootstrap,
                ) {
                    Some(missing) => Err(missing),
                    None => launcher::install_of(
                        self.host,
                        launcher::runner_of(m.backend, cli, self.settings),
                        dir,
                        cwd,
                        m,
                    ),
                },
            )
        }
    }

    fn plan_install(
        &self,
        machine: &NewMachine,
        disk: &str,
        profile: &str,
        cli: String,
        facts: &LaunchFacts,
        given: Ghost<MachineView>,
    ) -> (r: (Vec<Toast>, Result<TaskSpec, String>))
        requires
            machine@ == (MachineView { name: text::trim_of(given@.name), ..given@ }),
            disk@ == given@.disk_at(self.host, self.settings.vm_dir@),
            profile@ == paths::joined(self.host, self.settings.vm_dir@, machine.name@ + ".toml"@),
        ensures
            state::toast_views(r.0@) == self.install_news(given@, cli@, *facts).0,
            match self.install_news(given@, cli@, *facts).1 {
                Ok(spec) => r.1 matches Ok(s) && s@ == spec,
                Err(m) => r.1 matches Err(e) && e@ == m,
            },
    {
        let mut news: Vec<Toast> = Vec::new();
        assert(state::toast_views(news@) =~= Seq::<ToastView>::empty());
        if let Some(refusal) = self.backend_block(machine.backend) {
            return (news, Err(refusal));
        }
        let files = vec![profile.to_owned(), disk.to_owned()];
        assert(text::texts(files@) =~= seq![profile@, disk@]);
        match backend::reachability(machine.backend, &files) {
            Reachability::Refused(message) => {
                return (news, Err(message));
            },
            Reachability::Caveat(message) => {
                news.push(Toast { text: message, level: ToastLevel::Warn, born: None });
            },
            Reachability::Fine => {},
        }
        assert(state::toast_views(news@) =~= launching::note(
            ToastLevel::Warn,
            backend::caveat_of(machine.backend, seq![profile@, disk@]),
        ));
        let cwd = self.settings.child_cwd(&facts.current_dir);
        if let Some(message) = launcher::missing_install_artifact(
            self.host,
            &cwd,
            machine.family,
            &facts.firmware,
            &facts.bootstrap,
        ) {
            return (news, Err(message));
        }
        let runner = Runner::new(machine.backend, cli, &self.settings);
        let spec = launcher::install_spec(
            self.host,
            &runner,
            &self.settings.vm_dir,
            cwd,
            machine,
        );
        (news, spec)
    }

    /// What submitting the wizard did and gave.
    pub open spec fn wizard_submitted(
        before: ManagerApp,
        after: ManagerApp,
        given: MachineView,
        facts: WizardFacts,
        created: Result<(), String>,
        launch: LaunchFacts,
        r: Option<Launch>,
    ) -> bool {
        match (before.wizard_fault(given, facts), created) {
            (Some(m), _) => r is None && app::faulted_only(before, after, m),
            (None, Err(e)) => r is None && app::faulted_only(
                before,
                after,
                "cannot create "@ + before.settings.vm_dir@ + ": "@ + e@,
            ),
            (None, Ok(())) => match after.engine {
                Err(m) => {
                    &&& r is None
                    &&& Self::attempted_within(
                        before,
                        after,
                        launch.engine,
                        seq![state::fresh(ToastLevel::Error, m@)],
                    )
                    &&& state::faulted(before.desk.modal, after.desk.modal, ENGINE_UNFOUND@)
                },
                Ok(engine) => {
                    let news = before.install_news(given, engine.path@, launch);
                    &&& Self::attempted_within(before, after, launch.engine, news.0)
                    &&& match news.1 {
                        Err(m) => r is None && state::faulted(
                            before.desk.modal,
                            after.desk.modal,
                            m,
                        ),
                        Ok(spec) => {
                            &&& after.desk.modal == before.desk.modal
                            &&& r matches Some(l) && l.spec@ == spec && (
                            l.purpose matches Purpose::Install(p) && before.is_pending(p, given))
                        },
                    }
                },
            },
        }
    }

    /// `p` is the pending installation of that machine.
    pub open spec fn is_pending(self, p: PendingInstall, given: MachineView) -> bool {
        let name = text::trim_of(given.name);
        &&& p.name@ == name
        &&& p.machine@ == (MachineView { name, ..given })
        &&& p.profile_path@ == paths::joined(self.host, self.settings.vm_dir@, name + ".toml"@)
        &&& !p.applied
    }

    /// Submits the wizard: hands back the installer to be started, or shows in
    /// the wizard why there is none. `created` is what creating the machine
    /// directory gave, which is tried only when [`ManagerApp::check_wizard`]
    /// finds no fault.
    pub fn submit_wizard(
        &mut self,
        facts: WizardFacts,
        created: Result<(), String>,
        launch: &LaunchFacts,
    ) -> (r: Option<Launch>)
        requires
            old(self).wf(),
        ensures
            final(self).wf(),
            match old(self).desk.modal {
                Modal::Wizard(w) => Self::wizard_submitted(
                    *old(self),
                    *final(self),
                    w.machine@,
                    facts,
                    created,
                    *launch,
                    r,
                ),
                _ => r is None && *final(self) == *old(self),
            },
    {
        let mut machine = match &self.desk.modal {
            Modal::Wizard(w) => w.machine.clone(),
            _ => return None,
        };
        let ghost given = machine@;
        if let Some(message) = self.check_wizard(&machine, facts) {
            self.desk.modal.fail(message);
            return None;
        }
        if let Err(e) = created {
            let message = text::cat4("cannot create ", &self.settings.vm_dir, ": ", &e);
            self.desk.modal.fail(message);
            return None;
        }
        let disk = machine.disk_path(self.host, &self.settings.vm_dir);
        let name = text::trim(&machine.name);
        let profile_path = paths::join(
            self.host,
            &self.settings.vm_dir,
            &text::cat(&name, ".toml"),
        );
        machine.name = name.clone();
        let ghost told0 = self.told();
        let cli = match self.engine_path(&launch.engine) {
            Some(cli) => cli,
            None => {
                assert(self.told() =~= told0 + seq![
                    state::fresh(ToastLevel::Error, self.engine->Err_0@),
                ]);
                self.desk.modal.fail(ENGINE_UNFOUND.to_owned());
                return None;
            },
        };
        let ghost path = cli@;
        let (news, spec) = self.plan_install(
            &machine,
            &disk,
            &profile_path,
            cli,
            launch,
            Ghost(given),
        );
        assert(self.install_news(given, path, *launch) == old(self).install_news(
            given,
            path,
            *launch,
        ));
        self.desk.tell(news);
        match spec {
            Err(message) => {
                self.desk.modal.fail(message);
                None
            },
            Ok(spec) => Some(
                Launch {
                    spec,
                    purpose: Purpose::Install(
                        PendingInstall { name, machine, profile_path, applied: false },
                    ),
                },
            ),
        }
    }
}

// ---------------------------------------------------------------------------
// Finished children
// ---------------------------------------------------------------------------

/// The newest lines of a child's log, with what it has not finished writing.
pub open spec fn tail_of(task: Task, n: int) -> Seq<Seq<char>> {
    process::last_of(task.log.log().kept, n) + (if task.log.partial@.len() > 0 {
        seq![task.log.partial@]
    } else {
        Seq::<Seq<char>>::empty()
    })
}

/// What the log of a machine's newest child points at.
pub open spec fn hint_of(tasks: Seq<Task>, vm: Seq<char>) -> Seq<char> {
    match state::newest_of(tasks, vm) {
        None => Seq::empty(),
        Some(task) => match diagnose::newest_hint(tail_of(task, 60)) {
            Some(hint) => " — "@ + hint,
            None => Seq::empty(),
        },
    }
}

/// The engine's own answer to a suspend, if the machine's newest child was asked
/// for one and it has answered.
pub open spec fn suspend_answer(tasks: Seq<Task>, vm: Seq<char>) -> Option<Result<String, String>> {
    match state::newest_of(tasks, vm) {
        Some(task) => if task.suspend_since is Some {
            task.saved
        } else {
            None
        },
        None => None,
    }
}

/// The position of the first pending installation of that name, or -1.
pub open spec fn pending_pos(pending: Seq<PendingInstall>, name: Seq<char>) -> int
    decreases pending.len(),
{
    if pending.len() == 0 {
        -1
    } else if pending[0].name@ == name {
        0
    } else {
        let rest = pending_pos(pending.drop_first(), name);
        if rest < 0 {
            -1
        } else {
            rest + 1
        }
    }
}

/// The pending installations of other names.
pub open spec fn other_pending(pending: Seq<PendingInstall>, name: Seq<char>) -> Seq<PendingInstall>
    decreases pending.len(),
{
    if pending.len() == 0 {
        Seq::empty()
    } else if pending.last().name@ == name {
        other_pending(pending.drop_last(), name)
    } else {
        other_pending(pending.drop_last(), name).push(pending.last())
    }
}

pub const NOT_SUSPENDED: &'static str = ". It has stopped, and no saved session was written.";
pub const INSTALL_ABORTED: &'static str =
    " was aborted — its partial disk (and any \
     profile the CLI already wrote) are still there; Delete removes them";
pub const KEEPS_DEFAULTS: &'static str = " installed, but the profile keeps the CLI defaults: ";

/// What an installation that succeeded tells. `applied` is what writing the
/// wizard's memory and processors into the profile gave.
pub open spec fn install_note(
    pending: Seq<PendingInstall>,
    vm: Seq<char>,
    applied: Result<(), String>,
) -> (ToastLevel, Seq<char>) {
    let i = pending_pos(pending, vm);
    if i >= 0 && !pending[i].applied {
        match applied {
            Ok(()) => (
                ToastLevel::Success,
                launching::about(
                    vm,
                    " installed ("@ + text::decimal_of(pending[i].machine.memory_mib as nat)
                        + " MiB, "@ + text::decimal_of(pending[i].machine.vcpus as nat)
                        + " vCPU)"@,
                ),
            ),
            Err(e) => (ToastLevel::Warn, launching::about(vm, KEEPS_DEFAULTS@ + e@)),
        }
    } else {
        (ToastLevel::Success, launching::about(vm, " installed"@))
    }
}

/// The pending installations once that one's resources were dealt with.
pub open spec fn after_install(pending: Seq<PendingInstall>, vm: Seq<char>) -> Seq<PendingInstall> {
    let i = pending_pos(pending, vm);
    if i >= 0 && !pending[i].applied {
        pending.update(i, PendingInstall { applied: true, ..pending[i] })
    } else {
        pending
    }
}

/// How a child ended, as far as it matters to what is told.
#[derive(Debug, Clone, Copy, PartialEq, Eq, Structural)]
pub enum Ending {
    /// It wrote the machine to a file.
    Saved,
    /// It was to write the machine to a file and did not.
    NotSaved,
    /// The user stopped the machine.
    Stopped,
    /// The machine shut itself down.
    PoweredOff,
    Installed,
    InstallAborted,
    Failed,
}

pub open spec fn ending_of(
    tasks: Seq<Task>,
    kind: TaskKind,
    vm: Seq<char>,
    outcome: Outcome,
) -> Ending {
    match suspend_answer(tasks, vm) {
        Some(Ok(_)) => Ending::Saved,
        Some(Err(_)) => Ending::NotSaved,
        None => match kind {
            TaskKind::Run => if outcome.stopped_by_user {
                Ending::Stopped
            } else if outcome.success {
                Ending::PoweredOff
            } else {
                Ending::Failed
            },
            TaskKind::Install => if outcome.stopped_by_user {
                Ending::InstallAborted
            } else if outcome.success {
                Ending::Installed
            } else {
                Ending::Failed
            },
        },
    }
}

impl ManagerApp {
    /// What a finished child tells.
    pub open spec fn ending_news(
        self,
        kind: TaskKind,
        vm: Seq<char>,
        outcome: Outcome,
        applied: Result<(), String>,
    ) -> (ToastLevel, Seq<char>) {
        let tasks = self.supervisor.tasks@;
        match ending_of(tasks, kind, vm, outcome) {
            Ending::Saved => (
                ToastLevel::Success,
                launching::about(vm, " suspended — "@ + suspend_answer(tasks, vm)->0->Ok_0@),
            ),
            Ending::NotSaved => (
                ToastLevel::Error,
                launching::about(
                    vm,
                    " could not be suspended: "@ + suspend_answer(tasks, vm)->0->Err_0@
                        + NOT_SUSPENDED@,
                ),
            ),
            Ending::Stopped => (ToastLevel::Info, launching::about(vm, " stopped"@)),
            Ending::PoweredOff => (ToastLevel::Info, launching::about(vm, " powered off"@)),
            Ending::Installed => install_note(self.pending@, vm, applied),
            Ending::InstallAborted => (
                ToastLevel::Warn,
                "installation of "@ + state::quoted(vm) + INSTALL_ABORTED@,
            ),
            Ending::Failed => (
                ToastLevel::Error,
                kind.spec_label() + " of "@ + state::quoted(vm) + " failed: "@ + outcome.detail@
                    + hint_of(tasks, vm),
            ),
        }
    }

    fn suspend_outcome(&self, vm: &str) -> (r: Option<Result<String, String>>)
        ensures
            r == suspend_answer(self.supervisor.tasks@, vm@),
    {
        match self.supervisor.newest_index(vm) {
            Some(i) => {
                proof {
                    state::lemma_newest(self.supervisor.tasks@, vm@, i as int);
                }
                if self.supervisor.tasks[i].suspend_requested() {
                    match &self.supervisor.tasks[i].saved {
                        Some(saved) => Some(discovery::clone_result(saved)),
                        None => None,
                    }
                } else {
                    None
                }
            },
            None => {
                proof {
                    state::lemma_no_newest(self.supervisor.tasks@, vm@);
                }
                None
            },
        }
    }

    /// What the log of a machine's newest child points at.
    fn failure_hint(&self, vm: &str) -> (r: String)
        ensures
            r@ == hint_of(self.supervisor.tasks@, vm@),
    {
        match self.supervisor.newest_index(vm) {
            Some(i) => {
                proof {
                    state::lemma_newest(self.supervisor.tasks@, vm@, i as int);
                }
                let (lines, _) = self.supervisor.tasks[i].log_tail(60);
                match diagnose::explain(&lines) {
                    Some(hint) => text::cat(" — ", &hint),
                    None => String::new(),
                }
            },
            None => {
                proof {
                    state::lemma_no_newest(self.supervisor.tasks@, vm@);
                }
                String::new()
            },
        }
    }

    fn pending_index(&self, name: &str) -> (r: Option<usize>)
        ensures
            match r {
                Some(i) => i < self.pending@.len() && pending_pos(self.pending@, name@) == i,
                None => pending_pos(self.pending@, name@) < 0,
            },
    {
        let mut i: usize = 0;
        let ghost all = self.pending@;
        assert(all.skip(0) =~= all);
        while i < self.pending.len()
            invariant
                all == self.pending@,
                i <= all.len(),
                pending_pos(all, name@) == (if pending_pos(all.skip(i as int), name@) < 0 {
                    -1
                } else {
                    i + pending_pos(all.skip(i as int), name@)
                }),
            decreases all.len() - i,
        {
            proof {
                assert(all.skip(i as int).drop_first() =~= all.skip(i + 1));
                assert(all.skip(i as int)[0] == all[i as int]);
            }
            if text::same(&self.pending[i].name, name) {
                return Some(i);
            }
            i = i + 1;
        }
        None
    }

    /// The profile that a finished installation has to be written into, with the
    /// memory and the processors that were asked for.
    pub fn resources_to_apply(&self, kind: TaskKind, vm: &str, outcome: &Outcome) -> (r: Option<
        (String, u64, u32),
    >)
        ensures
            ({
                let i = pending_pos(self.pending@, vm@);
                r == (if ending_of(self.supervisor.tasks@, kind, vm@, *outcome) == Ending::Installed
                    && i >= 0 && !self.pending@[i].applied {
                    let p = self.pending@[i];
                    Some((p.profile_path, p.machine.memory_mib, p.machine.vcpus))
                } else {
                    None
                })
            }),
    {
        if self.ending(kind, vm, outcome) != Ending::Installed {
            return None;
        }
        match self.pending_index(vm) {
            Some(i) => {
                let p = &self.pending[i];
                if p.applied {
                    None
                } else {
                    Some((p.profile_path.clone(), p.machine.memory_mib, p.machine.vcpus))
                }
            },
            None => None,
        }
    }

    fn ending(&self, kind: TaskKind, vm: &str, outcome: &Outcome) -> (r: Ending)
        ensures
            r == ending_of(self.supervisor.tasks@, kind, vm@, *outcome),
    {
        match self.suspend_outcome(vm) {
            Some(Ok(_)) => Ending::Saved,
            Some(Err(_)) => Ending::NotSaved,
            None => match kind {
                TaskKind::Run => if outcome.stopped_by_user {
                    Ending::Stopped
                } else if outcome.success {
                    Ending::PoweredOff
                } else {
                    Ending::Failed
                },
                TaskKind::Install => if outcome.stopped_by_user {
                    Ending::InstallAborted
                } else if outcome.success {
                    Ending::Installed
                } else {
                    Ending::Failed
                },
            },
        }
    }

    fn installed_words(&self, vm: &str, applied: Result<(), String>) -> (r: (ToastLevel, String))
        ensures
            (r.0, r.1@) == install_note(self.pending@, vm@, applied),
    {
        if let Some(i) = self.pending_index(vm) {
            let p = &self.pending[i];
            if !p.applied {
                return match applied {
                    Ok(()) => {
                        let rest = text::cat5(
                            " installed (",
                            &text::decimal(p.machine.memory_mib),
                            " MiB, ",
                            &text::decimal(p.machine.vcpus as u64),
                            " vCPU)",
                        );
                        (ToastLevel::Success, launching::say(vm, &rest))
                    },
                    Err(e) => (
                        ToastLevel::Warn,
                        launching::say(vm, &text::cat(KEEPS_DEFAULTS, &e)),
                    ),
                };
            }
        }
        (ToastLevel::Success, launching::say(vm, " installed"))
    }

    fn ending_words(
        &self,
        kind: TaskKind,
        vm: &str,
        outcome: &Outcome,
        applied: Result<(), String>,
    ) -> (r: (ToastLevel, String))
        ensures
            (r.0, r.1@) == self.ending_news(kind, vm@, *outcome, applied),
    {
        match self.suspend_outcome(vm) {
            Some(Ok(detail)) => {
                return (
                    ToastLevel::Success,
                    launching::say(vm, &text::cat(" suspended — ", &detail)),
                );
            },
            Some(Err(reason)) => {
                return (
                    ToastLevel::Error,
                    launching::say(
                        vm,
                        &text::cat3(" could not be suspended: ", &reason, NOT_SUSPENDED),
                    ),
                );
            },
            None => {},
        }
        match self.ending(kind, vm, outcome) {
            Ending::Stopped => (ToastLevel::Info, launching::say(vm, " stopped")),
            Ending::PoweredOff => (ToastLevel::Info, launching::say(vm, " powered off")),
            Ending::Installed => self.installed_words(vm, applied),
            Ending::InstallAborted => (
                ToastLevel::Warn,
                text::cat3("installation of ", &state::quote(vm), INSTALL_ABORTED),
            ),
            _ => {
                let head = text::cat5(
                    kind.label(),
                    " of ",
                    &state::quote(vm),
                    " failed: ",
                    &outcome.detail,
                );
                (ToastLevel::Error, text::cat(&head, &self.failure_hint(vm)))
            },
        }
    }

    /// The log is opened: something went wrong that it may explain.
    pub open spec fn opens_log(ending: Ending) -> bool {
        ending == Ending::NotSaved || ending == Ending::Failed
    }

    /// The installations that are still pending once that child has ended.
    pub open spec fn pending_after(self, kind: TaskKind, vm: Seq<char>, ending: Ending) -> Seq<
        PendingInstall,
    > {
        match ending {
            Ending::Installed => after_install(self.pending@, vm),
            Ending::InstallAborted => other_pending(self.pending@, vm),
            Ending::Failed => if kind == TaskKind::Install {
                other_pending(self.pending@, vm)
            } else {
                self.pending@
            },
            _ => self.pending@,
        }
    }

    /// The log that is selected once that child has ended: a failed one's own.
    pub open spec fn selected_after(self, vm: Seq<char>, ending: Ending) -> Option<u64> {
        match state::newest_of(self.supervisor.tasks@, vm) {
            Some(t) if ending == Ending::Failed => Some(t.id),
            _ => self.desk.log_selected,
        }
    }

    fn drop_pending(&mut self, name: &str)
        ensures
            final(self).pending@ == other_pending(old(self).pending@, name@),
            *final(self) == (ManagerApp { pending: final(self).pending, ..*old(self) }),
    {
        let mut i: usize = self.pending.len();
        let ghost all = self.pending@;
        proof {
            assert(all.take(i as int) =~= all);
            assert(all.skip(i as int) =~= Seq::<PendingInstall>::empty());
            assert(other_pending(all, name@) + Seq::<PendingInstall>::empty() =~= other_pending(
                all,
                name@,
            ));
        }
        while i > 0
            invariant
                i <= self.pending@.len(),
                other_pending(self.pending@.take(i as int), name@) + self.pending@.skip(i as int)
                    == other_pending(old(self).pending@, name@),
                *self == (ManagerApp { pending: self.pending, ..*old(self) }),
            decreases i,
        {
            let ghost now = self.pending@;
            proof {
                assert(now.take(i as int).drop_last() =~= now.take(i - 1));
                assert(now.take(i as int).last() == now[i - 1]);
            }
            i = i - 1;
            if text::same(&self.pending[i].name, name) {
                let _ = self.pending.remove(i);
                proof {
                    assert(self.pending@.take(i as int) =~= now.take(i as int));
                    assert(self.pending@.skip(i as int) =~= now.skip(i + 1));
                }
            } else {
                proof {
                    let left = other_pending(now.take(i as int), name@);
                    assert(left.push(now[i as int]) + now.skip(i + 1) =~= left + now.skip(i as int));
                }
            }
        }
        proof {
            assert(self.pending@.take(0) =~= Seq::<PendingInstall>::empty());
            assert(self.pending@.skip(0) =~= self.pending@);
            assert(Seq::<PendingInstall>::empty() + self.pending@ =~= self.pending@);
        }
    }

    fn settle_pending_after(&mut self, kind: TaskKind, vm: &str, ending: Ending)
        ensures
            final(self).pending@ == old(self).pending_after(kind, vm@, ending),
            *final(self) == (ManagerApp { pending: final(self).pending, ..*old(self) }),
    {
        match ending {
            Ending::Installed => {
                if let Some(i) = self.pending_index(vm) {
                    let applied = self.pending[i].applied;
                    if !applied {
                        self.pending[i].applied = true;
                    }
                }
            },
            Ending::InstallAborted => self.drop_pending(vm),
            Ending::Failed => {
                if kind == TaskKind::Install {
                    self.drop_pending(vm);
                }
            },
            _ => {},
        }
    }

    /// Takes a finished child, as [`crate::process::Supervisor::drain_finished`]
    /// gives it. `applied` is what writing [`ManagerApp::resources_to_apply`]
    /// gave, where there was something to write.
    ///
    /// The exit status of a suspended machine says nothing: its engine exits
    /// cleanly whether or not the session was written. Its own answer decides.
    pub fn task_finished(
        &mut self,
        kind: TaskKind,
        vm: &str,
        outcome: &Outcome,
        applied: Result<(), String>,
    )
        requires
            old(self).wf(),
        ensures
            final(self).wf(),
            ({
                let ending = ending_of(old(self).supervisor.tasks@, kind, vm@, *outcome);
                let news = old(self).ending_news(kind, vm@, *outcome, applied);
                &&& final(self).told() == old(self).told().push(state::fresh(news.0, news.1))
                &&& final(self).pending@ == old(self).pending_after(kind, vm@, ending)
                &&& app::rescanned(*old(self), old(self).desk.requests@, *final(self), true)
                &&& *final(self) == (ManagerApp {
                    pending: final(self).pending,
                    desk: final(self).desk,
                    scanner: final(self).scanner,
                    ..*old(self)
                })
                &&& final(self).desk == (Desk {
                    toasts: final(self).desk.toasts,
                    requests: final(self).desk.requests,
                    log_open: old(self).desk.log_open || Self::opens_log(ending),
                    log_selected: old(self).selected_after(vm@, ending),
                    ..old(self).desk
                })
            }),
    {
        let ending = self.ending(kind, vm, outcome);
        let (level, message) = self.ending_words(kind, vm, outcome, applied);
        let newest = self.supervisor.newest_index(vm);
        proof {
            match newest {
                Some(i) => state::lemma_newest(self.supervisor.tasks@, vm@, i as int),
                None => state::lemma_no_newest(self.supervisor.tasks@, vm@),
            }
        }
        let selected: Option<u64> = match newest {
            Some(i) if ending == Ending::Failed => Some(self.supervisor.tasks[i].id),
            _ => self.desk.log_selected,
        };
        let open = self.desk.log_open || ending == Ending::NotSaved || ending == Ending::Failed;
        self.settle_pending_after(kind, vm, ending);
        self.desk.log_selected = selected;
        self.desk.log_open = open;
        self.toast(level, message);
        self.request_scan(true);
    }
}

/// A machine that was being suspended never reads as simply stopped or powered
/// off once its engine has answered, whatever its exit status.
pub proof fn the_engines_answer_decides(
    tasks: Seq<Task>,
    kind: TaskKind,
    vm: Seq<char>,
    outcome: Outcome,
)
    requires
        suspend_answer(tasks, vm) is Some,
    ensures
        ending_of(tasks, kind, vm, outcome) == (if suspend_answer(tasks, vm)->0 is Ok {
            Ending::Saved
        } else {
            Ending::NotSaved
        }),
{
}

} // verus!
