//! Promises about launches: what is handed to the system, and what is told of it.
use crate::app;
use crate::backend;
use crate::backend::Backend;
use crate::discovery::Removal;
use crate::installing::{Ending, WizardFacts};
use crate::launcher;
use crate::launcher::{EngineFacts, MachineView};
use crate::launching;
use crate::launching::{Launch, LaunchFacts, Purpose};
use crate::paths;
use crate::process::{ProcessError, Task};
use crate::snapshots::{FileState, SnapshotRow};
use crate::state;
use crate::state::{ManagerApp, Modal, PendingInstall, Request, ToastLevel, ToastView};
use crate::text;
use vstd::prelude::*;

verus! {

/// An attempt to launch changes only the engine, the messages and the requests; it asks for
/// the version of an engine that it found, and for nothing else.
pub proof fn an_attempt_only_looks_for_the_engine(
    before: ManagerApp,
    after: ManagerApp,
    facts: EngineFacts,
    news: Seq<ToastView>,
)
    requires
        ManagerApp::attempted(before, after, facts, news),
    ensures
        after.told() == before.told() + news,
        after.desk.modal == before.desk.modal,
        after.supervisor == before.supervisor,
        after.scan == before.scan,
        after.settings == before.settings,
        after.pending == before.pending,
        !before.mock_mode && after.engine is Ok ==> after.desk.requests@
            == before.desk.requests@.push(Request::ProbeVersion),
        before.mock_mode || after.engine is Err ==> after.desk.requests@ == before.desk.requests@,
        before.mock_mode ==> after.engine == before.engine,
{
    assert(before.desk.requests@ + seq![Request::ProbeVersion] =~= before.desk.requests@.push(
        Request::ProbeVersion,
    ));
    assert(before.desk.requests@ + Seq::<Request>::empty() =~= before.desk.requests@);
}

/// Only the machine's own active child changes when it is told something.
pub proof fn only_its_own_child_is_told(
    before: ManagerApp,
    after: ManagerApp,
    name: Seq<char>,
    t: Task,
    level: ToastLevel,
    text: Seq<char>,
    i: int,
)
    requires
        launching::child_became(before, after, name, t, level, text),
        crate::process::busy_in(before.supervisor.tasks@, name),
        0 <= i < before.supervisor.tasks@.len(),
        before.supervisor.tasks@[i].vm@ != name,
    ensures
        after.supervisor.tasks@.len() == before.supervisor.tasks@.len(),
        after.supervisor.tasks@[i] == before.supervisor.tasks@[i],
        after.supervisor.next_id == before.supervisor.next_id,
        after.told() == before.told().push(ToastView { text, level, born: None }),
        after.desk.requests == before.desk.requests,
        after.desk.modal == before.desk.modal,
{
    let tasks = before.supervisor.tasks@;
    crate::laws::starts::busy_means_an_unfinished_child(tasks, name);
    lemma_first_unfinished(tasks, name);
    let k = state::active_pos(tasks, name);
    assert(crate::process::active_at(tasks, name, k));
    assert(k != i);
}

/// A busy machine has a first child that has not finished.
proof fn lemma_first_unfinished(tasks: Seq<Task>, vm: Seq<char>)
    requires
        exists|i: int|
            0 <= i < tasks.len() && crate::process::holds_vm(#[trigger] tasks[i], vm),
    ensures
        exists|i: int| crate::process::active_at(tasks, vm, i),
    decreases tasks.len(),
{
    let i = choose|i: int|
        0 <= i < tasks.len() && crate::process::holds_vm(#[trigger] tasks[i], vm);
    lemma_first_below(tasks, vm, i);
}

proof fn lemma_first_below(tasks: Seq<Task>, vm: Seq<char>, i: int)
    requires
        0 <= i < tasks.len(),
        crate::process::holds_vm(tasks[i], vm),
    ensures
        exists|k: int| crate::process::active_at(tasks, vm, k),
    decreases i,
{
    if exists|j: int| 0 <= j < i && crate::process::holds_vm(#[trigger] tasks[j], vm) {
        let j = choose|j: int| 0 <= j < i && crate::process::holds_vm(#[trigger] tasks[j], vm);
        lemma_first_below(tasks, vm, j);
    } else {
        assert(crate::process::active_at(tasks, vm, i));
    }
}

/// A child is out of reach when there is none, or when it has no control channel.
pub proof fn reach_needs_a_channel(task: Option<Task>, name: Seq<char>)
    ensures
        launching::unreachable_text(task, name) is None <==> task is Some && task->0.control,
        launching::unreachable_text(task, name) matches Some(m) ==> text::begins_with(
            m,
            "'"@ + name + "'"@,
        ),
{
    if let Some(m) = launching::unreachable_text(task, name) {
        let head = "'"@ + name + "'"@;
        assert(m.subrange(0, head.len() as int) =~= head);
    }
}

/// A removal is faulted exactly when it failed, and then the file and the reason are told.
pub proof fn a_failed_removal_is_told(path: Seq<char>, removal: Removal)
    ensures
        launching::removal_fault(path, removal) is Some <==> removal is Failed,
        removal matches Removal::Failed(e) ==> text::holds(
            launching::removal_fault(path, removal)->0,
            path,
        ) && text::ends_with(launching::removal_fault(path, removal)->0, e@),
{
    if let Removal::Failed(e) = removal {
        let m = launching::removal_fault(path, removal)->0;
        text::lemma_held("cannot delete "@, path, ": "@ + e@);
        assert("cannot delete "@ + path + (": "@ + e@) =~= m);
        assert(m.subrange(m.len() - e@.len(), m.len() as int) =~= e@);
    }
}

/// What resumes is the session's own file, run by the engine for its machine; what WSL
/// cannot reach is refused, and a path that only works there is warned of.
pub proof fn a_resume_runs_the_engine_on_the_session(
    app: ManagerApp,
    name: Seq<char>,
    path: Seq<char>,
    cli: Seq<char>,
    current: Option<String>,
)
    ensures
        ({
            let news = app.resume_news(name, path, cli, current);
            let chosen = app.spec_backend(name);
            &&& backend::refusal_of(chosen, seq![path]) is Some ==> news.1 is None && news.0.len()
                == 1 && news.0[0].level == ToastLevel::Error
            &&& news.1 matches Some(spec) ==> backend::refusal_of(chosen, seq![path]) is None
                && spec.vm == name && spec.kind is Run && spec.control
            &&& news.1 is Some && chosen == Backend::Native ==> news.1->0.program == cli
                && news.1->0.args == seq!["resume"@, "--control-stdin"@, path]
            &&& news.1 is Some && chosen == Backend::Wsl ==> news.1->0.args[6] == "resume"@
                && backend::wsl_path_of(path) == Ok::<Seq<char>, Seq<char>>(news.1->0.args[8])
            &&& news.1 is None ==> news.0.len() > 0 && news.0.last().level == ToastLevel::Error
            &&& news.1 is Some && backend::caveat_of(chosen, seq![path]) is None ==> news.0.len()
                == 0
            &&& news.1 is Some && backend::caveat_of(chosen, seq![path]) is Some ==> news.0.len()
                == 1 && news.0[0].level == ToastLevel::Warn && news.0[0].text == backend::caveat_of(
                chosen,
                seq![path],
            )->0
        }),
{
    let chosen = app.spec_backend(name);
    let runner = launcher::runner_of(chosen, cli, app.settings);
    crate::laws::starts::a_start_runs_the_engine_on_the_file(
        app.host,
        runner,
        "resume"@,
        name,
        path,
        app.settings.spec_child_cwd(current),
        app.settings.vm_dir@,
    );
    let news = app.resume_news(name, path, cli, current);
    if chosen == Backend::Native && news.1 is Some {
        assert(news.1->0.args =~= seq!["resume"@, "--control-stdin"@, path]);
    }
}

/// A session that is refused is not resumed, and the reason is told; without an engine
/// nothing resumes either.
pub proof fn only_an_accepted_session_resumes(
    before: ManagerApp,
    after: ManagerApp,
    row: SnapshotRow,
    states: Seq<FileState>,
    facts: LaunchFacts,
    r: Option<Launch>,
)
    requires
        ManagerApp::resumed(before, after, row, states, facts, r),
    ensures
        r is Some ==> before.resume_refusal(row, states) is None && after.engine is Ok,
        r matches Some(l) ==> l.purpose matches Purpose::Resume { name } && name@
            == row.spec_vm_name()->0 && l.spec@.vm == row.spec_vm_name()->0,
        before.resume_refusal(row, states) matches Some((level, m)) ==> after.told()
            == before.told().push(ToastView { text: m, level, born: None }) && after.engine
            == before.engine,
        r is None ==> after.told().len() > before.told().len(),
        after.supervisor == before.supervisor,
        after.scan == before.scan,
        after.settings == before.settings,
{
    if before.resume_refusal(row, states) is None && after.engine is Ok {
        let engine = after.engine->Ok_0;
        a_resume_runs_the_engine_on_the_session(
            before,
            row.spec_vm_name()->0,
            row.path@,
            engine.path@,
            facts.current_dir,
        );
    }
}

/// A session is asked about before it is deleted: it must be there, and its machine idle.
pub proof fn a_session_is_asked_about_first(before: ManagerApp, after: ManagerApp, path: Seq<char>)
    requires
        launching::session_deletion_asked(before, after, path),
    ensures
        before.spec_session(path) is None ==> after.desk.modal == before.desk.modal
            && after.told().len() == before.told().len() + 1,
        before.spec_session(path) matches Some(row) ==> {
            let busy = row.spec_vm_name() is Some && before.spec_busy(row.spec_vm_name()->0);
            &&& busy ==> after.desk.modal == before.desk.modal && after.told().len()
                == before.told().len() + 1 && after.told().last().level == ToastLevel::Warn
            &&& !busy ==> (after.desk.modal matches Modal::DeleteSnapshot(s) && s.row.path@
                == row.path@ && s.error is None)
        },
        after.scan == before.scan,
        after.desk.requests == before.desk.requests,
{
}

/// A machine with a saved session does not start afresh unasked: the session is shown to
/// be given up first.
pub proof fn a_fresh_start_asks_about_the_session(
    before: ManagerApp,
    after: ManagerApp,
    name: Seq<char>,
    start: bool,
)
    requires
        launching::discard_asked(before, after, name, start),
    ensures
        start <==> before.spec_snapshot_for(name) is None,
        start ==> after == before,
        before.spec_snapshot_for(name) matches Some(row) ==> (
        after.desk.modal matches Modal::DiscardSnapshot(s) && s.vm@ == name && s.row.path@
            == row.path@ && s.error is None),
        after.scan == before.scan,
        after.supervisor == before.supervisor,
{
}

/// A launched machine's log is selected and told of; one that could not be launched is
/// told of as an error.
pub proof fn a_launch_is_told(
    before: ManagerApp,
    after: ManagerApp,
    started: Result<u64, ProcessError>,
    text: Seq<char>,
)
    requires
        ManagerApp::machine_launched(before, after, started, text),
    ensures
        started matches Ok(id) ==> after.desk.log_selected == Some(id) && after.told()
            == before.told().push(ToastView { text, level: ToastLevel::Success, born: None }),
        started matches Err(e) ==> after.desk.log_selected == before.desk.log_selected
            && after.told() == before.told().push(
            ToastView { text: e.spec_message(), level: ToastLevel::Error, born: None },
        ),
        after.desk.modal == before.desk.modal,
        after.settings == before.settings,
        after.scan == before.scan,
{
}

/// A launched installation is remembered with the backend that was chosen for it, which is
/// saved; its log opens and the wizard closes. One that could not be launched leaves the
/// wizard open with the reason.
pub proof fn a_launched_installation_is_remembered(
    before: ManagerApp,
    after: ManagerApp,
    pending: PendingInstall,
    started: Result<u64, ProcessError>,
)
    requires
        ManagerApp::install_launched(before, after, pending, started),
    ensures
        started matches Ok(id) ==> {
            &&& after.pending@ == before.pending@.push(pending)
            &&& after.desk.modal is Closed
            &&& after.desk.log_open
            &&& after.desk.log_selected == Some(id)
            &&& after.told().len() == before.told().len() + 1
            &&& after.told().last().level == ToastLevel::Success
            &&& text::holds(after.told().last().text, pending.name@)
            &&& !before.mock_mode && before.settings_path is Some ==> after.desk.requests@
                == before.desk.requests@.push(Request::SaveSettings)
            &&& after.settings.vm_dir == before.settings.vm_dir
            &&& after.scan == before.scan
        },
        started is Err ==> after.pending == before.pending && after.settings == before.settings
            && after.desk.requests == before.desk.requests,
        started matches Err(e) ==> (before.desk.modal is Wizard ==> (
        after.desk.modal matches Modal::Wizard(w) && w.error is Some && w.error->0@
            == e.spec_message())),
{
    if let Ok(id) = started {
        let said = after.told().last().text;
        text::lemma_held(
            "installing "@ + "'"@,
            pending.name@,
            "'"@ + " — watch the log below"@,
        );
        assert("installing "@ + "'"@ + pending.name@ + ("'"@ + " — watch the log below"@) =~= said);
        if !before.mock_mode && before.settings_path is Some {
            assert(before.desk.requests@ + seq![Request::SaveSettings] =~= before.desk.requests@.push(
                Request::SaveSettings,
            ));
        }
    }
}

/// A wizard with a fault launches nothing and says the fault; so does one whose directory
/// could not be made. What it launches is the installation of the named machine.
pub proof fn a_faulty_wizard_launches_nothing(
    before: ManagerApp,
    after: ManagerApp,
    given: MachineView,
    facts: WizardFacts,
    created: Result<(), String>,
    launch: LaunchFacts,
    r: Option<Launch>,
)
    requires
        ManagerApp::wizard_submitted(before, after, given, facts, created, launch, r),
        before.desk.modal is Wizard,
    ensures
        r is Some ==> before.wizard_fault(given, facts) is None && created is Ok
            && after.engine is Ok && after.desk.modal == before.desk.modal,
        r matches Some(l) ==> (l.purpose matches Purpose::Install(p) && p.name@ == text::trim_of(
            given.name,
        ) && p.machine@.name == text::trim_of(given.name) && p.machine@.vcpus == given.vcpus
            && p.machine@.memory_mib == given.memory_mib && p.machine@.backend == given.backend
            && !p.applied && p.profile_path@ == paths::joined(
            before.host,
            before.settings.vm_dir@,
            text::trim_of(given.name) + ".toml"@,
        )),
        r is None ==> (after.desk.modal matches Modal::Wizard(w) && w.error is Some),
        before.wizard_fault(given, facts) matches Some(m) ==> (
        after.desk.modal matches Modal::Wizard(w) && w.error is Some && w.error->0@ == m),
        after.pending == before.pending,
        after.settings == before.settings,
        after.supervisor == before.supervisor,
{
}

/// The log opens for what failed, and shows the child that did.
pub proof fn failures_open_the_log(app: ManagerApp, vm: Seq<char>, ending: Ending)
    ensures
        ManagerApp::opens_log(ending) <==> ending is NotSaved || ending is Failed,
        !(ending is Failed) ==> app.selected_after(vm, ending) == app.desk.log_selected,
        ending is Failed ==> (state::newest_of(app.supervisor.tasks@, vm) matches Some(t)
            ==> app.selected_after(vm, ending) == Some(t.id)),
{
}

/// A session that is shown in a dialog is the one that was listed, in everything.
pub proof fn a_shown_session_is_the_listed_one(a: SnapshotRow, b: SnapshotRow)
    requires
        crate::snapshots::same_session(a, b),
    ensures
        b.path@ == a.path@,
        b.file_name@ == a.file_name@,
        b.apparent_bytes == a.apparent_bytes,
        b.allocated_bytes == a.allocated_bytes,
        a.facts is Ok <==> b.facts is Ok,
        a.facts matches Ok(x) ==> (b.facts matches Ok(y) && y.vcpus == x.vcpus && y.memory_bytes
            == x.memory_bytes && y.files@ == x.files@ && y.host == x.host),
{
}

} // verus!
