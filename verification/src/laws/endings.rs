//! Promises about children that are over: what their end means, what is told of it, and
//! what becomes of an installation that was pending.
use crate::installing;
use crate::installing::Ending;
use crate::process::{Outcome, Task, TaskKind};
use crate::state;
use crate::state::{ManagerApp, PendingInstall, ToastLevel};
use crate::text;
use vstd::prelude::*;

verus! {

/// The newest child of a machine is the last that belongs to it.
pub proof fn the_newest_child_is_the_last(tasks: Seq<Task>, vm: Seq<char>, i: int)
    requires
        0 <= i < tasks.len(),
        tasks[i].vm@ == vm,
        forall|j: int| i < j < tasks.len() ==> (#[trigger] tasks[j]).vm@ != vm,
    ensures
        state::newest_of(tasks, vm) == Some(tasks[i]),
    decreases tasks.len(),
{
    if i < tasks.len() - 1 {
        let init = tasks.drop_last();
        assert(tasks[tasks.len() - 1].vm@ != vm);
        assert forall|j: int| i < j < init.len() implies (#[trigger] init[j]).vm@ != vm by {
            assert(init[j] == tasks[j]);
        }
        the_newest_child_is_the_last(init, vm, i);
    }
}

/// A machine that was to be suspended is judged by its engine's own answer; any other by
/// whether the user stopped it, and else by whether it succeeded. Only an installer
/// installs.
pub proof fn an_end_means_what_led_to_it(
    tasks: Seq<Task>,
    kind: TaskKind,
    vm: Seq<char>,
    outcome: Outcome,
    i: int,
)
    requires
        0 <= i < tasks.len(),
        tasks[i].vm@ == vm,
        forall|j: int| i < j < tasks.len() ==> (#[trigger] tasks[j]).vm@ != vm,
    ensures
        ({
            let ending = installing::ending_of(tasks, kind, vm, outcome);
            if tasks[i].suspend_since is Some && tasks[i].saved is Some {
                &&& tasks[i].saved->0 is Ok ==> ending == Ending::Saved
                &&& tasks[i].saved->0 is Err ==> ending == Ending::NotSaved
            } else if outcome.stopped_by_user {
                &&& kind == TaskKind::Run ==> ending == Ending::Stopped
                &&& kind == TaskKind::Install ==> ending == Ending::InstallAborted
            } else if outcome.success {
                &&& kind == TaskKind::Run ==> ending == Ending::PoweredOff
                &&& kind == TaskKind::Install ==> ending == Ending::Installed
            } else {
                ending == Ending::Failed
            }
        }),
{
    the_newest_child_is_the_last(tasks, vm, i);
}

/// Every end is told under the machine's name: a failure, and a session that was not
/// written, as an error with its reason; an aborted installation as a warning; anything
/// else as no worse than information.
pub proof fn every_end_is_told(
    app: ManagerApp,
    kind: TaskKind,
    vm: Seq<char>,
    outcome: Outcome,
    applied: Result<(), String>,
)
    ensures
        ({
            let ending = installing::ending_of(app.supervisor.tasks@, kind, vm, outcome);
            let (level, said) = app.ending_news(kind, vm, outcome, applied);
            &&& text::holds(said, vm)
            &&& ending == Ending::Failed || ending == Ending::NotSaved <==> level
                == ToastLevel::Error
            &&& ending == Ending::InstallAborted ==> level == ToastLevel::Warn
            &&& ending == Ending::Saved || (ending == Ending::Installed && applied is Ok) ==> level
                == ToastLevel::Success
            &&& ending == Ending::Stopped || ending == Ending::PoweredOff ==> level
                == ToastLevel::Info
            &&& ending == Ending::Failed ==> text::holds(said, outcome.detail@)
        }),
{
    let ending = installing::ending_of(app.supervisor.tasks@, kind, vm, outcome);
    let (level, said) = app.ending_news(kind, vm, outcome, applied);
    let q = "'"@;
    if ending == Ending::InstallAborted {
        let head = "installation of "@ + q;
        let tail = q + installing::INSTALL_ABORTED@;
        text::lemma_held(head, vm, tail);
        assert(head + vm + tail =~= said);
    } else if ending == Ending::Failed {
        let head = kind.spec_label() + " of "@ + q;
        let hint = installing::hint_of(app.supervisor.tasks@, vm);
        let tail = q + " failed: "@ + outcome.detail@ + hint;
        text::lemma_held(head, vm, tail);
        assert(head + vm + tail =~= said);
        let before = head + vm + q + " failed: "@;
        text::lemma_held(before, outcome.detail@, hint);
        assert(before + outcome.detail@ + hint =~= said);
    } else {
        let tail = said.skip((q + vm).len() as int);
        text::lemma_held(q, vm, tail);
        assert(q + vm + tail =~= said);
    }
}

/// The pending installation of a name is the first that has it.
pub proof fn the_first_pending_is_found(pending: Seq<PendingInstall>, name: Seq<char>)
    ensures
        installing::pending_pos(pending, name) < pending.len(),
        installing::pending_pos(pending, name) >= 0 ==> pending[installing::pending_pos(
            pending,
            name,
        )].name@ == name,
        installing::pending_pos(pending, name) < 0 <==> forall|i: int|
            0 <= i < pending.len() ==> (#[trigger] pending[i]).name@ != name,
        forall|i: int|
            0 <= i < installing::pending_pos(pending, name) ==> (#[trigger] pending[i]).name@ != name,
    decreases pending.len(),
{
    if pending.len() > 0 && pending[0].name@ != name {
        let rest = pending.drop_first();
        the_first_pending_is_found(rest, name);
        let p = installing::pending_pos(rest, name);
        assert forall|i: int| 0 < i < pending.len() implies #[trigger] pending[i] == rest[i - 1] by {}
        if p >= 0 {
            assert(pending[p + 1].name@ == name);
        }
    } else if pending.len() > 0 {
        assert(pending[0].name@ == name);
    }
}

/// The pending installations of other names are exactly those that stay.
pub proof fn other_installations_stay_pending(
    pending: Seq<PendingInstall>,
    name: Seq<char>,
    p: PendingInstall,
)
    ensures
        installing::other_pending(pending, name).contains(p) <==> pending.contains(p) && p.name@
            != name,
    decreases pending.len(),
{
    let all = installing::other_pending(pending, name);
    if pending.len() > 0 {
        let init = pending.drop_last();
        let n = pending.len() - 1;
        other_installations_stay_pending(init, name, p);
        let before = installing::other_pending(init, name);
        if all.contains(p) {
            let k = choose|k: int| 0 <= k < all.len() && all[k] == p;
            if k < before.len() {
                assert(before[k] == p);
                assert(before.contains(p));
                let i = choose|i: int| 0 <= i < init.len() && init[i] == p;
                assert(pending[i] == p);
            } else {
                assert(pending[n] == p);
            }
        }
        if pending.contains(p) && p.name@ != name {
            let i = choose|i: int| 0 <= i < pending.len() && pending[i] == p;
            if i < n {
                assert(init[i] == p);
                assert(init.contains(p));
                let k = choose|k: int| 0 <= k < before.len() && before[k] == p;
                assert(all[k] == p);
            } else {
                assert(all[all.len() - 1] == p);
            }
        }
    }
}

/// An installation that failed or was aborted is pending no longer; one that succeeded
/// stays until its machine is seen, with its resources dealt with once; no end of a run
/// touches what is pending, and no end touches another machine's installation.
pub proof fn only_its_own_installation_is_settled(
    app: ManagerApp,
    kind: TaskKind,
    vm: Seq<char>,
    ending: Ending,
    p: PendingInstall,
)
    requires
        app.pending@.contains(p),
    ensures
        p.name@ != vm ==> app.pending_after(kind, vm, ending).contains(p),
        ending == Ending::InstallAborted || (ending == Ending::Failed && kind == TaskKind::Install)
            ==> forall|i: int|
            0 <= i < app.pending_after(kind, vm, ending).len() ==> (#[trigger] app.pending_after(
                kind,
                vm,
                ending,
            )[i]).name@ != vm,
        kind == TaskKind::Run && ending != Ending::Installed && ending != Ending::InstallAborted
            ==> app.pending_after(kind, vm, ending) == app.pending@,
        ending == Ending::Installed ==> app.pending_after(kind, vm, ending).len()
            == app.pending@.len(),
        ending == Ending::Installed && installing::pending_pos(app.pending@, vm) >= 0
            ==> app.pending_after(kind, vm, ending)[installing::pending_pos(
            app.pending@,
            vm,
        )].applied,
{
    let after = app.pending_after(kind, vm, ending);
    the_first_pending_is_found(app.pending@, vm);
    other_installations_stay_pending(app.pending@, vm, p);
    let i = choose|i: int| 0 <= i < app.pending@.len() && app.pending@[i] == p;
    if p.name@ != vm && ending == Ending::Installed {
        assert(after[i] == p);
    }
    if ending == Ending::InstallAborted || (ending == Ending::Failed && kind == TaskKind::Install) {
        assert forall|k: int| 0 <= k < after.len() implies (#[trigger] after[k]).name@ != vm by {
            other_installations_stay_pending(app.pending@, vm, after[k]);
            assert(after.contains(after[k]));
        }
    }
}

/// A finished installation is told with the memory and the processors it was given.
pub proof fn an_installation_tells_its_resources(
    pending: Seq<PendingInstall>,
    vm: Seq<char>,
    applied: Result<(), String>,
)
    ensures
        ({
            let i = installing::pending_pos(pending, vm);
            let (level, said) = installing::install_note(pending, vm, applied);
            i >= 0 && !pending[i].applied ==> {
                &&& applied is Ok ==> level == ToastLevel::Success && text::holds(
                    said,
                    text::decimal_of(pending[i].machine.memory_mib as nat),
                ) && text::holds(said, text::decimal_of(pending[i].machine.vcpus as nat))
                &&& applied matches Err(e) ==> level == ToastLevel::Warn && text::holds(said, e@)
            }
        }),
{
    let i = installing::pending_pos(pending, vm);
    let (level, said) = installing::install_note(pending, vm, applied);
    if i >= 0 && !pending[i].applied {
        let q = "'"@ + vm + "'"@;
        match applied {
            Ok(()) => {
                let m = text::decimal_of(pending[i].machine.memory_mib as nat);
                let c = text::decimal_of(pending[i].machine.vcpus as nat);
                let a = q + " installed ("@;
                let b = " MiB, "@ + c + " vCPU)"@;
                text::lemma_held(a, m, b);
                assert(a + m + b =~= said);
                let d = a + m + " MiB, "@;
                text::lemma_held(d, c, " vCPU)"@);
                assert(d + c + " vCPU)"@ =~= said);
            },
            Err(e) => {
                let a = q + installing::KEEPS_DEFAULTS@;
                text::lemma_held(a, e@, Seq::empty());
                assert(a + e@ + Seq::<char>::empty() =~= said);
            },
        }
    }
}

} // verus!
