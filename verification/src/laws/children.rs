//! Promises about children: what their logs keep, what is told of them, and when one is
//! made to stop.
use crate::process;
use crate::process::{
    LogView, Outcome, ProcessError, Supervisor, Task, TaskId, TaskKind, TaskSpec, TaskState, Watch,
};
use crate::state;
use crate::text;
use vstd::prelude::*;

verus! {

/// A line that is written whole, after nothing was left open, is kept as it was written,
/// as the newest; at most one line is lost for it, the oldest, and only from a full log.
pub proof fn a_whole_line_is_kept(log: LogView, line: Seq<char>)
    requires
        log.kept.len() <= 4000,
        log.partial.len() == 0,
        !text::holds_char(line, '\n'),
        !text::holds_char(line, '\r'),
    ensures
        ({
            let after = process::appended(log, line.push('\n'));
            &&& after.kept.len() > 0
            &&& after.kept.last() == line
            &&& after.partial.len() == 0
            &&& log.kept.len() < 4000 ==> after.kept == log.kept.push(line) && after.dropped
                == log.dropped
            &&& log.kept.len() == 4000 ==> after.kept == log.kept.drop_first().push(line)
                && after.dropped == log.dropped + 1
        }),
{
    let chunk = line.push('\n');
    assert(process::without_returns(chunk) =~= chunk) by {
        lemma_kept_whole(chunk);
    }
    assert(log.partial + chunk =~= chunk);
    text::lemma_unsplit(line, '\n');
    assert(chunk.drop_last() =~= line);
    let pieces = text::split_of(chunk, '\n');
    assert(pieces == text::split_of(line, '\n').push(Seq::empty()));
    assert(pieces.drop_last() =~= seq![line]);
    assert(vstd::utf8::encode_utf8(Seq::<char>::empty()).len() == 0);
    assert(pieces.last() == Seq::<char>::empty());
    let all = log.kept + seq![line];
    let after = process::appended(log, chunk);
    assert(process::lines_by(log, chunk) == seq![line]);
    assert(after.kept.last() == line);
    if log.kept.len() < 4000 {
        assert(after.kept =~= log.kept.push(line));
    } else {
        assert(after.kept =~= log.kept.drop_first().push(line));
    }
}

/// Text without carriage returns loses nothing.
proof fn lemma_kept_whole(s: Seq<char>)
    requires
        !text::holds_char(s, '\r'),
    ensures
        process::without_returns(s) == s,
    decreases s.len(),
{
    reveal(Seq::filter);
    if s.len() > 0 {
        let init = s.drop_last();
        assert(!text::holds_char(init, '\r')) by {
            if text::holds_char(init, '\r') {
                let k = choose|k: int| 0 <= k < init.len() && init[k] == '\r';
                assert(s[k] == '\r');
            }
        }
        lemma_kept_whole(init);
        assert(s[s.len() - 1] != '\r');
        assert(init.push(s.last()) =~= s);
    }
}

/// What is left open stays open, in front of what is written next.
pub proof fn an_open_line_goes_on(log: LogView, more: Seq<char>)
    requires
        !text::holds_char(log.partial, '\n'),
        !text::holds_char(more, '\n'),
        !text::holds_char(more, '\r'),
        vstd::utf8::encode_utf8(log.partial + more).len() <= 4096,
        log.kept.len() <= 4000,
    ensures
        process::appended(log, more) == (LogView { partial: log.partial + more, ..log }),
{
    lemma_kept_whole(more);
    let s = log.partial + more;
    assert(!text::holds_char(s, '\n')) by {
        if text::holds_char(s, '\n') {
            let k = choose|k: int| 0 <= k < s.len() && s[k] == '\n';
            if k < log.partial.len() {
                assert(log.partial[k] == '\n');
            } else {
                assert(more[k - log.partial.len()] == '\n');
            }
        }
    }
    text::lemma_unsplit(s, '\n');
    assert(seq![s].drop_last() =~= Seq::<Seq<char>>::empty());
    assert(log.kept + Seq::<Seq<char>>::empty() =~= log.kept);
}

/// A command line shows the program and then each argument, those with a space in quotes.
pub proof fn a_command_line_shows_every_argument(
    program: Seq<char>,
    args: Seq<Seq<char>>,
    arg: Seq<char>,
)
    ensures
        process::command_line_of(program, Seq::empty()) == program,
        !text::holds_char(arg, ' ') ==> process::command_line_of(program, args.push(arg))
            == process::command_line_of(program, args) + seq![' '] + arg,
        text::holds_char(arg, ' ') ==> process::command_line_of(program, args.push(arg))
            == process::command_line_of(program, args) + seq![' ', '"'] + arg + seq!['"'],
{
    reveal_strlit(" ");
    reveal_strlit("\"");
    assert(args.push(arg).drop_last() =~= args);
    let line = process::command_line_of(program, args);
    assert(line + " "@ + arg =~= line + seq![' '] + arg);
    assert(line + " "@ + ("\""@ + arg + "\""@) =~= line + seq![' ', '"'] + arg + seq!['"']);
}

/// The outcomes that are told are exactly those of finished children that were not told
/// before.
pub proof fn finished_children_are_told(
    tasks: Seq<Task>,
    told: (TaskKind, String, Outcome),
)
    ensures
        process::unreported(tasks).contains(told) <==> exists|i: int|
            0 <= i < tasks.len() && !(#[trigger] tasks[i]).reported && tasks[i].state
                == TaskState::Finished(told.2) && tasks[i].kind == told.0 && tasks[i].vm == told.1,
    decreases tasks.len(),
{
    let all = process::unreported(tasks);
    if tasks.len() > 0 {
        let init = tasks.drop_last();
        let n = tasks.len() - 1;
        finished_children_are_told(init, told);
        let before = process::unreported(init);
        if all.contains(told) {
            let k = choose|k: int| 0 <= k < all.len() && all[k] == told;
            if k < before.len() {
                assert(before[k] == told);
                assert(before.contains(told));
                let i = choose|i: int|
                    0 <= i < init.len() && !(#[trigger] init[i]).reported && init[i].state
                        == TaskState::Finished(told.2) && init[i].kind == told.0 && init[i].vm
                        == told.1;
                assert(tasks[i] == init[i]);
            } else {
                assert(tasks[n].state == TaskState::Finished(told.2));
            }
        }
        if exists|i: int|
            0 <= i < tasks.len() && !(#[trigger] tasks[i]).reported && tasks[i].state
                == TaskState::Finished(told.2) && tasks[i].kind == told.0 && tasks[i].vm == told.1 {
            let i = choose|i: int|
                0 <= i < tasks.len() && !(#[trigger] tasks[i]).reported && tasks[i].state
                    == TaskState::Finished(told.2) && tasks[i].kind == told.0 && tasks[i].vm
                    == told.1;
            if i < n {
                assert(init[i] == tasks[i]);
                let k = choose|k: int| 0 <= k < before.len() && before[k] == told;
                assert(all[k] == told);
            } else {
                assert(all[all.len() - 1] == told);
            }
        }
    }
}

/// Telling an outcome marks the child and changes nothing else of it; a child that runs
/// is not marked.
pub proof fn telling_marks_only_what_was_told(task: Task)
    ensures
        process::shown(task).reported <==> task.reported || task.state is Finished,
        process::shown(task) == (Task { reported: process::shown(task).reported, ..task }),
        process::is_past(task) <==> task.state is Finished && task.reported,
{
}

/// A child is recorded exactly when it was started and its machine had none; it belongs
/// to the machine, runs, and was asked for nothing yet.
pub proof fn a_started_child_is_recorded(
    before: Supervisor,
    after: Supervisor,
    spec: TaskSpec,
    started: Result<(), ProcessError>,
    now: u64,
    r: Result<TaskId, ProcessError>,
)
    requires
        process::spawn_gives(before, after, spec, started, now, r),
    ensures
        r is Ok <==> started is Ok && forall|i: int|
            0 <= i < before.tasks@.len() && (#[trigger] before.tasks@[i]).vm@ == spec.vm@
                ==> before.tasks@[i].state is Finished,
        r is Ok ==> {
            let t = after.tasks@.last();
            &&& after.tasks@.len() == before.tasks@.len() + 1
            &&& after.tasks@.drop_last() == before.tasks@
            &&& t.vm == spec.vm
            &&& t.kind == spec.kind
            &&& t.control == spec.control
            &&& t.log_path == spec.log_path
            &&& t.started_at == now
            &&& t.state is Running
            &&& !t.stop && !t.kill && !t.paused && !t.reported
            &&& t.suspend_since is None
            &&& r == Ok::<TaskId, ProcessError>(t.id)
        },
        r is Err ==> after == before,
{
    crate::laws::starts::busy_means_an_unfinished_child(before.tasks@, spec.vm@);
    if started is Ok && !process::busy_in(before.tasks@, spec.vm@) {
        if let Err(e) = r {
            assert(started == Err::<(), ProcessError>(e));
        }
    }
}

/// A child is killed exactly once: when that was asked for, or twenty seconds after it
/// was asked to stop and did not.
pub proof fn patience_lasts_twenty_seconds(watch: Watch, kill: bool, now: u64)
    ensures
        watch.must_kill(kill, now) <==> !watch.killed && (kill || (watch.term_sent is Some && now
            - watch.term_sent->0 > 20_000)),
{
}

/// An end is described by what brought it about: the user's wish first, then success,
/// then the status, and the system's own words where there is none.
pub proof fn an_exit_is_described_by_its_cause(
    code: Option<i32>,
    status: Seq<char>,
    stopped: bool,
    killed: bool,
)
    ensures
        stopped && killed ==> text::begins_with(
            process::described(code, status, stopped, killed),
            "killed"@,
        ),
        stopped && !killed ==> text::begins_with(
            process::described(code, status, stopped, killed),
            "stopped"@,
        ),
        stopped ==> text::holds(process::described(code, status, stopped, killed), status),
        !stopped && code == Some(0i32) ==> process::described(code, status, stopped, killed)
            == "finished successfully"@,
        !stopped && code is None ==> text::holds(
            process::described(code, status, stopped, killed),
            status,
        ),
        !stopped && code is Some && code != Some(0i32) ==> process::described(
            code,
            status,
            stopped,
            killed,
        ) == "exited with status "@ + (if code->0 < 0 {
            "-"@ + text::decimal_of((-code->0) as nat)
        } else {
            text::decimal_of(code->0 as nat)
        }),
{
    let said = process::described(code, status, stopped, killed);
    if stopped {
        let word = if killed {
            "killed"@
        } else {
            "stopped"@
        };
        assert(said.subrange(0, word.len() as int) =~= word);
        text::lemma_held(word + " on request ("@, status, ")"@);
    } else if code is None {
        text::lemma_held("terminated ("@, status, ")"@);
    }
}

/// The children that are measured are exactly those that run.
pub proof fn running_children_are_measured(tasks: Seq<Task>, target: (TaskId, String))
    ensures
        state::targets_of(tasks).contains(target) <==> exists|i: int|
            0 <= i < tasks.len() && !((#[trigger] tasks[i]).state is Finished) && tasks[i].id
                == target.0 && tasks[i].vm == target.1,
    decreases tasks.len(),
{
    let all = state::targets_of(tasks);
    if tasks.len() > 0 {
        let init = tasks.drop_last();
        let n = tasks.len() - 1;
        running_children_are_measured(init, target);
        let before = state::targets_of(init);
        if all.contains(target) {
            let k = choose|k: int| 0 <= k < all.len() && all[k] == target;
            if k < before.len() {
                assert(before[k] == target);
                assert(before.contains(target));
                let i = choose|i: int|
                    0 <= i < init.len() && !((#[trigger] init[i]).state is Finished) && init[i].id
                        == target.0 && init[i].vm == target.1;
                assert(tasks[i] == init[i]);
            } else {
                assert(tasks[n].id == target.0);
            }
        }
        if exists|i: int|
            0 <= i < tasks.len() && !((#[trigger] tasks[i]).state is Finished) && tasks[i].id
                == target.0 && tasks[i].vm == target.1 {
            let i = choose|i: int|
                0 <= i < tasks.len() && !((#[trigger] tasks[i]).state is Finished) && tasks[i].id
                    == target.0 && tasks[i].vm == target.1;
            if i < n {
                assert(init[i] == tasks[i]);
                let k = choose|k: int| 0 <= k < before.len() && before[k] == target;
                assert(all[k] == target);
            } else {
                assert(all[all.len() - 1] == target);
            }
        }
    }
}

} // verus!
