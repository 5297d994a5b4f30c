//! Supervision of child processes: one `entangled install` or `entangled run`
//! per task, each watched until it exits.
//!
//! - Output goes to a log file, which the watcher tails into a bounded buffer.
//! - Children are never killed when the manager exits.
//! - The child itself, its signals and its file are handled outside: this
//!   module decides what is done to it and remembers what it did.
use crate::text;
use std::collections::VecDeque;
use vstd::prelude::*;

verus! {

/// How long a stop request waits for a clean exit before escalating to a kill,
/// in milliseconds.
pub const STOP_GRACE_MS: u64 = 20000;

/// Watcher poll interval, also the log-tail cadence, in milliseconds.
pub const POLL_MS: u64 = 120;

/// Lines kept in memory per task (the full log stays on disk).
pub const LOG_CAPACITY: usize = 4000;

/// An unterminated line longer than this many bytes is committed as it stands.
pub const PARTIAL_LIMIT: usize = 4096;

/// Why a child could not be started.
#[derive(Debug, Clone, PartialEq, Eq)]
pub enum ProcessError {
    /// The machine already has a child.
    Busy { vm: String },
    LogFile { path: String, source: String },
    Spawn { program: String, source: String },
}

impl ProcessError {
    pub open spec fn spec_message(self) -> Seq<char> {
        match self {
            ProcessError::Busy { vm } => "'"@ + vm@ + "' is already busy"@,
            ProcessError::LogFile { path, source } => "cannot create the log file "@ + path@ + ": "@
                + source@,
            ProcessError::Spawn { program, source } => "cannot start "@ + program@ + ": "@
                + source@,
        }
    }

    /// The sentence shown to the user.
    pub fn message(&self) -> (r: String)
        ensures
            r@ == self.spec_message(),
    {
        match self {
            ProcessError::Busy { vm } => text::cat3("'", vm, "' is already busy"),
            ProcessError::LogFile { path, source } => text::cat4(
                "cannot create the log file ",
                path,
                ": ",
                source,
            ),
            ProcessError::Spawn { program, source } => text::cat4(
                "cannot start ",
                program,
                ": ",
                source,
            ),
        }
    }
}

#[derive(Debug, Clone, Copy, PartialEq, Eq, Structural)]
pub enum TaskKind {
    /// `entangled run <profile>`: a live machine.
    Run,
    /// `entangled install …`: a provisioning run.
    Install,
}

impl TaskKind {
    pub open spec fn spec_label(self) -> Seq<char> {
        match self {
            TaskKind::Run => "run"@,
            TaskKind::Install => "install"@,
        }
    }

    pub fn label(self) -> (r: &'static str)
        ensures
            r@ == self.spec_label(),
    {
        match self {
            TaskKind::Run => "run",
            TaskKind::Install => "install",
        }
    }
}

#[derive(Debug, PartialEq, Eq)]
pub struct Outcome {
    pub success: bool,
    /// Human-readable exit description.
    pub detail: String,
    /// True when the exit followed a stop request from the user.
    pub stopped_by_user: bool,
}

impl Clone for Outcome {
    fn clone(&self) -> (r: Outcome)
        ensures
            r == *self,
    {
        Outcome {
            success: self.success,
            detail: self.detail.clone(),
            stopped_by_user: self.stopped_by_user,
        }
    }
}

#[derive(Debug, PartialEq, Eq)]
pub enum TaskState {
    Running,
    /// A stop was requested; the child has been signalled.
    Stopping,
    Finished(Outcome),
}

impl TaskState {
    pub open spec fn active(self) -> bool {
        self is Running || self is Stopping
    }

    pub fn is_active(&self) -> (r: bool)
        ensures
            r == self.active(),
    {
        match self {
            TaskState::Running => true,
            TaskState::Stopping => true,
            TaskState::Finished(_) => false,
        }
    }
}

impl Clone for TaskState {
    fn clone(&self) -> (r: TaskState)
        ensures
            r == *self,
    {
        match self {
            TaskState::Running => TaskState::Running,
            TaskState::Stopping => TaskState::Stopping,
            TaskState::Finished(outcome) => TaskState::Finished(outcome.clone()),
        }
    }
}

// ---------------------------------------------------------------------------
// The log
// ---------------------------------------------------------------------------

#[derive(Debug, Clone, PartialEq, Eq)]
pub struct LogLine {
    pub text: String,
}

/// The newest lines a child wrote, and the line it is still writing.
#[derive(Debug)]
pub struct LogBuffer {
    pub lines: VecDeque<LogLine>,
    pub dropped: usize,
    pub partial: String,
}

/// The texts of log lines.
pub open spec fn line_texts(lines: Seq<LogLine>) -> Seq<Seq<char>> {
    lines.map_values(|l: LogLine| l.text@)
}

/// The last `n` elements of `s`, or all of them.
pub open spec fn last_of<T>(s: Seq<T>, n: int) -> Seq<T> {
    if s.len() > n {
        s.skip(s.len() - n)
    } else {
        s
    }
}

/// `s` without carriage returns.
pub open spec fn without_returns(s: Seq<char>) -> Seq<char> {
    s.filter(|c: char| c != '\r')
}

/// A log as plain values: the lines kept, how many were dropped before them,
/// and the unterminated text after them.
pub ghost struct LogView {
    pub kept: Seq<Seq<char>>,
    pub dropped: int,
    pub partial: Seq<char>,
}

/// The log after `new` lines were committed to it.
pub open spec fn committed(kept: Seq<Seq<char>>, dropped: int, new: Seq<Seq<char>>) -> (
    Seq<Seq<char>>,
    int,
) {
    let all = kept + new;
    (
        last_of(all, LOG_CAPACITY as int),
        if all.len() > LOG_CAPACITY {
            dropped + (all.len() - LOG_CAPACITY)
        } else {
            dropped
        },
    )
}

/// The lines that `chunk` commits: what stands before a line feed, and an
/// unterminated line that has grown too long.
pub open spec fn lines_by(log: LogView, chunk: Seq<char>) -> Seq<Seq<char>> {
    let pieces = text::split_of(log.partial + without_returns(chunk), '\n');
    if vstd::utf8::encode_utf8(pieces.last()).len() > PARTIAL_LIMIT {
        pieces
    } else {
        pieces.drop_last()
    }
}

/// The log after `chunk` was appended: its lines are committed, and what follows
/// them is the unterminated text.
pub open spec fn appended(log: LogView, chunk: Seq<char>) -> LogView {
    let partial = text::split_of(log.partial + without_returns(chunk), '\n').last();
    let (kept, dropped) = committed(log.kept, log.dropped, lines_by(log, chunk));
    LogView {
        kept,
        dropped,
        partial: if vstd::utf8::encode_utf8(partial).len() > PARTIAL_LIMIT {
            Seq::empty()
        } else {
            partial
        },
    }
}

/// `s` holds no line feed and no carriage return.
pub open spec fn is_plain(s: Seq<char>) -> bool {
    !text::holds_char(s, '\n') && !text::holds_char(s, '\r')
}

impl LogView {
    /// A log with nothing in it.
    pub open spec fn blank() -> LogView {
        LogView { kept: Seq::empty(), dropped: 0, partial: Seq::empty() }
    }

    /// Never more lines than the capacity, no line end in any text, and no
    /// unterminated text that has grown too long.
    pub open spec fn in_shape(self) -> bool {
        &&& self.kept.len() <= LOG_CAPACITY
        &&& forall|i: int| 0 <= i < self.kept.len() ==> is_plain(#[trigger] self.kept[i])
        &&& is_plain(self.partial)
        &&& vstd::utf8::encode_utf8(self.partial).len() <= PARTIAL_LIMIT
    }
}

/// The pieces between line feeds are plain, as long as no carriage return was
/// among them.
proof fn lemma_pieces_plain(x: Seq<char>)
    requires
        !text::holds_char(x, '\r'),
    ensures
        text::split_of(x, '\n').len() > 0,
        forall|i: int|
            0 <= i < text::split_of(x, '\n').len() ==> is_plain(#[trigger] text::split_of(x, '\n')[i]),
    decreases x.len(),
{
    text::lemma_split_some(x, '\n');
    let pieces = text::split_of(x, '\n');
    if x.len() > 0 {
        let init = x.drop_last();
        assert(!text::holds_char(init, '\r')) by {
            if text::holds_char(init, '\r') {
                let k = choose|k: int| 0 <= k < init.len() && init[k] == '\r';
                assert(x[k] == '\r');
            }
        }
        assert(x[x.len() - 1] != '\r');
        lemma_pieces_plain(init);
        let before = text::split_of(init, '\n');
        assert forall|i: int| 0 <= i < pieces.len() implies is_plain(#[trigger] pieces[i]) by {
            if i < before.len() - 1 || (x.last() == '\n' && i < before.len()) {
                assert(pieces[i] == before[i]);
            } else if x.last() != '\n' {
                let last = before.last();
                assert(is_plain(before[before.len() - 1]));
                assert(pieces[i] == last.push(x.last()));
                if text::holds_char(pieces[i], '\n') {
                    let k = choose|k: int| 0 <= k < pieces[i].len() && pieces[i][k] == '\n';
                    assert(last[k] == '\n');
                }
                if text::holds_char(pieces[i], '\r') {
                    let k = choose|k: int| 0 <= k < pieces[i].len() && pieces[i][k] == '\r';
                    assert(last[k] == '\r');
                }
            }
        }
    }
}

/// A log stays in shape.
proof fn lemma_in_shape(log: LogView, chunk: Seq<char>)
    requires
        log.in_shape(),
    ensures
        appended(log, chunk).in_shape(),
{
    let more = without_returns(chunk);
    let x = log.partial + more;
    assert(!text::holds_char(x, '\r')) by {
        if text::holds_char(x, '\r') {
            let k = choose|k: int| 0 <= k < x.len() && x[k] == '\r';
            if k < log.partial.len() {
                assert(log.partial[k] == '\r');
            } else {
                chunk.lemma_filter_pred(|c: char| c != '\r', k - log.partial.len());
                assert(more[k - log.partial.len()] == '\r');
            }
        }
    }
    lemma_pieces_plain(x);
    let pieces = text::split_of(x, '\n');
    let after = appended(log, chunk);
    let all = log.kept + lines_by(log, chunk);
    assert forall|i: int| 0 <= i < after.kept.len() implies is_plain(#[trigger] after.kept[i]) by {
        let j = i + (all.len() - after.kept.len());
        assert(after.kept[i] == all[j]);
        if j >= log.kept.len() {
            assert(all[j] == pieces[j - log.kept.len()]);
        }
    }
    assert(is_plain(pieces[pieces.len() - 1]));
    assert(vstd::utf8::encode_utf8(Seq::<char>::empty()).len() == 0);
}

/// An empty log after the chunks were appended to it, one by one.
pub open spec fn logged(chunks: Seq<Seq<char>>) -> LogView
    decreases chunks.len(),
{
    if chunks.len() == 0 {
        LogView::blank()
    } else {
        appended(logged(chunks.drop_last()), chunks.last())
    }
}

/// Every line that the chunks committed, in order.
pub open spec fn lines_ever(chunks: Seq<Seq<char>>) -> Seq<Seq<char>>
    decreases chunks.len(),
{
    if chunks.len() == 0 {
        Seq::empty()
    } else {
        lines_ever(chunks.drop_last()) + lines_by(logged(chunks.drop_last()), chunks.last())
    }
}

/// Whatever a child writes, its log keeps the newest lines it committed, up to
/// the capacity, and counts the others; no text in it holds a line end, and the
/// unterminated one is never too long.
pub proof fn the_log_keeps_the_newest_lines(chunks: Seq<Seq<char>>)
    ensures
        logged(chunks).in_shape(),
        logged(chunks).kept == last_of(lines_ever(chunks), LOG_CAPACITY as int),
        logged(chunks).dropped + logged(chunks).kept.len() == lines_ever(chunks).len(),
    decreases chunks.len(),
{
    if chunks.len() == 0 {
        assert(vstd::utf8::encode_utf8(Seq::<char>::empty()).len() == 0);
    } else {
        let init = chunks.drop_last();
        the_log_keeps_the_newest_lines(init);
        lemma_in_shape(logged(init), chunks.last());
        let new = lines_by(logged(init), chunks.last());
        assert(logged(chunks).kept =~= last_of(lines_ever(init) + new, LOG_CAPACITY as int));
    }
}

impl Default for LogBuffer {
    fn default() -> (r: LogBuffer)
        ensures
            r.wf(),
            r.log() == LogView::blank(),
    {
        let r = LogBuffer { lines: VecDeque::new(), dropped: 0, partial: String::new() };
        assert(line_texts(r.lines@) =~= Seq::empty());
        assert(vstd::utf8::encode_utf8(Seq::<char>::empty()).len() == 0);
        r
    }
}

impl LogBuffer {
    pub open spec fn log(self) -> LogView {
        LogView {
            kept: line_texts(self.lines@),
            dropped: self.dropped as int,
            partial: self.partial@,
        }
    }

    /// The log is bounded, and no text in it holds a line end.
    pub open spec fn wf(self) -> bool {
        self.log().in_shape()
    }

    /// Commits one line, dropping the oldest when the log is full.
    fn push_line(&mut self, line: String)
        requires
            old(self).lines@.len() <= LOG_CAPACITY,
            old(self).lines@.len() == LOG_CAPACITY ==> old(self).dropped < usize::MAX,
        ensures
            final(self).lines@.len() <= LOG_CAPACITY,
            final(self).partial == old(self).partial,
            (line_texts(final(self).lines@), final(self).dropped as int) == committed(
                line_texts(old(self).lines@),
                old(self).dropped as int,
                seq![line@],
            ),
    {
        let ghost before = line_texts(self.lines@);
        let ghost text = line@;
        if self.lines.len() == LOG_CAPACITY {
            let _ = self.lines.pop_front();
            self.dropped = self.dropped + 1;
        }
        self.lines.push_back(LogLine { text: line });
        proof {
            let all = before + seq![text];
            assert(line_texts(self.lines@) =~= last_of(all, LOG_CAPACITY as int));
        }
    }

    /// Adds what the child wrote. Unterminated output is kept apart until its
    /// line feed arrives or it grows too long.
    pub fn push_chunk(&mut self, chunk: &str)
        requires
            old(self).wf(),
            appended(old(self).log(), chunk@).dropped <= usize::MAX,
        ensures
            final(self).wf(),
            final(self).log() == appended(old(self).log(), chunk@),
    {
        let v = text::chars_of(chunk);
        let ghost start = self.log();
        let mut i: usize = 0;
        proof {
            let none = without_returns(chunk@.take(0));
            reveal_with_fuel(Seq::filter, 1);
            assert(none =~= Seq::<char>::empty());
            assert(start.partial + none =~= start.partial);
            text::lemma_unsplit(start.partial, '\n');
            assert(text::split_of(start.partial, '\n').drop_last() =~= Seq::empty());
            assert(start.kept + Seq::<Seq<char>>::empty() =~= start.kept);
        }
        while i < v.len()
            invariant
                v@ == chunk@,
                i <= v@.len(),
                appended(start, chunk@).dropped <= usize::MAX,
                start.kept.len() <= LOG_CAPACITY,
                self.lines@.len() <= LOG_CAPACITY,
                ({
                    let pieces = text::split_of(
                        start.partial + without_returns(chunk@.take(i as int)),
                        '\n',
                    );
                    &&& pieces.len() > 0
                    &&& self.partial@ == pieces.last()
                    &&& (line_texts(self.lines@), self.dropped as int) == committed(
                        start.kept,
                        start.dropped,
                        pieces.drop_last(),
                    )
                }),
            decreases v@.len() - i,
        {
            let ghost seen = chunk@.take(i as int);
            let ghost more = chunk@.take(i + 1);
            let ghost body = start.partial + without_returns(seen);
            let ghost pieces = text::split_of(body, '\n');
            let ghost here = self.log();
            proof {
                assert(more.drop_last() =~= seen);
                assert(more.last() == v@[i as int]);
                reveal_with_fuel(Seq::filter, 1);
            }
            if v[i] == '\n' {
                let line = self.partial.clone();
                self.partial = String::new();
                proof {
                    assert(without_returns(more) == without_returns(seen).push('\n'));
                    let next = start.partial + without_returns(more);
                    assert(next =~= body.push('\n'));
                    assert(next.drop_last() =~= body);
                    assert(text::split_of(next, '\n') == pieces.push(Seq::empty()));
                    lemma_more_lines(start, more, chunk@.skip(i + 1));
                    assert(more + chunk@.skip(i + 1) =~= chunk@);
                }
                self.push_line(line);
                proof {
                    let next = start.partial + without_returns(more);
                    assert(text::split_of(next, '\n').drop_last() =~= pieces);
                    assert(pieces =~= pieces.drop_last() + seq![pieces.last()]);
                    lemma_commit_twice(start.kept, start.dropped, pieces.drop_last(), seq![pieces.last()]);
                }
            } else if v[i] != '\r' {
                self.partial.push(v[i]);
                proof {
                    let c = v@[i as int];
                    assert(without_returns(more) == without_returns(seen).push(c));
                    let next = start.partial + without_returns(more);
                    assert(next =~= body.push(c));
                    assert(next.drop_last() =~= body);
                    assert(text::split_of(next, '\n') == pieces.drop_last().push(
                        pieces.last().push(c),
                    ));
                    assert(text::split_of(next, '\n').drop_last() =~= pieces.drop_last());
                }
            }
            i = i + 1;
        }
        assert(chunk@.take(i as int) == chunk@);
        let ghost pieces = text::split_of(start.partial + without_returns(chunk@), '\n');
        if self.partial.as_str().as_bytes().len() > PARTIAL_LIMIT {
            let line = self.partial.clone();
            self.partial = String::new();
            assert(pieces =~= pieces.drop_last() + seq![pieces.last()]);
            self.push_line(line);
            proof {
                lemma_commit_twice(start.kept, start.dropped, pieces.drop_last(), seq![pieces.last()]);
            }
        }
        proof {
            lemma_in_shape(start, chunk@);
        }
    }

    /// The newest `max_lines` lines and how many were dropped in all. An
    /// unterminated line is the last entry.
    pub fn tail(&self, max_lines: usize) -> (r: (Vec<String>, usize))
        ensures
            text::texts(r.0@) == last_of(self.log().kept, max_lines as int) + (if self.partial@.len()
                > 0 {
                seq![self.partial@]
            } else {
                Seq::<Seq<char>>::empty()
            }),
            r.1 == self.dropped,
    {
        let ghost kept = self.log().kept;
        let n: usize = self.lines.len();
        let from: usize = if n > max_lines {
            n - max_lines
        } else {
            0
        };
        let mut out: Vec<String> = Vec::new();
        let mut i: usize = from;
        while i < n
            invariant
                n == self.lines@.len(),
                kept == line_texts(self.lines@),
                from <= i <= n,
                text::texts(out@) == kept.subrange(from as int, i as int),
            decreases n - i,
        {
            let ghost before = text::texts(out@);
            out.push(self.lines[i].text.clone());
            assert(text::texts(out@) =~= before.push(kept[i as int]));
            i = i + 1;
        }
        proof {
            assert(kept.subrange(from as int, n as int) =~= last_of(kept, max_lines as int));
        }
        if !self.partial.as_str().is_empty() {
            let ghost before = text::texts(out@);
            out.push(self.partial.clone());
            assert(text::texts(out@) =~= before + seq![self.partial@]);
        } else {
            assert(text::texts(out@) =~= text::texts(out@) + Seq::<Seq<char>>::empty());
        }
        (out, self.dropped)
    }
}

/// Committing lines in two batches is committing them in one.
proof fn lemma_commit_twice(kept: Seq<Seq<char>>, dropped: int, a: Seq<Seq<char>>, b: Seq<Seq<char>>)
    requires
        kept.len() <= LOG_CAPACITY,
    ensures
        ({
            let (k1, d1) = committed(kept, dropped, a);
            committed(k1, d1, b) == committed(kept, dropped, a + b)
        }),
{
    let (k1, d1) = committed(kept, dropped, a);
    let (k2, d2) = committed(k1, d1, b);
    let (k, d) = committed(kept, dropped, a + b);
    assert(k2 =~= k);
}

/// What follows in the output commits no fewer lines.
proof fn lemma_more_lines(log: LogView, a: Seq<char>, b: Seq<char>)
    ensures
        ({
            let pieces = text::split_of(log.partial + without_returns(a), '\n');
            &&& pieces.len() - 1 <= lines_by(log, a + b).len()
            &&& committed(log.kept, log.dropped, pieces.drop_last()).1 <= appended(
                log,
                a + b,
            ).dropped
        }),
{
    let x = log.partial + without_returns(a);
    let fb = without_returns(b);
    Seq::filter_distributes_over_add(a, b, |c: char| c != '\r');
    text::lemma_split_append(x, fb, '\n');
    assert(log.partial + without_returns(a + b) =~= x + fb);
    text::lemma_split_some(text::split_of(x, '\n').last() + fb, '\n');
}

/// How the output is cut into chunks does not matter, as long as the line that
/// is still open between them has not grown too long: the same lines are kept,
/// the same number is dropped, and the same text stays open. Whatever room the
/// counter needs, it needs for the whole as much as for the parts.
pub proof fn chunk_boundaries_do_not_matter(log: LogView, a: Seq<char>, b: Seq<char>)
    requires
        log.kept.len() <= LOG_CAPACITY,
        vstd::utf8::encode_utf8(
            text::split_of(log.partial + without_returns(a), '\n').last(),
        ).len() <= PARTIAL_LIMIT,
    ensures
        appended(appended(log, a), b) == appended(log, a + b),
        appended(log, a).dropped <= appended(log, a + b).dropped,
{
    lemma_more_lines(log, a, b);
    let fa = without_returns(a);
    let fb = without_returns(b);
    Seq::filter_distributes_over_add(a, b, |c: char| c != '\r');
    let x = log.partial + fa;
    text::lemma_split_append(x, fb, '\n');
    assert(log.partial + without_returns(a + b) =~= x + fb);
    let px = text::split_of(x, '\n');
    let q = text::split_of(px.last() + fb, '\n');
    text::lemma_split_some(px.last() + fb, '\n');
    let whole = px.drop_last() + q;
    assert(whole.last() == q.last());
    assert(whole.drop_last() =~= px.drop_last() + q.drop_last());
    lemma_commit_twice(log.kept, log.dropped, px.drop_last(), q);
    lemma_commit_twice(log.kept, log.dropped, px.drop_last(), q.drop_last());
    let once = appended(log, a);
    assert(once.partial == px.last());
    assert(appended(once, b) == appended(log, a + b));
}

/// No stretch of `s` without a line feed is longer than an unterminated line may
/// grow.
pub open spec fn has_short_lines(s: Seq<char>) -> bool {
    forall|i: int|
        0 <= i < text::split_of(s, '\n').len() ==> vstd::utf8::encode_utf8(
            #[trigger] text::split_of(s, '\n')[i],
        ).len() <= PARTIAL_LIMIT
}

/// Encoding is done character by character.
proof fn lemma_encoded(a: Seq<char>, b: Seq<char>)
    ensures
        vstd::utf8::encode_utf8(a + b) == vstd::utf8::encode_utf8(a) + vstd::utf8::encode_utf8(b),
    decreases a.len(),
{
    if a.len() == 0 {
        assert(a + b =~= b);
        assert(vstd::utf8::encode_utf8(a) + vstd::utf8::encode_utf8(b) =~= vstd::utf8::encode_utf8(b));
    } else {
        lemma_encoded(a.drop_first(), b);
        assert((a + b).drop_first() =~= a.drop_first() + b);
        assert((a + b)[0] == a[0]);
        let c = vstd::utf8::encode_utf8(seq![a[0]]);
        assert(vstd::utf8::encode_utf8(a + b) =~= vstd::utf8::encode_utf8(a)
            + vstd::utf8::encode_utf8(b));
    }
}

/// Leaving the carriage returns out makes no text longer.
proof fn lemma_shorter(s: Seq<char>)
    ensures
        vstd::utf8::encode_utf8(without_returns(s)).len() <= vstd::utf8::encode_utf8(s).len(),
    decreases s.len(),
{
    reveal(Seq::filter);
    if s.len() > 0 {
        let init = s.drop_last();
        let last = seq![s.last()];
        lemma_shorter(init);
        assert(s =~= init + last);
        lemma_encoded(init, last);
        if s.last() != '\r' {
            assert(without_returns(s) =~= without_returns(init) + last);
            lemma_encoded(without_returns(init), last);
        }
    }
}

/// The pieces of a text without carriage returns are its pieces without them.
proof fn lemma_pieces_without(s: Seq<char>)
    ensures
        text::split_of(s, '\n').len() > 0,
        text::split_of(without_returns(s), '\n') == text::split_of(s, '\n').map_values(
            |piece: Seq<char>| without_returns(piece),
        ),
    decreases s.len(),
{
    reveal(Seq::filter);
    text::lemma_split_some(s, '\n');
    let f = |piece: Seq<char>| without_returns(piece);
    let whole = text::split_of(s, '\n');
    if s.len() == 0 {
        assert(without_returns(s) =~= s);
        assert(whole.map_values(f) =~= whole);
    } else {
        let init = s.drop_last();
        let c = s.last();
        let before = text::split_of(init, '\n');
        lemma_pieces_without(init);
        let kept = text::split_of(without_returns(init), '\n');
        assert(kept == before.map_values(f));
        if c == '\n' {
            assert(without_returns(s) =~= without_returns(init).push(c));
            assert(without_returns(s).drop_last() =~= without_returns(init));
            assert(whole.map_values(f) =~= kept.push(Seq::empty()));
        } else if c == '\r' {
            assert(without_returns(s) =~= without_returns(init));
            let last = before.last();
            assert(last.push(c).drop_last() =~= last);
            assert(without_returns(last.push(c)) =~= without_returns(last));
            assert(whole.map_values(f) =~= kept);
        } else {
            assert(without_returns(s) =~= without_returns(init).push(c));
            assert(without_returns(s).drop_last() =~= without_returns(init));
            let last = before.last();
            assert(last.push(c).drop_last() =~= last);
            assert(without_returns(last.push(c)) =~= without_returns(last).push(c));
            assert(kept.last() == without_returns(last));
            assert(whole.map_values(f) =~= kept.drop_last().push(kept.last().push(c)));
        }
    }
}

/// A text without carriage returns keeps everything.
proof fn lemma_no_returns(s: Seq<char>)
    requires
        !text::holds_char(s, '\r'),
    ensures
        without_returns(s) == s,
    decreases s.len(),
{
    reveal(Seq::filter);
    if s.len() > 0 {
        let init = s.drop_last();
        assert(!text::holds_char(init, '\r')) by {
            if text::holds_char(init, '\r') {
                let k = choose|k: int| 0 <= k < init.len() && init[k] == '\r';
                assert(s[k] == '\r');
            }
        }
        lemma_no_returns(init);
        assert(s[s.len() - 1] != '\r');
        assert(init.push(s.last()) =~= s);
    } else {
        assert(without_returns(s) =~= s);
    }
}

/// What follows a text without line feeds goes on with its first piece.
proof fn lemma_first_piece(x: Seq<char>, y: Seq<char>)
    requires
        !text::holds_char(x, '\n'),
    ensures
        text::split_of(x + y, '\n').len() > 0,
        x.is_prefix_of(text::split_of(x + y, '\n')[0]),
    decreases y.len(),
{
    text::lemma_split_some(x + y, '\n');
    if y.len() == 0 {
        assert(x + y =~= x);
        text::lemma_unsplit(x, '\n');
    } else {
        let init = y.drop_last();
        lemma_first_piece(x, init);
        assert((x + y).drop_last() =~= x + init);
        let before = text::split_of(x + init, '\n');
        let after = text::split_of(x + y, '\n');
        assert((x + y).last() == y.last());
        if y.last() != '\n' && before.len() == 1 {
            assert(after[0] == before[0].push(y.last()));
            assert(after[0].take(x.len() as int) =~= before[0].take(x.len() as int));
        } else {
            assert(after[0] == before[0]);
        }
    }
}

/// Where a read happens to cut the output never shows in a log: appending it in
/// two pieces gives what appending it at once gives, as long as no line of it is
/// too long. The pieces need no more room in the counter than the whole does.
pub proof fn cuts_do_not_show(
    x: LogBuffer,
    between: LogBuffer,
    after: LogBuffer,
    y: LogBuffer,
    whole: LogBuffer,
    a: Seq<char>,
    b: Seq<char>,
)
    requires
        x.wf(),
        x.log() == y.log(),
        has_short_lines(x.log().partial + a + b),
        between.log() == appended(x.log(), a),
        after.log() == appended(between.log(), b),
        whole.log() == appended(y.log(), a + b),
    ensures
        after.log() == whole.log(),
        appended(x.log(), a).dropped <= whole.dropped,
        appended(between.log(), b).dropped <= whole.dropped,
{
    let p = x.log().partial;
    let s = p + a;
    assert(without_returns(p) =~= p) by {
        lemma_no_returns(p);
    }
    Seq::filter_distributes_over_add(p, a, |c: char| c != '\r');
    assert(without_returns(s) == p + without_returns(a));
    lemma_pieces_without(s);
    let pieces = text::split_of(s, '\n');
    let last = pieces.last();
    assert(text::split_of(p + without_returns(a), '\n').last() == without_returns(last));
    lemma_shorter(last);
    text::lemma_split_append(s, b, '\n');
    text::lemma_last_piece_plain(s, '\n');
    let rest = text::split_of(last + b, '\n');
    let all = text::split_of(s + b, '\n');
    text::lemma_split_some(last + b, '\n');
    assert(all[pieces.len() - 1] == rest[0]);
    lemma_first_piece(last, b);
    let more = rest[0].skip(last.len() as int);
    assert(rest[0] =~= last + more);
    lemma_encoded(last, more);
    chunk_boundaries_do_not_matter(x.log(), a, b);
}

// ---------------------------------------------------------------------------
// Tasks
// ---------------------------------------------------------------------------

pub type TaskId = u64;

/// A child to be started.
#[derive(Debug, Clone, PartialEq, Eq)]
pub struct TaskSpec {
    pub kind: TaskKind,
    /// The machine that the child belongs to.
    pub vm: String,
    pub program: String,
    pub args: Vec<String>,
    pub cwd: String,
    pub log_path: String,
    /// Keep the child's standard input as its lifecycle control channel.
    pub control: bool,
}

/// A child to be started, as plain values.
pub ghost struct TaskSpecView {
    pub kind: TaskKind,
    pub vm: Seq<char>,
    pub program: Seq<char>,
    pub args: Seq<Seq<char>>,
    pub cwd: Seq<char>,
    pub log_path: Seq<char>,
    pub control: bool,
}

/// An argument as a command line shows it: in quotes when it holds a space.
pub open spec fn shown_arg(arg: Seq<char>) -> Seq<char> {
    if text::holds_char(arg, ' ') {
        "\""@ + arg + "\""@
    } else {
        arg
    }
}

/// A program and its arguments as one line.
pub open spec fn command_line_of(program: Seq<char>, args: Seq<Seq<char>>) -> Seq<char>
    decreases args.len(),
{
    if args.len() == 0 {
        program
    } else {
        command_line_of(program, args.drop_last()) + " "@ + shown_arg(args.last())
    }
}

impl View for TaskSpec {
    type V = TaskSpecView;

    open spec fn view(&self) -> TaskSpecView {
        TaskSpecView {
            kind: self.kind,
            vm: self.vm@,
            program: self.program@,
            args: text::texts(self.args@),
            cwd: self.cwd@,
            log_path: self.log_path@,
            control: self.control,
        }
    }
}

impl TaskSpec {
    /// The command as one line, for the log pane.
    pub fn command_line(&self) -> (r: String)
        ensures
            r@ == command_line_of(self.program@, text::texts(self.args@)),
    {
        let mut out = self.program.clone();
        let ghost all = text::texts(self.args@);
        let mut i: usize = 0;
        while i < self.args.len()
            invariant
                all == text::texts(self.args@),
                i <= self.args@.len(),
                out@ == command_line_of(self.program@, all.take(i as int)),
            decreases self.args@.len() - i,
        {
            let arg = &self.args[i];
            let shown = if text::has_char(arg, ' ') {
                text::cat3("\"", arg, "\"")
            } else {
                arg.clone()
            };
            out.append(" ");
            out.append(&shown);
            proof {
                assert(all.take(i + 1).drop_last() =~= all.take(i as int));
                assert(all.take(i + 1).last() == self.args@[i as int]@);
            }
            i = i + 1;
        }
        assert(all.take(i as int) =~= all);
        out
    }
}

/// A supervised child process.
#[derive(Debug)]
pub struct Task {
    pub id: TaskId,
    pub kind: TaskKind,
    pub vm: String,
    pub log_path: String,
    pub command_line: String,
    /// When the child was started, in milliseconds of the manager's clock.
    pub started_at: u64,
    /// The child has a lifecycle control channel.
    pub control: bool,
    pub state: TaskState,
    pub log: LogBuffer,
    pub stop: bool,
    pub kill: bool,
    /// The machine was asked to pause, and has not been asked to continue since.
    pub paused: bool,
    /// When the machine was asked to write itself to a file.
    pub suspend_since: Option<u64>,
    /// The engine's own answer to that request.
    pub saved: Option<Result<String, String>>,
    /// The outcome has been shown to the user.
    pub reported: bool,
}

impl Task {
    pub open spec fn active(self) -> bool {
        self.state.active()
    }

    pub fn state(&self) -> (r: TaskState)
        ensures
            r == self.state,
    {
        self.state.clone()
    }

    pub fn is_active(&self) -> (r: bool)
        ensures
            r == self.active(),
    {
        self.state.is_active()
    }

    /// Requests a clean stop, which escalates to a kill after [`STOP_GRACE_MS`].
    pub fn request_stop(&mut self)
        ensures
            *final(self) == (Task { stop: true, ..*old(self) }),
    {
        self.stop = true;
    }

    pub fn request_kill(&mut self)
        ensures
            *final(self) == (Task { kill: true, ..*old(self) }),
    {
        self.kill = true;
    }

    pub fn stop_requested(&self) -> (r: bool)
        ensures
            r == self.stop,
    {
        self.stop
    }

    /// Whether the machine can be paused, restarted or suspended from here.
    pub fn has_control(&self) -> (r: bool)
        ensures
            r == self.control,
    {
        self.control
    }

    pub fn pause_requested(&self) -> (r: bool)
        ensures
            r == self.paused,
    {
        self.paused
    }

    pub fn suspend_requested(&self) -> (r: bool)
        ensures
            r == (self.suspend_since is Some),
    {
        self.suspend_since.is_some()
    }

    /// How long the machine has been writing itself to a file, in milliseconds.
    pub fn suspending_for(&self, now: u64) -> (r: Option<u64>)
        ensures
            match self.suspend_since {
                Some(since) => r == Some(if now >= since {
                    (now - since) as u64
                } else {
                    0
                }),
                None => r is None,
            },
    {
        match self.suspend_since {
            Some(since) => Some(
                if now >= since {
                    now - since
                } else {
                    0
                },
            ),
            None => None,
        }
    }

    /// Copies the tail of the log for rendering. Output without its line feed
    /// yet is the last entry.
    pub fn log_tail(&self, max_lines: usize) -> (r: (Vec<String>, usize))
        ensures
            text::texts(r.0@) == last_of(self.log.log().kept, max_lines as int) + (
            if self.log.partial@.len() > 0 {
                seq![self.log.partial@]
            } else {
                Seq::<Seq<char>>::empty()
            }),
            r.1 == self.log.dropped,
    {
        self.log.tail(max_lines)
    }
}

/// Owns every task the manager has started in this session.
#[derive(Debug)]
pub struct Supervisor {
    pub tasks: Vec<Task>,
    pub next_id: TaskId,
}

/// The machine's task is still running.
pub open spec fn holds_vm(task: Task, vm: Seq<char>) -> bool {
    task.vm@ == vm && task.active()
}

/// The first running task of a machine, by its position.
pub open spec fn active_at(tasks: Seq<Task>, vm: Seq<char>, i: int) -> bool {
    &&& 0 <= i < tasks.len()
    &&& holds_vm(tasks[i], vm)
    &&& forall|j: int| 0 <= j < i ==> !holds_vm(#[trigger] tasks[j], vm)
}

/// Some task of the machine is still running.
pub open spec fn busy_in(tasks: Seq<Task>, vm: Seq<char>) -> bool {
    exists|i: int| 0 <= i < tasks.len() && holds_vm(#[trigger] tasks[i], vm)
}

/// The outcomes that have not been shown yet, oldest task first.
pub open spec fn unreported(tasks: Seq<Task>) -> Seq<(TaskKind, String, Outcome)>
    decreases tasks.len(),
{
    if tasks.len() == 0 {
        Seq::empty()
    } else {
        let init = unreported(tasks.drop_last());
        let last = tasks.last();
        match last.state {
            TaskState::Finished(outcome) if !last.reported => init.push(
                (last.kind, last.vm, outcome),
            ),
            _ => init,
        }
    }
}

/// The task with its outcome shown, if it has one.
pub open spec fn shown(task: Task) -> Task {
    Task { reported: task.reported || task.state is Finished, ..task }
}

/// The task is over and its outcome has been shown.
pub open spec fn is_past(task: Task) -> bool {
    !task.active() && task.reported
}

/// The positions of the tasks that are over, newest last.
pub open spec fn past_ids(tasks: Seq<Task>) -> Seq<u64>
    decreases tasks.len(),
{
    if tasks.len() == 0 {
        Seq::empty()
    } else if is_past(tasks.last()) {
        past_ids(tasks.drop_last()).push(tasks.last().id)
    } else {
        past_ids(tasks.drop_last())
    }
}

/// The tasks that stay when those over before task `from` are dropped.
pub open spec fn kept_from(tasks: Seq<Task>, from: u64) -> Seq<Task>
    decreases tasks.len(),
{
    if tasks.len() == 0 {
        Seq::empty()
    } else {
        let init = kept_from(tasks.drop_last(), from);
        let last = tasks.last();
        if !is_past(last) || last.id >= from {
            init.push(last)
        } else {
            init
        }
    }
}

/// The tasks that stay when only the newest `keep` of those over do.
pub open spec fn pruned(tasks: Seq<Task>, keep: int) -> Seq<Task> {
    let past = past_ids(tasks);
    if past.len() <= keep {
        tasks
    } else {
        kept_from(tasks, first_kept(past, keep))
    }
}

/// The first task of those over that stays, or the next after them when none
/// does.
pub open spec fn first_kept(past: Seq<u64>, keep: int) -> u64 {
    if keep == 0 {
        (past.last() + 1) as u64
    } else {
        past[past.len() - keep]
    }
}

impl Supervisor {
    /// Identifiers grow, a machine has at most one running child, and every log
    /// is in shape.
    pub open spec fn wf(self) -> bool {
        &&& forall|i: int, j: int|
            0 <= i < j < self.tasks@.len() ==> (#[trigger] self.tasks@[i]).id < (
            #[trigger] self.tasks@[j]).id
        &&& forall|i: int| 0 <= i < self.tasks@.len() ==> (#[trigger] self.tasks@[i]).id < self.next_id
        &&& forall|i: int, j: int|
            0 <= i < j < self.tasks@.len() && (#[trigger] self.tasks@[i]).active() && (
            #[trigger] self.tasks@[j]).active() ==> self.tasks@[i].vm@ != self.tasks@[j].vm@
        &&& forall|i: int| 0 <= i < self.tasks@.len() ==> (#[trigger] self.tasks@[i]).log.wf()
    }

    pub fn new() -> (r: Supervisor)
        ensures
            r.wf(),
            r.tasks@.len() == 0,
            r.next_id == 1,
    {
        Supervisor { tasks: Vec::new(), next_id: 1 }
    }

    pub fn tasks(&self) -> (r: &Vec<Task>)
        ensures
            *r == self.tasks,
    {
        &self.tasks
    }

    /// The position of the task with this identifier.
    fn index_of(&self, id: TaskId) -> (r: Option<usize>)
        ensures
            match r {
                Some(i) => i < self.tasks@.len() && self.tasks@[i as int].id == id && forall|j: int|
                    0 <= j < i ==> (#[trigger] self.tasks@[j]).id != id,
                None => forall|j: int|
                    0 <= j < self.tasks@.len() ==> (#[trigger] self.tasks@[j]).id != id,
            },
    {
        let mut i: usize = 0;
        while i < self.tasks.len()
            invariant
                i <= self.tasks@.len(),
                forall|j: int| 0 <= j < i ==> (#[trigger] self.tasks@[j]).id != id,
            decreases self.tasks@.len() - i,
        {
            if self.tasks[i].id == id {
                return Some(i);
            }
            i = i + 1;
        }
        None
    }

    /// The task with this identifier.
    pub fn task(&self, id: TaskId) -> (r: Option<&Task>)
        ensures
            match r {
                Some(t) => t.id == id && self.tasks@.contains(*t),
                None => forall|j: int|
                    0 <= j < self.tasks@.len() ==> (#[trigger] self.tasks@[j]).id != id,
            },
    {
        match self.index_of(id) {
            Some(i) => {
                let t = &self.tasks[i];
                assert(self.tasks@[i as int] == *t);
                Some(t)
            },
            None => None,
        }
    }

    /// The position of a machine's running task.
    pub fn active_index(&self, vm: &str) -> (r: Option<usize>)
        ensures
            match r {
                Some(i) => active_at(self.tasks@, vm@, i as int),
                None => !busy_in(self.tasks@, vm@),
            },
    {
        let mut i: usize = 0;
        while i < self.tasks.len()
            invariant
                i <= self.tasks@.len(),
                forall|j: int| 0 <= j < i ==> !holds_vm(#[trigger] self.tasks@[j], vm@),
            decreases self.tasks@.len() - i,
        {
            if text::same(&self.tasks[i].vm, vm) && self.tasks[i].is_active() {
                return Some(i);
            }
            i = i + 1;
        }
        None
    }

    /// The running task of a machine, if any. There is at most one.
    pub fn active_task(&self, vm: &str) -> (r: Option<&Task>)
        ensures
            match r {
                Some(t) => exists|i: int|
                    active_at(self.tasks@, vm@, i) && *t == #[trigger] self.tasks@[i],
                None => !busy_in(self.tasks@, vm@),
            },
    {
        match self.active_index(vm) {
            Some(i) => {
                let t = &self.tasks[i];
                assert(*t == self.tasks@[i as int]);
                Some(t)
            },
            None => None,
        }
    }

    pub fn active_kind(&self, vm: &str) -> (r: Option<TaskKind>)
        ensures
            match r {
                Some(k) => exists|i: int|
                    active_at(self.tasks@, vm@, i) && k == (#[trigger] self.tasks@[i]).kind,
                None => !busy_in(self.tasks@, vm@),
            },
    {
        match self.active_index(vm) {
            Some(i) => {
                let k = self.tasks[i].kind;
                assert(k == self.tasks@[i as int].kind);
                Some(k)
            },
            None => None,
        }
    }

    pub fn is_busy(&self, vm: &str) -> (r: bool)
        ensures
            r == busy_in(self.tasks@, vm@),
    {
        match self.active_index(vm) {
            Some(i) => {
                assert(holds_vm(self.tasks@[i as int], vm@));
                true
            },
            None => false,
        }
    }

    pub fn any_active(&self) -> (r: bool)
        ensures
            r == exists|i: int| 0 <= i < self.tasks@.len() && (#[trigger] self.tasks@[i]).active(),
    {
        let mut i: usize = 0;
        while i < self.tasks.len()
            invariant
                i <= self.tasks@.len(),
                forall|j: int| 0 <= j < i ==> !(#[trigger] self.tasks@[j]).active(),
            decreases self.tasks@.len() - i,
        {
            if self.tasks[i].is_active() {
                assert(self.tasks@[i as int].active());
                return true;
            }
            i = i + 1;
        }
        false
    }

    /// The newest task of a machine, running or not, by its position.
    pub fn newest_index(&self, vm: &str) -> (r: Option<usize>)
        ensures
            match r {
                Some(i) => newest_at(self.tasks@, vm@, i as int),
                None => forall|j: int|
                    0 <= j < self.tasks@.len() ==> (#[trigger] self.tasks@[j]).vm@ != vm@,
            },
    {
        let mut i: usize = self.tasks.len();
        while i > 0
            invariant
                i <= self.tasks@.len(),
                forall|j: int|
                    i <= j < self.tasks@.len() ==> (#[trigger] self.tasks@[j]).vm@ != vm@,
            decreases i,
        {
            i = i - 1;
            if text::same(&self.tasks[i].vm, vm) {
                return Some(i);
            }
        }
        None
    }

    /// Records a child that was started, or why it could not be. A machine that
    /// already has one is refused; callers ask [`Supervisor::is_busy`] before
    /// they start anything.
    pub fn spawn(&mut self, spec: TaskSpec, started: Result<(), ProcessError>, now: u64) -> (r:
        Result<TaskId, ProcessError>)
        requires
            old(self).wf(),
            old(self).next_id < u64::MAX,
        ensures
            final(self).wf(),
            spawn_gives(*old(self), *final(self), spec, started, now, r),
    {
        if self.is_busy(&spec.vm) {
            return Err(ProcessError::Busy { vm: spec.vm });
        }
        match started {
            Err(e) => Err(e),
            Ok(()) => {
                let id: u64 = self.next_id;
                let command_line = spec.command_line();
                let task = Task {
                    id,
                    kind: spec.kind,
                    vm: spec.vm,
                    log_path: spec.log_path,
                    command_line,
                    started_at: now,
                    control: spec.control,
                    state: TaskState::Running,
                    log: Default::default(),
                    stop: false,
                    kill: false,
                    paused: false,
                    suspend_since: None,
                    saved: None,
                    reported: false,
                };
                self.next_id = id + 1;
                self.tasks.push(task);
                proof {
                    assert(self.tasks@.drop_last() =~= old(self).tasks@);
                    assert forall|i: int, j: int|
                        0 <= i < j < self.tasks@.len() && (#[trigger] self.tasks@[i]).active() && (
                        #[trigger] self.tasks@[j]).active() implies self.tasks@[i].vm@
                        != self.tasks@[j].vm@ by {
                        if j == old(self).tasks@.len() {
                            assert(!holds_vm(old(self).tasks@[i], spec.vm@));
                        }
                    }
                }
                Ok(id)
            },
        }
    }

    /// Replaces the task at `i` by one that keeps its identity.
    proof fn lemma_replace(before: Supervisor, after: Supervisor, i: int, t: Task)
        requires
            before.wf(),
            0 <= i < before.tasks@.len(),
            after.tasks@ == before.tasks@.update(i, t),
            after.next_id == before.next_id,
            t.id == before.tasks@[i].id,
            t.vm == before.tasks@[i].vm,
            t.active() ==> before.tasks@[i].active(),
            t.log.wf(),
        ensures
            after.wf(),
    {
    }

    /// Adds what a child wrote to its log.
    pub fn output(&mut self, id: TaskId, chunk: &str)
        requires
            old(self).wf(),
            forall|i: int|
                0 <= i < old(self).tasks@.len() && (#[trigger] old(self).tasks@[i]).id == id
                    ==> appended(old(self).tasks@[i].log.log(), chunk@).dropped <= usize::MAX,
        ensures
            final(self).wf(),
            final(self).next_id == old(self).next_id,
            final(self).tasks@.len() == old(self).tasks@.len(),
            forall|i: int|
                0 <= i < old(self).tasks@.len() ==> {
                    let before = old(self).tasks@[i];
                    let after = #[trigger] final(self).tasks@[i];
                    &&& after == (Task { log: after.log, ..before })
                    &&& before.id != id ==> after == before
                    &&& before.id == id ==> after.log.log() == appended(before.log.log(), chunk@)
                },
    {
        if let Some(i) = self.index_of(id) {
            let ghost before = *self;
            self.tasks[i].log.push_chunk(chunk);
            proof {
                Self::lemma_replace(before, *self, i as int, self.tasks@[i as int]);
            }
        }
    }

    /// Asks the child at that position to stop.
    pub fn stop_at(&mut self, i: usize)
        requires
            old(self).wf(),
            i < old(self).tasks@.len(),
        ensures
            final(self).wf(),
            final(self).next_id == old(self).next_id,
            final(self).tasks@ == old(self).tasks@.update(
                i as int,
                (Task { stop: true, ..old(self).tasks@[i as int] }),
            ),
    {
        let ghost before = *self;
        self.tasks[i].request_stop();
        proof {
            Self::lemma_replace(before, *self, i as int, self.tasks@[i as int]);
        }
    }

    /// Asks for the child at that position to be killed.
    pub fn kill_at(&mut self, i: usize)
        requires
            old(self).wf(),
            i < old(self).tasks@.len(),
        ensures
            final(self).wf(),
            final(self).next_id == old(self).next_id,
            final(self).tasks@ == old(self).tasks@.update(
                i as int,
                (Task { kill: true, ..old(self).tasks@[i as int] }),
            ),
    {
        let ghost before = *self;
        self.tasks[i].request_kill();
        proof {
            Self::lemma_replace(before, *self, i as int, self.tasks@[i as int]);
        }
    }

    /// Records that the machine at that position was asked to pause, or to
    /// continue.
    pub fn pause_at(&mut self, i: usize, paused: bool)
        requires
            old(self).wf(),
            i < old(self).tasks@.len(),
        ensures
            final(self).wf(),
            final(self).next_id == old(self).next_id,
            final(self).tasks@ == old(self).tasks@.update(
                i as int,
                (Task { paused, ..old(self).tasks@[i as int] }),
            ),
    {
        let ghost before = *self;
        self.tasks[i].paused = paused;
        proof {
            Self::lemma_replace(before, *self, i as int, self.tasks@[i as int]);
        }
    }

    /// Records that the machine at that position was asked to write itself to a
    /// file.
    pub fn suspend_at(&mut self, i: usize, now: u64)
        requires
            old(self).wf(),
            i < old(self).tasks@.len(),
        ensures
            final(self).wf(),
            final(self).next_id == old(self).next_id,
            final(self).tasks@ == old(self).tasks@.update(
                i as int,
                (Task { suspend_since: Some(now), ..old(self).tasks@[i as int] }),
            ),
    {
        let ghost before = *self;
        self.tasks[i].suspend_since = Some(now);
        proof {
            Self::lemma_replace(before, *self, i as int, self.tasks@[i as int]);
        }
    }

    /// Records the engine's answer to a request to write the machine to a file.
    pub fn answered(&mut self, id: TaskId, saved: Result<String, String>)
        requires
            old(self).wf(),
        ensures
            final(self).wf(),
            final(self).next_id == old(self).next_id,
            final(self).tasks@.len() == old(self).tasks@.len(),
            forall|i: int|
                0 <= i < old(self).tasks@.len() ==> #[trigger] final(self).tasks@[i] == (if old(
                    self).tasks@[i].id == id {
                    Task { saved: Some(saved), ..old(self).tasks@[i] }
                } else {
                    old(self).tasks@[i]
                }),
    {
        if let Some(i) = self.index_of(id) {
            let ghost before = *self;
            self.tasks[i].saved = Some(saved);
            proof {
                Self::lemma_replace(before, *self, i as int, self.tasks@[i as int]);
            }
        }
    }

    /// The child was signalled to stop.
    pub fn stopping(&mut self, id: TaskId)
        requires
            old(self).wf(),
        ensures
            final(self).wf(),
            final(self).next_id == old(self).next_id,
            final(self).tasks@.len() == old(self).tasks@.len(),
            forall|i: int|
                0 <= i < old(self).tasks@.len() ==> #[trigger] final(self).tasks@[i] == (if old(
                    self,
                ).tasks@[i].id == id && old(self).tasks@[i].active() {
                    Task { state: TaskState::Stopping, ..old(self).tasks@[i] }
                } else {
                    old(self).tasks@[i]
                }),
    {
        if let Some(i) = self.index_of(id) {
            if self.tasks[i].is_active() {
                let ghost before = *self;
                self.tasks[i].state = TaskState::Stopping;
                proof {
                    Self::lemma_replace(before, *self, i as int, self.tasks@[i as int]);
                }
            }
        }
    }

    /// The child is over.
    pub fn finished(&mut self, id: TaskId, outcome: Outcome)
        requires
            old(self).wf(),
        ensures
            final(self).wf(),
            final(self).next_id == old(self).next_id,
            final(self).tasks@.len() == old(self).tasks@.len(),
            forall|i: int|
                0 <= i < old(self).tasks@.len() ==> #[trigger] final(self).tasks@[i] == (if old(
                    self,
                ).tasks@[i].id == id {
                    Task { state: TaskState::Finished(outcome), ..old(self).tasks@[i] }
                } else {
                    old(self).tasks@[i]
                }),
    {
        if let Some(i) = self.index_of(id) {
            let ghost before = *self;
            self.tasks[i].state = TaskState::Finished(outcome);
            proof {
                Self::lemma_replace(before, *self, i as int, self.tasks@[i as int]);
            }
        }
    }

    /// Outcomes not yet shown to the user, marked as shown.
    pub fn drain_finished(&mut self) -> (r: Vec<(TaskKind, String, Outcome)>)
        requires
            old(self).wf(),
        ensures
            final(self).wf(),
            final(self).next_id == old(self).next_id,
            r@ == unreported(old(self).tasks@),
            final(self).tasks@ == old(self).tasks@.map_values(|t: Task| shown(t)),
    {
        let ghost start = self.tasks@;
        let mut out: Vec<(TaskKind, String, Outcome)> = Vec::new();
        let mut i: usize = 0;
        let n: usize = self.tasks.len();
        while i < n
            invariant
                n == start.len(),
                self.tasks@.len() == n,
                self.next_id == old(self).next_id,
                i <= n,
                out@ == unreported(start.take(i as int)),
                forall|j: int| 0 <= j < i ==> #[trigger] self.tasks@[j] == shown(start[j]),
                forall|j: int| i <= j < n ==> #[trigger] self.tasks@[j] == start[j],
            decreases n - i,
        {
            proof {
                assert(start.take(i + 1).drop_last() =~= start.take(i as int));
                assert(start.take(i + 1).last() == start[i as int]);
            }
            if !self.tasks[i].reported {
                if let TaskState::Finished(outcome) = self.tasks[i].state() {
                    self.tasks[i].reported = true;
                    let kind = self.tasks[i].kind;
                    let vm = self.tasks[i].vm.clone();
                    out.push((kind, vm, outcome));
                }
            }
            i = i + 1;
        }
        proof {
            assert(start.take(n as int) =~= start);
            assert(self.tasks@ =~= start.map_values(|t: Task| shown(t)));
        }
        out
    }

    /// Drops tasks that are over, keeping the newest `keep` of them for the log
    /// pane.
    pub fn prune(&mut self, keep: usize)
        requires
            old(self).wf(),
        ensures
            final(self).wf(),
            final(self).next_id == old(self).next_id,
            final(self).tasks@ == pruned(old(self).tasks@, keep as int),
    {
        let ghost start = self.tasks@;
        let mut past: Vec<u64> = Vec::new();
        let mut i: usize = 0;
        while i < self.tasks.len()
            invariant
                self.tasks@ == start,
                i <= start.len(),
                past@ == past_ids(start.take(i as int)),
                forall|j: int| 0 <= j < start.len() ==> (#[trigger] start[j]).id < self.next_id,
                forall|j: int| 0 <= j < past@.len() ==> (#[trigger] past@[j]) < self.next_id,
                self.next_id == old(self).next_id,
            decreases start.len() - i,
        {
            proof {
                assert(start.take(i + 1).drop_last() =~= start.take(i as int));
                assert(start.take(i + 1).last() == start[i as int]);
            }
            if !self.tasks[i].is_active() && self.tasks[i].reported {
                past.push(self.tasks[i].id);
            }
            i = i + 1;
        }
        assert(start.take(i as int) =~= start);
        if past.len() <= keep {
            return;
        }
        let from: u64 = if keep == 0 {
            past[past.len() - 1] + 1
        } else {
            past[past.len() - keep]
        };
        let ghost mut p: int = 0;
        let mut k: usize = 0;
        proof {
            assert(kept_from(start.take(0), from) + start.skip(0) =~= start);
        }
        while k < self.tasks.len()
            invariant
                0 <= p <= start.len(),
                k == kept_from(start.take(p), from).len(),
                self.tasks@ == kept_from(start.take(p), from) + start.skip(p),
                self.next_id == old(self).next_id,
            decreases start.len() - p,
        {
            let ghost done = kept_from(start.take(p), from);
            proof {
                assert(start.take(p + 1).drop_last() =~= start.take(p));
                assert(start.take(p + 1).last() == start[p]);
                assert(self.tasks@[k as int] == start[p]);
                assert(start.skip(p) =~= seq![start[p]] + start.skip(p + 1));
            }
            if !self.tasks[k].is_active() && self.tasks[k].reported && self.tasks[k].id < from {
                let _ = self.tasks.remove(k);
                proof {
                    assert(self.tasks@ =~= done + start.skip(p + 1));
                }
            } else {
                proof {
                    assert(self.tasks@ =~= done.push(start[p]) + start.skip(p + 1));
                }
                k = k + 1;
            }
            proof {
                p = p + 1;
            }
        }
        proof {
            assert(p == start.len());
            assert(start.take(p) =~= start);
            assert(self.tasks@ =~= kept_from(start, from));
            lemma_kept_from(*old(self), start, from);
        }
    }
}

/// The newest task of a machine, by its position.
pub open spec fn newest_at(tasks: Seq<Task>, vm: Seq<char>, i: int) -> bool {
    &&& 0 <= i < tasks.len()
    &&& tasks[i].vm@ == vm
    &&& forall|j: int| i < j < tasks.len() ==> (#[trigger] tasks[j]).vm@ != vm
}

/// A task as it is right after its child was started.
pub open spec fn fresh_task(t: Task, id: TaskId, spec: TaskSpec, now: u64) -> bool {
    &&& t.id == id
    &&& t.kind == spec.kind
    &&& t.vm == spec.vm
    &&& t.log_path == spec.log_path
    &&& t.command_line@ == command_line_of(spec.program@, text::texts(spec.args@))
    &&& t.started_at == now
    &&& t.control == spec.control
    &&& t.state is Running
    &&& t.log.wf()
    &&& t.log.log() == LogView::blank()
    &&& !t.stop && !t.kill && !t.paused && !t.reported
    &&& t.suspend_since is None
    &&& t.saved is None
}

/// What recording a started child does and gives: a new task, or why there is
/// none and nothing else.
pub open spec fn spawn_gives(
    before: Supervisor,
    after: Supervisor,
    spec: TaskSpec,
    started: Result<(), ProcessError>,
    now: u64,
    r: Result<TaskId, ProcessError>,
) -> bool {
    match r {
        Ok(id) => {
            &&& !busy_in(before.tasks@, spec.vm@)
            &&& started is Ok
            &&& id == before.next_id
            &&& after.next_id == id + 1
            &&& after.tasks@.len() == before.tasks@.len() + 1
            &&& after.tasks@.drop_last() == before.tasks@
            &&& fresh_task(after.tasks@.last(), id, spec, now)
        },
        Err(e) => {
            &&& after == before
            &&& busy_in(before.tasks@, spec.vm@) ==> (e matches ProcessError::Busy { vm } && vm
                == spec.vm)
            &&& !busy_in(before.tasks@, spec.vm@) ==> started == Err::<(), ProcessError>(e)
        },
    }
}

/// Dropping tasks keeps the rest in order and in shape.
proof fn lemma_kept_from(sup: Supervisor, tasks: Seq<Task>, from: u64)
    requires
        sup.wf(),
        tasks.len() <= sup.tasks@.len(),
        tasks == sup.tasks@.take(tasks.len() as int),
    ensures
        ({
            let kept = kept_from(tasks, from);
            &&& forall|i: int| 0 <= i < kept.len() ==> tasks.contains(#[trigger] kept[i])
            &&& forall|i: int, j: int|
                0 <= i < j < kept.len() ==> (#[trigger] kept[i]).id < (#[trigger] kept[j]).id
            &&& forall|i: int, j: int|
                0 <= i < j < kept.len() && (#[trigger] kept[i]).active() && (
                #[trigger] kept[j]).active() ==> kept[i].vm@ != kept[j].vm@
            &&& forall|i: int| 0 <= i < kept.len() ==> (#[trigger] kept[i]).id < sup.next_id
            &&& forall|i: int| 0 <= i < kept.len() ==> (#[trigger] kept[i]).log.wf()
        }),
    decreases tasks.len(),
{
    if tasks.len() > 0 {
        let init = tasks.drop_last();
        assert(init =~= sup.tasks@.take(init.len() as int));
        lemma_kept_from(sup, init, from);
        let kept0 = kept_from(init, from);
        let kept = kept_from(tasks, from);
        assert(tasks.last() == sup.tasks@[tasks.len() - 1]);
        assert forall|i: int| 0 <= i < kept.len() implies tasks.contains(#[trigger] kept[i]) by {
            if i < kept0.len() {
                let j = choose|j: int| 0 <= j < init.len() && init[j] == kept0[i];
                assert(tasks[j] == kept[i]);
            } else {
                assert(tasks[tasks.len() - 1] == kept[i]);
            }
        }
        assert forall|i: int| 0 <= i < kept0.len() implies exists|j: int|
            0 <= j < init.len() && #[trigger] sup.tasks@[j] == #[trigger] kept0[i] by {
            assert(init.contains(kept0[i]));
            let j = choose|j: int| 0 <= j < init.len() && init[j] == kept0[i];
            assert(sup.tasks@[j] == kept0[i]);
        }
    }
}

/// How many of the identifiers are below `from`.
spec fn below(ids: Seq<u64>, from: u64) -> int
    decreases ids.len(),
{
    if ids.len() == 0 {
        0
    } else {
        below(ids.drop_last(), from) + (if ids.last() < from {
            1int
        } else {
            0int
        })
    }
}

spec fn increasing(ids: Seq<u64>) -> bool {
    forall|i: int, j: int| 0 <= i < j < ids.len() ==> ids[i] < ids[j]
}

proof fn lemma_past_increasing(sup: Supervisor, tasks: Seq<Task>)
    requires
        sup.wf(),
        tasks.len() <= sup.tasks@.len(),
        tasks == sup.tasks@.take(tasks.len() as int),
    ensures
        increasing(past_ids(tasks)),
        forall|i: int| 0 <= i < past_ids(tasks).len() ==> exists|j: int|
            0 <= j < tasks.len() && (#[trigger] sup.tasks@[j]).id == #[trigger] past_ids(tasks)[i],
    decreases tasks.len(),
{
    if tasks.len() > 0 {
        let init = tasks.drop_last();
        assert(init =~= sup.tasks@.take(init.len() as int));
        lemma_past_increasing(sup, init);
        let p0 = past_ids(init);
        let p = past_ids(tasks);
        assert(tasks.last() == sup.tasks@[tasks.len() - 1]);
        assert forall|i: int| 0 <= i < p.len() implies exists|j: int|
            0 <= j < tasks.len() && (#[trigger] sup.tasks@[j]).id == #[trigger] p[i] by {
            if i < p0.len() {
                assert(p0[i] == p[i]);
                let j = choose|j: int| 0 <= j < init.len() && (#[trigger] sup.tasks@[j]).id == p0[i];
                assert(sup.tasks@[j].id == p[i]);
            } else {
                assert(sup.tasks@[tasks.len() - 1].id == p[i]);
            }
        }
        assert forall|i: int, j: int| 0 <= i < j < p.len() implies p[i] < p[j] by {
            if j == p0.len() {
                assert(p[i] == p0[i]);
                let k = choose|k: int| 0 <= k < init.len() && (#[trigger] sup.tasks@[k]).id == p0[i];
                assert(sup.tasks@[k].id < sup.tasks@[tasks.len() - 1].id);
            } else {
                assert(p0[i] == p[i] && p0[j] == p[j]);
            }
        }
    }
}

proof fn lemma_past_of_kept(sup: Supervisor, tasks: Seq<Task>, from: u64)
    requires
        sup.wf(),
        tasks.len() <= sup.tasks@.len(),
        tasks == sup.tasks@.take(tasks.len() as int),
    ensures
        0 <= below(past_ids(tasks), from) <= past_ids(tasks).len(),
        past_ids(kept_from(tasks, from)) == past_ids(tasks).skip(below(past_ids(tasks), from)),
    decreases tasks.len(),
{
    if tasks.len() > 0 {
        let init = tasks.drop_last();
        assert(init =~= sup.tasks@.take(init.len() as int));
        lemma_past_of_kept(sup, init, from);
        lemma_past_increasing(sup, tasks);
        let p0 = past_ids(init);
        let p = past_ids(tasks);
        let last = tasks.last();
        if is_past(last) {
            assert(p.drop_last() =~= p0);
            if last.id >= from {
                assert(kept_from(tasks, from).drop_last() =~= kept_from(init, from));
                assert(p0.skip(below(p0, from)).push(last.id) =~= p.skip(below(p, from)));
            } else {
                lemma_all_below(p0, from, last.id);
                assert(p0.skip(below(p0, from)) =~= Seq::empty());
                assert(p.skip(below(p, from)) =~= Seq::empty());
            }
        } else {
            assert(kept_from(tasks, from).drop_last() =~= kept_from(init, from));
        }
    } else {
        assert(past_ids(tasks).skip(0) =~= Seq::empty());
        assert(past_ids(kept_from(tasks, from)) =~= Seq::empty());
    }
}

proof fn lemma_all_below(ids: Seq<u64>, from: u64, last: u64)
    requires
        last < from,
        increasing(ids.push(last)),
    ensures
        below(ids, from) == ids.len(),
    decreases ids.len(),
{
    if ids.len() > 0 {
        let all = ids.push(last);
        assert(all[ids.len() - 1] < all[ids.len() as int]);
        assert(ids.last() < last);
        assert(increasing(ids.drop_last().push(ids.last()))) by {
            assert(ids.drop_last().push(ids.last()) =~= ids);
            assert forall|i: int, j: int| 0 <= i < j < ids.len() implies ids[i] < ids[j] by {
                assert(all[i] < all[j]);
            }
        }
        lemma_all_below(ids.drop_last(), from, ids.last());
    }
}

proof fn lemma_below_at(ids: Seq<u64>, k: int)
    requires
        increasing(ids),
        0 <= k < ids.len(),
    ensures
        below(ids, ids[k]) == k,
    decreases ids.len(),
{
    let init = ids.drop_last();
    assert(increasing(init)) by {
        assert forall|i: int, j: int| 0 <= i < j < init.len() implies init[i] < init[j] by {
            assert(ids[i] < ids[j]);
        }
    }
    if k == ids.len() - 1 {
        if init.len() > 0 {
            assert(ids[init.len() - 1] < ids[k]);
            assert(increasing(init.drop_last().push(init.last()))) by {
                assert(init.drop_last().push(init.last()) =~= init);
            }
            lemma_all_below(init.drop_last(), ids[k], init.last());
            assert(init.last() < ids[k]);
            assert(below(init, ids[k]) == init.len());
        } else {
            assert(below(init, ids[k]) == 0);
        }
        assert(ids.last() == ids[k]);
        assert(below(ids, ids[k]) == below(init, ids[k]));
    } else {
        assert(ids[k] < ids[ids.len() - 1]);
        lemma_below_at(init, k);
        assert(init[k] == ids[k]);
    }
}

/// Pruning drops none of the tasks that are running or not reported, and of the
/// others exactly all but the newest `keep`; keeping none leaves the rest as they
/// stood.
pub proof fn pruning_keeps_the_newest(sup: Supervisor, keep: int)
    requires
        sup.wf(),
        keep >= 0,
    ensures
        past_ids(pruned(sup.tasks@, keep)) == last_of(past_ids(sup.tasks@), keep),
        forall|i: int|
            0 <= i < sup.tasks@.len() && !is_past(#[trigger] sup.tasks@[i]) ==> pruned(
                sup.tasks@,
                keep,
            ).contains(sup.tasks@[i]),
        keep == 0 ==> pruned(sup.tasks@, keep) == sup.tasks@.filter(|t: Task| !is_past(t)),
{
    let tasks = sup.tasks@;
    let past = past_ids(tasks);
    assert(tasks =~= sup.tasks@.take(tasks.len() as int));
    if past.len() > keep {
        let from = first_kept(past, keep);
        lemma_past_increasing(sup, tasks);
        lemma_past_of_kept(sup, tasks, from);
        if keep == 0 {
            assert(past =~= past.drop_last().push(past.last()));
            assert(past[past.len() - 1] < sup.next_id);
            lemma_all_below(past.drop_last(), from, past.last());
            assert forall|i: int| 0 <= i < tasks.len() && is_past(#[trigger] tasks[i]) implies tasks[i].id
                < from by {
                lemma_past_has(tasks, i);
            }
            lemma_none_kept(tasks, from);
        } else {
            lemma_below_at(past, past.len() - keep);
        }
        assert forall|i: int| 0 <= i < tasks.len() && !is_past(#[trigger] tasks[i]) implies pruned(
            tasks,
            keep,
        ).contains(tasks[i]) by {
            lemma_kept_contains(tasks, from, i);
        }
    } else if keep == 0 {
        assert forall|i: int| 0 <= i < tasks.len() && is_past(#[trigger] tasks[i]) implies tasks[i].id
            < 0 by {
            lemma_past_has(tasks, i);
        }
        lemma_none_kept(tasks, 0);
        lemma_kept_all(tasks, 0);
    }
}

/// The identifier of a task that is over is among them.
proof fn lemma_past_has(tasks: Seq<Task>, i: int)
    requires
        0 <= i < tasks.len(),
        is_past(tasks[i]),
    ensures
        exists|k: int| 0 <= k < past_ids(tasks).len() && past_ids(tasks)[k] == tasks[i].id,
    decreases tasks.len(),
{
    let init = tasks.drop_last();
    let past = past_ids(tasks);
    if i == tasks.len() - 1 {
        assert(past[past.len() - 1] == tasks[i].id);
    } else {
        lemma_past_has(init, i);
        let k = choose|k: int| 0 <= k < past_ids(init).len() && past_ids(init)[k] == init[i].id;
        assert(past[k] == tasks[i].id);
    }
}

/// Where every task that is over comes before `from`, none of them stays.
proof fn lemma_none_kept(tasks: Seq<Task>, from: u64)
    requires
        forall|i: int| 0 <= i < tasks.len() && is_past(#[trigger] tasks[i]) ==> tasks[i].id < from,
    ensures
        kept_from(tasks, from) == tasks.filter(|t: Task| !is_past(t)),
    decreases tasks.len(),
{
    reveal(Seq::filter);
    if tasks.len() > 0 {
        let init = tasks.drop_last();
        assert forall|i: int| 0 <= i < init.len() && is_past(#[trigger] init[i]) implies init[i].id
            < from by {
            assert(init[i] == tasks[i]);
        }
        lemma_none_kept(init, from);
        assert(is_past(tasks[tasks.len() - 1]) ==> tasks.last().id < from);
    }
}

proof fn lemma_kept_all(tasks: Seq<Task>, from: u64)
    requires
        from == 0,
    ensures
        kept_from(tasks, from) == tasks,
    decreases tasks.len(),
{
    if tasks.len() > 0 {
        lemma_kept_all(tasks.drop_last(), from);
        assert(tasks.drop_last().push(tasks.last()) =~= tasks);
    } else {
        assert(tasks =~= Seq::empty());
    }
}

proof fn lemma_kept_contains(tasks: Seq<Task>, from: u64, i: int)
    requires
        0 <= i < tasks.len(),
        !is_past(tasks[i]),
    ensures
        kept_from(tasks, from).contains(tasks[i]),
    decreases tasks.len(),
{
    let init = tasks.drop_last();
    let kept = kept_from(tasks, from);
    if i == tasks.len() - 1 {
        assert(kept[kept.len() - 1] == tasks[i]);
    } else {
        lemma_kept_contains(init, from, i);
        let k = choose|k: int| 0 <= k < kept_from(init, from).len() && kept_from(init, from)[k] == init[i];
        assert(kept[k] == tasks[i]);
    }
}

/// An outcome is reported once: right after a drain there is nothing to report.
pub proof fn outcomes_are_reported_once(tasks: Seq<Task>)
    ensures
        unreported(tasks.map_values(|t: Task| shown(t))) == Seq::<
            (TaskKind, String, Outcome),
        >::empty(),
    decreases tasks.len(),
{
    let after = tasks.map_values(|t: Task| shown(t));
    if tasks.len() > 0 {
        outcomes_are_reported_once(tasks.drop_last());
        assert(after.drop_last() =~= tasks.drop_last().map_values(|t: Task| shown(t)));
        assert(after.last() == shown(tasks.last()));
    }
}

/// A machine has at most one running child.
pub proof fn one_child_per_machine(sup: Supervisor, i: int, j: int)
    requires
        sup.wf(),
        0 <= i < sup.tasks@.len(),
        0 <= j < sup.tasks@.len(),
        sup.tasks@[i].active(),
        sup.tasks@[j].active(),
        sup.tasks@[i].vm@ == sup.tasks@[j].vm@,
    ensures
        i == j,
{
    if i < j {
        assert(sup.tasks@[i].vm@ != sup.tasks@[j].vm@);
    } else if j < i {
        assert(sup.tasks@[j].vm@ != sup.tasks@[i].vm@);
    }
}

// ---------------------------------------------------------------------------
// The watcher
// ---------------------------------------------------------------------------

/// What the watcher knows about one child.
#[derive(Debug, Clone, Copy, PartialEq, Eq)]
pub struct Watch {
    /// When the child was asked to stop, in milliseconds.
    pub term_sent: Option<u64>,
    /// The child was killed.
    pub killed: bool,
}

/// What the watcher does next.
#[derive(Debug, Clone, Copy, PartialEq, Eq, Structural)]
pub enum WatchStep {
    /// Ask the child to stop, then report how that went.
    Signal,
    /// Kill the child, then look whether it is over.
    Kill,
    /// Look whether the child is over.
    Wait,
}

/// What looking for the child's exit gave.
#[derive(Debug, Clone, PartialEq, Eq)]
pub enum Waited {
    /// It still runs.
    Running,
    /// It is over: its exit code if it has one, and how the system words it.
    Exited { code: Option<i32>, status: String },
    /// The system could not say.
    Failed(String),
}

/// A number in decimal, with a minus sign when it is negative.
pub open spec fn signed_of(n: int) -> Seq<char> {
    if n < 0 {
        "-"@ + text::decimal_of((-n) as nat)
    } else {
        text::decimal_of(n as nat)
    }
}

fn signed(n: i32) -> (r: String)
    ensures
        r@ == signed_of(n as int),
{
    let wide: i64 = n as i64;
    if wide < 0 {
        text::cat("-", &text::decimal((-wide) as u64))
    } else {
        text::decimal(wide as u64)
    }
}

/// How an exit is described to the user.
pub open spec fn described(
    code: Option<i32>,
    status: Seq<char>,
    stopped_by_user: bool,
    killed: bool,
) -> Seq<char> {
    if stopped_by_user {
        (if killed {
            "killed"@
        } else {
            "stopped"@
        }) + " on request ("@ + status + ")"@
    } else {
        match code {
            Some(n) => if n == 0 {
                "finished successfully"@
            } else {
                "exited with status "@ + signed_of(n as int)
            },
            None => "terminated ("@ + status + ")"@,
        }
    }
}

/// How an exit is described to the user.
pub fn describe(code: Option<i32>, status: &str, stopped_by_user: bool, killed: bool) -> (r: String)
    ensures
        r@ == described(code, status@, stopped_by_user, killed),
{
    if stopped_by_user {
        let how = if killed {
            "killed"
        } else {
            "stopped"
        };
        return text::cat4(how, " on request (", status, ")");
    }
    match code {
        Some(n) => if n == 0 {
            "finished successfully".to_owned()
        } else {
            text::cat("exited with status ", &signed(n))
        },
        None => text::cat3("terminated (", status, ")"),
    }
}

impl Watch {
    pub fn new() -> (r: Watch)
        ensures
            r.term_sent is None,
            !r.killed,
    {
        Watch { term_sent: None, killed: false }
    }

    /// The child was asked to stop longer than the grace period ago.
    pub open spec fn grace_expired(self, now: u64) -> bool {
        self.term_sent matches Some(at) && now - at > STOP_GRACE_MS
    }

    /// The child has to be killed now.
    pub open spec fn must_kill(self, kill: bool, now: u64) -> bool {
        !self.killed && (kill || self.grace_expired(now))
    }

    /// Decides the first step of one round: a stop request is signalled once;
    /// a kill request, or a stop request that was not honoured in time, kills.
    pub fn poll(&mut self, stop: bool, kill: bool, now: u64) -> (r: WatchStep)
        ensures
            r == (if stop && old(self).term_sent is None {
                WatchStep::Signal
            } else if old(self).must_kill(kill, now) {
                WatchStep::Kill
            } else {
                WatchStep::Wait
            }),
            final(self).term_sent == old(self).term_sent,
            final(self).killed == (old(self).killed || r == WatchStep::Kill),
    {
        if stop && self.term_sent.is_none() {
            return WatchStep::Signal;
        }
        let expired = match self.term_sent {
            Some(at) => now > at && now - at > STOP_GRACE_MS,
            None => false,
        };
        if !self.killed && (kill || expired) {
            self.killed = true;
            return WatchStep::Kill;
        }
        WatchStep::Wait
    }

    /// The stop signal was sent, or could not be: a child that cannot be
    /// signalled is killed.
    pub fn signalled(&mut self, delivered: bool, kill: bool, now: u64) -> (r: WatchStep)
        ensures
            final(self).term_sent == Some(now),
            r == (if !delivered || (!old(self).killed && kill) {
                WatchStep::Kill
            } else {
                WatchStep::Wait
            }),
            final(self).killed == (old(self).killed || r == WatchStep::Kill),
    {
        self.term_sent = Some(now);
        if !delivered || (!self.killed && kill) {
            self.killed = true;
            return WatchStep::Kill;
        }
        WatchStep::Wait
    }

    /// The outcome of the task, once its child is over. A stop that the user
    /// asked for is no failure.
    pub fn waited(&self, waited: Waited, stop: bool) -> (r: Option<Outcome>)
        ensures
            match waited {
                Waited::Running => r is None,
                Waited::Exited { code, status } => {
                    &&& r matches Some(o)
                    &&& o.success == (code == Some(0i32) || stop)
                    &&& o.detail@ == described(code, status@, stop, self.killed)
                    &&& o.stopped_by_user == stop
                },
                Waited::Failed(e) => {
                    &&& r matches Some(o)
                    &&& !o.success
                    &&& o.detail@ == "cannot wait for the child: "@ + e@
                    &&& o.stopped_by_user == stop
                },
            },
    {
        match waited {
            Waited::Running => None,
            Waited::Exited { code, status } => {
                let clean = match code {
                    Some(n) => n == 0,
                    None => false,
                };
                Some(
                    Outcome {
                        success: clean || stop,
                        detail: describe(code, &status, stop, self.killed),
                        stopped_by_user: stop,
                    },
                )
            },
            Waited::Failed(e) => Some(
                Outcome {
                    success: false,
                    detail: text::cat("cannot wait for the child: ", &e),
                    stopped_by_user: stop,
                },
            ),
        }
    }
}

} // verus!
