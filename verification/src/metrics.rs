//! Host and per-machine numbers: processor time, resident memory, host memory
//! and the free space under the machine directory.
//!
//! The readers take the text that the host hands out and degrade to `None`
//! where it is not the text they know: a missing number renders as nothing,
//! never as an error. A processor share is kept as the two numbers it is the
//! quotient of. For a process it is a share of one core, so a machine with two
//! busy processors reads as twice the whole; for the host it is a share of the
//! whole machine.
use crate::table::Table;
use crate::text;
use std::collections::HashMap;
use vstd::prelude::*;

verus! {

broadcast use vstd::std_specs::hash::group_hash_axioms;

/// Samples kept per machine and for the host.
pub const HISTORY: usize = 90;

/// How often a sample is taken, in milliseconds.
pub const INTERVAL_MS: u64 = 1000;

/// `part` of `whole`, which is not zero.
#[derive(Debug, Clone, Copy, PartialEq, Eq, Structural)]
pub struct Share {
    pub part: u64,
    pub whole: u64,
}

pub open spec fn share_of(part: u64, whole: u64) -> Option<Share> {
    if whole == 0 {
        None
    } else {
        Some(Share { part, whole })
    }
}

/// `part` of `whole` as a share, or `None` for a zero denominator: a first
/// sample, or a clock that did not advance.
pub fn percent_of(part: u64, whole: u64) -> (r: Option<Share>)
    ensures
        r == share_of(part, whole),
{
    if whole == 0 {
        None
    } else {
        Some(Share { part, whole })
    }
}

/// What `later` is beyond `earlier`.
pub open spec fn beyond(later: u64, earlier: u64) -> u64 {
    if later >= earlier {
        (later - earlier) as u64
    } else {
        0
    }
}

fn delta(later: u64, earlier: u64) -> (r: u64)
    ensures
        r == beyond(later, earlier),
{
    if later >= earlier {
        later - earlier
    } else {
        0
    }
}

/// A history with one more sample, of which only the newest [`HISTORY`] stay.
pub open spec fn capped<T>(history: Seq<T>, value: T) -> Seq<T> {
    let all = history.push(value);
    if all.len() > HISTORY {
        all.skip(all.len() - HISTORY)
    } else {
        all
    }
}

/// Adds a sample. The oldest samples drop first.
pub fn push_capped<T>(history: &mut Vec<T>, value: T)
    ensures
        final(history)@ == capped(old(history)@, value),
        final(history)@.len() <= HISTORY,
{
    history.push(value);
    let ghost all = history@;
    assert(all.skip(0) =~= all);
    while history.len() > HISTORY
        invariant
            all == old(history)@.push(value),
            history@.len() <= all.len(),
            history@ == all.skip(all.len() - history@.len()),
            history@.len() >= HISTORY || history@ == all,
        decreases history@.len(),
    {
        let ghost before = history@;
        let _ = history.remove(0);
        assert(history@ =~= all.skip(all.len() - history@.len()));
    }
}

/// One machine's numbers.
#[derive(Debug, PartialEq, Eq)]
pub struct VmStats {
    /// Share of one core.
    pub cpu_percent: Option<Share>,
    /// Resident size of the child, which holds the guest's memory.
    pub rss_bytes: Option<u64>,
    /// The newest samples, oldest first.
    pub history: Vec<Share>,
}

/// A machine's numbers as plain values.
pub ghost struct VmStatsView {
    pub cpu_percent: Option<Share>,
    pub rss_bytes: Option<u64>,
    pub history: Seq<Share>,
}

impl View for VmStats {
    type V = VmStatsView;

    open spec fn view(&self) -> VmStatsView {
        VmStatsView {
            cpu_percent: self.cpu_percent,
            rss_bytes: self.rss_bytes,
            history: self.history@,
        }
    }
}

/// The host's numbers.
#[derive(Debug, PartialEq, Eq)]
pub struct HostStats {
    /// Share of the whole machine.
    pub cpu_percent: Option<Share>,
    pub history: Vec<Share>,
    pub mem_total: Option<u64>,
    pub mem_available: Option<u64>,
    /// Free and total bytes of the file system that holds the machine
    /// directory.
    pub vm_dir_space: Option<(u64, u64)>,
}

impl Default for HostStats {
    fn default() -> (r: HostStats)
        ensures
            r.cpu_percent is None,
            r.history@.len() == 0,
            r.mem_total is None,
            r.mem_available is None,
            r.vm_dir_space is None,
    {
        HostStats {
            cpu_percent: None,
            history: Vec::new(),
            mem_total: None,
            mem_available: None,
            vm_dir_space: None,
        }
    }
}

/// Everything one sample tells.
#[derive(Debug, PartialEq, Eq)]
pub struct Snapshot {
    pub host: HostStats,
    pub vms: Table<VmStats>,
}

impl Default for Snapshot {
    fn default() -> (r: Snapshot)
        ensures
            r.host.cpu_percent is None,
            r.host.history@.len() == 0,
            r.host.mem_total is None,
            r.host.mem_available is None,
            r.host.vm_dir_space is None,
            r.vms.wf(),
            r.vms@ == Map::<Seq<char>, VmStats>::empty(),
    {
        Snapshot { host: HostStats::default(), vms: Table::new() }
    }
}

/// The machines' numbers as plain values.
pub open spec fn stats_views(vms: Map<Seq<char>, VmStats>) -> Map<Seq<char>, VmStatsView> {
    vms.map_values(|s: VmStats| s@)
}

/// Histories as plain values.
pub open spec fn history_views(histories: Map<Seq<char>, Vec<Share>>) -> Map<
    Seq<char>,
    Seq<Share>,
> {
    histories.map_values(|h: Vec<Share>| h@)
}

/// What the host said of one child.
#[derive(Debug, PartialEq, Eq)]
pub struct Reading {
    pub vm: String,
    pub pid: u32,
    /// Processor time so far, in nanoseconds.
    pub cpu_time: Option<u64>,
    pub rss: Option<u64>,
}

/// Some reading is of this child.
pub open spec fn reads_pid(readings: Seq<Reading>, pid: u32) -> bool {
    exists|i: int| 0 <= i < readings.len() && (#[trigger] readings[i]).pid == pid
}

/// Some reading is of this machine.
pub open spec fn reads_vm(readings: Seq<Reading>, vm: Seq<char>) -> bool {
    exists|i: int| 0 <= i < readings.len() && (#[trigger] readings[i]).vm@ == vm
}

/// What a sampler knows while it goes through the readings of one round.
pub ghost struct Tally {
    /// Per child: its processor time when it was last read, and when that was.
    pub prev: Map<u32, (u64, u64)>,
    pub histories: Map<Seq<char>, Seq<Share>>,
    pub vms: Map<Seq<char>, VmStatsView>,
}

/// The share of a core that a child used since it was last read.
pub open spec fn used(prev: Map<u32, (u64, u64)>, reading: Reading, now: u64) -> Option<Share> {
    match reading.cpu_time {
        Some(time) => if prev.contains_key(reading.pid) {
            let (prev_time, prev_at) = prev[reading.pid];
            share_of(beyond(time, prev_time), beyond(now, prev_at))
        } else {
            None
        },
        None => None,
    }
}

/// The history of a machine, which is empty before its first sample.
pub open spec fn history_of(histories: Map<Seq<char>, Seq<Share>>, vm: Seq<char>) -> Seq<Share> {
    if histories.contains_key(vm) {
        histories[vm]
    } else {
        Seq::empty()
    }
}

/// What one reading adds.
pub open spec fn counted(t: Tally, reading: Reading, now: u64) -> Tally {
    let cpu = used(t.prev, reading, now);
    let vm = reading.vm@;
    let history = match cpu {
        Some(share) => capped(history_of(t.histories, vm), share),
        None => history_of(t.histories, vm),
    };
    Tally {
        prev: match reading.cpu_time {
            Some(time) => t.prev.insert(reading.pid, (time, now)),
            None => t.prev,
        },
        histories: t.histories.insert(vm, history),
        vms: t.vms.insert(
            vm,
            VmStatsView { cpu_percent: cpu, rss_bytes: reading.rss, history },
        ),
    }
}

/// What all readings of a round add, one after the other.
pub open spec fn tallied(t: Tally, readings: Seq<Reading>, now: u64) -> Tally
    decreases readings.len(),
{
    if readings.len() == 0 {
        t
    } else {
        counted(tallied(t, readings.drop_last(), now), readings.last(), now)
    }
}

/// What a round starts from: children and machines that are not read any more
/// are forgotten.
pub open spec fn start_of(
    prev: Map<u32, (u64, u64)>,
    histories: Map<Seq<char>, Seq<Share>>,
    readings: Seq<Reading>,
) -> Tally {
    Tally {
        prev: Map::new(
            |pid: u32| prev.contains_key(pid) && reads_pid(readings, pid),
            |pid: u32| prev[pid],
        ),
        histories: Map::new(
            |vm: Seq<char>| histories.contains_key(vm) && reads_vm(readings, vm),
            |vm: Seq<char>| histories[vm],
        ),
        vms: Map::empty(),
    }
}

/// The share of the host's processors that was used between two readings.
pub open spec fn host_used(prev: Option<(u64, u64)>, read: Option<(u64, u64)>) -> Option<Share> {
    match (prev, read) {
        (Some(p), Some(r)) => share_of(beyond(r.0, p.0), beyond(r.1, p.1)),
        _ => None,
    }
}

/// Turns readings into shares: it remembers what it read last.
pub struct Sampler {
    pub prev: HashMap<u32, (u64, u64)>,
    /// Busy and total processor time of the host.
    pub host_prev: Option<(u64, u64)>,
    pub host_history: Vec<Share>,
    pub vm_history: Table<Vec<Share>>,
}

fn clone_shares(list: &Vec<Share>) -> (r: Vec<Share>)
    ensures
        r@ == list@,
{
    let mut r: Vec<Share> = Vec::new();
    let mut i: usize = 0;
    while i < list.len()
        invariant
            i <= list@.len(),
            r@ == list@.take(i as int),
        decreases list@.len() - i,
    {
        r.push(list[i]);
        i = i + 1;
    }
    assert(list@.take(i as int) =~= list@);
    r
}

impl Sampler {
    /// The rows are in order and no history is too long.
    pub open spec fn wf(self) -> bool {
        &&& self.vm_history.wf()
        &&& self.host_history@.len() <= HISTORY
        &&& forall|vm: Seq<char>|
            self.vm_history@.contains_key(vm) ==> (#[trigger] self.vm_history@[vm])@.len()
                <= HISTORY
    }

    pub fn new() -> (r: Sampler)
        ensures
            r.wf(),
            r.prev@ == Map::<u32, (u64, u64)>::empty(),
            r.host_prev is None,
            r.host_history@.len() == 0,
            r.vm_history@ == Map::<Seq<char>, Vec<Share>>::empty(),
    {
        Sampler {
            prev: HashMap::new(),
            host_prev: None,
            host_history: Vec::new(),
            vm_history: Table::new(),
        }
    }

    /// The tally a round starts from.
    pub open spec fn start(self, readings: Seq<Reading>) -> Tally {
        start_of(self.prev@, history_views(self.vm_history@), readings)
    }

    /// Forgets the children that are not read any more, so a reused number never
    /// inherits a stale baseline, and the histories of machines that are gone.
    fn forget(&mut self, readings: &Vec<Reading>)
        requires
            old(self).wf(),
        ensures
            final(self).wf(),
            final(self).prev@ == old(self).start(readings@).prev,
            history_views(final(self).vm_history@) == old(self).start(readings@).histories,
            final(self).host_prev == old(self).host_prev,
            final(self).host_history == old(self).host_history,
    {
        let mut prev: HashMap<u32, (u64, u64)> = HashMap::new();
        let mut kept: Table<Vec<Share>> = Table::new();
        let mut i: usize = 0;
        proof {
            let t = self.start(readings@.take(0));
            assert(prev@ =~= t.prev);
            assert(history_views(kept@) =~= t.histories);
        }
        while i < readings.len()
            invariant
                i <= readings@.len(),
                self.wf(),
                *self == *old(self),
                kept.wf(),
                prev@ == self.start(readings@.take(i as int)).prev,
                history_views(kept@) == self.start(readings@.take(i as int)).histories,
                forall|vm: Seq<char>|
                    kept@.contains_key(vm) ==> (#[trigger] kept@[vm])@.len() <= HISTORY,
            decreases readings@.len() - i,
        {
            let ghost so_far = readings@.take(i as int);
            let ghost next = readings@.take(i + 1);
            let ghost prev0 = prev@;
            let ghost kept0 = kept@;
            let pid = readings[i].pid;
            if let Some(baseline) = self.prev.get(&pid) {
                let _ = prev.insert(pid, *baseline);
            }
            if let Some(history) = self.vm_history.get(&readings[i].vm) {
                kept.insert(&readings[i].vm, clone_shares(history));
            }
            proof {
                assert(next =~= so_far.push(readings@[i as int]));
                let r = readings@[i as int];
                assert(next[i as int] == r);
                assert forall|p: u32| reads_pid(next, p) == (reads_pid(so_far, p) || p == r.pid) by {
                    if reads_pid(so_far, p) {
                        let j = choose|j: int|
                            0 <= j < so_far.len() && (#[trigger] so_far[j]).pid == p;
                        assert(next[j].pid == p);
                    }
                    if reads_pid(next, p) && p != r.pid {
                        let j = choose|j: int| 0 <= j < next.len() && (#[trigger] next[j]).pid == p;
                        assert(so_far[j].pid == p);
                    }
                }
                assert forall|v: Seq<char>|
                    reads_vm(next, v) == (reads_vm(so_far, v) || v == r.vm@) by {
                    if reads_vm(so_far, v) {
                        let j = choose|j: int|
                            0 <= j < so_far.len() && (#[trigger] so_far[j]).vm@ == v;
                        assert(next[j].vm@ == v);
                    }
                    if reads_vm(next, v) && v != r.vm@ {
                        let j = choose|j: int| 0 <= j < next.len() && (#[trigger] next[j]).vm@ == v;
                        assert(so_far[j].vm@ == v);
                    }
                }
                let t = self.start(next);
                assert(prev@ =~= t.prev);
                if self.vm_history@.contains_key(r.vm@) {
                    assert(history_views(kept@) =~= history_views(kept0).insert(
                        r.vm@,
                        self.vm_history@[r.vm@]@,
                    ));
                    assert(history_views(self.vm_history@)[r.vm@] == self.vm_history@[r.vm@]@);
                }
                assert(history_views(kept@) =~= t.histories);
            }
            i = i + 1;
        }
        assert(readings@.take(i as int) =~= readings@);
        self.prev = prev;
        self.vm_history = kept;
    }

    /// Takes a round of readings, at `now` nanoseconds of a clock of the
    /// caller's choice, and tells what they come to.
    pub fn sample(
        &mut self,
        host_cpu: Option<(u64, u64)>,
        readings: &Vec<Reading>,
        now: u64,
        memory: Option<(u64, u64)>,
        space: Option<(u64, u64)>,
    ) -> (r: Snapshot)
        requires
            old(self).wf(),
        ensures
            final(self).wf(),
            ({
                let t = tallied(old(self).start(readings@), readings@, now);
                &&& final(self).prev@ == t.prev
                &&& history_views(final(self).vm_history@) == t.histories
                &&& stats_views(r.vms@) == t.vms
            }),
            r.vms.wf(),
            r.host.cpu_percent == host_used(old(self).host_prev, host_cpu),
            final(self).host_prev == (if host_cpu is Some {
                host_cpu
            } else {
                old(self).host_prev
            }),
            final(self).host_history@ == match r.host.cpu_percent {
                Some(share) => capped(old(self).host_history@, share),
                None => old(self).host_history@,
            },
            r.host.history@ == final(self).host_history@,
            r.host.mem_total == match memory {
                Some(m) => Some(m.0),
                None => None,
            },
            r.host.mem_available == match memory {
                Some(m) => Some(m.1),
                None => None,
            },
            r.host.vm_dir_space == space,
    {
        let host = match (host_cpu, self.host_prev) {
            (Some(read), Some(prev)) => percent_of(delta(read.0, prev.0), delta(read.1, prev.1)),
            _ => None,
        };
        if host_cpu.is_some() {
            self.host_prev = host_cpu;
        }
        if let Some(share) = host {
            push_capped(&mut self.host_history, share);
        }
        let ghost start = old(self).start(readings@);
        self.forget(readings);
        let mut vms: Table<VmStats> = Table::new();
        let ghost host_prev = self.host_prev;
        let ghost host_history = self.host_history@;
        let mut i: usize = 0;
        proof {
            assert(readings@.take(0) =~= Seq::<Reading>::empty());
            assert(stats_views(vms@) =~= start.vms);
        }
        while i < readings.len()
            invariant
                i <= readings@.len(),
                self.wf(),
                vms.wf(),
                self.prev@ == tallied(start, readings@.take(i as int), now).prev,
                history_views(self.vm_history@) == tallied(
                    start,
                    readings@.take(i as int),
                    now,
                ).histories,
                stats_views(vms@) == tallied(start, readings@.take(i as int), now).vms,
                self.host_prev == host_prev,
                self.host_history@ == host_history,
            decreases readings@.len() - i,
        {
            let ghost t = tallied(start, readings@.take(i as int), now);
            let ghost histories0 = self.vm_history@;
            let ghost vms0 = vms@;
            proof {
                assert(readings@.take(i + 1).drop_last() =~= readings@.take(i as int));
                assert(readings@.take(i + 1).last() == readings@[i as int]);
            }
            let pid = readings[i].pid;
            let cpu = match (readings[i].cpu_time, self.prev.get(&pid)) {
                (Some(time), Some(prev)) => percent_of(delta(time, prev.0), delta(now, prev.1)),
                _ => None,
            };
            if let Some(time) = readings[i].cpu_time {
                let _ = self.prev.insert(pid, (time, now));
            }
            let mut history = match self.vm_history.get(&readings[i].vm) {
                Some(h) => clone_shares(h),
                None => Vec::new(),
            };
            assert(history@ =~= history_of(t.histories, readings@[i as int].vm@));
            if let Some(share) = cpu {
                push_capped(&mut history, share);
            }
            let stats = VmStats {
                cpu_percent: cpu,
                rss_bytes: readings[i].rss,
                history: clone_shares(&history),
            };
            let ghost new_history = history;
            let ghost new_stats = stats;
            self.vm_history.insert(&readings[i].vm, history);
            vms.insert(&readings[i].vm, stats);
            proof {
                let vm = readings@[i as int].vm@;
                assert(history_views(self.vm_history@) =~= history_views(histories0).insert(
                    vm,
                    new_history@,
                ));
                assert(stats_views(vms@) =~= stats_views(vms0).insert(vm, new_stats@));
                assert forall|v: Seq<char>| self.vm_history@.contains_key(v) implies (
                #[trigger] self.vm_history@[v])@.len() <= HISTORY by {
                    if v != vm {
                        assert(histories0.contains_key(v));
                        assert(self.vm_history@[v] == histories0[v]);
                    }
                }
            }
            i = i + 1;
        }
        assert(readings@.take(i as int) =~= readings@);
        let (mem_total, mem_available) = match memory {
            Some(m) => (Some(m.0), Some(m.1)),
            None => (None, None),
        };
        Snapshot {
            host: HostStats {
                cpu_percent: host,
                history: clone_shares(&self.host_history),
                mem_total,
                mem_available,
                vm_dir_space: space,
            },
            vms,
        }
    }
}

/// After a round exactly the machines that it read are told of, and only the
/// children that it read are remembered: one whose number was missing from a
/// round starts afresh.
pub proof fn rounds_tell_what_was_read(
    prev: Map<u32, (u64, u64)>,
    histories: Map<Seq<char>, Seq<Share>>,
    readings: Seq<Reading>,
    now: u64,
    pid: u32,
    vm: Seq<char>,
)
    ensures
        ({
            let t = tallied(start_of(prev, histories, readings), readings, now);
            &&& t.prev.contains_key(pid) ==> reads_pid(readings, pid)
            &&& t.vms.contains_key(vm) <==> reads_vm(readings, vm)
            &&& t.histories.contains_key(vm) <==> reads_vm(readings, vm)
        }),
{
    lemma_tallied(start_of(prev, histories, readings), readings, now, pid, vm);
}

proof fn lemma_tallied(t: Tally, readings: Seq<Reading>, now: u64, pid: u32, vm: Seq<char>)
    ensures
        tallied(t, readings, now).prev.contains_key(pid) ==> t.prev.contains_key(pid) || reads_pid(
            readings,
            pid,
        ),
        tallied(t, readings, now).vms.contains_key(vm) <==> t.vms.contains_key(vm) || reads_vm(
            readings,
            vm,
        ),
        tallied(t, readings, now).histories.contains_key(vm) <==> t.histories.contains_key(vm)
            || reads_vm(readings, vm),
    decreases readings.len(),
{
    if readings.len() > 0 {
        let init = readings.drop_last();
        let last = readings.last();
        lemma_tallied(t, init, now, pid, vm);
        assert(readings[readings.len() - 1] == last);
        if reads_pid(init, pid) {
            let j = choose|j: int| 0 <= j < init.len() && (#[trigger] init[j]).pid == pid;
            assert(readings[j].pid == pid);
        }
        if reads_vm(init, vm) {
            let j = choose|j: int| 0 <= j < init.len() && (#[trigger] init[j]).vm@ == vm;
            assert(readings[j].vm@ == vm);
        }
        if reads_vm(readings, vm) && last.vm@ != vm {
            let j = choose|j: int| 0 <= j < readings.len() && (#[trigger] readings[j]).vm@ == vm;
            assert(init[j].vm@ == vm);
        }
    }
}

/// A child that is read for the first time has no share yet, whatever its
/// processor time.
pub proof fn first_readings_have_no_share(prev: Map<u32, (u64, u64)>, reading: Reading, now: u64)
    requires
        !prev.contains_key(reading.pid),
    ensures
        used(prev, reading, now) is None,
{
}

// ---------------------------------------------------------------------------
// What the host hands out
// ---------------------------------------------------------------------------

/// The numbers among words.
pub open spec fn numbers_of(words: Seq<Seq<char>>) -> Seq<nat>
    decreases words.len(),
{
    if words.len() == 0 {
        Seq::empty()
    } else {
        match text::parsed_number(words.last(), u64::MAX as nat) {
            Some(n) => numbers_of(words.drop_last()).push(n),
            None => numbers_of(words.drop_last()),
        }
    }
}

pub open spec fn sum_of(numbers: Seq<nat>) -> nat
    decreases numbers.len(),
{
    if numbers.len() == 0 {
        0
    } else {
        sum_of(numbers.drop_last()) + numbers.last()
    }
}

proof fn lemma_sum_bounds(numbers: Seq<nat>, k: int)
    requires
        0 <= k <= numbers.len(),
    ensures
        sum_of(numbers.take(k)) <= sum_of(numbers),
    decreases numbers.len() - k,
{
    if k < numbers.len() {
        lemma_sum_bounds(numbers, k + 1);
        assert(numbers.take(k + 1).drop_last() =~= numbers.take(k));
    } else {
        assert(numbers.take(k) =~= numbers);
    }
}

/// Busy and total processor time in the host's statistics: the numbers of the
/// first line, of which the fourth and the fifth are idle time.
pub open spec fn cpu_times_in(stat: Seq<char>) -> Option<(nat, nat)> {
    let lines = text::lines_of(stat);
    if lines.len() == 0 {
        None
    } else {
        let n = numbers_of(text::words_of(lines[0]).skip(1));
        if n.len() < 4 || text::words_of(lines[0]).len() == 0 || sum_of(n) > u64::MAX {
            None
        } else {
            let idle = n[3] + (if n.len() > 4 {
                n[4]
            } else {
                0
            });
            Some(((sum_of(n) - idle) as nat, sum_of(n)))
        }
    }
}

/// Busy and total processor time of the host, in units of which only the
/// differences matter.
pub fn host_cpu_times(stat: &str) -> (r: Option<(u64, u64)>)
    ensures
        match r {
            Some(t) => cpu_times_in(stat@) == Some((t.0 as nat, t.1 as nat)),
            None => cpu_times_in(stat@) is None,
        },
{
    let lines = text::lines(stat);
    if lines.len() == 0 {
        return None;
    }
    assert(text::texts(lines@)[0] == lines@[0]@);
    let words = text::words(&lines[0]);
    if words.len() == 0 {
        return None;
    }
    let ghost fields = text::texts(words@).skip(1);
    let mut numbers: Vec<u64> = Vec::new();
    let mut i: usize = 1;
    assert(fields.take(0) =~= Seq::<Seq<char>>::empty());
    assert(naturals(numbers@) =~= numbers_of(fields.take(0)));
    while i < words.len()
        invariant
            fields == text::texts(words@).skip(1),
            1 <= i <= words@.len(),
            naturals(numbers@) == numbers_of(fields.take(i - 1)),
        decreases words@.len() - i,
    {
        proof {
            assert(fields.take(i as int).drop_last() =~= fields.take(i - 1));
            assert(fields.take(i as int).last() == words@[i as int]@);
        }
        let ghost before = numbers@;
        if let Some(n) = text::parse_number(&words[i], u64::MAX) {
            numbers.push(n);
            assert(naturals(numbers@) =~= naturals(before).push(n as nat));
        }
        i = i + 1;
    }
    assert(fields.take(i - 1) =~= fields);
    let ghost all = naturals(numbers@);
    if numbers.len() < 4 {
        return None;
    }
    let mut total: u64 = 0;
    let mut k: usize = 0;
    assert(all.take(0) =~= Seq::<nat>::empty());
    while k < numbers.len()
        invariant
            all == naturals(numbers@),
            k <= numbers@.len(),
            total == sum_of(all.take(k as int)),
            numbers@.len() >= 4,
            cpu_times_in(stat@) is Some ==> sum_of(all) <= u64::MAX,
        decreases numbers@.len() - k,
    {
        proof {
            assert(all.take(k + 1).drop_last() =~= all.take(k as int));
            assert(all.take(k + 1).last() == numbers@[k as int]);
            lemma_sum_bounds(all, k + 1);
        }
        if numbers[k] > u64::MAX - total {
            return None;
        }
        total = total + numbers[k];
        k = k + 1;
    }
    proof {
        assert(all.take(k as int) =~= all);
        lemma_sum_bounds(all, 4);
        assert(all.take(4).drop_last() =~= all.take(3));
        if all.len() > 4 {
            lemma_sum_bounds(all, 5);
            assert(all.take(5).drop_last() =~= all.take(4));
        }
    }
    let mut idle: u64 = numbers[3];
    if numbers.len() > 4 {
        idle = idle + numbers[4];
    }
    Some((total - idle, total))
}

pub open spec fn naturals(numbers: Seq<u64>) -> Seq<nat> {
    numbers.map_values(|n: u64| n as nat)
}

/// The first of `lines` that starts with `name`.
pub open spec fn line_named(lines: Seq<Seq<char>>, name: Seq<char>) -> Option<Seq<char>>
    decreases lines.len(),
{
    if lines.len() == 0 {
        None
    } else if text::begins_with(lines[0], name) {
        Some(lines[0])
    } else {
        line_named(lines.drop_first(), name)
    }
}

/// The bytes that a line of memory figures tells in kibibytes.
pub open spec fn memory_field(lines: Seq<Seq<char>>, name: Seq<char>) -> Option<nat> {
    match line_named(lines, name) {
        None => None,
        Some(line) => {
            let words = text::words_of(line);
            if words.len() < 2 {
                None
            } else {
                match text::parsed_number(words[1], u64::MAX as nat) {
                    Some(kib) => if kib * 1024 <= u64::MAX {
                        Some(kib * 1024)
                    } else {
                        None
                    },
                    None => None,
                }
            }
        },
    }
}

fn memory_of(lines: &Vec<String>, name: &str) -> (r: Option<u64>)
    ensures
        match r {
            Some(n) => memory_field(text::texts(lines@), name@) == Some(n as nat),
            None => memory_field(text::texts(lines@), name@) is None,
        },
{
    let ghost all = text::texts(lines@);
    let mut i: usize = 0;
    assert(all.skip(0) =~= all);
    while i < lines.len()
        invariant
            all == text::texts(lines@),
            i <= all.len(),
            line_named(all, name@) == line_named(all.skip(i as int), name@),
        decreases lines@.len() - i,
    {
        proof {
            assert(all.skip(i as int).drop_first() =~= all.skip(i + 1));
            assert(all.skip(i as int)[0] == lines@[i as int]@);
        }
        if text::begins(&lines[i], name) {
            let words = text::words(&lines[i]);
            if words.len() < 2 {
                return None;
            }
            assert(text::texts(words@)[1] == words@[1]@);
            return match text::parse_number(&words[1], u64::MAX) {
                Some(kib) => if kib <= u64::MAX / 1024 {
                    Some(kib * 1024)
                } else {
                    None
                },
                None => None,
            };
        }
        i = i + 1;
    }
    None
}

/// Total and available memory of the host, in bytes.
pub fn host_memory(meminfo: &str) -> (r: Option<(u64, u64)>)
    ensures
        ({
            let lines = text::lines_of(meminfo@);
            match (memory_field(lines, "MemTotal:"@), memory_field(lines, "MemAvailable:"@)) {
                (Some(total), Some(available)) => r matches Some(m) && m.0 == total && m.1
                    == available,
                _ => r is None,
            }
        }),
{
    let lines = text::lines(meminfo);
    match (memory_of(&lines, "MemTotal:"), memory_of(&lines, "MemAvailable:")) {
        (Some(total), Some(available)) => Some((total, available)),
        _ => None,
    }
}

/// `a * b`, as far as it fits.
pub open spec fn product(a: nat, b: nat) -> u64 {
    if a * b <= u64::MAX {
        (a * b) as u64
    } else {
        u64::MAX
    }
}

fn times(a: u64, b: u64) -> (r: u64)
    ensures
        r == product(a as nat, b as nat),
{
    match a.checked_mul(b) {
        Some(n) => n,
        None => u64::MAX,
    }
}

/// Where the last closing bracket stands.
pub open spec fn last_bracket(s: Seq<char>) -> int
    decreases s.len(),
{
    if s.len() == 0 {
        -1
    } else if s.last() == ')' {
        s.len() - 1
    } else {
        last_bracket(s.drop_last())
    }
}

/// The words behind a process's name, which stands in brackets and may itself
/// hold spaces and brackets.
pub open spec fn words_behind(stat: Seq<char>) -> Option<Seq<Seq<char>>> {
    let k = last_bracket(stat);
    if k < 0 || k + 2 > stat.len() || stat[k + 1] as u32 >= 128 {
        None
    } else {
        Some(text::words_of(stat.skip(k + 2)))
    }
}

/// User and system time of a process, in clock ticks.
pub open spec fn ticks_in(stat: Seq<char>) -> Option<nat> {
    match words_behind(stat) {
        None => None,
        Some(words) => if words.len() < 13 {
            None
        } else {
            match (
                text::parsed_number(words[11], u64::MAX as nat),
                text::parsed_number(words[12], u64::MAX as nat),
            ) {
                (Some(user), Some(system)) => if user + system <= u64::MAX {
                    Some(user + system)
                } else {
                    None
                },
                _ => None,
            }
        },
    }
}

/// Processor time of a process in nanoseconds, from its status line and the
/// number of clock ticks in a second.
pub fn process_cpu_time_ns(stat: &str, ticks_per_sec: i64) -> (r: Option<u64>)
    ensures
        r == (if ticks_per_sec <= 0 {
            None
        } else {
            match ticks_in(stat@) {
                Some(ticks) => Some(product(ticks, 1_000_000_000nat / (ticks_per_sec as nat))),
                None => None,
            }
        }),
{
    if ticks_per_sec <= 0 {
        return None;
    }
    let v = text::chars_of(stat);
    let mut k: usize = v.len();
    assert(v@.take(k as int) =~= v@);
    while k > 0 && v[k - 1] != ')'
        invariant
            v@ == stat@,
            k <= v@.len(),
            last_bracket(stat@) == last_bracket(v@.take(k as int)),
        decreases k,
    {
        proof {
            assert(v@.take(k as int).drop_last() =~= v@.take(k - 1));
        }
        k = k - 1;
    }
    if k == 0 {
        return None;
    }
    // the bracket stands at k - 1
    if k >= v.len() || v[k] as u32 >= 128 {
        return None;
    }
    let behind = text::string_of(&v, k + 1, v.len());
    assert(behind@ =~= stat@.skip(k + 1));
    let words = text::words(&behind);
    if words.len() < 13 {
        return None;
    }
    proof {
        assert(text::texts(words@)[11] == words@[11]@);
        assert(text::texts(words@)[12] == words@[12]@);
    }
    match (
        text::parse_number(&words[11], u64::MAX),
        text::parse_number(&words[12], u64::MAX),
    ) {
        (Some(user), Some(system)) => if system <= u64::MAX - user {
            let per_tick: u64 = 1_000_000_000 / (ticks_per_sec as u64);
            Some(times(user + system, per_tick))
        } else {
            None
        },
        _ => None,
    }
}

/// Resident size of a process in bytes: the second word of its memory line, in
/// pages.
pub fn process_rss(statm: &str, page_size: i64) -> (r: Option<u64>)
    ensures
        r == ({
            let words = text::words_of(statm@);
            if page_size <= 0 || words.len() < 2 {
                None
            } else {
                match text::parsed_number(words[1], u64::MAX as nat) {
                    Some(pages) => Some(product(pages, page_size as nat)),
                    None => None,
                }
            }
        }),
{
    let words = text::words(statm);
    if words.len() < 2 || page_size <= 0 {
        return None;
    }
    assert(text::texts(words@)[1] == words@[1]@);
    match text::parse_number(&words[1], u64::MAX) {
        Some(pages) => Some(times(pages, page_size as u64)),
        None => None,
    }
}

/// The two halves of a Windows time, in units of a hundred nanoseconds.
pub fn filetime_100ns(high: u32, low: u32) -> (r: u64)
    ensures
        r == high * 0x1_0000_0000 + low,
{
    (high as u64) * 0x1_0000_0000 + (low as u64)
}

pub open spec fn total_of(a: u64, b: u64) -> u64 {
    if a + b <= u64::MAX {
        (a + b) as u64
    } else {
        u64::MAX
    }
}

fn plus(a: u64, b: u64) -> (r: u64)
    ensures
        r == total_of(a, b),
{
    match a.checked_add(b) {
        Some(n) => n,
        None => u64::MAX,
    }
}

/// Busy and total processor time of a Windows host, where kernel time holds the
/// idle time.
pub fn windows_cpu_times(idle: u64, kernel: u64, user: u64) -> (r: (u64, u64))
    ensures
        r.1 == total_of(kernel, user),
        r.0 == beyond(r.1, idle),
{
    let total = plus(kernel, user);
    (delta(total, idle), total)
}

/// Processor time of a Windows process in nanoseconds.
pub fn windows_process_ns(kernel: u64, user: u64) -> (r: u64)
    ensures
        r == product(total_of(kernel, user) as nat, 100),
{
    times(plus(kernel, user), 100)
}

pub open spec fn uptime_shown(secs: u64) -> Seq<char> {
    if secs >= 3600 {
        text::decimal_of(secs as nat / 3600) + "h "@ + text::two_digits_of(
            (secs as nat % 3600) / 60,
        ) + "m"@
    } else if secs >= 60 {
        text::decimal_of(secs as nat / 60) + "m "@ + text::two_digits_of(secs as nat % 60) + "s"@
    } else {
        text::decimal_of(secs as nat) + "s"@
    }
}

/// A running time as `3h 02m`, `12m 05s` or `42s`.
pub fn format_uptime(secs: u64) -> (r: String)
    ensures
        r@ == uptime_shown(secs),
{
    if secs >= 3600 {
        text::cat4(
            &text::decimal(secs / 3600),
            "h ",
            &text::two_digits((secs % 3600) / 60),
            "m",
        )
    } else if secs >= 60 {
        text::cat4(&text::decimal(secs / 60), "m ", &text::two_digits(secs % 60), "s")
    } else {
        text::cat(&text::decimal(secs), "s")
    }
}

} // verus!
