//! Promises about measurements: what is read, what it is a share of, and how it is shown.
use crate::metrics;
use crate::metrics::{Reading, Share, Tally};
use crate::text;
use vstd::prelude::*;

verus! {

/// A share is of something: of nothing there is none.
pub proof fn a_share_is_of_something(part: u64, whole: u64)
    ensures
        metrics::share_of(part, whole) is None <==> whole == 0,
        whole > 0 ==> metrics::share_of(part, whole) == Some(Share { part, whole }),
{
}

/// What a child used is the time that it ran since the last reading, of the time since.
pub proof fn use_is_measured_between_readings(
    prev: Map<u32, (u64, u64)>,
    reading: Reading,
    now: u64,
)
    ensures
        metrics::used(prev, reading, now) matches Some(share) ==> {
            &&& prev.contains_key(reading.pid)
            &&& reading.cpu_time is Some
            &&& reading.cpu_time->0 >= prev[reading.pid].0 ==> share.part == reading.cpu_time->0
                - prev[reading.pid].0
            &&& share.whole == now - prev[reading.pid].1
        },
        reading.cpu_time is Some && prev.contains_key(reading.pid) && now > prev[reading.pid].1
            ==> metrics::used(prev, reading, now) is Some,
{
}

/// A reading is kept for the next, told of its machine, and leaves the other machines and
/// children as they were.
pub proof fn a_reading_counts_for_its_machine(
    t: Tally,
    reading: Reading,
    now: u64,
    vm: Seq<char>,
    pid: u32,
)
    ensures
        ({
            let after = metrics::counted(t, reading, now);
            let own = reading.vm@;
            &&& after.vms.contains_key(own)
            &&& after.vms[own].rss_bytes == reading.rss
            &&& after.vms[own].cpu_percent == metrics::used(t.prev, reading, now)
            &&& after.vms[own].history == after.histories[own]
            &&& metrics::used(t.prev, reading, now) matches Some(share)
                ==> after.histories[own].len() > 0 && after.histories[own].last() == share
            &&& metrics::used(t.prev, reading, now) is None && t.histories.contains_key(own)
                ==> after.histories[own] == t.histories[own]
            &&& reading.cpu_time is Some ==> after.prev.contains_key(reading.pid)
                && after.prev[reading.pid] == (reading.cpu_time->0, now)
            &&& vm != own ==> (after.vms.contains_key(vm) <==> t.vms.contains_key(vm))
            &&& vm != own && t.vms.contains_key(vm) ==> after.vms[vm] == t.vms[vm]
            &&& vm != own && t.histories.contains_key(vm) ==> after.histories[vm]
                == t.histories[vm]
            &&& pid != reading.pid && t.prev.contains_key(pid) ==> after.prev[pid] == t.prev[pid]
        }),
{
}

/// A history keeps its newest ninety values, in their order.
pub proof fn histories_keep_the_newest(history: Seq<int>, value: int)
    requires
        history.len() <= 90,
    ensures
        metrics::capped(history, value).last() == value,
        history.len() < 90 ==> metrics::capped(history, value) == history.push(value),
        history.len() == 90 ==> metrics::capped(history, value) == history.drop_first().push(value),
{
    let all = history.push(value);
    if history.len() == 90 {
        assert(all.skip(1) =~= history.drop_first().push(value));
    }
}

/// What the host used is the busy time between two readings, of all the time between them.
pub proof fn the_host_is_measured_between_readings(
    prev: Option<(u64, u64)>,
    read: Option<(u64, u64)>,
)
    ensures
        metrics::host_used(prev, read) matches Some(share) ==> {
            &&& prev matches Some((busy, total)) && read matches Some((busy2, total2)) && (busy2
                >= busy ==> share.part == busy2 - busy) && share.whole == total2 - total
        },
        (prev matches Some((_, total)) && read matches Some((_, total2)) && total2 > total)
            ==> metrics::host_used(prev, read) is Some,
{
}

/// The numbers among some words are those that are numbers, in their order, and they add up.
pub proof fn numbers_are_read_and_added(words: Seq<Seq<char>>, word: Seq<char>)
    ensures
        text::parsed_number(word, u64::MAX as nat) matches Some(n) ==> metrics::numbers_of(
            words.push(word),
        ) == metrics::numbers_of(words).push(n) && metrics::sum_of(
            metrics::numbers_of(words.push(word)),
        ) == metrics::sum_of(metrics::numbers_of(words)) + n,
        text::parsed_number(word, u64::MAX as nat) is None ==> metrics::numbers_of(
            words.push(word),
        ) == metrics::numbers_of(words),
        metrics::numbers_of(Seq::empty()).len() == 0,
        metrics::sum_of(Seq::empty()) == 0,
{
    assert(words.push(word).drop_last() =~= words);
    if let Some(n) = text::parsed_number(word, u64::MAX as nat) {
        let before = metrics::numbers_of(words);
        assert(before.push(n).drop_last() =~= before);
    }
}

/// Of the processor's times, the fourth and the fifth are idle and all the others busy.
pub proof fn idle_time_is_not_busy(stat: Seq<char>)
    ensures
        metrics::cpu_times_in(stat) matches Some((busy, total)) ==> {
            let n = metrics::numbers_of(text::words_of(text::lines_of(stat)[0]).skip(1));
            &&& n.len() >= 4
            &&& total == metrics::sum_of(n)
            &&& n.len() == 4 && metrics::sum_of(n) >= n[3] ==> busy + n[3] == total
            &&& n.len() > 4 && metrics::sum_of(n) >= n[3] + n[4] ==> busy + n[3] + n[4] == total
        },
{
}

/// A field of the memory's report is in kibibytes behind its name, on the first line that
/// begins with it.
pub proof fn memory_is_reported_in_kibibytes(lines: Seq<Seq<char>>, name: Seq<char>, i: int)
    requires
        0 <= i < lines.len(),
        text::begins_with(lines[i], name),
        forall|j: int| 0 <= j < i ==> !text::begins_with(#[trigger] lines[j], name),
    ensures
        metrics::line_named(lines, name) == Some(lines[i]),
        metrics::memory_field(lines, name) matches Some(bytes) ==> text::words_of(lines[i]).len()
            >= 2 && text::parsed_number(text::words_of(lines[i])[1], u64::MAX as nat) == Some(
            bytes / 1024,
        ) && bytes % 1024 == 0,
    decreases lines.len(),
{
    if i > 0 {
        assert(!text::begins_with(lines[0], name));
        let rest = lines.drop_first();
        assert(rest[i - 1] == lines[i]);
        assert forall|j: int| 0 <= j < i - 1 implies !text::begins_with(
            #[trigger] rest[j],
            name,
        ) by {
            assert(rest[j] == lines[j + 1]);
        }
        memory_is_reported_in_kibibytes(rest, name, i - 1);
    }
}

/// A child's fields begin behind the last bracket, whatever its name holds.
pub proof fn names_do_not_hide_fields(stat: Seq<char>, k: int)
    requires
        0 <= k < stat.len(),
        stat[k] == ')',
        forall|j: int| k < j < stat.len() ==> #[trigger] stat[j] != ')',
    ensures
        metrics::last_bracket(stat) == k,
    decreases stat.len(),
{
    if k < stat.len() - 1 {
        assert(stat[stat.len() - 1] != ')');
        let init = stat.drop_last();
        assert(init[k] == ')');
        assert forall|j: int| k < j < init.len() implies #[trigger] init[j] != ')' by {
            assert(init[j] == stat[j]);
        }
        names_do_not_hide_fields(init, k);
    }
}

/// A child's time is what it ran itself and what the system ran for it.
pub proof fn a_child_is_charged_for_both_times(stat: Seq<char>)
    ensures
        metrics::ticks_in(stat) matches Some(ticks) ==> {
            &&& metrics::words_behind(stat) is Some
            &&& metrics::words_behind(stat)->0.len() >= 13
            &&& ticks == text::parsed_number(
                metrics::words_behind(stat)->0[11],
                u64::MAX as nat,
            )->0 + text::parsed_number(metrics::words_behind(stat)->0[12], u64::MAX as nat)->0
        },
{
}

/// Sums and products stop at the largest number.
pub proof fn arithmetic_stops_at_the_largest(a: u64, b: u64)
    ensures
        a + b <= u64::MAX ==> metrics::total_of(a, b) == a + b,
        a + b > u64::MAX ==> metrics::total_of(a, b) == u64::MAX,
        a * b <= u64::MAX ==> metrics::product(a as nat, b as nat) == a * b,
        a * b > u64::MAX ==> metrics::product(a as nat, b as nat) == u64::MAX,
{
}

/// A time is shown in hours and minutes, in minutes and seconds, or in seconds, whichever
/// is the first of which there is one.
pub proof fn times_are_shown_in_two_units(h: nat, m: nat, s: nat)
    requires
        m < 60,
        s < 60,
        3600 * h + 60 * m + s <= u64::MAX,
    ensures
        h > 0 ==> metrics::uptime_shown((3600 * h + 60 * m + s) as u64) == text::decimal_of(h)
            + "h "@ + text::two_digits_of(m) + "m"@,
        h == 0 && m > 0 ==> metrics::uptime_shown((60 * m + s) as u64) == text::decimal_of(m)
            + "m "@ + text::two_digits_of(s) + "s"@,
        metrics::uptime_shown(s as u64) == text::decimal_of(s) + "s"@,
{
    let t = 3600 * h + 60 * m + s;
    assert(t / 3600 == h);
    assert((t % 3600) / 60 == m);
    assert((60 * m + s) / 60 == m);
    assert((60 * m + s) % 60 == s);
}

/// The fields stand one place behind the bracket and the blank.
pub proof fn fields_stand_behind_the_bracket(stat: Seq<char>)
    ensures
        metrics::words_behind(stat) matches Some(words) ==> {
            &&& 0 <= metrics::last_bracket(stat)
            &&& metrics::last_bracket(stat) + 2 <= stat.len()
            &&& words == text::words_of(stat.skip(metrics::last_bracket(stat) + 2))
        },
        0 <= metrics::last_bracket(stat) && metrics::last_bracket(stat) + 2 <= stat.len() && (
        stat[metrics::last_bracket(stat) + 1] as u32) < 128 ==> metrics::words_behind(stat) is Some,
{
}

/// The processor's times are read wherever there are four that can be added.
pub proof fn four_times_are_enough(stat: Seq<char>)
    requires
        text::lines_of(stat).len() > 0,
        text::words_of(text::lines_of(stat)[0]).len() > 0,
    ensures
        ({
            let n = metrics::numbers_of(text::words_of(text::lines_of(stat)[0]).skip(1));
            metrics::cpu_times_in(stat) is Some <==> n.len() >= 4 && metrics::sum_of(n) <= u64::MAX
        }),
{
}

/// A child's time is read wherever its two times can be read and added.
pub proof fn both_times_are_read(stat: Seq<char>)
    requires
        metrics::words_behind(stat) is Some,
        metrics::words_behind(stat)->0.len() >= 13,
        text::parsed_number(metrics::words_behind(stat)->0[11], u64::MAX as nat) is Some,
        text::parsed_number(metrics::words_behind(stat)->0[12], u64::MAX as nat) is Some,
    ensures
        metrics::ticks_in(stat) is Some <==> text::parsed_number(
            metrics::words_behind(stat)->0[11],
            u64::MAX as nat,
        )->0 + text::parsed_number(metrics::words_behind(stat)->0[12], u64::MAX as nat)->0
            <= u64::MAX,
{
}

/// A field of the memory's report is read wherever its number can be, unless the bytes are
/// too many.
pub proof fn memory_is_read_where_it_fits(lines: Seq<Seq<char>>, name: Seq<char>)
    requires
        metrics::line_named(lines, name) is Some,
        text::words_of(metrics::line_named(lines, name)->0).len() >= 2,
        text::parsed_number(
            text::words_of(metrics::line_named(lines, name)->0)[1],
            u64::MAX as nat,
        ) is Some,
    ensures
        metrics::memory_field(lines, name) is Some <==> text::parsed_number(
            text::words_of(metrics::line_named(lines, name)->0)[1],
            u64::MAX as nat,
        )->0 * 1024 <= u64::MAX,
{
}

} // verus!
