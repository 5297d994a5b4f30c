//! Promises about what the host says: the engine's own check, the lines of a log, and the
//! engine inside WSL.
use crate::diagnose;
use crate::hostcheck;
use crate::hostcheck::Level;
use crate::text;
use crate::wslengine;
use crate::wslengine::{Fault, Installed};
use vstd::prelude::*;

verus! {

/// A line of the check reads as missing exactly when it says so; as a failure exactly when
/// the check failed and it starts with the word; and as information otherwise.
pub proof fn a_line_reads_as_it_says(line: Seq<char>, healthy: bool)
    ensures
        hostcheck::level_of(line, healthy) == Level::Missing <==> text::holds(line, "MISSING"@),
        hostcheck::level_of(line, healthy) == Level::Failure <==> !text::holds(line, "MISSING"@)
            && !healthy && text::begins_with(line, "error:"@),
{
}

/// The rows of a report are the lines that are not blank, without the white space behind
/// them, in their order.
pub proof fn every_line_is_reported(lines: Seq<Seq<char>>, healthy: bool, line: Seq<char>)
    ensures
        text::trim_end_of(line).len() == 0 ==> hostcheck::rows_of(lines.push(line), healthy)
            == hostcheck::rows_of(lines, healthy),
        text::trim_end_of(line).len() > 0 ==> hostcheck::rows_of(lines.push(line), healthy)
            == hostcheck::rows_of(lines, healthy).push(
            (
                text::trim_end_of(line),
                hostcheck::level_of(text::trim_end_of(line), healthy),
            ),
        ),
        hostcheck::rows_of(Seq::empty(), healthy).len() == 0,
{
    assert(lines.push(line).drop_last() =~= lines);
}

/// What is missing is counted.
pub proof fn missing_things_are_counted(lines: Seq<hostcheck::Line>)
    ensures
        hostcheck::missing_count(lines) == lines.filter(
            |l: hostcheck::Line| l.level == Level::Missing,
        ).len(),
    decreases lines.len(),
{
    reveal(Seq::filter);
    if lines.len() > 0 {
        missing_things_are_counted(lines.drop_last());
    }
}

/// Everything that the check printed is in its report: what it wrote, and its errors after
/// that where it has any.
pub proof fn errors_follow_the_report(stdout: Seq<char>, stderr: Seq<char>)
    ensures
        text::begins_with(hostcheck::printed(stdout, stderr), stdout),
        text::trim_of(stderr).len() > 0 ==> text::ends_with(
            hostcheck::printed(stdout, stderr),
            stderr,
        ) && hostcheck::printed(stdout, stderr).len() == stdout.len() + 1 + stderr.len(),
        text::trim_of(stderr).len() == 0 ==> hostcheck::printed(stdout, stderr) == stdout,
{
    reveal_strlit("\n");
    let all = hostcheck::printed(stdout, stderr);
    assert(all.subrange(0, stdout.len() as int) =~= stdout);
    if text::trim_of(stderr).len() > 0 {
        assert(all.subrange(all.len() - stderr.len(), all.len() as int) =~= stderr);
    }
}

/// The trouble with a TAP interface is told apart: it is busy, it is missing, or it may not
/// be opened; the case of the letters does not matter.
pub proof fn tap_trouble_is_told_apart(line: Seq<char>)
    requires
        text::holds(text::lower_of(line), "tap"@),
    ensures
        ({
            let l = text::lower_of(line);
            let busy = text::holds(l, "busy"@) || text::holds(l, "in use"@);
            let missing = text::holds(l, "no such device"@) || text::holds(l, "not found"@);
            let denied = text::holds(l, "permission denied"@) || text::holds(
                l,
                "operation not permitted"@,
            );
            &&& busy ==> diagnose::line_hint(line) == Some(diagnose::TAP_BUSY@)
            &&& !busy && missing ==> diagnose::line_hint(line) == Some(diagnose::TAP_MISSING@)
            &&& !busy && !missing && denied ==> diagnose::line_hint(line) == Some(
                diagnose::TAP_DENIED@,
            )
        }),
{
}

/// Other trouble is known by its words: the hypervisor, the bootstrap kernel, a disk that
/// could not be attached, and an installation that did not finish.
pub proof fn other_trouble_is_known_by_its_words(line: Seq<char>)
    requires
        !text::holds(text::lower_of(line), "tap"@),
    ensures
        ({
            let l = text::lower_of(line);
            let kvm = text::holds(l, "/dev/kvm"@) || text::holds(l, "cannot open kvm"@);
            let kernel = text::holds(l, "bootstrap kernel"@) || (text::holds(l, "vmlinuz"@)
                && text::holds(l, "not found"@));
            let disk = text::holds(l, "cannot attach disk"@) || (text::holds(
                l,
                "no such file or directory"@,
            ) && text::holds(l, ".raw"@));
            let aborted = text::holds(l, "does not look installed"@);
            &&& kvm ==> diagnose::line_hint(line) == Some(diagnose::KVM_UNUSABLE@)
            &&& !kvm && kernel ==> diagnose::line_hint(line) == Some(diagnose::KERNEL_MISSING@)
            &&& !kvm && !kernel && disk ==> diagnose::line_hint(line) == Some(
                diagnose::DISK_UNOPENED@,
            )
            &&& !kvm && !kernel && !disk && aborted ==> diagnose::line_hint(line) == Some(
                diagnose::INSTALL_INCOMPLETE@,
            )
            &&& !kvm && !kernel && !disk && !aborted ==> diagnose::line_hint(line) is None
        }),
{
}

/// The newest line that points at something is the one that is explained.
pub proof fn the_newest_trouble_is_explained(lines: Seq<Seq<char>>, i: int)
    requires
        0 <= i < lines.len(),
        diagnose::line_hint(lines[i]) is Some,
        forall|j: int| i < j < lines.len() ==> diagnose::line_hint(#[trigger] lines[j]) is None,
    ensures
        diagnose::newest_hint(lines) == diagnose::line_hint(lines[i]),
    decreases lines.len(),
{
    if i < lines.len() - 1 {
        assert(diagnose::line_hint(lines[lines.len() - 1]) is None);
        let init = lines.drop_last();
        assert(init[i] == lines[i]);
        assert forall|j: int| i < j < init.len() implies diagnose::line_hint(#[trigger] init[j]) is None by {
            assert(init[j] == lines[j]);
        }
        the_newest_trouble_is_explained(init, i);
    }
}

/// Installing an engine mends its absence, and never the absence of the distribution.
pub proof fn installing_mends_a_missing_engine(fault: Fault)
    ensures
        fault is NoEngine ==> fault.spec_installable(),
        fault is NoDistro ==> !fault.spec_installable(),
        fault is Other ==> fault.spec_installable() == fault->installable,
{
}

/// A check is about a distribution and, where one is named, an engine; white space around
/// either is not part of it.
pub proof fn a_check_is_about_what_was_named(distro: Seq<char>, engine: Option<Seq<char>>)
    ensures
        wslengine::target_of(distro, engine).distro == text::trim_of(distro),
        engine is Some && text::trim_of(engine->0).len() > 0 ==> wslengine::target_of(
            distro,
            engine,
        ).engine == Some(text::trim_of(engine->0)),
        engine is None || text::trim_of(engine->0).len() == 0 ==> wslengine::target_of(
            distro,
            engine,
        ).engine is None,
{
}

/// What an installation of the engine tells starts with its summary, and says whether the
/// download was there already and whether the copy could not be checked again.
pub proof fn an_engine_installation_is_told_in_full(done: Installed)
    ensures
        text::begins_with(done.spec_message(), done.summary@),
        done.cached ==> text::holds(done.spec_message(), wslengine::FROM_CACHE@),
        !done.rechecked ==> text::ends_with(done.spec_message(), wslengine::NOT_RECHECKED@),
        !done.cached && done.rechecked ==> done.spec_message() == done.summary@,
{
    let all = done.spec_message();
    let note = wslengine::NOT_RECHECKED@;
    assert(all.subrange(0, done.summary@.len() as int) =~= done.summary@);
    if done.cached {
        let tail = all.skip((done.summary@ + wslengine::FROM_CACHE@).len() as int);
        text::lemma_held(done.summary@, wslengine::FROM_CACHE@, tail);
        assert(done.summary@ + wslengine::FROM_CACHE@ + tail =~= all);
    }
    if !done.rechecked {
        assert(all.subrange(all.len() - note.len(), all.len() as int) =~= note);
    }
    if !done.cached && done.rechecked {
        assert(all =~= done.summary@);
    }
}

} // verus!
