//! Turning an engine's failure output into one actionable sentence.
use crate::text;
use vstd::prelude::*;

verus! {

pub const TAP_BUSY: &'static str =
    "the TAP interface is already held by another VM — only one VM at a time can \
     use it, so stop the other one first";
pub const TAP_MISSING: &'static str =
    "the TAP interface does not exist on the host — create it with \
     scripts/setup-tap.sh";
pub const TAP_DENIED: &'static str =
    "no permission to open the TAP interface — /dev/net/tun needs access rights \
     (see scripts/setup-tap.sh)";
pub const KVM_UNUSABLE: &'static str =
    "/dev/kvm is not usable — run `entangled doctor` to check host virtualisation";
pub const KERNEL_MISSING: &'static str =
    "the bootstrap kernel was not found relative to the working directory — set it \
     in Settings";
pub const DISK_UNOPENED: &'static str = "the disk image could not be opened";
pub const INSTALL_INCOMPLETE: &'static str =
    "the installer exited before the system was installed — check the log for the \
     last d-i step";

/// What a line of output points at, if it is a failure that is known. Letter
/// case does not matter.
pub open spec fn line_hint(line: Seq<char>) -> Option<Seq<char>> {
    let l = text::lower_of(line);
    let tap = text::holds(l, "tap"@);
    if tap && (text::holds(l, "busy"@) || text::holds(l, "in use"@)) {
        Some(TAP_BUSY@)
    } else if tap && (text::holds(l, "no such device"@) || text::holds(l, "not found"@)) {
        Some(TAP_MISSING@)
    } else if tap && (text::holds(l, "permission denied"@) || text::holds(
        l,
        "operation not permitted"@,
    )) {
        Some(TAP_DENIED@)
    } else if text::holds(l, "/dev/kvm"@) || text::holds(l, "cannot open kvm"@) {
        Some(KVM_UNUSABLE@)
    } else if text::holds(l, "bootstrap kernel"@) || (text::holds(l, "vmlinuz"@) && text::holds(
        l,
        "not found"@,
    )) {
        Some(KERNEL_MISSING@)
    } else if text::holds(l, "cannot attach disk"@) || (text::holds(l, "no such file or directory"@)
        && text::holds(l, ".raw"@)) {
        Some(DISK_UNOPENED@)
    } else if text::holds(l, "does not look installed"@) {
        Some(INSTALL_INCOMPLETE@)
    } else {
        None
    }
}

/// What a line of output points at, if it is a failure that is known.
pub fn explain_line(line: &str) -> (r: Option<String>)
    ensures
        text::opt_text(r) == line_hint(line@),
{
    let l = text::lower(line);
    let tap = text::has(&l, "tap");
    if tap && (text::has(&l, "busy") || text::has(&l, "in use")) {
        return Some(TAP_BUSY.to_owned());
    }
    if tap && (text::has(&l, "no such device") || text::has(&l, "not found")) {
        return Some(TAP_MISSING.to_owned());
    }
    if tap && (text::has(&l, "permission denied") || text::has(&l, "operation not permitted")) {
        return Some(TAP_DENIED.to_owned());
    }
    if text::has(&l, "/dev/kvm") || text::has(&l, "cannot open kvm") {
        return Some(KVM_UNUSABLE.to_owned());
    }
    if text::has(&l, "bootstrap kernel") || (text::has(&l, "vmlinuz") && text::has(
        &l,
        "not found",
    )) {
        return Some(KERNEL_MISSING.to_owned());
    }
    if text::has(&l, "cannot attach disk") || (text::has(&l, "no such file or directory")
        && text::has(&l, ".raw")) {
        return Some(DISK_UNOPENED.to_owned());
    }
    if text::has(&l, "does not look installed") {
        return Some(INSTALL_INCOMPLETE.to_owned());
    }
    None
}

/// What the newest line with a known failure points at.
pub open spec fn newest_hint(lines: Seq<Seq<char>>) -> Option<Seq<char>>
    decreases lines.len(),
{
    if lines.len() == 0 {
        None
    } else {
        match line_hint(lines.last()) {
            Some(hint) => Some(hint),
            None => newest_hint(lines.drop_last()),
        }
    }
}

/// Scans the tail of a log, oldest line first, and explains the newest line
/// that shows a known failure.
pub fn explain(lines: &Vec<String>) -> (r: Option<String>)
    ensures
        text::opt_text(r) == newest_hint(text::texts(lines@)),
{
    let ghost all = text::texts(lines@);
    let mut i: usize = lines.len();
    assert(all.take(all.len() as int) =~= all);
    while i > 0
        invariant
            all == text::texts(lines@),
            i <= lines@.len(),
            newest_hint(all) == newest_hint(all.take(i as int)),
        decreases i,
    {
        proof {
            assert(all.take(i as int).drop_last() =~= all.take(i - 1));
            assert(all.take(i as int).last() == lines@[i - 1]@);
        }
        i = i - 1;
        let hint = explain_line(&lines[i]);
        if hint.is_some() {
            return hint;
        }
    }
    None
}

/// Lines without a known failure are never explained, wherever they stand: a
/// newer unknown line does not hide an older known one.
pub proof fn unknown_lines_hide_nothing(lines: Seq<Seq<char>>, newer: Seq<char>)
    requires
        line_hint(newer) is None,
    ensures
        newest_hint(lines.push(newer)) == newest_hint(lines),
{
    assert(lines.push(newer).drop_last() =~= lines);
}

} // verus!
