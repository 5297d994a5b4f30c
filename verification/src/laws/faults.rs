//! Promises about faults: each tells what it is about, and whose words it repeats.
use crate::discovery::DeleteError;
use crate::disk::DiskError;
use crate::launcher::LaunchError;
use crate::process::ProcessError;
use crate::settings::SettingsError;
use crate::text;
use vstd::prelude::*;

verus! {

/// A message that names something and gives a reason holds the one and ends with the other.
proof fn lemma_named(head: Seq<char>, name: Seq<char>, sep: Seq<char>, reason: Seq<char>)
    ensures
        ({
            let said = head + name + sep + reason;
            &&& text::begins_with(said, head)
            &&& text::holds(said, name)
            &&& text::ends_with(said, reason)
        }),
{
    let said = head + name + sep + reason;
    text::lemma_held(head, name, sep + reason);
    assert(head + name + (sep + reason) =~= said);
    assert(said.subrange(0, head.len() as int) =~= head);
    assert(said.subrange(said.len() - reason.len(), said.len() as int) =~= reason);
}

/// A deletion that was refused names the machine; one that failed names the file and gives
/// the system's reason.
pub proof fn failed_deletions_name_what_stays(fault: DeleteError)
    ensures
        fault matches DeleteError::Busy(name) ==> text::holds(fault.spec_message(), name@)
            && text::ends_with(fault.spec_message(), "' is busy — stop it before deleting"@),
        fault matches DeleteError::NameMismatch(name) ==> text::holds(fault.spec_message(), name@)
            && text::begins_with(fault.spec_message(), "the typed name does not match '"@),
        fault matches DeleteError::Remove { path, source } ==> text::holds(
            fault.spec_message(),
            path@,
        ) && text::ends_with(fault.spec_message(), source@) && text::begins_with(
            fault.spec_message(),
            "cannot remove "@,
        ),
{
    let said = fault.spec_message();
    match fault {
        DeleteError::Busy(name) => {
            let tail = "' is busy — stop it before deleting"@;
            lemma_named("'"@, name@, Seq::empty(), tail);
            assert("'"@ + name@ + Seq::<char>::empty() + tail =~= said);
        },
        DeleteError::NameMismatch(name) => {
            let head = "the typed name does not match '"@;
            lemma_named(head, name@, Seq::empty(), "'"@);
            assert(head + name@ + Seq::<char>::empty() + "'"@ =~= said);
        },
        DeleteError::Remove { path, source } => {
            lemma_named("cannot remove "@, path@, ": "@, source@);
        },
    }
}

/// A disk that was not made tells the size or the file that stood against it.
pub proof fn refused_disks_tell_why(fault: DiskError)
    ensures
        fault matches DiskError::InvalidSize(size) ==> text::holds(fault.spec_message(), size@)
            && text::begins_with(fault.spec_message(), "invalid size '"@),
        fault matches DiskError::BadAlignment(bytes) ==> text::ends_with(
            fault.spec_message(),
            text::decimal_of(bytes as nat),
        ) && text::begins_with(
            fault.spec_message(),
            "size must be a positive multiple of 512 bytes"@,
        ),
        fault matches DiskError::Exists(path) ==> text::ends_with(fault.spec_message(), path@)
            && text::begins_with(fault.spec_message(), "refusing to overwrite existing file "@),
        fault matches DiskError::Io(source) ==> text::ends_with(fault.spec_message(), source@)
            && text::begins_with(fault.spec_message(), "i/o error: "@),
{
    let said = fault.spec_message();
    match fault {
        DiskError::InvalidSize(size) => {
            let tail = "': use e.g. 32G, 512M or a byte count"@;
            lemma_named("invalid size '"@, size@, Seq::empty(), tail);
            assert("invalid size '"@ + size@ + Seq::<char>::empty() + tail =~= said);
        },
        DiskError::BadAlignment(bytes) => {
            reveal_strlit("size must be a positive multiple of 512 bytes");
            reveal_strlit("size must be a positive multiple of 512 bytes, got ");
            let head = "size must be a positive multiple of 512 bytes"@;
            let n = text::decimal_of(bytes as nat);
            assert(said.subrange(0, head.len() as int) =~= head);
            assert(said.subrange(said.len() - n.len(), said.len() as int) =~= n);
        },
        DiskError::Exists(path) => {
            let head = "refusing to overwrite existing file "@;
            assert(said.subrange(0, head.len() as int) =~= head);
            assert(said.subrange(said.len() - path@.len(), said.len() as int) =~= path@);
        },
        DiskError::Io(source) => {
            let head = "i/o error: "@;
            assert(said.subrange(0, head.len() as int) =~= head);
            assert(said.subrange(said.len() - source@.len(), said.len() as int) =~= source@);
        },
    }
}

/// Settings that were not read or written tell which file and why.
pub proof fn lost_settings_tell_the_file(fault: SettingsError)
    ensures
        fault matches SettingsError::Read { path, source } ==> text::begins_with(
            fault.spec_message(),
            "cannot read "@,
        ) && text::holds(fault.spec_message(), path@) && text::ends_with(
            fault.spec_message(),
            source@,
        ),
        fault matches SettingsError::Parse { path, source } ==> text::begins_with(
            fault.spec_message(),
            "cannot parse "@,
        ) && text::holds(fault.spec_message(), path@) && text::ends_with(
            fault.spec_message(),
            source@,
        ),
        fault matches SettingsError::Write { path, source } ==> text::begins_with(
            fault.spec_message(),
            "cannot write "@,
        ) && text::holds(fault.spec_message(), path@) && text::ends_with(
            fault.spec_message(),
            source@,
        ),
        fault matches SettingsError::Serialize(source) ==> text::ends_with(
            fault.spec_message(),
            source@,
        ),
{
    let said = fault.spec_message();
    match fault {
        SettingsError::Read { path, source } => {
            lemma_named("cannot read "@, path@, ": "@, source@);
        },
        SettingsError::Parse { path, source } => {
            lemma_named("cannot parse "@, path@, ": "@, source@);
        },
        SettingsError::Write { path, source } => {
            lemma_named("cannot write "@, path@, ": "@, source@);
        },
        SettingsError::Serialize(source) => {
            assert(said.subrange(said.len() - source@.len(), said.len() as int) =~= source@);
        },
        SettingsError::NoConfigDir => {},
    }
}

/// A child that did not start tells whose it would have been, or the file and the reason.
pub proof fn failed_children_tell_why(fault: ProcessError)
    ensures
        fault matches ProcessError::Busy { vm } ==> text::holds(fault.spec_message(), vm@)
            && text::ends_with(fault.spec_message(), "' is already busy"@),
        fault matches ProcessError::LogFile { path, source } ==> text::begins_with(
            fault.spec_message(),
            "cannot create the log file "@,
        ) && text::holds(fault.spec_message(), path@) && text::ends_with(
            fault.spec_message(),
            source@,
        ),
        fault matches ProcessError::Spawn { program, source } ==> text::begins_with(
            fault.spec_message(),
            "cannot start "@,
        ) && text::holds(fault.spec_message(), program@) && text::ends_with(
            fault.spec_message(),
            source@,
        ),
{
    let said = fault.spec_message();
    match fault {
        ProcessError::Busy { vm } => {
            lemma_named("'"@, vm@, Seq::empty(), "' is already busy"@);
            assert("'"@ + vm@ + Seq::<char>::empty() + "' is already busy"@ =~= said);
        },
        ProcessError::LogFile { path, source } => {
            lemma_named("cannot create the log file "@, path@, ": "@, source@);
        },
        ProcessError::Spawn { program, source } => {
            lemma_named("cannot start "@, program@, ": "@, source@);
        },
    }
}

/// A chosen engine that is gone is told with its path.
pub proof fn a_lost_engine_is_told_with_its_path(path: String)
    ensures
        text::ends_with(LaunchError::OverrideMissing(path).spec_message(), path@),
{
    let said = LaunchError::OverrideMissing(path).spec_message();
    assert(said.subrange(said.len() - path@.len(), said.len() as int) =~= path@);
}

} // verus!
