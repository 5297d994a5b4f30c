//! Promises about saved sessions: which of them can be resumed, and in which order
//! they are listed.
use crate::backend::Backend;
use crate::discovery::VmEntry;
use crate::host::Host;
use crate::paths;
use crate::profile::VirtioTransport;
use crate::snapshots;
use crate::snapshots::{FileRecord, FileState, HostKind, SnapshotFacts, SnapshotRow};
use crate::sorting;
use crate::sorting::Ranked;
use crate::text;
use vstd::prelude::*;

verus! {

/// A machine has kept the shape it was saved with exactly when its memory, its
/// processors, its transport and its way of booting are all what they were.
pub proof fn a_kept_shape_agrees_in_everything(facts: SnapshotFacts, vm: VmEntry)
    ensures
        snapshots::shape_changed(facts, vm) is None <==> {
            &&& facts.memory_bytes == vm.memory_mib << 20
            &&& facts.vcpus == vm.vcpus
            &&& vm.transport == VirtioTransport::Pci ==> facts.transport@ == "pci"@
            &&& vm.transport == VirtioTransport::Mmio ==> facts.transport@ == "mmio"@
            &&& vm.uefi ==> facts.boot_mode@ == "uefi"@
            &&& !vm.uefi ==> facts.boot_mode@ == "direct-linux"@
        },
{
}

/// A changed shape is told by the first thing that changed, with what it was and
/// what it is.
pub proof fn a_changed_shape_names_both_values(facts: SnapshotFacts, vm: VmEntry)
    ensures
        facts.memory_bytes != vm.memory_mib << 20 ==> (snapshots::shape_changed(facts, vm) matches
            Some(t) && text::begins_with(t, "memory"@) && text::holds(
            t,
            text::decimal_of(vm.memory_mib as nat),
        )),
        facts.memory_bytes == vm.memory_mib << 20 && facts.vcpus != vm.vcpus ==> (
        snapshots::shape_changed(facts, vm) matches Some(t) && text::begins_with(t, "vCPUs"@)
            && text::holds(t, text::decimal_of(facts.vcpus as nat)) && text::ends_with(
            t,
            text::decimal_of(vm.vcpus as nat),
        )),
{
    let memory = "memory: was "@;
    let were = "vCPUs: were "@;
    let are = ", are "@;
    let old_memory = text::decimal_of((facts.memory_bytes >> 20) as nat);
    let new_memory = text::decimal_of(vm.memory_mib as nat);
    let old = text::decimal_of(facts.vcpus as nat);
    let new = text::decimal_of(vm.vcpus as nat);
    reveal_strlit("memory: was ");
    reveal_strlit("memory");
    reveal_strlit("vCPUs: were ");
    reveal_strlit("vCPUs");
    if let Some(t) = snapshots::shape_changed(facts, vm) {
        if facts.memory_bytes != vm.memory_mib << 20 {
            assert(t.subrange(0, "memory"@.len() as int) =~= "memory"@);
            let head = memory + old_memory + " MiB, is "@;
            text::lemma_held(head, new_memory, " MiB"@);
        } else if facts.vcpus != vm.vcpus {
            assert(t.subrange(0, "vCPUs"@.len() as int) =~= "vCPUs"@);
            text::lemma_held(were, old, are + new);
            assert(were + old + (are + new) =~= t);
            assert(t.subrange(t.len() - new.len(), t.len() as int) =~= new);
        }
    }
}

/// The path is one that a manager on this host could look at.
proof fn lemma_nameable(path: Seq<char>, host: Host)
    ensures
        snapshots::is_nameable(path, host == Host::Windows) <==> if host == Host::Windows {
            &&& path.len() >= 3
            &&& ('a' <= path[0] <= 'z' || 'A' <= path[0] <= 'Z')
            &&& path[1] == ':'
            &&& (path[2] == '\\' || path[2] == '/')
        } else {
            path.len() > 0 && path[0] == '/'
        },
{
}

/// A file stands against a resume exactly when this host can look at it and it is
/// neither unchanged nor changed harmlessly.
proof fn lemma_files_block(files: Seq<FileRecord>, states: Seq<FileState>, host: Host)
    requires
        states.len() == files.len(),
    ensures
        snapshots::files_say(files, states, host).0.len() == 0 <==> forall|i: int|
            0 <= i < files.len() && snapshots::is_nameable(
                (#[trigger] files[i]).path@,
                host == Host::Windows,
            ) ==> states[i] is Unchanged || states[i] is Note,
    decreases files.len(),
{
    if files.len() > 0 {
        let init = files.drop_last();
        let rest = states.drop_last();
        lemma_files_block(init, rest, host);
        let n = files.len() - 1;
        let (b, _) = snapshots::files_say(init, rest, host);
        let (c, _) = snapshots::file_says(files[n], states[n], host);
        assert(snapshots::files_say(files, states, host).0.len() == b.len() + c.len());
        assert(c.len() == 0 <==> (snapshots::is_nameable(files[n].path@, host == Host::Windows)
            ==> states[n] is Unchanged || states[n] is Note));
        if b.len() == 0 && c.len() == 0 {
            assert forall|i: int|
                0 <= i < files.len() && snapshots::is_nameable(
                    (#[trigger] files[i]).path@,
                    host == Host::Windows,
                ) implies states[i] is Unchanged || states[i] is Note by {
                if i < n {
                    assert(init[i] == files[i] && rest[i] == states[i]);
                }
            }
        }
        if snapshots::files_say(files, states, host).0.len() != 0 && b.len() != 0 {
            let i = choose|i: int|
                0 <= i < init.len() && snapshots::is_nameable(
                    (#[trigger] init[i]).path@,
                    host == Host::Windows,
                ) && !(rest[i] is Unchanged || rest[i] is Note);
            assert(files[i] == init[i] && states[i] == rest[i]);
        }
        if forall|i: int|
            0 <= i < files.len() && snapshots::is_nameable(
                (#[trigger] files[i]).path@,
                host == Host::Windows,
            ) ==> states[i] is Unchanged || states[i] is Note {
            assert(files[n] == files[n]);
        }
    }
}

/// A session can be resumed exactly when it can be read, the machine is set to run on
/// the hypervisor it was saved on, the profile, if there is one, still has its shape,
/// and no file that this host can look at has changed in a way the guest would not
/// survive.
pub proof fn what_resumes_is_what_was_saved(
    row: SnapshotRow,
    backend: Backend,
    profile: Option<VmEntry>,
    states: Seq<FileState>,
    host: Host,
)
    requires
        row.facts matches Ok(f) ==> states.len() == f.files@.len(),
    ensures
        snapshots::verdict_of(row, backend, profile, states, host).0.len() == 0 <==> {
            &&& row.facts is Ok
            &&& (backend == Backend::Wsl || host == Host::Linux) ==> row.facts->Ok_0.host
                == HostKind::KvmLinux
            &&& (backend == Backend::Native && host == Host::Windows) ==> row.facts->Ok_0.host
                == HostKind::WhpWindows
            &&& profile matches Some(vm) ==> {
                &&& row.facts->Ok_0.memory_bytes == vm.memory_mib << 20
                &&& row.facts->Ok_0.vcpus == vm.vcpus
                &&& row.facts->Ok_0.transport@ == (match vm.transport {
                    VirtioTransport::Pci => "pci"@,
                    VirtioTransport::Mmio => "mmio"@,
                })
                &&& row.facts->Ok_0.boot_mode@ == (if vm.uefi {
                    "uefi"@
                } else {
                    "direct-linux"@
                })
            }
            &&& forall|i: int|
                0 <= i < row.facts->Ok_0.files@.len() && (if host == Host::Windows {
                    let path = (#[trigger] row.facts->Ok_0.files@[i]).path@;
                    path.len() >= 3 && ('a' <= path[0] <= 'z' || 'A' <= path[0] <= 'Z') && path[1]
                        == ':' && (path[2] == '\\' || path[2] == '/')
                } else {
                    let path = row.facts->Ok_0.files@[i].path@;
                    path.len() > 0 && path[0] == '/'
                }) ==> states[i] is Unchanged || states[i] is Note
        },
{
    if let Ok(f) = row.facts {
        lemma_files_block(f.files@, states, host);
        if let Some(vm) = profile {
            a_kept_shape_agrees_in_everything(f, vm);
        }
        assert forall|i: int| 0 <= i < f.files@.len() implies snapshots::is_nameable(
            (#[trigger] f.files@[i]).path@,
            host == Host::Windows,
        ) == (if host == Host::Windows {
            let path = f.files@[i].path@;
            path.len() >= 3 && ('a' <= path[0] <= 'z' || 'A' <= path[0] <= 'Z') && path[1] == ':'
                && (path[2] == '\\' || path[2] == '/')
        } else {
            let path = f.files@[i].path@;
            path.len() > 0 && path[0] == '/'
        }) by {
            lemma_nameable(f.files@[i].path@, host);
        }
        let (b, _) = snapshots::files_say(f.files@, states, host);
        let h = snapshots::host_blocks(f, backend, host);
        let s = snapshots::shape_blocks(f, profile);
        assert(snapshots::verdict_of(row, backend, profile, states, host).0.len() == h.len()
            + s.len() + b.len());
    }
}

/// What a file says is among what all of them say.
proof fn lemma_said(files: Seq<FileRecord>, states: Seq<FileState>, host: Host, i: int)
    requires
        states.len() == files.len(),
        0 <= i < files.len(),
    ensures
        snapshots::file_says(files[i], states[i], host).0.len() == 1 ==> snapshots::files_say(
            files,
            states,
            host,
        ).0.contains(snapshots::file_says(files[i], states[i], host).0[0]),
        snapshots::file_says(files[i], states[i], host).1.len() == 1 ==> snapshots::files_say(
            files,
            states,
            host,
        ).1.contains(snapshots::file_says(files[i], states[i], host).1[0]),
    decreases files.len(),
{
    let n = files.len() - 1;
    let init = files.drop_last();
    let rest = states.drop_last();
    let (b, m) = snapshots::files_say(init, rest, host);
    let (c, d) = snapshots::file_says(files[n], states[n], host);
    let (all, more) = snapshots::files_say(files, states, host);
    if i == n {
        if c.len() == 1 {
            assert(all[b.len() as int] == c[0]);
        }
        if d.len() == 1 {
            assert(more[m.len() as int] == d[0]);
        }
    } else {
        lemma_said(init, rest, host, i);
        let (x, y) = snapshots::file_says(files[i], states[i], host);
        assert(init[i] == files[i] && rest[i] == states[i]);
        if x.len() == 1 {
            let k = choose|k: int| 0 <= k < b.len() && b[k] == x[0];
            assert(all[k] == x[0]);
        }
        if y.len() == 1 {
            let k = choose|k: int| 0 <= k < m.len() && m[k] == y[0];
            assert(more[k] == y[0]);
        }
    }
}

/// A text holds two parts that stand in it one after the other.
proof fn lemma_two_held(a: Seq<char>, x: Seq<char>, b: Seq<char>, y: Seq<char>, c: Seq<char>)
    ensures
        text::holds(a + x + b + y + c, x),
        text::holds(a + x + b + y + c, y),
{
    text::lemma_held(a, x, b + y + c);
    assert(a + x + (b + y + c) =~= a + x + b + y + c);
    text::lemma_held(a + x + b, y, c);
}

/// Every file that the guest would not survive is told by name, with what changed
/// about it.
pub proof fn every_changed_file_is_named(
    row: SnapshotRow,
    backend: Backend,
    profile: Option<VmEntry>,
    states: Seq<FileState>,
    host: Host,
    i: int,
) -> (k: int)
    requires
        row.facts matches Ok(f) && states.len() == f.files@.len() && 0 <= i < f.files@.len(),
        snapshots::is_nameable(row.facts->Ok_0.files@[i].path@, host == Host::Windows),
        states[i] is Changed,
    ensures
        0 <= k < snapshots::verdict_of(row, backend, profile, states, host).0.len(),
        states[i] matches FileState::Changed { path, what, snapshot, current } ==> {
            let reason = snapshots::verdict_of(row, backend, profile, states, host).0[k];
            &&& text::holds(reason, row.facts->Ok_0.files@[i].role@)
            &&& text::holds(reason, path@)
            &&& text::holds(reason, what@)
            &&& text::holds(reason, snapshot@)
            &&& text::holds(reason, current@)
        },
{
    let f = row.facts->Ok_0;
    let file = f.files@[i];
    let (b, _) = snapshots::files_say(f.files@, states, host);
    lemma_said(f.files@, states, host, i);
    let said = snapshots::file_says(file, states[i], host).0;
    let at = choose|at: int| 0 <= at < b.len() && b[at] == said[0];
    let h = snapshots::host_blocks(f, backend, host);
    let s = snapshots::shape_blocks(f, profile);
    let k = h.len() + s.len() + at;
    assert(snapshots::verdict_of(row, backend, profile, states, host).0[k] == said[0]);
    if let FileState::Changed { path, what, snapshot, current } = states[i] {
        let front = "The "@ + file.role@ + " "@;
        let middle = front + path@ + " has changed since this was saved ("@;
        lemma_two_held(
            "The "@,
            file.role@,
            " "@,
            path@,
            said[0].skip((front + path@).len() as int),
        );
        assert("The "@ + file.role@ + " "@ + path@ + said[0].skip((front + path@).len() as int)
            =~= said[0]);
        lemma_two_held(
            middle,
            what@,
            ": was "@,
            snapshot@,
            said[0].skip((middle + what@ + ": was "@ + snapshot@).len() as int),
        );
        assert(middle + what@ + ": was "@ + snapshot@ + said[0].skip(
            (middle + what@ + ": was "@ + snapshot@).len() as int,
        ) =~= said[0]);
        text::lemma_held(
            middle + what@ + ": was "@ + snapshot@ + ", is "@,
            current@,
            snapshots::CORRUPTING_CHANGE@,
        );
    }
    k
}

/// A file that cannot be compared stands against a resume in its own words, and one
/// that this host has no name for is only mentioned.
pub proof fn failures_refuse_and_foreign_names_are_noted(
    row: SnapshotRow,
    backend: Backend,
    profile: Option<VmEntry>,
    states: Seq<FileState>,
    host: Host,
    i: int,
)
    requires
        row.facts matches Ok(f) && states.len() == f.files@.len() && 0 <= i < f.files@.len(),
    ensures
        ({
            let (blocked, notes) = snapshots::verdict_of(row, backend, profile, states, host);
            let file = row.facts->Ok_0.files@[i];
            if snapshots::is_nameable(file.path@, host == Host::Windows) {
                &&& states[i] matches FileState::Failed(message) ==> blocked.contains(message@)
                &&& states[i] matches FileState::Note(note) ==> exists|k: int|
                    0 <= k < notes.len() && text::holds(#[trigger] notes[k], note@)
            } else {
                exists|k: int| 0 <= k < notes.len() && text::holds(#[trigger] notes[k], file.path@)
            }
        }),
{
    let f = row.facts->Ok_0;
    let file = f.files@[i];
    let (b, n) = snapshots::files_say(f.files@, states, host);
    lemma_said(f.files@, states, host, i);
    let (said, noted) = snapshots::file_says(file, states[i], host);
    let h = snapshots::host_blocks(f, backend, host) + snapshots::shape_blocks(f, profile);
    let p = snapshots::profile_notes(f, profile);
    let (blocked, notes) = snapshots::verdict_of(row, backend, profile, states, host);
    if said.len() == 1 {
        let at = choose|at: int| 0 <= at < b.len() && b[at] == said[0];
        assert(blocked[h.len() + at] == said[0]);
    }
    if noted.len() == 1 {
        let at = choose|at: int| 0 <= at < n.len() && n[at] == noted[0];
        assert(notes[p.len() + at] == noted[0]);
        if snapshots::is_nameable(file.path@, host == Host::Windows) {
            if let FileState::Note(note) = states[i] {
                text::lemma_held("The "@, note@, snapshots::SURVIVABLE_NOTE@);
            }
        } else {
            text::lemma_held("The "@ + file.role@ + " "@, file.path@, snapshots::ELSEWHERE_NOTE@);
        }
    }
}

/// A session that cannot be read is refused with the reason.
pub proof fn unreadable_sessions_are_refused(
    row: SnapshotRow,
    backend: Backend,
    profile: Option<VmEntry>,
    states: Seq<FileState>,
    host: Host,
)
    requires
        row.facts is Err,
    ensures
        snapshots::verdict_of(row, backend, profile, states, host).0.len() == 1,
        text::ends_with(
            snapshots::verdict_of(row, backend, profile, states, host).0[0],
            row.facts->Err_0@,
        ),
{
    let head = "This file cannot be read by this version of Entangled: "@;
    let tail = row.facts->Err_0@;
    let all = head + tail;
    assert(all.subrange(head.len() as int, all.len() as int) =~= tail);
}

/// A session is saved beside its machine's profile, as a file of the machine's name.
pub proof fn sessions_lie_beside_their_profiles(host: Host, vm: VmEntry)
    ensures
        snapshots::path_of(host, vm) == paths::joined(
            host,
            match paths::parent_of(host, vm.profile_path@) {
                Some(dir) => dir,
                None => "."@,
            },
            vm.name@ + ".esnap"@,
        ),
{
    reveal_strlit(".esnap");
    reveal_strlit(".");
    reveal_strlit("esnap");
    assert(vm.name@ + "."@ + "esnap"@ =~= vm.name@ + ".esnap"@);
}

/// The hypervisor that a backend runs on: the Linux one on Linux and inside WSL, the
/// Windows one natively on Windows, and none that is known elsewhere.
pub proof fn every_backend_has_its_hypervisor(backend: Backend, host: Host)
    ensures
        snapshots::spec_host_of(backend, host) == Some(HostKind::KvmLinux) <==> backend
            == Backend::Wsl || host == Host::Linux,
        snapshots::spec_host_of(backend, host) == Some(HostKind::WhpWindows) <==> backend
            == Backend::Native && host == Host::Windows,
{
}

/// Sessions are listed newest first, those of one moment by file name, and none is
/// lost or added.
pub proof fn sessions_are_listed_newest_first(
    host: Host,
    rows: Seq<SnapshotRow>,
    i: int,
    j: int,
)
    requires
        0 <= i < j < rows.len(),
    ensures
        ({
            let listed = sorting::sorted_of(host, rows);
            &&& listed.to_multiset() == rows.to_multiset()
            &&& listed.len() == rows.len()
            &&& listed[i].facts matches Ok(a) ==> (listed[j].facts matches Ok(b) ==> {
                &&& a.created_unix >= b.created_unix
                &&& a.created_unix == b.created_unix ==> !text::precedes(
                    listed[j].file_name@,
                    listed[i].file_name@,
                )
            })
        }),
{
    sorting::sorting_orders(host, rows);
    sorting::sorting_permutes(host, rows);
    let listed = sorting::sorted_of(host, rows);
    assert(!listed[j].ranks_before(&listed[i], host));
}

/// A session counts from when it was saved; one that cannot be read counts as the oldest.
pub proof fn unreadable_sessions_count_as_the_oldest(row: SnapshotRow)
    ensures
        row.facts matches Ok(f) ==> row.taken() == f.created_unix,
        row.facts is Err ==> row.taken() == 0,
{
}

/// A session of another hypervisor tells both, and where there is a choice the backend on
/// which it would resume.
pub proof fn a_foreign_session_tells_where_it_resumes(saved: HostKind, here: HostKind, host: Host)
    ensures
        text::holds(snapshots::foreign_host(saved, here, host), saved.spec_name()),
        text::holds(snapshots::foreign_host(saved, here, host), here.spec_name()),
        host == Host::Windows && saved is KvmLinux ==> text::holds(
            snapshots::foreign_host(saved, here, host),
            "WSL (KVM)"@,
        ),
        host == Host::Windows && !(saved is KvmLinux) ==> text::holds(
            snapshots::foreign_host(saved, here, host),
            "Windows (WHP)"@,
        ),
{
    let said = snapshots::foreign_host(saved, here, host);
    let a = "This was saved on "@;
    let b = " and the machine is set to run on "@;
    let x = saved.spec_name();
    let y = here.spec_name();
    let front = a + x + b + y;
    let rest = said.skip(front.len() as int);
    lemma_two_held(a, x, b, y, rest);
    assert(front + rest =~= said);
    if host == Host::Windows {
        let place = if saved is KvmLinux {
            "WSL (KVM)"@
        } else {
            "Windows (WHP)"@
        };
        let head = front + snapshots::FOREIGN_STATE@ + " Set this machine to run on \""@;
        text::lemma_held(head, place, "\" and it will resume."@);
        assert(head + place + "\" and it will resume."@ =~= said);
    }
}

} // verus!
