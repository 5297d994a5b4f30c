//! Promises about deleting a machine: what goes and what stays.
use crate::discovery;
use crate::discovery::{Byproducts, DiskInfo, Removal, VmEntry};
use crate::host::Host;
use crate::paths;
use crate::snapshots;
use vstd::prelude::*;

verus! {

/// The disks of a machine that are in, or not in, the machine directory.
proof fn lemma_disks_where(
    host: Host,
    disks: Seq<DiskInfo>,
    vm_dir: Seq<char>,
    inside: bool,
    path: Seq<char>,
)
    ensures
        discovery::disks_where(host, disks, vm_dir, inside).contains(path) <==> exists|i: int|
            0 <= i < disks.len() && (#[trigger] disks[i]).exists && disks[i].resolved@ == path
                && paths::lies_under(host, path, vm_dir) == inside,
    decreases disks.len(),
{
    let all = discovery::disks_where(host, disks, vm_dir, inside);
    if disks.len() > 0 {
        let init = disks.drop_last();
        let n = disks.len() - 1;
        lemma_disks_where(host, init, vm_dir, inside, path);
        let before = discovery::disks_where(host, init, vm_dir, inside);
        if all.contains(path) {
            let k = choose|k: int| 0 <= k < all.len() && all[k] == path;
            if k < before.len() {
                assert(before[k] == path);
                assert(before.contains(path));
                let i = choose|i: int|
                    0 <= i < init.len() && (#[trigger] init[i]).exists && init[i].resolved@ == path
                        && paths::lies_under(host, path, vm_dir) == inside;
                assert(disks[i] == init[i]);
            } else {
                assert(disks[n].resolved@ == path);
            }
        }
        if exists|i: int|
            0 <= i < disks.len() && (#[trigger] disks[i]).exists && disks[i].resolved@ == path
                && paths::lies_under(host, path, vm_dir) == inside {
            let i = choose|i: int|
                0 <= i < disks.len() && (#[trigger] disks[i]).exists && disks[i].resolved@ == path
                    && paths::lies_under(host, path, vm_dir) == inside;
            if i < n {
                assert(init[i] == disks[i]);
                let k = choose|k: int| 0 <= k < before.len() && before[k] == path;
                assert(all[k] == path);
            } else {
                assert(all[all.len() - 1] == path);
            }
        }
    }
}

/// A delete removes the profile, every disk that is there and lies in the machine
/// directory, and every byproduct that is there: both logs, the installer's initrd and
/// the saved session. It removes nothing else.
pub proof fn a_delete_takes_all_of_the_machine(
    host: Host,
    entry: VmEntry,
    vm_dir: Seq<char>,
    there: Byproducts,
    path: Seq<char>,
)
    ensures
        discovery::removals_of(host, entry, vm_dir, there).contains(path) <==> {
            ||| path == entry.profile_path@
            ||| exists|i: int|
                0 <= i < entry.disks@.len() && (#[trigger] entry.disks@[i]).exists
                    && entry.disks@[i].resolved@ == path && paths::lies_under(host, path, vm_dir)
            ||| there.install_log && path == paths::joined(
                host,
                vm_dir,
                entry.name@ + "-install.log"@,
            )
            ||| there.run_log && path == paths::joined(host, vm_dir, entry.name@ + "-run.log"@)
            ||| there.install_initrd && path == paths::joined(
                host,
                vm_dir,
                entry.name@ + ".install-initrd.img"@,
            )
            ||| there.session && path == snapshots::path_of(host, entry)
        },
{
    let disks = discovery::disks_where(host, entry.disks@, vm_dir, true);
    lemma_disks_where(host, entry.disks@, vm_dir, true, path);
    let none = Seq::<Seq<char>>::empty();
    let log = paths::joined(host, vm_dir, entry.name@ + "-install.log"@);
    let run = paths::joined(host, vm_dir, entry.name@ + "-run.log"@);
    let initrd = paths::joined(host, vm_dir, entry.name@ + ".install-initrd.img"@);
    let session = snapshots::path_of(host, entry);
    let a = if there.install_log {
        seq![log]
    } else {
        none
    };
    let b = if there.run_log {
        seq![run]
    } else {
        none
    };
    let c = if there.install_initrd {
        seq![initrd]
    } else {
        none
    };
    let d = if there.session {
        seq![session]
    } else {
        none
    };
    let all = discovery::removals_of(host, entry, vm_dir, there);
    assert(all =~= seq![entry.profile_path@] + disks + (a + b + c + d));
    let n = 1 + disks.len();
    if path == entry.profile_path@ {
        assert(all[0] == path);
    }
    if disks.contains(path) {
        let k = choose|k: int| 0 <= k < disks.len() && disks[k] == path;
        assert(all[1 + k] == path);
    }
    if there.install_log {
        assert(all[n as int] == log);
    }
    if there.run_log {
        assert(all[(n + a.len()) as int] == run);
    }
    if there.install_initrd {
        assert(all[(n + a.len() + b.len()) as int] == initrd);
    }
    if there.session {
        assert(all[(n + a.len() + b.len() + c.len()) as int] == session);
    }
    if all.contains(path) {
        let k = choose|k: int| 0 <= k < all.len() && all[k] == path;
        if 1 <= k < n {
            assert(disks[k - 1] == path);
            assert(disks.contains(path));
        }
    }
}

/// What a delete leaves for lying elsewhere is every disk that is there and not in the
/// machine directory, and nothing else.
pub proof fn a_delete_keeps_what_lies_elsewhere(
    host: Host,
    entry: VmEntry,
    vm_dir: Seq<char>,
    path: Seq<char>,
)
    ensures
        discovery::disks_where(host, entry.disks@, vm_dir, false).contains(path) <==> exists|i: int|
            0 <= i < entry.disks@.len() && (#[trigger] entry.disks@[i]).exists
                && entry.disks@[i].resolved@ == path && !paths::lies_under(host, path, vm_dir),
{
    lemma_disks_where(host, entry.disks@, vm_dir, false, path);
}

/// Of the files that were to be removed, exactly those are told as removed that were:
/// not the ones that were gone already.
pub proof fn only_what_was_removed_is_told(
    paths: Seq<String>,
    results: Seq<Removal>,
    file: String,
)
    requires
        results.len() <= paths.len(),
    ensures
        discovery::removed_of(paths, results).contains(file) <==> exists|i: int|
            0 <= i < results.len() && (#[trigger] results[i]) is Removed && paths[i] == file,
        discovery::removed_of(paths, results).len() <= results.len(),
    decreases results.len(),
{
    let all = discovery::removed_of(paths, results);
    if results.len() > 0 {
        let init = results.drop_last();
        let n = results.len() - 1;
        only_what_was_removed_is_told(paths, init, file);
        let before = discovery::removed_of(paths, init);
        if all.contains(file) {
            let k = choose|k: int| 0 <= k < all.len() && all[k] == file;
            if k < before.len() {
                assert(before.contains(before[k]));
                let i = choose|i: int|
                    0 <= i < init.len() && (#[trigger] init[i]) is Removed && paths[i] == file;
                assert(results[i] is Removed);
            } else {
                assert(results[n] is Removed);
            }
        }
        if exists|i: int|
            0 <= i < results.len() && (#[trigger] results[i]) is Removed && paths[i] == file {
            let i = choose|i: int|
                0 <= i < results.len() && (#[trigger] results[i]) is Removed && paths[i] == file;
            if i < n {
                assert(init[i] is Removed);
                let k = choose|k: int| 0 <= k < before.len() && before[k] == file;
                assert(all[k] == file);
            } else {
                assert(all[all.len() - 1] == file);
            }
        }
    }
}

} // verus!
