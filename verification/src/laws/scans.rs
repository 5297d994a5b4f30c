//! Promises about scans: what a directory holds is what the manager shows of it.
use crate::discovery;
use crate::discovery::{
    DirEntry, DirFile, DiskFacts, DiskInfo, DiskProbe, DiskRef, DiskRow, Listed, Loaded, Machine,
    Scan, ScanProblem, VmEntry,
};
use crate::host::Host;
use crate::paths;
use crate::profile::DiskSection;
use crate::snapshots::SnapshotRow;
use crate::sorting;
use crate::sorting::Ranked;
use crate::text;
use vstd::prelude::*;

verus! {

/// A disk lies where the engine would find it: where it says when that is absolute, else in
/// the first of the working and the profile's directory that has it, and where no
/// directory has it in the first that there is.
pub proof fn a_disk_lies_where_the_engine_looks(
    host: Host,
    path: Seq<char>,
    work: Option<Seq<char>>,
    profile: Option<Seq<char>>,
    in_work: bool,
    in_profile: bool,
)
    ensures
        ({
            let at = discovery::resolved_of(host, path, work, profile, in_work, in_profile);
            &&& paths::is_absolute_of(host, path) ==> at == path
            &&& !paths::is_absolute_of(host, path) && work is Some && (in_work || profile is None
                || !in_profile) ==> at == paths::joined(host, work->0, path)
            &&& !paths::is_absolute_of(host, path) && profile is Some && in_profile && (work is None
                || !in_work) ==> at == paths::joined(host, profile->0, path)
            &&& !paths::is_absolute_of(host, path) && profile is Some && work is None ==> at
                == paths::joined(host, profile->0, path)
            &&& work is None && profile is None ==> at == path
        }),
{
}

/// A disk is described as its profile declares it and as it was found; of one that was not
/// found nothing is claimed but its name.
pub proof fn a_disk_is_described_as_it_is(
    info: DiskInfo,
    host: Host,
    disk: DiskSection,
    probe: DiskProbe,
    work: Option<Seq<char>>,
    profile: Option<Seq<char>>,
)
    requires
        discovery::info_matches(info, host, disk, probe, work, profile),
    ensures
        info.declared@ == disk.path@,
        info.writable == disk.writable,
        info.exists == probe.exists,
        probe.exists ==> info.size_bytes == probe.size_bytes && info.allocated_bytes
            == probe.allocated_bytes,
        !probe.exists ==> info.size_bytes == 0 && info.allocated_bytes is None,
        paths::is_absolute_of(host, disk.path@) ==> info.resolved@ == disk.path@,
        !paths::is_absolute_of(host, disk.path@) && work is Some && probe.in_work_dir
            ==> info.resolved@ == paths::joined(host, work->0, disk.path@),
{
}

/// An entry of the directory becomes what its name and its contents say: a profile a
/// machine or a problem, a saved session itself, anything else a file, and what could not
/// be listed is told.
pub proof fn an_entry_becomes_what_it_is(host: Host, entry: DirEntry)
    ensures
        entry matches DirEntry::Unlisted(m) ==> discovery::outcome_of(host, entry) == Some(
            Listed::Unlisted(m),
        ),
        entry matches DirEntry::Seen { path, is_file, loaded } ==> {
            let profile = is_file && paths::extension_is(host, path@, "toml"@);
            let session = is_file && paths::extension_is(host, path@, "esnap"@);
            &&& profile ==> (loaded matches Loaded::Profile(Ok(machine)) ==> discovery::outcome_of(
                host,
                entry,
            ) == Some(Listed::Machine(machine)))
            &&& profile ==> (loaded matches Loaded::Profile(Err(message))
                ==> discovery::outcome_of(host, entry) == Some(
                Listed::Broken(ScanProblem { path, message }),
            ))
            &&& !profile && session ==> (loaded matches Loaded::Session(row)
                ==> discovery::outcome_of(host, entry) == Some(Listed::Session(row)))
            &&& !profile && !session ==> (discovery::outcome_of(host, entry) matches Some(
                Listed::File(f),
            ) && f.path == path && f.is_file == is_file && (loaded matches Loaded::Image(facts)
                ==> f.facts == Some(facts)))
        },
{
}

/// A listing holds what the entries became, and nothing else.
pub proof fn every_entry_is_listed(host: Host, entries: Seq<DirEntry>, l: Listed)
    ensures
        discovery::listing_of(host, entries).contains(l) <==> exists|i: int|
            0 <= i < entries.len() && discovery::outcome_of(host, #[trigger] entries[i]) == Some(l),
    decreases entries.len(),
{
    let all = discovery::listing_of(host, entries);
    if entries.len() > 0 {
        let rest = entries.drop_first();
        every_entry_is_listed(host, rest, l);
        let tail = discovery::listing_of(host, rest);
        let head = match discovery::outcome_of(host, entries[0]) {
            Some(listed) => seq![listed],
            None => Seq::<Listed>::empty(),
        };
        assert(all == head + tail);
        lemma_in_sum(head, tail, l);
        if head.contains(l) {
            assert(discovery::outcome_of(host, entries[0]) == Some(l));
        }
        if tail.contains(l) {
            let i = choose|i: int|
                0 <= i < rest.len() && discovery::outcome_of(host, #[trigger] rest[i]) == Some(l);
            assert(entries[i + 1] == rest[i]);
        }
        if exists|i: int|
            0 <= i < entries.len() && discovery::outcome_of(host, #[trigger] entries[i]) == Some(
                l,
            ) {
            let i = choose|i: int|
                0 <= i < entries.len() && discovery::outcome_of(host, #[trigger] entries[i])
                    == Some(l);
            if i == 0 {
                assert(head[0] == l);
            } else {
                assert(rest[i - 1] == entries[i]);
            }
        }
    }
}

/// What two parts hold together is what either holds.
proof fn lemma_in_sum<T>(head: Seq<T>, tail: Seq<T>, x: T)
    ensures
        (head + tail).contains(x) <==> head.contains(x) || tail.contains(x),
{
    let all = head + tail;
    if head.contains(x) {
        let k = choose|k: int| 0 <= k < head.len() && head[k] == x;
        assert(all[k] == x);
    }
    if tail.contains(x) {
        let k = choose|k: int| 0 <= k < tail.len() && tail[k] == x;
        assert(all[head.len() + k] == x);
    }
    if all.contains(x) {
        let k = choose|k: int| 0 <= k < all.len() && all[k] == x;
        if k < head.len() {
            assert(head[k] == x);
        } else {
            assert(tail[k - head.len()] == x);
        }
    }
}

/// Each kind of thing on a listing is gathered whole: the machines, the sessions, the
/// files, and what is wrong with the rest, where an entry that could not be listed is
/// blamed on the directory.
pub proof fn everything_listed_is_gathered(
    list: Seq<Listed>,
    vm_dir: Seq<char>,
    m: Machine,
    row: SnapshotRow,
    f: DirFile,
    problem: (Seq<char>, Seq<char>),
)
    ensures
        discovery::machines_of(list).contains(m) <==> list.contains(Listed::Machine(m)),
        discovery::sessions_of(list).contains(row) <==> list.contains(Listed::Session(row)),
        discovery::files_of(list).contains(f) <==> list.contains(Listed::File(f)),
        discovery::problems_of(list, vm_dir).contains(problem) <==> exists|i: int|
            0 <= i < list.len() && ((#[trigger] list[i] matches Listed::Broken(p) && (
                p.path@,
                p.message@,
            ) == problem) || (list[i] matches Listed::Unlisted(message) && (vm_dir, message@)
                == problem)),
    decreases list.len(),
{
    if list.len() > 0 {
        let rest = list.drop_first();
        everything_listed_is_gathered(rest, vm_dir, m, row, f, problem);
        assert(list =~= seq![list[0]] + rest);
        lemma_in_sum(seq![list[0]], rest, Listed::Machine(m));
        lemma_in_sum(seq![list[0]], rest, Listed::Session(row));
        lemma_in_sum(seq![list[0]], rest, Listed::File(f));
        assert(seq![list[0]][0] == list[0]);
        let ms = match list[0] {
            Listed::Machine(m) => seq![m],
            _ => Seq::<Machine>::empty(),
        };
        lemma_in_sum(ms, discovery::machines_of(rest), m);
        let ss = match list[0] {
            Listed::Session(row) => seq![row],
            _ => Seq::<SnapshotRow>::empty(),
        };
        lemma_in_sum(ss, discovery::sessions_of(rest), row);
        let fs = match list[0] {
            Listed::File(f) => seq![f],
            _ => Seq::<DirFile>::empty(),
        };
        lemma_in_sum(fs, discovery::files_of(rest), f);
        let ps = match list[0] {
            Listed::Broken(p) => seq![(p.path@, p.message@)],
            Listed::Unlisted(message) => seq![(vm_dir, message@)],
            _ => Seq::<(Seq<char>, Seq<char>)>::empty(),
        };
        lemma_in_sum(ps, discovery::problems_of(rest, vm_dir), problem);
        if ms.len() > 0 {
            assert(ms.contains(ms[0]));
        }
        if ss.len() > 0 {
            assert(ss.contains(ss[0]));
        }
        if fs.len() > 0 {
            assert(fs.contains(fs[0]));
        }
        if ps.len() > 0 {
            assert(ps.contains(ps[0]));
        }
        assert forall|i: int| 0 < i < list.len() implies #[trigger] list[i] == rest[i - 1] by {}
        assert forall|i: int| 0 <= i < rest.len() implies #[trigger] rest[i] == list[i + 1] by {}
    }
}

/// A scan shows every machine of the listing and every session, and no other; the
/// machines by their names, the sessions from the newest.
pub proof fn a_scan_shows_what_was_listed(
    host: Host,
    vm_dir: Seq<char>,
    list: Seq<Listed>,
    scan: Scan,
    vm: VmEntry,
    row: SnapshotRow,
)
    requires
        discovery::is_scan(host, vm_dir, list, scan),
    ensures
        scan.vms@.contains(vm) <==> exists|i: int|
            0 <= i < list.len() && (#[trigger] list[i] matches Listed::Machine(m) && m.vm == vm),
        scan.snapshots@.contains(row) <==> list.contains(Listed::Session(row)),
        forall|i: int, j: int|
            0 <= i < j < scan.vms@.len() ==> !text::precedes(
                (#[trigger] scan.vms@[j]).name@,
                (#[trigger] scan.vms@[i]).name@,
            ),
{
    broadcast use vstd::seq_lib::group_to_multiset_ensures;

    let gathered = discovery::machines_of(list);
    let machines = sorting::sorted_of(host, gathered);
    sorting::sorting_permutes(host, gathered);
    sorting::sorting_orders(host, gathered);
    sorting::sorting_permutes(host, discovery::sessions_of(list));
    let any = vstd::pervasive::arbitrary();
    let problem = (vm_dir, vm_dir);
    let machine = vstd::pervasive::arbitrary();
    everything_listed_is_gathered(list, vm_dir, machine, row, any, problem);
    assert forall|i: int, j: int| 0 <= i < j < scan.vms@.len() implies !text::precedes(
        (#[trigger] scan.vms@[j]).name@,
        (#[trigger] scan.vms@[i]).name@,
    ) by {
        assert(scan.vms@[i] == machines[i].vm && scan.vms@[j] == machines[j].vm);
        assert(!machines[j].ranks_before(&machines[i], host));
    }
    if scan.vms@.contains(vm) {
        let k = choose|k: int| 0 <= k < scan.vms@.len() && scan.vms@[k] == vm;
        let m = machines[k];
        assert(machines.contains(m));
        assert(gathered.to_multiset().count(m) > 0);
        assert(gathered.contains(m));
        everything_listed_is_gathered(list, vm_dir, m, row, any, problem);
        let i = choose|i: int| 0 <= i < list.len() && list[i] == Listed::Machine(m);
        assert(list[i] matches Listed::Machine(x) && x.vm == vm);
    }
    if exists|i: int|
        0 <= i < list.len() && (#[trigger] list[i] matches Listed::Machine(m) && m.vm == vm) {
        let i = choose|i: int|
            0 <= i < list.len() && (#[trigger] list[i] matches Listed::Machine(m) && m.vm == vm);
        let m = list[i]->Machine_0;
        assert(list.contains(Listed::Machine(m)));
        everything_listed_is_gathered(list, vm_dir, m, row, any, problem);
        assert(machines.to_multiset().count(m) > 0);
        assert(machines.contains(m));
        let k = choose|k: int| 0 <= k < machines.len() && machines[k] == m;
        assert(scan.vms@[k] == vm);
    }
    let kept = discovery::sessions_of(list);
    if kept.contains(row) {
        assert(kept.to_multiset().count(row) > 0);
    }
    if scan.snapshots@.contains(row) {
        assert(scan.snapshots@.to_multiset().count(row) > 0);
    }
}

/// The row of an image tells what the image is: where it lies, what it holds if it is
/// there, and who mentions it.
pub proof fn a_row_tells_what_the_image_is(host: Host, r: DiskRef)
    ensures
        ({
            let row = discovery::row_of(host, r);
            &&& row.path == r.path@
            &&& row.exists == r.facts.exists
            &&& row.nvram == r.facts.nvram
            &&& r.facts.exists ==> row.apparent_bytes == r.facts.apparent_bytes
                && row.allocated_bytes == r.facts.allocated_bytes
            &&& !r.facts.exists ==> row.apparent_bytes == 0 && row.allocated_bytes is None
            &&& r.facts.exists ==> (r.facts.summary matches Ok(s) ==> row.summary == Ok::<
                Seq<char>,
                Seq<char>,
            >(s@))
            &&& r.facts.exists ==> (r.facts.summary matches Err(e) ==> row.summary == Err::<
                Seq<char>,
                Seq<char>,
            >(e@))
            &&& !r.facts.exists ==> row.summary == Err::<Seq<char>, Seq<char>>(
                "the image file is missing"@,
            )
            &&& r.attachment is None ==> row.attachments.len() == 0
            &&& r.attachment matches Some(a) ==> row.attachments == seq![a]
            &&& paths::file_name_of(host, r.path@) matches Some(name) ==> row.file_name == name
        }),
{
}

/// A mention of a disk names the machine, its profile, and how the disk is declared there.
pub proof fn a_mention_names_the_machine(vm: VmEntry, index: int, facts: DiskFacts)
    requires
        0 <= index < vm.disks@.len(),
    ensures
        ({
            let r = discovery::mention_of(vm, index, facts);
            &&& r.path@ == vm.disks@[index].resolved@
            &&& r.facts == facts
            &&& r.attachment matches Some(a) && a.vm@ == vm.name@ && a.profile@ == vm.profile_path@
                && a.declared@ == vm.disks@[index].declared@ && a.writable
                == vm.disks@[index].writable
        }),
{
}

/// The size of several disks is the sum of their sizes; what they take is the sum of what
/// each takes, and unknown as soon as one is unknown.
pub proof fn sizes_of_disks_add_up(disks: Seq<DiskInfo>, disk: DiskInfo)
    ensures
        discovery::total_size(Seq::empty()) == 0,
        discovery::total_size(disks.push(disk)) == discovery::total_size(disks) + disk.size_bytes,
        discovery::total_allocated(Seq::empty()) == Some(0nat),
        disk.allocated_bytes is None || discovery::total_allocated(disks) is None
            ==> discovery::total_allocated(disks.push(disk)) is None,
        disk.allocated_bytes is Some && discovery::total_allocated(disks) is Some
            ==> discovery::total_allocated(disks.push(disk)) == Some(
            (discovery::total_allocated(disks)->0 + disk.allocated_bytes->0) as nat,
        ),
{
    assert(disks.push(disk).drop_last() =~= disks);
}

/// An entry of a profile leads to a disk when it names it, or when it does so from the
/// profile's directory.
pub proof fn an_entry_leads_to_its_disk(
    host: Host,
    entry: DiskSection,
    dir: Option<Seq<char>>,
    disk: Seq<char>,
)
    ensures
        discovery::leads_to(host, entry, dir, disk) <==> paths::same_path(host, entry.path@, disk)
            || (!paths::is_absolute_of(host, entry.path@) && dir is Some && paths::same_path(
            host,
            paths::joined(host, dir->0, entry.path@),
            disk,
        )),
{
}

/// A scan tells every problem of the listing, and no other.
pub proof fn a_scan_tells_every_problem(
    host: Host,
    vm_dir: Seq<char>,
    list: Seq<Listed>,
    scan: Scan,
    problem: (Seq<char>, Seq<char>),
)
    requires
        discovery::is_scan(host, vm_dir, list, scan),
    ensures
        (exists|k: int|
            0 <= k < scan.problems@.len() && ((#[trigger] scan.problems@[k]).path@,
                scan.problems@[k].message@) == problem) <==> discovery::problems_of(
            list,
            vm_dir,
        ).contains(problem),
{
    broadcast use vstd::seq_lib::group_to_multiset_ensures;

    let told = choose|told: Seq<ScanProblem>| #[trigger]
        discovery::problem_texts(told) == discovery::problems_of(list, vm_dir) && scan.problems@
            == sorting::sorted_of(host, told);
    let texts = discovery::problem_texts(told);
    sorting::sorting_permutes(host, told);
    if exists|k: int|
        0 <= k < scan.problems@.len() && ((#[trigger] scan.problems@[k]).path@,
            scan.problems@[k].message@) == problem {
        let k = choose|k: int|
            0 <= k < scan.problems@.len() && ((#[trigger] scan.problems@[k]).path@,
                scan.problems@[k].message@) == problem;
        let p = scan.problems@[k];
        assert(scan.problems@.contains(p));
        assert(told.to_multiset().count(p) > 0);
        let i = choose|i: int| 0 <= i < told.len() && told[i] == p;
        assert(texts[i] == problem);
    }
    if texts.contains(problem) {
        let i = choose|i: int| 0 <= i < texts.len() && texts[i] == problem;
        let p = told[i];
        assert(told.contains(p));
        assert(scan.problems@.to_multiset().count(p) > 0);
        let k = choose|k: int| 0 <= k < scan.problems@.len() && scan.problems@[k] == p;
        assert((scan.problems@[k].path@, scan.problems@[k].message@) == problem);
    }
}

/// Every disk of every machine is mentioned, with what was found of it.
pub proof fn every_disk_is_mentioned(
    vms: Seq<VmEntry>,
    facts: Seq<Vec<DiskFacts>>,
    i: int,
    j: int,
)
    requires
        0 <= i < vms.len(),
        0 <= j < vms[i].disks@.len(),
    ensures
        exists|k: int|
            0 <= k < discovery::machine_refs(vms, facts).len() && (
            #[trigger] discovery::machine_refs(vms, facts)[k]).path@ == vms[i].disks@[j].resolved@
                && discovery::machine_refs(vms, facts)[k].facts == facts[i]@[j]
                && discovery::machine_refs(vms, facts)[k].attachment is Some
                && discovery::machine_refs(vms, facts)[k].attachment->0.vm@ == vms[i].name@,
    decreases vms.len(),
{
    let all = discovery::machine_refs(vms, facts);
    let init = discovery::machine_refs(vms.drop_last(), facts);
    if i == vms.len() - 1 {
        let k = init.len() + j;
        assert(all[k] == discovery::mention_of(vms[i], j, facts[i]@[j]));
    } else {
        every_disk_is_mentioned(vms.drop_last(), facts, i, j);
        assert(vms.drop_last()[i] == vms[i]);
        let k = choose|k: int|
            0 <= k < init.len() && (#[trigger] init[k]).path@ == vms[i].disks@[j].resolved@
                && init[k].facts == facts[i]@[j] && init[k].attachment is Some
                && init[k].attachment->0.vm@ == vms[i].name@;
        assert(all[k] == init[k]);
    }
}

/// A disk image is a file whose name ends as those of images do.
pub proof fn images_are_files_of_their_kind(host: Host, f: DirFile)
    ensures
        f.is_image(host) <==> f.is_file && paths::extension_is(host, f.path@, "raw"@),
{
}

/// Images are listed by name and those of one name by place, sessions from the newest and
/// those of one moment by name, problems by place.
pub proof fn lists_have_their_order(
    host: Host,
    a: DiskRow,
    b: DiskRow,
    s: SnapshotRow,
    t: SnapshotRow,
    p: ScanProblem,
    q: ScanProblem,
)
    ensures
        a.ranks_before(&b, host) <==> text::precedes(a.file_name@, b.file_name@) || (a.file_name@
            == b.file_name@ && paths::path_precedes(host, a.path@, b.path@)),
        s.ranks_before(&t, host) <==> s.taken() > t.taken() || (s.taken() == t.taken()
            && text::precedes(s.file_name@, t.file_name@)),
        p.ranks_before(&q, host) <==> paths::path_precedes(host, p.path@, q.path@),
{
}

} // verus!
