//! Promises about single disks: when one may be deleted, moved, grown, created or
//! attached, and what is done then.
use crate::dialogs;
use crate::discovery;
use crate::discovery::{DiskAttachment, DiskRow, Removal, VmEntry};
use crate::host::Host;
use crate::laws::starts;
use crate::moving;
use crate::moving::MoveEvent;
use crate::paths;
use crate::process;
use crate::snapshots::SnapshotRow;
use crate::state;
use crate::state::{ManagerApp, MoveDiskState, ResizeDiskState, Status};
use crate::storage;
use crate::text;
use vstd::prelude::*;

verus! {

/// A disk is looked up by its path: the first row with that path, and none exactly when
/// no row has it.
pub proof fn a_disk_is_found_by_its_path(host: Host, rows: Seq<DiskRow>, path: Seq<char>)
    ensures
        state::disk_at(host, rows, path) is None <==> forall|i: int|
            0 <= i < rows.len() ==> !paths::same_path(host, (#[trigger] rows[i]).path@, path),
        state::disk_at(host, rows, path) matches Some(row) ==> paths::same_path(
            host,
            row.path@,
            path,
        ) && rows.contains(row),
    decreases rows.len(),
{
    if rows.len() > 0 {
        if paths::same_path(host, rows[0].path@, path) {
            assert(rows[0] == rows[0]);
        } else {
            let rest = rows.drop_first();
            a_disk_is_found_by_its_path(host, rest, path);
            assert forall|i: int| 0 < i < rows.len() implies #[trigger] rows[i] == rest[i - 1] by {}
            if let Some(row) = state::disk_at(host, rows, path) {
                let k = choose|k: int| 0 <= k < rest.len() && rest[k] == row;
                assert(rows[k + 1] == row);
            }
        }
    }
}

/// A saved session is looked up by its path, in the same way.
pub proof fn a_session_is_found_by_its_path(host: Host, rows: Seq<SnapshotRow>, path: Seq<char>)
    ensures
        state::session_at(host, rows, path) is None <==> forall|i: int|
            0 <= i < rows.len() ==> !paths::same_path(host, (#[trigger] rows[i]).path@, path),
        state::session_at(host, rows, path) matches Some(row) ==> paths::same_path(
            host,
            row.path@,
            path,
        ) && rows.contains(row),
    decreases rows.len(),
{
    if rows.len() > 0 {
        if paths::same_path(host, rows[0].path@, path) {
            assert(rows[0] == rows[0]);
        } else {
            let rest = rows.drop_first();
            a_session_is_found_by_its_path(host, rest, path);
            assert forall|i: int| 0 < i < rows.len() implies #[trigger] rows[i] == rest[i - 1] by {}
            if let Some(row) = state::session_at(host, rows, path) {
                let k = choose|k: int| 0 <= k < rest.len() && rest[k] == row;
                assert(rows[k + 1] == row);
            }
        }
    }
}

/// A machine is busy exactly when it has a child that runs, or, with sample data, when
/// its status is one that must not be disturbed.
pub proof fn busy_machines_are_left_alone(app: ManagerApp, name: Seq<char>)
    ensures
        !app.mock_mode ==> (app.spec_busy(name) <==> exists|i: int|
            0 <= i < app.supervisor.tasks@.len() && (
            #[trigger] app.supervisor.tasks@[i]).vm@ == name && !(
            app.supervisor.tasks@[i].state is Finished)),
        app.mock_mode ==> (app.spec_busy(name) <==> app.spec_status(name) != Status::Suspended
            && app.spec_status(name) != Status::Stopped),
{
    starts::busy_means_an_unfinished_child(app.supervisor.tasks@, name);
}

/// Nothing is asked about a disk that is not listed, or that a busy machine uses.
pub proof fn a_disk_in_use_is_not_touched(app: ManagerApp, path: Seq<char>)
    ensures
        app.disk_refusal(path) is None ==> {
            &&& app.spec_disk(path) is Some
            &&& forall|i: int|
                0 <= i < app.spec_disk(path)->0.attachments@.len() ==> !app.spec_busy(
                    (#[trigger] app.spec_disk(path)->0.attachments@[i]).vm@,
                )
        },
        app.spec_disk(path) is Some && (forall|i: int|
            0 <= i < app.spec_disk(path)->0.attachments@.len() ==> !app.spec_busy(
                (#[trigger] app.spec_disk(path)->0.attachments@[i]).vm@,
            )) ==> app.disk_refusal(path) is None,
{
}

/// Only a disk that no profile names is deleted.
pub proof fn only_a_detached_disk_is_deleted(app: ManagerApp, row: DiskRow)
    ensures
        app.delete_disk_fault(row) is None <==> row.attachments@.len() == 0,
{
}

/// A disk moves exactly to a place that was named, and only while no machine that uses
/// it is busy.
pub proof fn a_move_needs_a_place_and_an_idle_disk(app: ManagerApp, s: MoveDiskState)
    ensures
        app.move_fault(s) is None <==> {
            &&& text::trim_of(s.dest@).len() > 0
            &&& forall|i: int|
                0 <= i < s.row.attachments@.len() ==> !app.spec_busy(
                    (#[trigger] s.row.attachments@[i]).vm@,
                )
        },
{
}

/// A disk grows exactly when the size can be read and no machine that uses it is busy.
pub proof fn growing_needs_a_size_and_an_idle_disk(
    app: ManagerApp,
    s: ResizeDiskState,
    bytes: Result<u64, String>,
)
    ensures
        app.resize_fault(s, bytes) is None <==> {
            &&& bytes is Ok
            &&& forall|i: int|
                0 <= i < s.row.attachments@.len() ==> !app.spec_busy(
                    (#[trigger] s.row.attachments@[i]).vm@,
                )
        },
{
}

/// The profiles that a move rewrites are exactly those that attach the disk.
pub proof fn a_move_rewrites_the_profiles_that_attach(
    host: Host,
    attachments: Seq<DiskAttachment>,
    i: int,
)
    requires
        0 <= i < moving::profiles_of(host, attachments).len(),
    ensures
        exists|k: int|
            0 <= k < attachments.len() && (#[trigger] attachments[k]).profile@
                == moving::profiles_of(host, attachments)[i],
    decreases attachments.len(),
{
    let all = moving::profiles_of(host, attachments);
    if attachments.len() > 0 {
        let init = attachments.drop_last();
        let n = attachments.len() - 1;
        let before = moving::profiles_of(host, init);
        if i < before.len() {
            a_move_rewrites_the_profiles_that_attach(host, init, i);
            let k = choose|k: int|
                0 <= k < init.len() && (#[trigger] init[k]).profile@ == before[i];
            assert(attachments[k] == init[k]);
        } else {
            assert(attachments[n].profile@ == all[i]);
        }
    }
}

/// What a move tells last is what counts: the last progress, and the last end.
pub proof fn the_last_event_counts(events: Seq<MoveEvent>, before: Option<(u64, u64)>, i: int)
    requires
        0 <= i < events.len(),
    ensures
        events[i] is Progress && (forall|j: int|
            i < j < events.len() ==> !((#[trigger] events[j]) is Progress))
            ==> moving::progress_after(events, before) == Some(
            (events[i]->Progress_0, events[i]->Progress_1),
        ),
        events[i] is Done && (forall|j: int|
            i < j < events.len() ==> !((#[trigger] events[j]) is Done)) ==> moving::end_among(events)
            == Some(events[i]->Done_0),
    decreases events.len(),
{
    let n = events.len() - 1;
    if i < n {
        let init = events.drop_last();
        the_last_event_counts(init, before, i);
        assert(init[i] == events[i]);
        if events[i] is Progress && (forall|j: int|
            i < j < events.len() ==> !((#[trigger] events[j]) is Progress)) {
            assert(!(events[n] is Progress));
            assert forall|j: int| i < j < init.len() implies !((#[trigger] init[j]) is Progress) by {
                assert(init[j] == events[j]);
            }
        }
        if events[i] is Done && (forall|j: int|
            i < j < events.len() ==> !((#[trigger] events[j]) is Done)) {
            assert(!(events[n] is Done));
            assert forall|j: int| i < j < init.len() implies !((#[trigger] init[j]) is Done) by {
                assert(init[j] == events[j]);
            }
        }
    }
}

/// Without an end among its events a move goes on.
pub proof fn a_move_ends_by_being_told(events: Seq<MoveEvent>)
    ensures
        moving::end_among(events) is None <==> forall|i: int|
            0 <= i < events.len() ==> (#[trigger] events[i]) is Progress,
    decreases events.len(),
{
    if events.len() > 0 {
        let init = events.drop_last();
        a_move_ends_by_being_told(init);
        let n = events.len() - 1;
        if moving::end_among(events) is None {
            assert forall|i: int| 0 <= i < events.len() implies (#[trigger] events[i]) is Progress by {
                if i < n {
                    assert(init[i] == events[i]);
                }
            }
        } else if events[n] is Progress {
            let k = choose|k: int| 0 <= k < init.len() && !((#[trigger] init[k]) is Progress);
            assert(events[k] == init[k]);
        } else {
            assert(!(events[n] is Progress));
        }
    }
}

/// Progress in percent: none at the start, all at the end, and never less for more done.
pub proof fn progress_never_goes_back(less: u64, more: u64, total: u64)
    requires
        less <= more,
    ensures
        moving::percent_done(less, total) <= moving::percent_done(more, total),
        total > 0 ==> moving::percent_done(0, total) == 0,
        moving::percent_done(total, total) == 100,
{
    if total > 0 {
        vstd::arithmetic::div_mod::lemma_div_is_ordered(
            less as int * 100,
            more as int * 100,
            total as int,
        );
        assert(0int / total as int == 0) by (nonlinear_arith)
            requires
                total > 0,
        ;
        assert((total as int * 100) / total as int == 100) by (nonlinear_arith)
            requires
                total > 0,
        ;
    }
}

/// A disk that is to be grown is offered more than it has, by eight to nine gibibytes
/// once it has any.
pub proof fn growing_offers_more(apparent: u64)
    ensures
        moving::next_gib(apparent) * 1_073_741_824 >= apparent + 8 * 1_073_741_824,
        apparent > 0 ==> moving::next_gib(apparent) * 1_073_741_824 < apparent + 9 * 1_073_741_824,
        apparent == 0 ==> moving::next_gib(apparent) == 9,
{
}

/// A new disk stands exactly under a name that stands and with a size that can be read,
/// and it lies in the machine directory under that name.
pub proof fn a_new_disk_needs_a_name_and_a_size(
    host: Host,
    vm_dir: Seq<char>,
    name: Seq<char>,
    bytes: Result<u64, String>,
)
    ensures
        ManagerApp::create_disk_fault(name, bytes) is None <==> bytes is Ok
            && discovery::name_fault(text::trim_of(name)) is None,
        discovery::name_fault(text::trim_of(name)) is None ==> (bytes matches Err(e)
            ==> ManagerApp::create_disk_fault(name, bytes) == Some(e@)),
        storage::new_disk_at(host, vm_dir, name) == paths::joined(
            host,
            vm_dir,
            text::trim_of(name) + ".raw"@,
        ),
{
}

/// The name that a new disk is offered is the first number that is free.
pub proof fn the_first_free_disk_name_is_offered(from: nat, taken: Seq<bool>, n: nat)
    requires
        1 <= from <= n <= 99,
        forall|k: nat| from <= k < n ==> #[trigger] dialogs::told_of(taken, k - 1),
        !dialogs::told_of(taken, n - 1),
    ensures
        storage::disk_name_from(from, taken) == "disk-"@ + text::decimal_of(n),
    decreases n - from,
{
    if from < n {
        assert(dialogs::told_of(taken, from - 1));
        the_first_free_disk_name_is_offered(from + 1, taken, n);
    }
}

/// A disk can be attached exactly to a machine that was picked, is there and does not
/// run.
pub proof fn a_disk_is_attached_to_an_idle_machine(app: ManagerApp, selected: Option<String>)
    ensures
        app.attach_fault(selected) is None <==> {
            &&& selected is Some
            &&& forall|i: int|
                0 <= i < app.supervisor.tasks@.len() && (
                #[trigger] app.supervisor.tasks@[i]).vm@ == selected->0@
                    ==> app.supervisor.tasks@[i].state is Finished
            &&& exists|k: int|
                0 <= k < app.scan.vms@.len() && (#[trigger] app.scan.vms@[k]).name@
                    == selected->0@
        },
{
    if let Some(vm) = selected {
        starts::busy_means_an_unfinished_child(app.supervisor.tasks@, vm@);
        starts::a_name_stands_for_its_first_machine(app.scan.vms@, vm@);
    }
}

/// The machine that a disk is offered to has no such disk and does not run, and there is
/// none before it like that.
pub proof fn the_first_machine_that_can_take_it_is_offered(
    app: ManagerApp,
    attachments: Seq<DiskAttachment>,
    vms: Seq<VmEntry>,
    i: int,
)
    requires
        0 <= i < vms.len(),
        !storage::attached_to(attachments, vms[i].name@),
        !process::busy_in(app.supervisor.tasks@, vms[i].name@),
        forall|j: int|
            0 <= j < i ==> storage::attached_to(attachments, (#[trigger] vms[j]).name@)
                || process::busy_in(app.supervisor.tasks@, vms[j].name@),
    ensures
        app.first_attachable(attachments, vms) == Some(vms[i].name),
    decreases vms.len(),
{
    if i > 0 {
        let rest = vms.drop_first();
        assert(storage::attached_to(attachments, vms[0].name@) || process::busy_in(
            app.supervisor.tasks@,
            vms[0].name@,
        ));
        assert(rest[i - 1] == vms[i]);
        assert forall|j: int| 0 <= j < i - 1 implies storage::attached_to(
            attachments,
            (#[trigger] rest[j]).name@,
        ) || process::busy_in(app.supervisor.tasks@, rest[j].name@) by {
            assert(rest[j] == vms[j + 1]);
        }
        the_first_machine_that_can_take_it_is_offered(app, attachments, rest, i - 1);
    }
}

/// The files that are told as deleted are those that were there and went.
pub proof fn deleted_files_are_counted(results: Seq<Removal>)
    ensures
        storage::removed_count(results) == results.filter(|r: Removal| r is Removed).len(),
    decreases results.len(),
{
    reveal(Seq::filter);
    if results.len() > 0 {
        deleted_files_are_counted(results.drop_last());
    }
}

/// The size that growing starts from is eight gibibytes above the disk's own, rounded up.
pub proof fn growing_starts_eight_above(apparent: u64)
    ensures
        apparent > 0 ==> (moving::next_gib(apparent) - 8) * 0x4000_0000 >= apparent,
        apparent > 0 ==> (moving::next_gib(apparent) - 9) * 0x4000_0000 < apparent,
        apparent == 0 ==> moving::next_gib(apparent) == 9,
{
}

} // verus!
