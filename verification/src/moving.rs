//! Disks that are moved to another place or grown, and the places that are shown
//! or made on the way.
//!
//! A move copies many bytes, so it is done by a worker: [`MovePlan`] tells it what
//! to do, and the events that it sends are collected between two frames.
use crate::app;
use crate::discovery;
use crate::discovery::DiskAttachment;
use crate::host::Host;
use crate::paths;
use crate::state;
use crate::state::{
    Desk, ManagerApp, Modal, MoveDiskState, ResizeDiskState, ToastLevel, ToastView,
};
use crate::storage;
use crate::storage::DISK_BUSY;
use crate::text;
use vstd::prelude::*;

verus! {

pub const NO_DESTINATION: &'static str = "name a destination directory";

pub const GIB: u64 = 1_073_741_824;

// ---------------------------------------------------------------------------
// The worker
// ---------------------------------------------------------------------------

/// What a move worker is to do.
pub struct MovePlan {
    pub disk: String,
    /// Destination directory.
    pub dest: String,
    /// The profiles that name the disk and are rewritten, each once.
    pub profiles: Vec<String>,
}

/// What a finished move did.
pub struct MoveOutcome {
    /// The files that were moved, from where and to where.
    pub moved: Vec<(String, String)>,
    pub data_bytes: u64,
    pub updated_profiles: Vec<String>,
    /// Sources that were copied and could not be deleted.
    pub leftover_sources: Vec<String>,
}

/// What a move worker sends.
pub enum MoveEvent {
    /// Copied and total data bytes.
    Progress(u64, u64),
    Done(Result<MoveOutcome, String>),
}

/// How much of `total` is done, in whole percent. Nothing to do is all done.
pub open spec fn percent_done(done: u64, total: u64) -> nat {
    if total == 0 {
        100
    } else {
        (done as nat * 100) / total as nat
    }
}

/// Lets progress through only when the whole percent changes: a large image would
/// send a message for each block otherwise.
pub struct Throttle {
    pub last: Option<u64>,
}

impl Throttle {
    pub fn new() -> (r: Self)
        ensures
            r.last is None,
    {
        Throttle { last: None }
    }

    /// Whether this progress is to be told.
    pub fn tell(&mut self, done: u64, total: u64) -> (r: bool)
        requires
            done * 100 <= u64::MAX,
        ensures
            final(self).last == Some(percent_done(done, total) as u64),
            percent_done(done, total) <= u64::MAX,
            r == (old(self).last != final(self).last),
    {
        let percent: u64 = if total == 0 {
            100
        } else {
            (done * 100) / total
        };
        assert(total > 0 ==> (done * 100) / (total as int) <= done * 100) by (nonlinear_arith);
        let news = match self.last {
            Some(last) => last != percent,
            None => true,
        };
        self.last = Some(percent);
        news
    }
}

/// The last progress among the events, or the one before them.
pub open spec fn progress_after(events: Seq<MoveEvent>, before: Option<(u64, u64)>) -> Option<
    (u64, u64),
>
    decreases events.len(),
{
    if events.len() == 0 {
        before
    } else {
        match events.last() {
            MoveEvent::Progress(done, total) => Some((done, total)),
            MoveEvent::Done(_) => progress_after(events.drop_last(), before),
        }
    }
}

/// The last end among the events.
pub open spec fn end_among(events: Seq<MoveEvent>) -> Option<Result<MoveOutcome, String>>
    decreases events.len(),
{
    if events.len() == 0 {
        None
    } else {
        match events.last() {
            MoveEvent::Progress(_, _) => end_among(events.drop_last()),
            MoveEvent::Done(result) => Some(result),
        }
    }
}

fn last_progress(events: &Vec<MoveEvent>, before: Option<(u64, u64)>) -> (r: Option<(u64, u64)>)
    ensures
        r == progress_after(events@, before),
{
    let ghost all = events@;
    let mut n: usize = events.len();
    assert(all.take(n as int) =~= all);
    while n > 0
        invariant
            all == events@,
            n <= all.len(),
            progress_after(all, before) == progress_after(all.take(n as int), before),
        decreases n,
    {
        proof {
            assert(all.take(n as int).drop_last() =~= all.take(n - 1));
            assert(all.take(n as int).last() == all[n - 1]);
        }
        n = n - 1;
        if let MoveEvent::Progress(done, total) = &events[n] {
            return Some((*done, *total));
        }
    }
    before
}

fn last_end(events: &Vec<MoveEvent>) -> (r: Option<&Result<MoveOutcome, String>>)
    ensures
        match r {
            Some(result) => end_among(events@) == Some(*result),
            None => end_among(events@) is None,
        },
{
    let ghost all = events@;
    let mut n: usize = events.len();
    assert(all.take(n as int) =~= all);
    while n > 0
        invariant
            all == events@,
            n <= all.len(),
            end_among(all) == end_among(all.take(n as int)),
        decreases n,
    {
        proof {
            assert(all.take(n as int).drop_last() =~= all.take(n - 1));
            assert(all.take(n as int).last() == all[n - 1]);
        }
        n = n - 1;
        if let MoveEvent::Done(result) = &events[n] {
            return Some(result);
        }
    }
    None
}

// ---------------------------------------------------------------------------
// Moving a disk
// ---------------------------------------------------------------------------

/// One of the texts names the same path.
pub open spec fn among(host: Host, list: Seq<Seq<char>>, path: Seq<char>) -> bool {
    exists|i: int| 0 <= i < list.len() && paths::same_path(host, #[trigger] list[i], path)
}

/// The profiles that attach the disk, each once, in the order in which they are
/// first met.
pub open spec fn profiles_of(host: Host, attachments: Seq<DiskAttachment>) -> Seq<Seq<char>>
    decreases attachments.len(),
{
    if attachments.len() == 0 {
        Seq::empty()
    } else {
        let init = profiles_of(host, attachments.drop_last());
        let last = attachments.last().profile@;
        if among(host, init, last) {
            init
        } else {
            init.push(last)
        }
    }
}

/// Whether one of the texts names the same path.
pub fn is_among(host: Host, list: &Vec<String>, path: &str) -> (r: bool)
    ensures
        r == among(host, text::texts(list@), path@),
{
    let ghost shown = text::texts(list@);
    let mut i: usize = 0;
    while i < list.len()
        invariant
            i <= list@.len(),
            shown == text::texts(list@),
            forall|j: int| 0 <= j < i ==> !paths::same_path(host, #[trigger] shown[j], path@),
        decreases list@.len() - i,
    {
        assert(shown[i as int] == list@[i as int]@);
        if paths::same(host, &list[i], path) {
            return true;
        }
        i = i + 1;
    }
    false
}

fn distinct_profiles(host: Host, attachments: &Vec<DiskAttachment>) -> (r: Vec<String>)
    ensures
        text::texts(r@) == profiles_of(host, attachments@),
{
    let ghost all = attachments@;
    let mut r: Vec<String> = Vec::new();
    let mut i: usize = 0;
    proof {
        assert(all.take(0) =~= Seq::<DiskAttachment>::empty());
        assert(text::texts(r@) =~= profiles_of(host, all.take(0)));
    }
    while i < attachments.len()
        invariant
            all == attachments@,
            i <= all.len(),
            text::texts(r@) == profiles_of(host, all.take(i as int)),
        decreases all.len() - i,
    {
        proof {
            assert(all.take(i + 1).drop_last() =~= all.take(i as int));
            assert(all.take(i + 1).last() == all[i as int]);
        }
        if !is_among(host, &r, &attachments[i].profile) {
            let ghost shown = text::texts(r@);
            r.push(attachments[i].profile.clone());
            assert(text::texts(r@) =~= shown.push(all[i as int].profile@));
        }
        i = i + 1;
    }
    assert(all.take(i as int) =~= all);
    r
}

/// No profile is rewritten twice for one move, and every profile that attaches
/// the disk is rewritten.
pub proof fn each_profile_is_rewritten_once(host: Host, attachments: Seq<DiskAttachment>)
    ensures
        forall|i: int, j: int|
            0 <= i < j < profiles_of(host, attachments).len() ==> !paths::same_path(
                host,
                #[trigger] profiles_of(host, attachments)[i],
                #[trigger] profiles_of(host, attachments)[j],
            ),
        forall|k: int|
            0 <= k < attachments.len() ==> among(
                host,
                profiles_of(host, attachments),
                #[trigger] attachments[k].profile@,
            ),
    decreases attachments.len(),
{
    if attachments.len() > 0 {
        let rest = attachments.drop_last();
        each_profile_is_rewritten_once(host, rest);
        let init = profiles_of(host, rest);
        let all = profiles_of(host, attachments);
        let last = attachments.last().profile@;
        assert forall|k: int| 0 <= k < attachments.len() implies among(
            host,
            all,
            #[trigger] attachments[k].profile@,
        ) by {
            if k < rest.len() {
                assert(rest[k] == attachments[k]);
                assert(among(host, init, rest[k].profile@));
                let i = choose|i: int|
                    0 <= i < init.len() && paths::same_path(
                        host,
                        #[trigger] init[i],
                        rest[k].profile@,
                    );
                assert(all[i] == init[i]);
            } else if !among(host, init, last) {
                assert(all[init.len() as int] == last);
            }
        }
    }
}

/// What a finished move tells.
pub open spec fn moved_text(outcome: MoveOutcome) -> Seq<char> {
    let place = if outcome.moved@.len() > 0 {
        outcome.moved@[0].1@
    } else {
        Seq::empty()
    };
    let base = "moved "@ + place + " — "@ + discovery::bytes_shown(outcome.data_bytes as nat)
        + " of data copied and verified"@;
    if outcome.updated_profiles@.len() > 0 {
        base + "; "@ + text::decimal_of(outcome.updated_profiles@.len()) + " profile(s) updated"@
    } else {
        base
    }
}

fn moved_message(outcome: &MoveOutcome) -> (r: String)
    ensures
        r@ == moved_text(*outcome),
{
    let place = if outcome.moved.len() > 0 {
        outcome.moved[0].1.clone()
    } else {
        String::new()
    };
    let base = text::cat5(
        "moved ",
        &place,
        " — ",
        &discovery::format_bytes(outcome.data_bytes),
        " of data copied and verified",
    );
    if outcome.updated_profiles.len() > 0 {
        text::cat4(
            &base,
            "; ",
            &text::decimal(outcome.updated_profiles.len() as u64),
            " profile(s) updated",
        )
    } else {
        base
    }
}

/// What is told of a source that could not be deleted.
pub open spec fn leftover_text(source: Seq<char>) -> Seq<char> {
    "could not delete the source "@ + source
        + " — the verified copy is in place, remove the leftover by hand"@
}

/// The messages about the sources that could not be deleted.
pub open spec fn leftovers(sources: Seq<String>) -> Seq<ToastView> {
    Seq::new(
        sources.len(),
        |i: int| state::fresh(ToastLevel::Warn, leftover_text(sources[i]@)),
    )
}

impl Desk {
    /// Tells which sources could not be deleted.
    fn tell_leftovers(&mut self, sources: &Vec<String>)
        ensures
            final(self).told() == old(self).told() + leftovers(sources@),
            *final(self) == (Desk { toasts: final(self).toasts, ..*old(self) }),
    {
        let ghost before = self.told();
        let ghost all = leftovers(sources@);
        let mut i: usize = 0;
        assert(before + all.take(0) =~= before);
        while i < sources.len()
            invariant
                i <= sources@.len(),
                all == leftovers(sources@),
                self.told() == before + all.take(i as int),
                *self == (Desk { toasts: self.toasts, ..*old(self) }),
            decreases sources@.len() - i,
        {
            let ghost shown = self.told();
            self.toast(
                ToastLevel::Warn,
                text::cat3(
                    "could not delete the source ",
                    &sources[i],
                    " — the verified copy is in place, remove the leftover by hand",
                ),
            );
            assert(self.told() =~= before + all.take(i + 1)) by {
                assert(all.take(i + 1) =~= all.take(i as int).push(all[i as int]));
            }
            i = i + 1;
        }
        assert(all.take(i as int) =~= all);
    }
}

/// What asking where a disk is to be moved does.
pub open spec fn move_asked(before: ManagerApp, after: ManagerApp, path: Seq<char>) -> bool {
    match before.disk_refusal(path) {
        Some((level, m)) => app::told_one(before, after, level, m),
        None => {
            &&& after.desk.modal matches Modal::MoveDisk(s) && storage::same_row(
                before.spec_disk(path)->0,
                s.row,
            ) && s.dest@.len() == 0 && s.error is None && s.progress is None && !s.running
            &&& app::only_modal(before, after)
        },
    }
}

impl ManagerApp {
    /// Opens the dialog that moves a disk, unless a machine that uses it is busy.
    pub fn ask_move_disk(&mut self, path: &str)
        requires
            old(self).wf(),
        ensures
            move_asked(*old(self), *final(self), path@),
    {
        if let Some(row) = self.free_disk(path) {
            self.desk.modal = Modal::MoveDisk(
                MoveDiskState {
                    row,
                    dest: String::new(),
                    error: None,
                    progress: None,
                    running: false,
                },
            );
        }
    }

    /// Why the move of the open dialog is refused, if it is.
    pub open spec fn move_fault(self, s: MoveDiskState) -> Option<Seq<char>> {
        if text::trim_of(s.dest@).len() == 0 {
            Some(NO_DESTINATION@)
        } else if self.spec_disk_busy(s.row) {
            Some(DISK_BUSY@)
        } else {
            None
        }
    }

    /// Checks the open dialog and tells what a worker is to do. While one runs,
    /// nothing happens.
    pub fn submit_move_disk(&mut self) -> (r: Option<MovePlan>)
        requires
            old(self).wf(),
        ensures
            match old(self).desk.modal {
                Modal::MoveDisk(s) => if s.running {
                    r is None && *final(self) == *old(self)
                } else {
                    match old(self).move_fault(s) {
                        Some(m) => r is None && app::faulted_only(*old(self), *final(self), m),
                        None => {
                            &&& *final(self) == *old(self)
                            &&& r matches Some(plan) && plan.disk == s.row.path && plan.dest@
                                == text::trim_of(s.dest@) && text::texts(plan.profiles@)
                                == profiles_of(old(self).host, s.row.attachments@)
                        },
                    }
                },
                _ => r is None && *final(self) == *old(self),
            },
    {
        let (running, dest, busy) = match &self.desk.modal {
            Modal::MoveDisk(s) => (s.running, text::trim(&s.dest), self.disk_busy(&s.row)),
            _ => return None,
        };
        if running {
            return None;
        }
        if dest.as_str().is_empty() {
            self.desk.modal.fail(NO_DESTINATION.to_owned());
            return None;
        }
        if busy {
            self.desk.modal.fail(DISK_BUSY.to_owned());
            return None;
        }
        match &self.desk.modal {
            Modal::MoveDisk(s) => Some(
                MovePlan {
                    disk: s.row.path.clone(),
                    dest,
                    profiles: distinct_profiles(self.host, &s.row.attachments),
                },
            ),
            _ => None,
        }
    }

    /// Takes whether the worker of a move could be started.
    pub fn move_started(&mut self, started: Result<(), String>)
        ensures
            match old(self).desk.modal {
                Modal::MoveDisk(s) => match started {
                    Ok(()) => {
                        &&& final(self).desk.modal == Modal::MoveDisk(
                            (MoveDiskState {
                                running: true,
                                error: None,
                                progress: Some((0, 0)),
                                ..s
                            }),
                        )
                        &&& app::only_modal(*old(self), *final(self))
                    },
                    Err(e) => app::faulted_only(
                        *old(self),
                        *final(self),
                        "cannot start the move worker: "@ + e@,
                    ),
                },
                _ => *final(self) == *old(self),
            },
    {
        match started {
            Ok(()) => if let Modal::MoveDisk(s) = &mut self.desk.modal {
                s.running = true;
                s.error = None;
                s.progress = Some((0, 0));
            },
            Err(e) => if let Modal::MoveDisk(_) = &self.desk.modal {
                self.desk.modal.fail(text::cat("cannot start the move worker: ", &e));
            },
        }
    }

    /// Takes what the worker of the running move sent since the last time.
    pub fn collect_move_events(&mut self, events: &Vec<MoveEvent>)
        ensures
            match old(self).desk.modal {
                Modal::MoveDisk(s) => if !s.running {
                    *final(self) == *old(self)
                } else {
                    match end_among(events@) {
                        None => {
                            &&& final(self).desk.modal == Modal::MoveDisk(
                                (MoveDiskState {
                                    progress: progress_after(events@, s.progress),
                                    ..s
                                }),
                            )
                            &&& app::only_modal(*old(self), *final(self))
                        },
                        Some(Ok(outcome)) => {
                            &&& final(self).desk.modal is Closed
                            &&& final(self).told() == old(self).told().push(
                                state::fresh(ToastLevel::Success, moved_text(outcome)),
                            ) + leftovers(outcome.leftover_sources@)
                            &&& app::rescanned(
                                *old(self),
                                old(self).desk.requests@,
                                *final(self),
                                true,
                            )
                            &&& app::kept(*old(self), *final(self))
                        },
                        Some(Err(e)) => {
                            &&& final(self).desk.modal == Modal::MoveDisk(
                                (MoveDiskState {
                                    running: false,
                                    progress: None,
                                    error: Some(e),
                                    ..s
                                }),
                            )
                            &&& app::only_modal(*old(self), *final(self))
                        },
                    }
                },
                _ => *final(self) == *old(self),
            },
    {
        match &self.desk.modal {
            Modal::MoveDisk(s) => if !s.running {
                return;
            },
            _ => return,
        }
        match last_end(events) {
            None => if let Modal::MoveDisk(s) = &mut self.desk.modal {
                let progress = last_progress(events, s.progress);
                s.progress = progress;
            },
            Some(Ok(outcome)) => {
                self.desk.modal = Modal::Closed;
                self.toast(ToastLevel::Success, moved_message(outcome));
                self.desk.tell_leftovers(&outcome.leftover_sources);
                self.request_scan(true);
            },
            Some(Err(e)) => if let Modal::MoveDisk(s) = &mut self.desk.modal {
                s.running = false;
                s.progress = None;
                s.error = Some(e.clone());
            },
        }
    }
}

// ---------------------------------------------------------------------------
// Growing a disk
// ---------------------------------------------------------------------------

/// The size in gibibytes that the dialog starts with: what the disk has, rounded
/// up, and some more.
pub open spec fn next_gib(apparent: u64) -> nat {
    let whole = (apparent as nat + GIB as nat - 1) as nat / GIB as nat;
    (if whole < 1 {
        1
    } else {
        whole
    }) + 8
}

/// What asking how far a disk is to be grown does.
pub open spec fn resize_asked(before: ManagerApp, after: ManagerApp, path: Seq<char>) -> bool {
    match before.disk_refusal(path) {
        Some((level, m)) => app::told_one(before, after, level, m),
        None => {
            &&& after.desk.modal matches Modal::ResizeDisk(s) && storage::same_row(
                before.spec_disk(path)->0,
                s.row,
            ) && s.error is None && s.size@ == text::decimal_of(
                next_gib(before.spec_disk(path)->0.apparent_bytes),
            ) + "G"@
            &&& app::only_modal(before, after)
        },
    }
}

impl ManagerApp {
    /// Opens the dialog that grows a disk, unless a machine that uses it is busy.
    pub fn ask_resize_disk(&mut self, path: &str)
        requires
            old(self).wf(),
        ensures
            resize_asked(*old(self), *final(self), path@),
    {
        if let Some(row) = self.free_disk(path) {
            let whole: u64 = row.apparent_bytes / GIB + if row.apparent_bytes % GIB > 0 {
                1u64
            } else {
                0u64
            };
            let next: u64 = if whole < 1 {
                9
            } else {
                whole + 8
            };
            self.desk.modal = Modal::ResizeDisk(
                ResizeDiskState { row, size: text::cat(&text::decimal(next), "G"), error: None },
            );
        }
    }

    /// Why the disk of the open dialog is not grown, if it is not.
    pub open spec fn resize_fault(self, s: ResizeDiskState, bytes: Result<u64, String>) -> Option<
        Seq<char>,
    > {
        if self.spec_disk_busy(s.row) {
            Some(DISK_BUSY@)
        } else {
            match bytes {
                Ok(_) => None,
                Err(e) => Some(e@),
            }
        }
    }

    /// The disk to be grown, unless that is refused. `bytes` is what the typed size
    /// denotes.
    pub fn disk_to_resize(&self, bytes: &Result<u64, String>) -> (r: Option<String>)
        requires
            self.wf(),
        ensures
            r == match self.desk.modal {
                Modal::ResizeDisk(s) => if self.resize_fault(s, *bytes) is None {
                    Some(s.row.path)
                } else {
                    None
                },
                _ => None,
            },
    {
        match &self.desk.modal {
            Modal::ResizeDisk(s) => if self.disk_busy(&s.row) || bytes.is_err() {
                None
            } else {
                Some(s.row.path.clone())
            },
            _ => None,
        }
    }

    /// Takes what growing the disk gave: its new size and the one before.
    pub fn submit_resize_disk(
        &mut self,
        bytes: Result<u64, String>,
        resized: Result<(u64, u64), String>,
    )
        requires
            old(self).wf(),
        ensures
            match old(self).desk.modal {
                Modal::ResizeDisk(s) => match (old(self).resize_fault(s, bytes), resized) {
                    (Some(m), _) => app::faulted_only(*old(self), *final(self), m),
                    (None, Err(e)) => app::faulted_only(*old(self), *final(self), e@),
                    (None, Ok((now, before))) => app::concluded(
                        *old(self),
                        *final(self),
                        ToastLevel::Success,
                        s.row.path@ + " is now "@ + discovery::bytes_shown(now as nat) + " (was "@
                            + discovery::bytes_shown(before as nat)
                            + ") — grow the filesystem inside the guest to use it"@,
                    ),
                },
                _ => *final(self) == *old(self),
            },
    {
        let (busy, path) = match &self.desk.modal {
            Modal::ResizeDisk(s) => (self.disk_busy(&s.row), s.row.path.clone()),
            _ => return,
        };
        if busy {
            self.desk.modal.fail(DISK_BUSY.to_owned());
            return;
        }
        if let Err(e) = bytes {
            self.desk.modal.fail(e);
            return;
        }
        match resized {
            Ok((now, before)) => {
                let sizes = text::cat4(
                    " is now ",
                    &discovery::format_bytes(now),
                    " (was ",
                    &discovery::format_bytes(before),
                );
                let message = text::cat3(
                    &path,
                    &sizes,
                    ") — grow the filesystem inside the guest to use it",
                );
                assert(message@ =~= path@ + " is now "@ + discovery::bytes_shown(now as nat)
                    + " (was "@ + discovery::bytes_shown(before as nat)
                    + ") — grow the filesystem inside the guest to use it"@);
                self.conclude(ToastLevel::Success, message);
            },
            Err(e) => self.desk.modal.fail(e),
        }
    }
}

// ---------------------------------------------------------------------------
// Places
// ---------------------------------------------------------------------------

impl ManagerApp {
    /// Takes whether the file manager could be opened.
    pub fn revealed(&mut self, opened: Result<(), String>)
        ensures
            match opened {
                Ok(()) => *final(self) == *old(self),
                Err(e) => app::told_one(
                    *old(self),
                    *final(self),
                    ToastLevel::Error,
                    "cannot open the file manager: "@ + e@,
                ),
            },
    {
        if let Err(e) = opened {
            self.toast(ToastLevel::Error, text::cat("cannot open the file manager: ", &e));
        }
    }

    /// Takes what creating the machine directory gave.
    pub fn create_vm_dir(&mut self, created: Result<(), String>)
        ensures
            match created {
                Ok(()) => app::announced(
                    *old(self),
                    *final(self),
                    ToastLevel::Success,
                    "created "@ + old(self).settings.vm_dir@,
                ),
                Err(e) => app::told_one(
                    *old(self),
                    *final(self),
                    ToastLevel::Error,
                    "cannot create "@ + old(self).settings.vm_dir@ + ": "@ + e@,
                ),
            },
    {
        match created {
            Ok(()) => {
                let message = text::cat("created ", &self.settings.vm_dir);
                self.announce(ToastLevel::Success, message);
            },
            Err(e) => {
                let message = text::cat4("cannot create ", &self.settings.vm_dir, ": ", &e);
                self.toast(ToastLevel::Error, message);
            },
        }
    }
}

} // verus!
