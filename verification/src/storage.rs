//! Machines and disks that are deleted, edited, created, attached, moved and
//! grown.
//!
//! What touches the disk is done outside. Each operation takes what that gave,
//! and a question beside it tells whether it is to be tried at all.
use crate::app;
use crate::dialogs;
use crate::discovery;
use crate::discovery::{Byproducts, DeleteError, DiskAttachment, DiskRow, Removal, VmEntry};
use crate::editor;
use crate::editor::EditForm;
use crate::host::Host;
use crate::launching;
use crate::launching::GONE_FROM_DISK;
use crate::paths;
use crate::process;
use crate::profile::VmConfig;
use crate::settings::Settings;
use crate::state;
use crate::state::{
    AttachDiskState, CreateDiskState, DeleteDiskState, DeleteState, Desk, EditVmSection,
    EditVmState, ManagerApp, Modal, ToastLevel,
};
use crate::text;
use vstd::prelude::*;

verus! {

pub const DISK_GONE: &'static str = "that disk is gone from the list";
pub const DISK_BUSY: &'static str = "a VM using this disk is running — stop it first";
pub const DISK_ATTACHED: &'static str =
    "the disk is still attached to a VM profile — detach it there first";
pub const STOP_FIRST: &'static str = " is running — stop it first";

// ---------------------------------------------------------------------------
// Deleting a machine
// ---------------------------------------------------------------------------

impl ManagerApp {
    /// Asks whether a machine is to be deleted, unless it is busy. `there` tells
    /// which of its byproducts exist.
    pub fn ask_delete(&mut self, name: &str, there: Byproducts)
        requires
            old(self).wf(),
        ensures
            if old(self).spec_busy(name@) {
                app::told_one(
                    *old(self),
                    *final(self),
                    ToastLevel::Warn,
                    launching::about(name@, " is busy — stop it before deleting"@),
                )
            } else {
                match old(self).spec_vm(name@) {
                    None => app::told_one(
                        *old(self),
                        *final(self),
                        ToastLevel::Error,
                        launching::about(name@, GONE_FROM_DISK@),
                    ),
                    Some(vm) => {
                        &&& final(self).desk.modal matches Modal::Delete(s) && s.name@ == name@
                            && s.typed@.len() == 0 && s.error is None && text::texts(s.plan.remove@)
                            == discovery::removals_of(
                            old(self).host,
                            vm,
                            old(self).settings.vm_dir@,
                            there,
                        ) && text::texts(s.plan.kept_outside_vm_dir@) == discovery::disks_where(
                            old(self).host,
                            vm.disks@,
                            old(self).settings.vm_dir@,
                            false,
                        )
                        &&& app::only_modal(*old(self), *final(self))
                    },
                }
            },
    {
        if self.is_busy(name) {
            self.toast(
                ToastLevel::Warn,
                launching::say(name, " is busy — stop it before deleting"),
            );
            return;
        }
        let plan = match self.vm(name) {
            Some(vm) => discovery::plan_delete(self.host, vm, &self.settings.vm_dir, there),
            None => {
                self.toast(ToastLevel::Error, launching::say(name, GONE_FROM_DISK));
                return;
            },
        };
        self.desk.modal = Modal::Delete(
            DeleteState { name: name.to_owned(), typed: String::new(), plan, error: None },
        );
    }

    /// Why the confirmed deletion of a machine is refused, if it is: the machine
    /// runs, or another name was typed.
    pub open spec fn delete_fault(self, vm: VmEntry, typed: Seq<char>) -> Option<Seq<char>> {
        if process::busy_in(self.supervisor.tasks@, vm.name@) {
            Some(DeleteError::Busy(vm.name).spec_message())
        } else if text::trim_of(typed) != vm.name@ {
            Some(DeleteError::NameMismatch(vm.name).spec_message())
        } else {
            None
        }
    }

    /// The machine that the open confirmation is about, with what was typed.
    pub open spec fn doomed(self) -> Option<(VmEntry, Seq<char>)> {
        match self.desk.modal {
            Modal::Delete(s) => match self.spec_vm(s.name@) {
                Some(vm) => Some((vm, s.typed@)),
                None => None,
            },
            _ => None,
        }
    }

    /// The files that the confirmed deletion removes, unless it is refused.
    pub fn files_to_delete(&self, there: Byproducts) -> (r: Option<Vec<String>>)
        ensures
            match self.doomed() {
                Some((vm, typed)) => if self.delete_fault(vm, typed) is None {
                    r matches Some(files) && text::texts(files@) == discovery::removals_of(
                        self.host,
                        vm,
                        self.settings.vm_dir@,
                        there,
                    )
                } else {
                    r is None
                },
                None => r is None,
            },
    {
        match &self.desk.modal {
            Modal::Delete(s) => match self.vm(&s.name) {
                Some(vm) => {
                    proof {
                        launching::lemma_vm_name(self.scan.vms@, s.name@);
                    }
                    let busy = self.supervisor.is_busy(&s.name);
                    match discovery::delete(
                        self.host,
                        vm,
                        &self.settings.vm_dir,
                        there,
                        busy,
                        &s.typed,
                    ) {
                        Ok(plan) => Some(plan.remove),
                        Err(_) => None,
                    }
                },
                None => None,
            },
            _ => None,
        }
    }

    /// Takes what deleting [`ManagerApp::files_to_delete`] gave: one result for
    /// each file, in their order, up to the first failure. Nothing is tried for a
    /// deletion that is refused.
    pub fn confirm_delete(&mut self, there: Byproducts, results: &Vec<Removal>)
        requires
            old(self).wf(),
            old(self).doomed() matches Some((vm, typed)) ==> old(self).delete_fault(vm, typed) is None
                ==> discovery::covers(
                results@,
                discovery::removals_of(old(self).host, vm, old(self).settings.vm_dir@, there).len(),
            ),
        ensures
            match old(self).desk.modal {
                Modal::Delete(s) => match old(self).spec_vm(s.name@) {
                    None => app::told_one(
                        ManagerApp {
                            desk: Desk { modal: Modal::Closed, ..old(self).desk },
                            ..*old(self)
                        },
                        *final(self),
                        ToastLevel::Warn,
                        launching::about(s.name@, " is already gone"@),
                    ),
                    Some(vm) => match old(self).delete_fault(vm, s.typed@) {
                        Some(m) => app::faulted_only(*old(self), *final(self), m),
                        None => {
                            let files = discovery::removals_of(
                                old(self).host,
                                vm,
                                old(self).settings.vm_dir@,
                                there,
                            );
                            if all_removed(results@) {
                                app::concluded(
                                    *old(self),
                                    *final(self),
                                    ToastLevel::Success,
                                    "deleted "@ + state::quoted(s.name@) + " ("@ + text::decimal_of(
                                        removed_count(results@),
                                    ) + " files)"@,
                                )
                            } else {
                                exists|i: int| #[trigger]
                                    discovery::first_failure(results@, i) && app::faulted_only(
                                        *old(self),
                                        *final(self),
                                        remove_failed(files[i], results@[i]),
                                    )
                            }
                        },
                    },
                },
                _ => *final(self) == *old(self),
            },
    {
        let (name, typed) = match &self.desk.modal {
            Modal::Delete(s) => (s.name.clone(), s.typed.clone()),
            _ => return,
        };
        let busy = self.supervisor.is_busy(&name);
        let vm = match self.vm(&name) {
            Some(vm) => vm.clone(),
            None => {
                self.desk.modal = Modal::Closed;
                self.toast(ToastLevel::Warn, launching::say(&name, " is already gone"));
                return;
            },
        };
        let ghost seen = self.spec_vm(name@)->0;
        proof {
            launching::lemma_vm_name(self.scan.vms@, name@);
            assert(discovery::removals_of(self.host, vm, self.settings.vm_dir@, there)
                == discovery::removals_of(self.host, seen, self.settings.vm_dir@, there));
        }
        let plan = match discovery::delete(
            self.host,
            &vm,
            &self.settings.vm_dir,
            there,
            busy,
            &typed,
        ) {
            Ok(plan) => plan,
            Err(e) => {
                self.desk.modal.fail(e.message());
                return;
            },
        };
        let ghost files = text::texts(plan.remove@);
        assert(files.len() == plan.remove@.len());
        match discovery::deleted(&plan.remove, results) {
            Ok(removed) => {
                proof {
                    lemma_removed(plan.remove@, results@);
                }
                let count: u64 = removed.len() as u64;
                self.conclude(
                    ToastLevel::Success,
                    text::cat5(
                        "deleted ",
                        &state::quote(&name),
                        " (",
                        &text::decimal(count),
                        " files)",
                    ),
                );
            },
            Err(e) => {
                proof {
                    let i = choose|i: int| #[trigger]
                        discovery::first_failure(results@, i) && (
                        e matches DeleteError::Remove { path, source } && path == plan.remove@[i]
                            && results@[i] == Removal::Failed(source));
                    assert(files[i] == plan.remove@[i]@);
                    assert(e.spec_message() == remove_failed(files[i], results@[i]));
                }
                self.desk.modal.fail(e.message());
            },
        }
    }
}

/// No removal failed.
pub open spec fn all_removed(results: Seq<Removal>) -> bool {
    forall|i: int| 0 <= i < results.len() ==> !(#[trigger] results[i] is Failed)
}

/// How many files were there and are gone.
pub open spec fn removed_count(results: Seq<Removal>) -> nat
    decreases results.len(),
{
    if results.len() == 0 {
        0
    } else {
        removed_count(results.drop_last()) + (if results.last() is Removed {
            1nat
        } else {
            0nat
        })
    }
}

/// Why a file could not be removed.
pub open spec fn remove_failed(path: Seq<char>, result: Removal) -> Seq<char> {
    match result {
        Removal::Failed(source) => "cannot remove "@ + path + ": "@ + source@,
        _ => Seq::empty(),
    }
}

proof fn lemma_removed(paths: Seq<String>, results: Seq<Removal>)
    requires
        results.len() <= paths.len(),
    ensures
        discovery::removed_of(paths, results).len() == removed_count(results),
    decreases results.len(),
{
    if results.len() > 0 {
        lemma_removed(paths, results.drop_last());
    }
}

// ---------------------------------------------------------------------------
// Creating a disk
// ---------------------------------------------------------------------------

/// The first free disk name from number `n` on, or the first one of all.
pub open spec fn disk_name_from(n: nat, taken: Seq<bool>) -> Seq<char>
    decreases 100 - n,
{
    if n > 99 {
        "disk-1"@
    } else if !dialogs::told_of(taken, n - 1) {
        "disk-"@ + text::decimal_of(n)
    } else {
        disk_name_from(n + 1, taken)
    }
}

fn free_disk_name(taken: &Vec<bool>) -> (r: String)
    ensures
        r@ == disk_name_from(1, taken@),
{
    let mut n: u64 = 1;
    while n <= 99
        invariant
            1 <= n <= 100,
            disk_name_from(1, taken@) == disk_name_from(n as nat, taken@),
        decreases 100 - n,
    {
        let i: usize = (n - 1) as usize;
        if !(i < taken.len() && taken[i]) {
            return text::cat("disk-", &text::decimal(n));
        }
        n = n + 1;
    }
    "disk-1".to_owned()
}

/// Where a disk of that name is created.
pub open spec fn new_disk_at(host: Host, vm_dir: Seq<char>, name: Seq<char>) -> Seq<char> {
    paths::joined(host, vm_dir, text::trim_of(name) + ".raw"@)
}

impl ManagerApp {
    /// Opens the dialog for a new disk. `taken` tells which of the numbered names
    /// have a file in the machine directory.
    pub fn open_create_disk(&mut self, taken: &Vec<bool>)
        ensures
            final(self).desk.modal matches Modal::CreateDisk(s) && s.name@ == disk_name_from(
                1,
                taken@,
            ) && s.size@ == text::decimal_of(old(self).settings.default_disk_gib as nat) + "G"@
                && s.error is None,
            app::only_modal(*old(self), *final(self)),
    {
        let size = text::cat(&text::decimal(self.settings.default_disk_gib), "G");
        self.desk.modal = Modal::CreateDisk(
            CreateDiskState { name: free_disk_name(taken), size, error: None },
        );
    }

    /// Why a disk cannot be created as typed, if it cannot.
    pub open spec fn create_disk_fault(name: Seq<char>, bytes: Result<u64, String>) -> Option<
        Seq<char>,
    > {
        match discovery::name_fault(text::trim_of(name)) {
            Some(m) => Some(m),
            None => match bytes {
                Ok(_) => None,
                Err(e) => Some(e@),
            },
        }
    }

    /// The file that the dialog would create, if what was typed stands. `bytes` is
    /// what the typed size denotes.
    pub fn disk_to_create(&self, bytes: &Result<u64, String>) -> (r: Option<String>)
        ensures
            match self.desk.modal {
                Modal::CreateDisk(s) => if Self::create_disk_fault(s.name@, *bytes) is None {
                    r matches Some(path) && path@ == new_disk_at(
                        self.host,
                        self.settings.vm_dir@,
                        s.name@,
                    )
                } else {
                    r is None
                },
                _ => r is None,
            },
    {
        match &self.desk.modal {
            Modal::CreateDisk(s) => {
                let name = text::trim(&s.name);
                if discovery::validate_name(&name).is_err() || bytes.is_err() {
                    return None;
                }
                Some(paths::join(self.host, &self.settings.vm_dir, &text::cat(&name, ".raw")))
            },
            _ => None,
        }
    }

    /// Takes what creating the disk gave. `made_dir` is what creating the machine
    /// directory gave, and `created` the file itself.
    pub fn submit_create_disk(
        &mut self,
        bytes: Result<u64, String>,
        made_dir: Result<(), String>,
        created: Result<(), String>,
    )
        ensures
            match old(self).desk.modal {
                Modal::CreateDisk(s) => match Self::create_disk_fault(s.name@, bytes) {
                    Some(m) => app::faulted_only(*old(self), *final(self), m),
                    None => match (made_dir, created) {
                        (Err(e), _) => app::faulted_only(
                            *old(self),
                            *final(self),
                            "cannot create "@ + old(self).settings.vm_dir@ + ": "@ + e@,
                        ),
                        (Ok(()), Err(e)) => app::faulted_only(*old(self), *final(self), e@),
                        (Ok(()), Ok(())) => app::concluded(
                            *old(self),
                            *final(self),
                            ToastLevel::Success,
                            "created "@ + new_disk_at(
                                old(self).host,
                                old(self).settings.vm_dir@,
                                s.name@,
                            ) + " ("@ + discovery::bytes_shown(bytes->Ok_0 as nat) + ", sparse)"@,
                        ),
                    },
                },
                _ => *final(self) == *old(self),
            },
    {
        let name = match &self.desk.modal {
            Modal::CreateDisk(s) => text::trim(&s.name),
            _ => return,
        };
        if let Err(e) = discovery::validate_name(&name) {
            self.desk.modal.fail(e);
            return;
        }
        let size: u64 = match bytes {
            Ok(size) => size,
            Err(e) => {
                self.desk.modal.fail(e);
                return;
            },
        };
        if let Err(e) = made_dir {
            let message = text::cat4("cannot create ", &self.settings.vm_dir, ": ", &e);
            self.desk.modal.fail(message);
            return;
        }
        if let Err(e) = created {
            self.desk.modal.fail(e);
            return;
        }
        let path = paths::join(self.host, &self.settings.vm_dir, &text::cat(&name, ".raw"));
        self.conclude(
            ToastLevel::Success,
            text::cat5("created ", &path, " (", &discovery::format_bytes(size), ", sparse)"),
        );
    }
}

// ---------------------------------------------------------------------------
// One disk
// ---------------------------------------------------------------------------

/// Two rows that say the same.
pub open spec fn same_row(a: DiskRow, b: DiskRow) -> bool {
    b == (DiskRow { attachments: b.attachments, ..a }) && b.attachments@ == a.attachments@
}

/// What asking whether a disk is to be deleted does.
pub open spec fn disk_deletion_asked(before: ManagerApp, after: ManagerApp, path: Seq<char>) -> bool {
    match before.disk_refusal(path) {
        Some((level, m)) => app::told_one(before, after, level, m),
        None => {
            &&& after.desk.modal matches Modal::DeleteDisk(s) && s.error is None
                && same_row(before.spec_disk(path)->0, s.row)
            &&& app::only_modal(before, after)
        },
    }
}

impl ManagerApp {
    /// Why nothing may be asked about a disk, if so.
    pub open spec fn disk_refusal(self, path: Seq<char>) -> Option<(ToastLevel, Seq<char>)> {
        match self.spec_disk(path) {
            None => Some((ToastLevel::Error, DISK_GONE@)),
            Some(row) => if self.spec_disk_busy(row) {
                Some((ToastLevel::Warn, DISK_BUSY@))
            } else {
                None
            },
        }
    }

    /// The row of a disk that may be changed, or a message.
    pub(crate) fn free_disk(&mut self, path: &str) -> (r: Option<DiskRow>)
        requires
            old(self).wf(),
        ensures
            match old(self).disk_refusal(path@) {
                Some((level, m)) => r is None && app::told_one(*old(self), *final(self), level, m),
                None => {
                    &&& *final(self) == *old(self)
                    &&& r matches Some(row) && same_row(old(self).spec_disk(path@)->0, row)
                },
            },
    {
        let row = match self.disk_row(path) {
            Some(row) => row.clone(),
            None => {
                self.toast(ToastLevel::Error, DISK_GONE.to_owned());
                return None;
            },
        };
        proof {
            lemma_busy_row(*self, self.spec_disk(path@)->0, row);
        }
        if self.disk_busy(&row) {
            self.toast(ToastLevel::Warn, DISK_BUSY.to_owned());
            return None;
        }
        Some(row)
    }

    /// Asks whether a disk is to be deleted, unless a machine that uses it is
    /// busy.
    pub fn ask_delete_disk(&mut self, path: &str)
        requires
            old(self).wf(),
        ensures
            disk_deletion_asked(*old(self), *final(self), path@),
    {
        if let Some(row) = self.free_disk(path) {
            self.desk.modal = Modal::DeleteDisk(DeleteDiskState { row, error: None });
        }
    }

    /// Why the confirmed deletion of a disk is refused, if it is.
    pub open spec fn delete_disk_fault(self, row: DiskRow) -> Option<Seq<char>> {
        if self.spec_disk_busy(row) {
            Some(DISK_BUSY@)
        } else if row.attachments@.len() > 0 {
            Some(DISK_ATTACHED@)
        } else {
            None
        }
    }

    /// The disk that the confirmed deletion removes, unless it is refused.
    pub fn disk_to_delete(&self) -> (r: Option<String>)
        requires
            self.wf(),
        ensures
            r == match self.desk.modal {
                Modal::DeleteDisk(s) => if self.delete_disk_fault(s.row) is None {
                    Some(s.row.path)
                } else {
                    None
                },
                _ => None,
            },
    {
        match &self.desk.modal {
            Modal::DeleteDisk(s) => if self.disk_busy(&s.row) || s.row.attachments.len() > 0 {
                None
            } else {
                Some(s.row.path.clone())
            },
            _ => None,
        }
    }

    /// Takes what deleting the disk gave: how many files went, which is more than
    /// one when its variable store went too.
    pub fn confirm_delete_disk(&mut self, removed: Result<usize, String>)
        requires
            old(self).wf(),
        ensures
            match old(self).desk.modal {
                Modal::DeleteDisk(s) => match (old(self).delete_disk_fault(s.row), removed) {
                    (Some(m), _) => app::faulted_only(*old(self), *final(self), m),
                    (None, Err(e)) => app::faulted_only(*old(self), *final(self), e@),
                    (None, Ok(n)) => app::concluded(
                        *old(self),
                        *final(self),
                        ToastLevel::Success,
                        "deleted "@ + s.row.path@ + (if n > 1 {
                            " and its .nvram sidecar"@
                        } else {
                            ""@
                        }),
                    ),
                },
                _ => *final(self) == *old(self),
            },
    {
        let (busy, attached, path) = match &self.desk.modal {
            Modal::DeleteDisk(s) => (
                self.disk_busy(&s.row),
                s.row.attachments.len() > 0,
                s.row.path.clone(),
            ),
            _ => return,
        };
        if busy {
            self.desk.modal.fail(DISK_BUSY.to_owned());
            return;
        }
        if attached {
            self.desk.modal.fail(DISK_ATTACHED.to_owned());
            return;
        }
        match removed {
            Ok(n) => {
                let tail = if n > 1 {
                    " and its .nvram sidecar"
                } else {
                    ""
                };
                self.conclude(ToastLevel::Success, text::cat3("deleted ", &path, tail));
            },
            Err(e) => self.desk.modal.fail(e),
        }
    }
}

/// Rows that say the same are as busy.
proof fn lemma_busy_row(app: ManagerApp, a: DiskRow, b: DiskRow)
    requires
        same_row(a, b),
    ensures
        app.spec_disk_busy(a) == app.spec_disk_busy(b),
{
}

// ---------------------------------------------------------------------------
// Attaching and detaching
// ---------------------------------------------------------------------------

/// The disk is attached to that machine.
pub open spec fn attached_to(attachments: Seq<DiskAttachment>, vm: Seq<char>) -> bool {
    exists|i: int| 0 <= i < attachments.len() && (#[trigger] attachments[i]).vm@ == vm
}

/// Whether the disk is attached to that machine.
pub fn is_attached(attachments: &Vec<DiskAttachment>, vm: &str) -> (r: bool)
    ensures
        r == attached_to(attachments@, vm@),
{
    let mut i: usize = 0;
    while i < attachments.len()
        invariant
            i <= attachments@.len(),
            forall|j: int| 0 <= j < i ==> (#[trigger] attachments@[j]).vm@ != vm@,
        decreases attachments@.len() - i,
    {
        if text::same(&attachments[i].vm, vm) {
            assert(attachments@[i as int].vm@ == vm@);
            return true;
        }
        i = i + 1;
    }
    false
}

/// What asking which machine a disk is to be attached to does.
pub open spec fn attach_asked(before: ManagerApp, after: ManagerApp, path: Seq<char>) -> bool {
    match before.spec_disk(path) {
        None => app::told_one(before, after, ToastLevel::Error, DISK_GONE@),
        Some(row) => {
            &&& after.desk.modal matches Modal::AttachDisk(s) && s.disk@ == path
                && s.error is None && s.selected == before.first_attachable(
                row.attachments@,
                before.scan.vms@,
            )
            &&& app::only_modal(before, after)
        },
    }
}

impl ManagerApp {
    /// A machine that a disk could be attached to: stopped, and without it.
    pub open spec fn attachable(self, attachments: Seq<DiskAttachment>, vm: VmEntry) -> bool {
        !attached_to(attachments, vm.name@) && !process::busy_in(self.supervisor.tasks@, vm.name@)
    }

    /// The first machine that a disk could be attached to.
    pub open spec fn first_attachable(
        self,
        attachments: Seq<DiskAttachment>,
        vms: Seq<VmEntry>,
    ) -> Option<String>
        decreases vms.len(),
    {
        if vms.len() == 0 {
            None
        } else if self.attachable(attachments, vms[0]) {
            Some(vms[0].name)
        } else {
            self.first_attachable(attachments, vms.drop_first())
        }
    }

    fn first_free_vm(&self, attachments: &Vec<DiskAttachment>) -> (r: Option<String>)
        ensures
            r == self.first_attachable(attachments@, self.scan.vms@),
    {
        let ghost all = self.scan.vms@;
        let mut i: usize = 0;
        assert(all.skip(0) =~= all);
        while i < self.scan.vms.len()
            invariant
                all == self.scan.vms@,
                i <= all.len(),
                self.first_attachable(attachments@, all) == self.first_attachable(
                    attachments@,
                    all.skip(i as int),
                ),
            decreases all.len() - i,
        {
            proof {
                assert(all.skip(i as int).drop_first() =~= all.skip(i + 1));
                assert(all.skip(i as int)[0] == all[i as int]);
            }
            let name = &self.scan.vms[i].name;
            if !is_attached(attachments, name) && !self.supervisor.is_busy(name) {
                return Some(name.clone());
            }
            i = i + 1;
        }
        None
    }

    /// Opens the dialog that attaches a disk, with the first machine selected
    /// that could take it.
    pub fn open_attach_disk(&mut self, path: &str)
        ensures
            attach_asked(*old(self), *final(self), path@),
    {
        let selected = match self.disk_row(path) {
            Some(row) => self.first_free_vm(&row.attachments),
            None => {
                self.toast(ToastLevel::Error, DISK_GONE.to_owned());
                return;
            },
        };
        self.desk.modal = Modal::AttachDisk(
            AttachDiskState { disk: path.to_owned(), selected, error: None },
        );
    }

    /// Why the disk of the open dialog cannot be attached, if it cannot.
    pub open spec fn attach_fault(self, selected: Option<String>) -> Option<Seq<char>> {
        match selected {
            None => Some("pick a machine to attach to"@),
            Some(vm) => if process::busy_in(self.supervisor.tasks@, vm@) {
                Some(launching::about(vm@, STOP_FIRST@))
            } else if self.spec_vm(vm@) is None {
                Some(launching::about(vm@, GONE_FROM_DISK@))
            } else {
                None
            },
        }
    }

    fn refuse_attach(&self, selected: &Option<String>) -> (r: Option<String>)
        ensures
            text::opt_text(r) == self.attach_fault(*selected),
    {
        match selected {
            None => Some("pick a machine to attach to".to_owned()),
            Some(vm) => if self.supervisor.is_busy(vm) {
                Some(launching::say(vm, STOP_FIRST))
            } else if self.vm(vm).is_none() {
                Some(launching::say(vm, GONE_FROM_DISK))
            } else {
                None
            },
        }
    }

    /// The profile that the disk of the open dialog is written into, and the disk,
    /// unless that is refused.
    pub fn attach_plan(&self) -> (r: Option<(String, String)>)
        ensures
            match self.desk.modal {
                Modal::AttachDisk(s) => if self.attach_fault(s.selected) is None {
                    r == Some((self.spec_vm(s.selected->0@)->0.profile_path, s.disk))
                } else {
                    r is None
                },
                _ => r is None,
            },
    {
        match &self.desk.modal {
            Modal::AttachDisk(s) => {
                if self.refuse_attach(&s.selected).is_some() {
                    return None;
                }
                match &s.selected {
                    Some(name) => match self.vm(name) {
                        Some(vm) => Some((vm.profile_path.clone(), s.disk.clone())),
                        None => None,
                    },
                    None => None,
                }
            },
            _ => None,
        }
    }

    /// Takes what writing [`ManagerApp::attach_plan`] gave.
    pub fn submit_attach_disk(&mut self, attached: Result<(), String>)
        ensures
            match old(self).desk.modal {
                Modal::AttachDisk(s) => match (old(self).attach_fault(s.selected), attached) {
                    (Some(m), _) => app::faulted_only(*old(self), *final(self), m),
                    (None, Err(e)) => app::faulted_only(*old(self), *final(self), e@),
                    (None, Ok(())) => app::concluded(
                        *old(self),
                        *final(self),
                        ToastLevel::Success,
                        "attached "@ + s.disk@ + " to "@ + state::quoted(s.selected->0@),
                    ),
                },
                _ => *final(self) == *old(self),
            },
    {
        let (fault, disk, selected) = match &self.desk.modal {
            Modal::AttachDisk(s) => (
                self.refuse_attach(&s.selected),
                s.disk.clone(),
                text::clone_opt(&s.selected),
            ),
            _ => return,
        };
        if let Some(message) = fault {
            self.desk.modal.fail(message);
            return;
        }
        if let Err(e) = attached {
            self.desk.modal.fail(e);
            return;
        }
        if let Some(name) = selected {
            self.conclude(
                ToastLevel::Success,
                text::cat4("attached ", &disk, " to ", &state::quote(&name)),
            );
        }
    }

    /// Takes what removing a disk from a machine's profile gave, which is tried
    /// only when the machine does not run.
    pub fn detach_disk(&mut self, vm: &str, declared: &str, detached: Result<(), String>)
        ensures
            if process::busy_in(old(self).supervisor.tasks@, vm@) {
                app::told_one(
                    *old(self),
                    *final(self),
                    ToastLevel::Warn,
                    launching::about(vm@, " is running — stop it before detaching its disk"@),
                )
            } else {
                match detached {
                    Ok(()) => app::announced(
                        *old(self),
                        *final(self),
                        ToastLevel::Success,
                        "detached "@ + declared@ + " from "@ + state::quoted(vm@),
                    ),
                    Err(e) => app::told_one(*old(self), *final(self), ToastLevel::Error, e@),
                }
            },
    {
        if self.supervisor.is_busy(vm) {
            self.toast(
                ToastLevel::Warn,
                launching::say(vm, " is running — stop it before detaching its disk"),
            );
            return;
        }
        match detached {
            Ok(()) => self.announce(
                ToastLevel::Success,
                text::cat4("detached ", declared, " from ", &state::quote(vm)),
            ),
            Err(e) => self.toast(ToastLevel::Error, e),
        }
    }
}

// ---------------------------------------------------------------------------
// Editing a machine
// ---------------------------------------------------------------------------

/// What asking to edit a machine does.
pub open spec fn edit_asked(
    before: ManagerApp,
    after: ManagerApp,
    name: Seq<char>,
    loaded: Result<VmConfig, String>,
    max_players: u8,
    current_dir: Option<String>,
) -> bool {
    if before.spec_busy(name) {
        app::told_one(
            before,
            after,
            ToastLevel::Warn,
            launching::about(name, " is busy — stop it before editing"@),
        )
    } else if before.spec_vm(name) is None {
        app::told_one(
            before,
            after,
            ToastLevel::Error,
            launching::about(name, GONE_FROM_DISK@),
        )
    } else if loaded is Err {
        app::told_one(
            before,
            after,
            ToastLevel::Error,
            "cannot open "@ + state::quoted(name) + " for editing: "@ + loaded->Err_0@,
        )
    } else {
        &&& after.desk.modal matches Modal::EditVm(s) && s.section
            == EditVmSection::Hardware && s.error is None && before.edits(
            s.form,
            name,
            loaded->Ok_0,
            max_players,
            current_dir,
        )
        &&& app::only_modal(before, after)
    }
}

impl ManagerApp {
    /// The form that editing a machine opens with.
    pub open spec fn edits(
        self,
        form: EditForm,
        name: Seq<char>,
        loaded: VmConfig,
        max_players: u8,
        current_dir: Option<String>,
    ) -> bool {
        &&& form.wf()
        &&& form.profile_path@ == (if self.mock_mode {
            "mock-vms/"@ + name + ".toml"@
        } else {
            self.spec_vm(name)->0.profile_path@
        })
        &&& form.base == loaded
        &&& editor::shows(form, loaded@, max_players)
        &&& form.add_disk@.len() == 0
        &&& form.backend == self.spec_backend(name)
        &&& form.base_backend == form.backend
        &&& form.work_dir@ == self.settings.spec_child_cwd(current_dir)
    }

    /// Opens the editor for a machine, unless it is busy. `loaded` is what reading
    /// its profile gave, or, in a session with sample data, what reading
    /// [`editor::mock_profile`] gave.
    pub fn ask_edit_vm(
        &mut self,
        name: &str,
        loaded: Result<VmConfig, String>,
        max_players: u8,
        current_dir: &Option<String>,
    )
        requires
            old(self).wf(),
            max_players >= 1,
        ensures
            edit_asked(
                *old(self),
                *final(self),
                name@,
                loaded,
                max_players,
                *current_dir,
            ),
    {
        if self.is_busy(name) {
            self.toast(
                ToastLevel::Warn,
                launching::say(name, " is busy — stop it before editing"),
            );
            return;
        }
        let profile = match self.vm(name) {
            Some(vm) => vm.profile_path.clone(),
            None => {
                self.toast(ToastLevel::Error, launching::say(name, GONE_FROM_DISK));
                return;
            },
        };
        let opened = if self.mock_mode {
            EditForm::mock(name, loaded, max_players)
        } else {
            match loaded {
                Ok(cfg) => Ok(EditForm::from_config(profile, cfg, max_players)),
                Err(e) => Err(e),
            }
        };
        let mut form = match opened {
            Ok(form) => form,
            Err(e) => {
                self.toast(
                    ToastLevel::Error,
                    text::cat4("cannot open ", &state::quote(name), " for editing: ", &e),
                );
                return;
            },
        };
        form.backend = self.backend_of(name);
        form.base_backend = form.backend;
        form.work_dir = self.settings.child_cwd(current_dir);
        self.desk.modal = Modal::EditVm(
            EditVmState { form, section: EditVmSection::Hardware, error: None },
        );
    }

    /// Takes what saving the open form gave, which is tried only when the machine
    /// does not run. The backend is saved with it, quietly.
    pub fn submit_edit_vm(&mut self, saved: Result<(), String>)
        requires
            old(self).wf(),
        ensures
            final(self).wf(),
            match old(self).desk.modal {
                Modal::EditVm(s) => if process::busy_in(old(self).supervisor.tasks@, s.form.name@) {
                    app::faulted_only(
                        *old(self),
                        *final(self),
                        launching::about(s.form.name@, STOP_FIRST@),
                    )
                } else {
                    match saved {
                        Err(e) => app::faulted_only(*old(self), *final(self), e@),
                        Ok(()) => {
                            &&& final(self).settings.vm_backends@ == old(
                                self).settings.backends_with(s.form.name@, s.form.backend)
                            &&& final(self).settings == (Settings {
                                vm_backends: final(self).settings.vm_backends,
                                ..old(self).settings
                            })
                            &&& final(self).desk.modal is Closed
                            &&& final(self).told() == old(self).told().push(
                                state::fresh(
                                    ToastLevel::Success,
                                    "saved "@ + state::quoted(s.form.name@),
                                ),
                            )
                            &&& app::rescanned(
                                *old(self),
                                old(self).desk.requests@ + old(self).save_requests(),
                                *final(self),
                                true,
                            )
                            &&& app::kept(
                                ManagerApp { settings: final(self).settings, ..*old(self) },
                                *final(self),
                            )
                        },
                    }
                },
                _ => *final(self) == *old(self),
            },
    {
        let (name, backend) = match &self.desk.modal {
            Modal::EditVm(s) => (s.form.name.clone(), s.form.backend),
            _ => return,
        };
        if self.supervisor.is_busy(&name) {
            self.desk.modal.fail(launching::say(&name, STOP_FIRST));
            return;
        }
        if let Err(e) = saved {
            self.desk.modal.fail(e);
            return;
        }
        self.desk.modal = Modal::Closed;
        self.settings.set_backend_for(&name, backend);
        self.persist_settings_quietly();
        self.toast(ToastLevel::Success, text::cat("saved ", &state::quote(&name)));
        self.request_scan(true);
    }
}

/// Only a machine at rest whose name was typed is deleted.
pub proof fn deletions_are_confirmed(app: ManagerApp, vm: VmEntry, typed: Seq<char>)
    ensures
        app.delete_fault(vm, typed) is None <==> !process::busy_in(
            app.supervisor.tasks@,
            vm.name@,
        ) && text::trim_of(typed) == vm.name@,
{
}

} // verus!
