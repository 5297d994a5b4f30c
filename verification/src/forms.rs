//! What the dialogs say, what they let be chosen and when their buttons can be
//! pressed.
use crate::cards;
use crate::cards::{Line, LineView};
use crate::discovery;
use crate::discovery::{DiskAttachment, DiskRow, VmEntry};
use crate::editor::EditForm;
use crate::host::Host;
use crate::launcher::{DiskMode, GuestFamily, NewMachine};
use crate::metrics::Share;
use crate::moving;
use crate::paths;
use crate::profile::DiskSection;
use crate::state;
use crate::state::{
    Action, AttachDiskState, DeleteDiskState, DeleteState, EditVmState, ManagerApp, MoveDiskState,
    WizardState,
};
use crate::storage;
use crate::text;
use crate::wording;
use crate::wording::{Button, ButtonView, Chip, Ink};
use vstd::prelude::*;

verus! {

// ---------------------------------------------------------------------------
// Fields
// ---------------------------------------------------------------------------

/// What is said under a path field: that the file is there, or that it is not and
/// what can be done about it. The path is the one that was looked at.
pub open spec fn path_note_views(path: Seq<char>, bytes: Option<u64>, missing: Seq<char>) -> Seq<
    LineView,
> {
    match bytes {
        Some(n) => seq![
            LineView {
                text: "found: "@ + path + "  ("@ + discovery::bytes_shown(n as nat) + ")"@,
                ink: Ink::Good,
                hint: Seq::empty(),
            },
        ],
        None => {
            let base = seq![
                LineView { text: "not found: "@ + path, ink: Ink::Warn, hint: Seq::empty() },
            ];
            if missing.len() > 0 {
                base.push(LineView { text: missing, ink: Ink::Faint, hint: Seq::empty() })
            } else {
                base
            }
        },
    }
}

/// What is said under a path field. `bytes` is the size of the file, if it is
/// there.
pub fn path_status_note(path: &str, bytes: Option<u64>, missing: &str) -> (r: Vec<Line>)
    ensures
        cards::lines_of(r@) == path_note_views(path@, bytes, missing@),
{
    let mut r: Vec<Line> = Vec::new();
    match bytes {
        Some(n) => {
            let found = text::cat5("found: ", path, "  (", &discovery::format_bytes(n), ")");
            cards::add_line(&mut r, found, Ink::Good, String::new());
        },
        None => {
            cards::add_line(&mut r, text::cat("not found: ", path), Ink::Warn, String::new());
            if !missing.is_empty() {
                cards::add_line(&mut r, missing.to_owned(), Ink::Faint, String::new());
            }
        },
    }
    assert(cards::lines_of(r@) =~= path_note_views(path@, bytes, missing@));
    r
}

// ---------------------------------------------------------------------------
// The wizard
// ---------------------------------------------------------------------------

/// The last step of the wizard.
pub const LAST_STEP: usize = 3;

/// The names of the wizard's steps.
pub const STEPS: [&'static str; 4] = ["System", "Hardware", "Storage", "Review"];

impl WizardState {
    /// The wizard after "Continue".
    pub open spec fn forwarded(self) -> WizardState {
        if self.step < LAST_STEP {
            WizardState { step: (self.step + 1) as usize, error: None, ..self }
        } else {
            self
        }
    }

    /// The wizard after "Back".
    pub open spec fn backed(self) -> WizardState {
        if self.step > 0 {
            WizardState { step: (self.step - 1) as usize, error: None, ..self }
        } else {
            self
        }
    }

    /// Goes to the next step, if there is one.
    pub fn forward(&mut self)
        ensures
            *final(self) == old(self).forwarded(),
    {
        if self.step < LAST_STEP {
            self.step = self.step + 1;
            self.error = None;
        }
    }

    /// Goes to the step before, if there is one.
    pub fn back(&mut self)
        ensures
            *final(self) == old(self).backed(),
    {
        if self.step > 0 {
            self.step = self.step - 1;
            self.error = None;
        }
    }

    /// Whether the wizard is at the step that builds the machine.
    pub fn at_last_step(&self) -> (r: bool)
        ensures
            r == (self.step >= LAST_STEP),
    {
        self.step >= LAST_STEP
    }

    /// Chooses where the disk comes from. A new disk is named anew.
    pub fn choose_disk(&mut self, mode: DiskMode)
        ensures
            final(self).machine.disk_mode == mode,
            final(self).machine.disk_path@ == (if mode == DiskMode::CreateNew {
                Seq::empty()
            } else {
                old(self).machine.disk_path@
            }),
            *final(self) == (WizardState {
                machine: NewMachine {
                    disk_mode: final(self).machine.disk_mode,
                    disk_path: final(self).machine.disk_path,
                    ..old(self).machine
                },
                ..*old(self)
            }),
    {
        self.machine.disk_mode = mode;
        if let DiskMode::CreateNew = mode {
            self.machine.disk_path = String::new();
        }
    }
}

/// A step back undoes a step forward, but for the message, which either clears.
pub proof fn stepping_back_undoes_a_step(w: WizardState)
    requires
        w.step < LAST_STEP,
    ensures
        w.forwarded().backed() == (WizardState { error: None, ..w }),
{
}

/// No way through the wizard leads past its last step.
pub proof fn the_wizard_stays_within_its_steps(w: WizardState)
    requires
        w.step <= LAST_STEP,
    ensures
        w.forwarded().step <= LAST_STEP,
        w.backed().step <= LAST_STEP,
{
}

/// The mark of a step: done, under way or to come.
pub fn step_mark(index: usize, current: usize) -> (r: Chip)
    requires
        index < usize::MAX,
    ensures
        r@ == (if index < current {
            wording::chip_view("OK"@, Ink::Good)
        } else {
            wording::chip_view(
                text::two_digits_of((index + 1) as nat),
                if index == current {
                    Ink::Cyan
                } else {
                    Ink::Faint
                },
            )
        }),
{
    if index < current {
        Chip { text: "OK".to_owned(), ink: Ink::Good }
    } else {
        Chip {
            text: text::two_digits((index + 1) as u64),
            ink: if index == current {
                Ink::Cyan
            } else {
                Ink::Faint
            },
        }
    }
}

/// The image can be chosen in the wizard: it is there, in the machine directory.
pub open spec fn is_choice(host: Host, vm_dir: Seq<char>, row: DiskRow) -> bool {
    &&& row.exists
    &&& paths::parent_of(host, row.path@) matches Some(dir) && paths::same_path(host, dir, vm_dir)
    &&& paths::file_name_of(host, row.path@) is Some
}

/// The images that can be chosen: the name, and the name with the size.
pub open spec fn choices(host: Host, vm_dir: Seq<char>, rows: Seq<DiskRow>) -> Seq<
    (Seq<char>, Seq<char>),
>
    decreases rows.len(),
{
    if rows.len() == 0 {
        Seq::empty()
    } else {
        let init = choices(host, vm_dir, rows.drop_last());
        let row = rows.last();
        if is_choice(host, vm_dir, row) {
            let name = paths::file_name_of(host, row.path@)->0;
            init.push(
                (name, name + "  ·  "@ + discovery::bytes_shown(row.apparent_bytes as nat)),
            )
        } else {
            init
        }
    }
}

/// The pairs of texts as plain values.
pub open spec fn pairs_of(list: Seq<(String, String)>) -> Seq<(Seq<char>, Seq<char>)> {
    list.map_values(|p: (String, String)| (p.0@, p.1@))
}

fn choice_name(host: Host, vm_dir: &str, row: &DiskRow) -> (r: Option<String>)
    ensures
        match r {
            Some(name) => is_choice(host, vm_dir@, *row) && paths::file_name_of(host, row.path@)
                == Some(name@),
            None => !is_choice(host, vm_dir@, *row),
        },
{
    if !row.exists {
        return None;
    }
    match paths::parent(host, &row.path) {
        Some(dir) => if paths::same(host, &dir, vm_dir) {
            paths::file_name(host, &row.path)
        } else {
            None
        },
        None => None,
    }
}

/// The images that can be chosen: the name, and what is shown for it.
pub fn existing_disks(host: Host, vm_dir: &str, rows: &Vec<DiskRow>) -> (r: Vec<(String, String)>)
    ensures
        pairs_of(r@) == choices(host, vm_dir@, rows@),
{
    let ghost all = rows@;
    let mut r: Vec<(String, String)> = Vec::new();
    let mut i: usize = 0;
    proof {
        assert(all.take(0) =~= Seq::<DiskRow>::empty());
        assert(pairs_of(r@) =~= choices(host, vm_dir@, all.take(0)));
    }
    while i < rows.len()
        invariant
            all == rows@,
            i <= all.len(),
            pairs_of(r@) == choices(host, vm_dir@, all.take(i as int)),
        decreases all.len() - i,
    {
        proof {
            assert(all.take(i + 1).drop_last() =~= all.take(i as int));
            assert(all.take(i + 1).last() == all[i as int]);
        }
        if let Some(name) = choice_name(host, vm_dir, &rows[i]) {
            let ghost shown = pairs_of(r@);
            let ghost n = name@;
            let label = text::cat3(
                &name,
                "  ·  ",
                &discovery::format_bytes(rows[i].apparent_bytes),
            );
            let ghost l = label@;
            r.push((name, label));
            assert(pairs_of(r@) =~= shown.push((n, l)));
        }
        i = i + 1;
    }
    assert(all.take(i as int) =~= all);
    r
}

/// The rows of the wizard's last step: what is about to be built.
pub open spec fn summary(host: Host, vm_dir: Seq<char>, m: NewMachine) -> Seq<
    (Seq<char>, Seq<char>),
> {
    let base = seq![
        ("Machine"@, m.name@),
        (
            "Installer"@,
            m.family.spec_label() + " · "@ + (if m.automated {
                "automatic"@
            } else {
                "interactive"@
            }),
        ),
        (
            "Hardware"@,
            text::decimal_of(m.memory_mib as nat) + " MiB memory · "@ + text::decimal_of(
                m.vcpus as nat,
            ) + " vCPU"@,
        ),
        (
            "Storage"@,
            m@.disk_at(host, vm_dir) + " · "@ + (if m.disk_mode == DiskMode::CreateNew {
                "new "@ + text::decimal_of(m.disk_gib as nat) + " GiB sparse disk"@
            } else {
                "existing disk, preserved"@
            }),
        ),
    ];
    if m.family == GuestFamily::Ubuntu {
        base.push(
            (
                "ISO"@,
                if text::trim_of(m.iso_path@).len() == 0 {
                    "Newest verified cached Ubuntu ISO"@
                } else {
                    text::trim_of(m.iso_path@)
                },
            ),
        )
    } else {
        base
    }
}

fn add_pair(list: &mut Vec<(String, String)>, label: &str, value: String)
    ensures
        pairs_of(final(list)@) == pairs_of(old(list)@).push((label@, value@)),
{
    let ghost before = pairs_of(list@);
    list.push((label.to_owned(), value));
    assert(pairs_of(list@) =~= before.push((label@, value@)));
}

/// The rows of the wizard's last step.
pub fn summary_rows(host: Host, vm_dir: &str, m: &NewMachine) -> (r: Vec<(String, String)>)
    ensures
        pairs_of(r@) == summary(host, vm_dir@, *m),
{
    let mut r: Vec<(String, String)> = Vec::new();
    add_pair(&mut r, "Machine", m.name.clone());
    let how = if m.automated {
        "automatic"
    } else {
        "interactive"
    };
    add_pair(&mut r, "Installer", text::cat3(m.family.label(), " · ", how));
    let hardware = text::cat4(
        &text::decimal(m.memory_mib),
        " MiB memory · ",
        &text::decimal(m.vcpus as u64),
        " vCPU",
    );
    add_pair(&mut r, "Hardware", hardware);
    let disk = match m.disk_mode {
        DiskMode::CreateNew => text::cat3("new ", &text::decimal(m.disk_gib), " GiB sparse disk"),
        _ => "existing disk, preserved".to_owned(),
    };
    add_pair(&mut r, "Storage", text::cat3(&m.disk_path(host, vm_dir), " · ", &disk));
    if let GuestFamily::Ubuntu = m.family {
        let iso = text::trim(&m.iso_path);
        if iso.as_str().is_empty() {
            add_pair(&mut r, "ISO", "Newest verified cached Ubuntu ISO".to_owned());
        } else {
            add_pair(&mut r, "ISO", iso);
        }
    }
    assert(pairs_of(r@) =~= summary(host, vm_dir@, *m));
    r
}

// ---------------------------------------------------------------------------
// Deleting
// ---------------------------------------------------------------------------

/// Whether the name was typed, so that the machine may be deleted.
pub fn name_typed(s: &DeleteState) -> (r: bool)
    ensures
        r == (text::trim_of(s.typed@) == s.name@),
{
    text::same(&text::trim(&s.typed), &s.name)
}

/// A file that is about to go, with its size.
pub open spec fn doomed_text(path: Seq<char>, bytes: u64) -> Seq<char> {
    "− "@ + path + "  ("@ + discovery::bytes_shown(bytes as nat) + ")"@
}

/// A file that is about to go, with its size.
pub fn doomed_line(path: &str, bytes: u64) -> (r: String)
    ensures
        r@ == doomed_text(path@, bytes),
{
    text::cat5("− ", path, "  (", &discovery::format_bytes(bytes), ")")
}

/// A file that lies elsewhere and stays.
pub fn kept_line(path: &str) -> (r: String)
    ensures
        r@ == path@ + " lies outside the VM directory and is kept"@,
{
    text::cat(path, " lies outside the VM directory and is kept")
}

/// The names of the machines that attach a disk.
pub open spec fn attaching(list: Seq<DiskAttachment>) -> Seq<Seq<char>> {
    list.map_values(|a: DiskAttachment| a.vm@)
}

fn vm_names(list: &Vec<DiskAttachment>) -> (r: Vec<String>)
    ensures
        text::texts(r@) == attaching(list@),
{
    let mut r: Vec<String> = Vec::new();
    let mut i: usize = 0;
    assert(text::texts(r@) =~= attaching(list@.take(0)));
    while i < list.len()
        invariant
            i <= list@.len(),
            text::texts(r@) == attaching(list@.take(i as int)),
        decreases list@.len() - i,
    {
        let ghost shown = text::texts(r@);
        r.push(list[i].vm.clone());
        proof {
            assert(text::texts(r@) =~= shown.push(list@[i as int].vm@));
            assert(attaching(list@.take(i + 1)) =~= shown.push(list@[i as int].vm@));
        }
        i = i + 1;
    }
    assert(list@.take(i as int) =~= list@);
    r
}

/// What the confirmation of deleting a disk says. `sidecar` is its variable store.
pub open spec fn disk_deletion_lines(s: DeleteDiskState, sidecar: Seq<char>) -> Seq<LineView> {
    let image = seq![
        LineView {
            text: doomed_text(s.row.path@, s.row.apparent_bytes),
            ink: Ink::Faint,
            hint: Seq::empty(),
        },
    ];
    let store = if s.row.nvram {
        image.push(
            LineView {
                text: "− "@ + sidecar + "  (UEFI variable store — deleted with the disk)"@,
                ink: Ink::Faint,
                hint: Seq::empty(),
            },
        )
    } else {
        image
    };
    if s.row.attachments@.len() > 0 {
        store.push(
            LineView {
                text: "Still attached to "@ + text::join_of(attaching(s.row.attachments@), ", "@)
                    + " — detach it there first"@,
                ink: Ink::Warn,
                hint: Seq::empty(),
            },
        )
    } else {
        store
    }
}

/// What the confirmation of deleting a disk says.
pub fn delete_disk_lines(s: &DeleteDiskState, sidecar: &str) -> (r: Vec<Line>)
    ensures
        cards::lines_of(r@) == disk_deletion_lines(*s, sidecar@),
{
    let mut r: Vec<Line> = Vec::new();
    let image = doomed_line(&s.row.path, s.row.apparent_bytes);
    cards::add_line(&mut r, image, Ink::Faint, String::new());
    if s.row.nvram {
        let store = text::cat3("− ", sidecar, "  (UEFI variable store — deleted with the disk)");
        cards::add_line(&mut r, store, Ink::Faint, String::new());
    }
    if s.row.attachments.len() > 0 {
        let names = text::join(&vm_names(&s.row.attachments), ", ");
        let warning = text::cat3("Still attached to ", &names, " — detach it there first");
        cards::add_line(&mut r, warning, Ink::Warn, String::new());
    }
    assert(cards::lines_of(r@) =~= disk_deletion_lines(*s, sidecar@));
    r
}

/// Whether the disk of the open confirmation may be deleted: it is attached to
/// nothing.
pub fn deletable(s: &DeleteDiskState) -> (r: bool)
    ensures
        r == (s.row.attachments@.len() == 0),
{
    s.row.attachments.len() == 0
}

// ---------------------------------------------------------------------------
// Creating and attaching
// ---------------------------------------------------------------------------

/// What is said of a typed size: what it denotes, or what is wrong with it.
pub fn size_note(bytes: &Result<u64, String>) -> (r: Line)
    ensures
        r@ == (match *bytes {
            Ok(n) => LineView {
                text: "= "@ + discovery::bytes_shown(n as nat) + " ("@ + text::decimal_of(n as nat)
                    + " bytes)"@,
                ink: Ink::Faint,
                hint: Seq::empty(),
            },
            Err(e) => LineView { text: e@, ink: Ink::Warn, hint: Seq::empty() },
        }),
{
    match bytes {
        Ok(n) => Line {
            text: text::cat5(
                "= ",
                &discovery::format_bytes(*n),
                " (",
                &text::decimal(*n),
                " bytes)",
            ),
            ink: Ink::Faint,
            hint: String::new(),
        },
        Err(e) => Line { text: e.clone(), ink: Ink::Warn, hint: String::new() },
    }
}

/// The machines that could take a disk, in their order.
pub open spec fn candidates_of(
    app: ManagerApp,
    attachments: Seq<DiskAttachment>,
    vms: Seq<VmEntry>,
) -> Seq<Seq<char>>
    decreases vms.len(),
{
    if vms.len() == 0 {
        Seq::empty()
    } else {
        let init = candidates_of(app, attachments, vms.drop_last());
        if app.attachable(attachments, vms.last()) {
            init.push(vms.last().name@)
        } else {
            init
        }
    }
}

/// The attachments of the disk in a file, if it is listed.
pub open spec fn attachments_at(app: ManagerApp, path: Seq<char>) -> Seq<DiskAttachment> {
    match app.spec_disk(path) {
        Some(row) => row.attachments@,
        None => Seq::empty(),
    }
}

/// The machines that could take the disk of the open dialog.
pub fn attach_candidates(app: &ManagerApp, disk: &str) -> (r: Vec<String>)
    ensures
        text::texts(r@) == candidates_of(*app, attachments_at(*app, disk@), app.scan.vms@),
{
    let none: Vec<DiskAttachment> = Vec::new();
    let attachments = match app.disk_row(disk) {
        Some(row) => &row.attachments,
        None => &none,
    };
    assert(attachments@ =~= attachments_at(*app, disk@));
    let ghost all = app.scan.vms@;
    let mut r: Vec<String> = Vec::new();
    let mut i: usize = 0;
    proof {
        assert(all.take(0) =~= Seq::<VmEntry>::empty());
        assert(text::texts(r@) =~= candidates_of(*app, attachments@, all.take(0)));
    }
    while i < app.scan.vms.len()
        invariant
            all == app.scan.vms@,
            i <= all.len(),
            text::texts(r@) == candidates_of(*app, attachments@, all.take(i as int)),
        decreases all.len() - i,
    {
        proof {
            assert(all.take(i + 1).drop_last() =~= all.take(i as int));
            assert(all.take(i + 1).last() == all[i as int]);
        }
        let name = &app.scan.vms[i].name;
        if !storage::is_attached(attachments, name) && !app.supervisor.is_busy(name) {
            let ghost shown = text::texts(r@);
            r.push(name.clone());
            assert(text::texts(r@) =~= shown.push(all[i as int].name@));
        }
        i = i + 1;
    }
    assert(all.take(i as int) =~= all);
    r
}

/// Whether the disk of the open dialog can be attached: a machine is selected and
/// there is one to select.
pub fn attach_ready(s: &AttachDiskState, candidates: &Vec<String>) -> (r: bool)
    ensures
        r == (s.selected is Some && candidates@.len() > 0),
{
    s.selected.is_some() && candidates.len() > 0
}

/// The machine that the dialog selects at first is the first one that it offers.
pub proof fn the_first_candidate_is_selected(
    app: ManagerApp,
    attachments: Seq<DiskAttachment>,
    vms: Seq<VmEntry>,
)
    ensures
        match app.first_attachable(attachments, vms) {
            Some(name) => candidates_of(app, attachments, vms).len() > 0 && candidates_of(
                app,
                attachments,
                vms,
            )[0] == name@,
            None => candidates_of(app, attachments, vms).len() == 0,
        },
    decreases vms.len(),
{
    if vms.len() > 0 {
        let rest = vms.drop_last();
        the_first_candidate_is_selected(app, attachments, rest);
        lemma_first_of_more(app, attachments, rest, vms.last());
        assert(rest.push(vms.last()) =~= vms);
    }
}

proof fn lemma_first_of_more(
    app: ManagerApp,
    attachments: Seq<DiskAttachment>,
    vms: Seq<VmEntry>,
    more: VmEntry,
)
    ensures
        app.first_attachable(attachments, vms.push(more)) == (match app.first_attachable(
            attachments,
            vms,
        ) {
            Some(name) => Some(name),
            None => if app.attachable(attachments, more) {
                Some(more.name)
            } else {
                None
            },
        }),
    decreases vms.len(),
{
    reveal_with_fuel(ManagerApp::first_attachable, 2);
    if vms.len() == 0 {
        assert(vms.push(more).drop_first() =~= Seq::<VmEntry>::empty());
        assert(vms.push(more)[0] == more);
    } else {
        lemma_first_of_more(app, attachments, vms.drop_first(), more);
        assert(vms.push(more).drop_first() =~= vms.drop_first().push(more));
        assert(vms.push(more)[0] == vms[0]);
    }
}

// ---------------------------------------------------------------------------
// The editor
// ---------------------------------------------------------------------------

/// The message of the editor: what is wrong with the profile as it is edited, or
/// else what went wrong when it was saved.
pub fn edit_message(s: &EditVmState, verdict: &Result<(), String>) -> (r: Option<String>)
    ensures
        r == (match *verdict {
            Err(e) => Some(e),
            Ok(()) => s.error,
        }),
{
    match verdict {
        Err(e) => Some(e.clone()),
        Ok(()) => text::clone_opt(&s.error),
    }
}

/// Whether the edited profile can be saved: it is valid, and something changed.
pub fn savable(host: Host, s: &EditVmState, verdict: &Result<(), String>) -> (r: bool)
    requires
        s.form.wf(),
    ensures
        r == (*verdict is Ok && s.form.is_dirty(host, true)),
{
    verdict.is_ok() && s.form.dirty(host, true)
}

/// The disks as plain values.
pub open spec fn sections_of(disks: Seq<DiskSection>) -> Seq<(Seq<char>, bool)> {
    disks.map_values(|d: DiskSection| (d.path@, d.writable))
}

impl EditForm {
    /// Adds the typed disk, unless nothing is typed.
    pub fn add_typed_disk(&mut self)
        ensures
            if text::trim_of(old(self).add_disk@).len() == 0 {
                *final(self) == *old(self)
            } else {
                &&& sections_of(final(self).disks@) == sections_of(old(self).disks@).push(
                    (text::trim_of(old(self).add_disk@), true),
                )
                &&& final(self).add_disk@.len() == 0
                &&& *final(self) == (EditForm {
                    disks: final(self).disks,
                    add_disk: final(self).add_disk,
                    ..*old(self)
                })
            },
    {
        let path = text::trim(&self.add_disk);
        if path.as_str().is_empty() {
            return;
        }
        let ghost before = sections_of(self.disks@);
        let ghost typed = path@;
        self.disks.push(DiskSection { path, writable: true });
        assert(sections_of(self.disks@) =~= before.push((typed, true)));
        self.add_disk = String::new();
    }

    /// Takes a disk out of the form.
    pub fn remove_disk(&mut self, index: usize)
        ensures
            final(self).disks@ == (if index < old(self).disks@.len() {
                old(self).disks@.remove(index as int)
            } else {
                old(self).disks@
            }),
            *final(self) == (EditForm { disks: final(self).disks, ..*old(self) }),
    {
        if index < self.disks.len() {
            let _ = self.disks.remove(index);
        }
    }
}

/// The name that the guest gives its disk number `index`, counted in bytes from
/// `a`.
pub fn device_name(index: usize) -> (r: String)
    requires
        index % 256 <= 158,
    ensures
        r@ == "vd"@.push((97 + index % 256) as char),
{
    let letter: char = (97u8 + (index % 256) as u8) as char;
    let mut name = "vd".to_owned();
    name.push(letter);
    name
}

// ---------------------------------------------------------------------------
// Moving
// ---------------------------------------------------------------------------

/// What a move takes with it: the image, its variable store, and the profiles that
/// are rewritten.
pub open spec fn move_lines_of(s: MoveDiskState, sidecar: Seq<char>) -> Seq<Seq<char>> {
    let image = seq!["− "@ + s.row.path@];
    (if s.row.nvram {
        image.push("− "@ + sidecar + "  (moves along)"@)
    } else {
        image
    }) + s.row.attachments@.map_values(
        |a: DiskAttachment| "profile of "@ + state::quoted(a.vm@) + " will be updated"@,
    )
}

/// What a move takes with it.
pub fn move_lines(s: &MoveDiskState, sidecar: &str) -> (r: Vec<String>)
    ensures
        text::texts(r@) == move_lines_of(*s, sidecar@),
{
    let mut r: Vec<String> = Vec::new();
    r.push(text::cat("− ", &s.row.path));
    if s.row.nvram {
        r.push(text::cat3("− ", sidecar, "  (moves along)"));
    }
    let ghost head = text::texts(r@);
    let ghost told = s.row.attachments@.map_values(
        |a: DiskAttachment| "profile of "@ + state::quoted(a.vm@) + " will be updated"@,
    );
    let mut i: usize = 0;
    assert(text::texts(r@) =~= head + told.take(0));
    while i < s.row.attachments.len()
        invariant
            i <= s.row.attachments@.len(),
            told == s.row.attachments@.map_values(
                |a: DiskAttachment| "profile of "@ + state::quoted(a.vm@) + " will be updated"@,
            ),
            text::texts(r@) == head + told.take(i as int),
        decreases s.row.attachments@.len() - i,
    {
        let ghost shown = text::texts(r@);
        r.push(
            text::cat3("profile of ", &state::quote(&s.row.attachments[i].vm), " will be updated"),
        );
        proof {
            assert(text::texts(r@) =~= shown.push(told[i as int]));
            assert(told.take(i + 1) =~= told.take(i as int).push(told[i as int]));
            assert(head + told.take(i + 1) =~= shown.push(told[i as int]));
        }
        i = i + 1;
    }
    assert(told.take(i as int) =~= told);
    assert(text::texts(r@) =~= move_lines_of(*s, sidecar@));
    r
}

/// What is said of the space at the destination: too little for the data, too
/// little for what the image can grow to, or enough.
pub open spec fn space_view(data: u64, apparent: u64, free: u64) -> LineView {
    let room = discovery::bytes_shown(free as nat) + " free at the destination"@;
    if free < data {
        LineView {
            text: room + " — not enough for the data itself"@,
            ink: Ink::Bad,
            hint: Seq::empty(),
        }
    } else if free < apparent {
        LineView {
            text: room + " — enough for the data, but less than the image's full "@
                + discovery::bytes_shown(apparent as nat)
                + " (the guest can outgrow the drive later)"@,
            ink: Ink::Warn,
            hint: Seq::empty(),
        }
    } else {
        LineView { text: room, ink: Ink::Faint, hint: Seq::empty() }
    }
}

/// What is said of the bytes to be copied and of the space at the destination, as
/// far as they are known.
pub open spec fn move_note_views(bill: Option<(u64, u64)>, free: Option<u64>) -> Seq<LineView> {
    match bill {
        None => Seq::empty(),
        Some((data, apparent)) => {
            let first = seq![
                LineView {
                    text: "copies "@ + discovery::bytes_shown(data as nat)
                        + " of data · image can grow to "@ + discovery::bytes_shown(
                        apparent as nat,
                    ),
                    ink: Ink::Faint,
                    hint: Seq::empty(),
                },
            ];
            match free {
                Some(free) => first.push(space_view(data, apparent, free)),
                None => first,
            }
        },
    }
}

fn space_note(data: u64, apparent: u64, free: u64) -> (r: Line)
    ensures
        r@ == space_view(data, apparent, free),
{
    let room = text::cat(&discovery::format_bytes(free), " free at the destination");
    if free < data {
        Line {
            text: text::cat(&room, " — not enough for the data itself"),
            ink: Ink::Bad,
            hint: String::new(),
        }
    } else if free < apparent {
        Line {
            text: text::cat4(
                &room,
                " — enough for the data, but less than the image's full ",
                &discovery::format_bytes(apparent),
                " (the guest can outgrow the drive later)",
            ),
            ink: Ink::Warn,
            hint: String::new(),
        }
    } else {
        Line { text: room, ink: Ink::Faint, hint: String::new() }
    }
}

/// What is said of the bytes to be copied and of the space at the destination.
pub fn move_notes(bill: Option<(u64, u64)>, free: Option<u64>) -> (r: Vec<Line>)
    ensures
        cards::lines_of(r@) == move_note_views(bill, free),
{
    let mut r: Vec<Line> = Vec::new();
    if let Some((data, apparent)) = bill {
        let copies = text::cat4(
            "copies ",
            &discovery::format_bytes(data),
            " of data · image can grow to ",
            &discovery::format_bytes(apparent),
        );
        cards::add_line(&mut r, copies, Ink::Faint, String::new());
        if let Some(free) = free {
            let note = space_note(data, apparent, free);
            cards::add_line(&mut r, note.text, note.ink, note.hint);
        }
    }
    assert(cards::lines_of(r@) =~= move_note_views(bill, free));
    r
}

/// What is told of a running move: its bytes and how full its bar is.
pub fn move_progress(s: &MoveDiskState) -> (r: Option<(String, Share)>)
    ensures
        match s.progress {
            None => r is None,
            Some((done, total)) => r matches Some((told, share)) && told@ == "copied "@
                + discovery::bytes_shown(done as nat) + " / "@ + discovery::bytes_shown(
                total as nat,
            ) && share == (if total == 0 {
                Share { part: 0, whole: 1 }
            } else if done >= total {
                Share { part: total, whole: total }
            } else {
                Share { part: done, whole: total }
            }),
        },
{
    match s.progress {
        None => None,
        Some((done, total)) => {
            let told = text::cat4(
                "copied ",
                &discovery::format_bytes(done),
                " / ",
                &discovery::format_bytes(total),
            );
            let share = if total == 0 {
                Share { part: 0, whole: 1 }
            } else if done >= total {
                Share { part: total, whole: total }
            } else {
                Share { part: done, whole: total }
            };
            Some((told, share))
        },
    }
}

pub const MOVE_RUNNING_HINT: &'static str =
    "The copy is running; it finishes or rolls back on its own";
pub const MOVE_CANCEL_HINT: &'static str = "Close without moving anything";

/// The buttons of the move dialog. While a move runs there is nothing to press.
pub open spec fn move_button_views(s: MoveDiskState) -> Seq<ButtonView> {
    seq![
        wording::ghost_view(
            if s.running {
                "Moving…"@
            } else {
                "Move"@
            },
            ""@,
            !s.running && text::trim_of(s.dest@).len() > 0,
            Ink::Violet,
            Action::SubmitMoveDisk,
        ),
        wording::ghost_view(
            "Cancel"@,
            if s.running {
                MOVE_RUNNING_HINT@
            } else {
                MOVE_CANCEL_HINT@
            },
            !s.running,
            Ink::Dim,
            Action::CloseModal,
        ),
    ]
}

/// The buttons of the move dialog.
pub fn move_buttons(s: &MoveDiskState) -> (r: Vec<Button>)
    ensures
        wording::buttons_of(r@) == move_button_views(*s),
{
    let label = if s.running {
        "Moving…"
    } else {
        "Move"
    };
    let hint = if s.running {
        MOVE_RUNNING_HINT
    } else {
        MOVE_CANCEL_HINT
    };
    let named = !text::trim(&s.dest).as_str().is_empty();
    let mut r: Vec<Button> = Vec::new();
    wording::add_button(
        &mut r,
        wording::ghost_button(
            label,
            "",
            !s.running && named,
            Ink::Violet,
            Action::SubmitMoveDisk,
        ),
    );
    wording::add_button(
        &mut r,
        wording::ghost_button("Cancel", hint, !s.running, Ink::Dim, Action::CloseModal),
    );
    assert(wording::buttons_of(r@) =~= move_button_views(*s));
    r
}

/// The destination that the dialog suggests.
pub fn destination_example(host: Host) -> (r: &'static str)
    ensures
        r@ == (if host == Host::Windows {
            "E:\\vm-storage"@
        } else {
            "/mnt/bigdrive/vms"@
        }),
{
    if host.is_windows() {
        "E:\\vm-storage"
    } else {
        "/mnt/bigdrive/vms"
    }
}

} // verus!
