//! Suspended machines: what the saved sessions in the machine directory say,
//! and whether one could be resumed here, decided before anything is launched.
use crate::backend::Backend;
use crate::discovery::{self, VmEntry};
use crate::host::Host;
use crate::laws::sessions;
use crate::paths;
use crate::profile::VirtioTransport;
use crate::sorting::{self, Ranked};
use crate::text;
use vstd::prelude::*;

verus! {

/// The extension of a saved session.
pub const EXTENSION: &'static str = "esnap";

/// The hypervisor a session was saved on, which it is bound to.
#[derive(Debug, Clone, Copy, PartialEq, Eq, Structural)]
pub enum HostKind {
    KvmLinux,
    WhpWindows,
}

impl HostKind {
    pub open spec fn spec_name(self) -> Seq<char> {
        match self {
            HostKind::KvmLinux => "Linux/KVM"@,
            HostKind::WhpWindows => "Windows/WHP"@,
        }
    }

    /// The hypervisor's name.
    pub fn as_str(self) -> (r: &'static str)
        ensures
            r@ == self.spec_name(),
    {
        match self {
            HostKind::KvmLinux => "Linux/KVM",
            HostKind::WhpWindows => "Windows/WHP",
        }
    }
}

/// A file the machine had open when it was saved.
#[derive(Debug, PartialEq, Eq)]
pub struct FileRecord {
    /// What the file was to the machine: "disk", "CD-ROM" and so on.
    pub role: String,
    pub path: String,
}

impl Clone for FileRecord {
    fn clone(&self) -> (r: FileRecord)
        ensures
            r == *self,
    {
        FileRecord { role: self.role.clone(), path: self.path.clone() }
    }
}

/// What comparing such a file with its record found.
#[derive(Debug, PartialEq, Eq)]
pub enum FileState {
    Unchanged,
    /// It changed in a way that a resumed machine survives.
    Note(String),
    /// It changed in a way that a resumed machine does not survive.
    Changed { path: String, what: String, snapshot: String, current: String },
    Failed(String),
}

/// Everything a saved session says about itself, once read.
#[derive(Debug, PartialEq, Eq)]
pub struct SnapshotFacts {
    /// The machine it is of, from its own embedded profile.
    pub vm_name: String,
    pub created_unix: i64,
    /// The build that wrote it.
    pub writer: String,
    pub host: HostKind,
    pub vcpus: u32,
    pub memory_bytes: u64,
    /// `"mmio"` or `"pci"`.
    pub transport: String,
    /// `"direct-linux"` or `"uefi"`.
    pub boot_mode: String,
    /// Every file the machine had open, as it looked then.
    pub files: Vec<FileRecord>,
    pub sections: usize,
}

fn clone_files(files: &Vec<FileRecord>) -> (r: Vec<FileRecord>)
    ensures
        r@ == files@,
{
    let mut r: Vec<FileRecord> = Vec::new();
    let mut i: usize = 0;
    while i < files.len()
        invariant
            i <= files@.len(),
            r@ == files@.take(i as int),
        decreases files@.len() - i,
    {
        r.push(files[i].clone());
        i = i + 1;
    }
    assert(files@.take(i as int) =~= files@);
    r
}

impl Clone for SnapshotFacts {
    fn clone(&self) -> (r: SnapshotFacts)
        ensures
            r.files@ == self.files@,
            r == (SnapshotFacts { files: r.files, ..*self }),
    {
        SnapshotFacts {
            vm_name: self.vm_name.clone(),
            created_unix: self.created_unix,
            writer: self.writer.clone(),
            host: self.host,
            vcpus: self.vcpus,
            memory_bytes: self.memory_bytes,
            transport: self.transport.clone(),
            boot_mode: self.boot_mode.clone(),
            files: clone_files(&self.files),
            sections: self.sections,
        }
    }
}

/// One row of the saved sessions view.
#[derive(Debug, PartialEq, Eq)]
pub struct SnapshotRow {
    pub path: String,
    pub file_name: String,
    pub apparent_bytes: u64,
    pub allocated_bytes: Option<u64>,
    /// What the file says, or why it could not be read: an unreadable session is
    /// still a row, so that it can be seen and deleted.
    pub facts: Result<SnapshotFacts, String>,
}

/// Two sessions that say the same.
pub open spec fn same_session(a: SnapshotRow, b: SnapshotRow) -> bool {
    &&& b.path == a.path
    &&& b.file_name == a.file_name
    &&& b.apparent_bytes == a.apparent_bytes
    &&& b.allocated_bytes == a.allocated_bytes
    &&& match (a.facts, b.facts) {
        (Ok(x), Ok(y)) => y == (SnapshotFacts { files: y.files, ..x }) && y.files@ == x.files@,
        (Err(x), Err(y)) => x == y,
        _ => false,
    }
}

impl Clone for SnapshotRow {
    fn clone(&self) -> (r: SnapshotRow)
        ensures
            same_session(*self, r),
    {
        SnapshotRow {
            path: self.path.clone(),
            file_name: self.file_name.clone(),
            apparent_bytes: self.apparent_bytes,
            allocated_bytes: self.allocated_bytes,
            facts: match &self.facts {
                Ok(f) => Ok(f.clone()),
                Err(e) => Err(e.clone()),
            },
        }
    }
}

impl SnapshotRow {
    pub open spec fn spec_vm_name(self) -> Option<Seq<char>> {
        match self.facts {
            Ok(f) => Some(f.vm_name@),
            Err(_) => None,
        }
    }

    /// The machine this session belongs to, when it is readable.
    pub fn vm_name(&self) -> (r: Option<&str>)
        ensures
            match r {
                Some(name) => self.spec_vm_name() == Some(name@),
                None => self.spec_vm_name() is None,
            },
    {
        match &self.facts {
            Ok(f) => Some(f.vm_name.as_str()),
            Err(_) => None,
        }
    }

    /// When the session was saved; the beginning of time if it does not say.
    pub open spec fn taken(self) -> i64 {
        match self.facts {
            Ok(f) => f.created_unix,
            Err(_) => 0,
        }
    }

    fn taken_at(&self) -> (r: i64)
        ensures
            r == self.taken(),
    {
        match &self.facts {
            Ok(f) => f.created_unix,
            Err(_) => 0,
        }
    }

    pub open spec fn spec_shape_line(self) -> Seq<char> {
        match self.facts {
            Ok(f) => text::decimal_of(f.vcpus as nat) + " vCPU · "@ + discovery::bytes_shown(
                f.memory_bytes as nat,
            ) + " RAM · "@ + f.transport@ + " · "@ + f.boot_mode@ + " boot"@,
            Err(_) => "unreadable"@,
        }
    }

    /// One line of hardware, for under the title.
    pub fn shape_line(&self) -> (r: String)
        ensures
            r@ == self.spec_shape_line(),
    {
        match &self.facts {
            Ok(f) => {
                let mut line = text::decimal(f.vcpus as u64);
                line.append(" vCPU · ");
                line.append(&discovery::format_bytes(f.memory_bytes));
                line.append(" RAM · ");
                line.append(&f.transport);
                line.append(" · ");
                line.append(&f.boot_mode);
                line.append(" boot");
                line
            },
            Err(_) => "unreadable".to_owned(),
        }
    }
}

impl Ranked for SnapshotRow {
    open spec fn ranks_before(&self, other: &SnapshotRow, host: Host) -> bool {
        self.taken() > other.taken() || (self.taken() == other.taken() && text::precedes(
            self.file_name@,
            other.file_name@,
        ))
    }

    fn before(&self, other: &SnapshotRow, host: Host) -> (r: bool) {
        let a: i64 = self.taken_at();
        let b: i64 = other.taken_at();
        a > b || (a == b && text::before(&self.file_name, &other.file_name))
    }

    proof fn ranks_lawfully(a: &SnapshotRow, b: &SnapshotRow, c: &SnapshotRow, host: Host) {
        text::order_is_total(a.file_name@, b.file_name@);
        if text::precedes(a.file_name@, c.file_name@) && text::precedes(
            b.file_name@,
            a.file_name@,
        ) {
            text::order_is_transitive(b.file_name@, a.file_name@, c.file_name@);
        }
    }
}

/// The saved sessions, newest first.
pub fn snapshot_rows(host: Host, rows: Vec<SnapshotRow>) -> (r: Vec<SnapshotRow>)
    ensures
        r@ == sorting::sorted_of(host, rows@),
{
    sorting::sort(host, rows)
}

/// Whether a directory entry is a saved session.
pub fn is_session(host: Host, path: &str, is_file: bool) -> (r: bool)
    ensures
        r == (is_file && paths::extension_is(host, path@, EXTENSION@)),
{
    is_file && paths::has_extension(host, path, EXTENSION)
}

/// A file as the row for it, whatever reading it gave.
pub fn read(
    host: Host,
    path: &str,
    apparent_bytes: Option<u64>,
    allocated_bytes: Option<u64>,
    facts: Result<SnapshotFacts, String>,
) -> (r: SnapshotRow)
    ensures
        r.path@ == path@,
        r.file_name@ == discovery::shown_name(host, path@),
        r.apparent_bytes == (match apparent_bytes {
            Some(n) => n,
            None => 0,
        }),
        r.allocated_bytes == allocated_bytes,
        r.facts == facts,
{
    SnapshotRow {
        path: path.to_owned(),
        file_name: discovery::show_name(host, path),
        apparent_bytes: match apparent_bytes {
            Some(n) => n,
            None => 0,
        },
        allocated_bytes,
        facts,
    }
}

/// Whether a session can be resumed, and everything worth saying about it.
#[derive(Debug, PartialEq, Eq)]
pub struct Verdict {
    /// Reasons a resume is refused, each a sentence a person can act on.
    pub blocked: Vec<String>,
    /// True but not disqualifying.
    pub notes: Vec<String>,
}

impl Default for Verdict {
    fn default() -> (r: Verdict)
        ensures
            r.blocked@.len() == 0,
            r.notes@.len() == 0,
    {
        Verdict { blocked: Vec::new(), notes: Vec::new() }
    }
}

impl Verdict {
    pub fn resumable(&self) -> (r: bool)
        ensures
            r == (self.blocked@.len() == 0),
    {
        self.blocked.len() == 0
    }
}

/// Where a machine's saved session lives: beside the profile, named after the
/// machine.
pub open spec fn path_of(host: Host, vm: VmEntry) -> Seq<char> {
    paths::joined(
        host,
        match paths::parent_of(host, vm.profile_path@) {
            Some(dir) => dir,
            None => "."@,
        },
        vm.name@ + "."@ + EXTENSION@,
    )
}

/// Where a machine's saved session lives.
pub fn path_for(host: Host, vm: &VmEntry) -> (r: String)
    ensures
        r@ == path_of(host, *vm),
{
    let dir = match paths::parent(host, &vm.profile_path) {
        Some(dir) => dir,
        None => ".".to_owned(),
    };
    paths::join(host, &dir, &text::cat3(&vm.name, ".", EXTENSION))
}

pub open spec fn spec_host_of(backend: Backend, host: Host) -> Option<HostKind> {
    if backend.linux_kvm(host) {
        Some(HostKind::KvmLinux)
    } else if host == Host::Windows {
        Some(HostKind::WhpWindows)
    } else {
        None
    }
}

/// Which hypervisor a backend runs on, which is what a session is bound to.
pub fn host_of(backend: Backend, host: Host) -> (r: Option<HostKind>)
    ensures
        r == spec_host_of(backend, host),
{
    if backend.is_linux_kvm(host) {
        return Some(HostKind::KvmLinux);
    }
    if host.is_windows() {
        Some(HostKind::WhpWindows)
    } else {
        None
    }
}

/// The first field of the machine's shape that no longer matches.
pub open spec fn shape_changed(facts: SnapshotFacts, vm: VmEntry) -> Option<Seq<char>> {
    if facts.memory_bytes != vm.memory_mib << 20 {
        Some(
            "memory: was "@ + text::decimal_of((facts.memory_bytes >> 20) as nat) + " MiB, is "@
                + text::decimal_of(vm.memory_mib as nat) + " MiB"@,
        )
    } else if facts.vcpus != vm.vcpus {
        Some(
            "vCPUs: were "@ + text::decimal_of(facts.vcpus as nat) + ", are "@ + text::decimal_of(
                vm.vcpus as nat,
            ),
        )
    } else if facts.transport@ != vm.transport.spec_name() {
        Some(
            "virtio transport: was "@ + facts.transport@ + ", is "@ + vm.transport.spec_name(),
        )
    } else if facts.boot_mode@ != (if vm.uefi {
        "uefi"@
    } else {
        "direct-linux"@
    }) {
        Some(
            "boot mode: was "@ + facts.boot_mode@ + ", is "@ + (if vm.uefi {
                "uefi"@
            } else {
                "direct-linux"@
            }),
        )
    } else {
        None
    }
}

/// The first field of the machine's shape that no longer matches, in the words
/// the editor uses for it.
pub fn shape_change(facts: &SnapshotFacts, vm: &VmEntry) -> (r: Option<String>)
    ensures
        text::opt_text(r) == shape_changed(*facts, *vm),
        r is None <==> {
            &&& facts.memory_bytes == vm.memory_mib << 20
            &&& facts.vcpus == vm.vcpus
            &&& vm.transport == VirtioTransport::Pci ==> facts.transport@ == "pci"@
            &&& vm.transport == VirtioTransport::Mmio ==> facts.transport@ == "mmio"@
            &&& vm.uefi ==> facts.boot_mode@ == "uefi"@
            &&& !vm.uefi ==> facts.boot_mode@ == "direct-linux"@
        },
{
    if facts.memory_bytes != vm.memory_mib << 20 {
        return Some(
            text::cat5(
                "memory: was ",
                &text::decimal(facts.memory_bytes >> 20),
                " MiB, is ",
                &text::decimal(vm.memory_mib),
                " MiB",
            ),
        );
    }
    if facts.vcpus != vm.vcpus {
        return Some(
            text::cat4(
                "vCPUs: were ",
                &text::decimal(facts.vcpus as u64),
                ", are ",
                &text::decimal(vm.vcpus as u64),
            ),
        );
    }
    let transport = vm.transport.name();
    if !text::same(&facts.transport, transport) {
        return Some(text::cat4("virtio transport: was ", &facts.transport, ", is ", transport));
    }
    let boot_mode = if vm.uefi {
        "uefi"
    } else {
        "direct-linux"
    };
    if !text::same(&facts.boot_mode, boot_mode) {
        return Some(text::cat4("boot mode: was ", &facts.boot_mode, ", is ", boot_mode));
    }
    None
}

/// A path recorded by the engine is one this host could look at.
pub open spec fn is_nameable(path: Seq<char>, on_windows: bool) -> bool {
    if on_windows {
        path.len() >= 3 && text::is_letter(path[0]) && path[1] == ':' && (path[2] == '\\' || path[2]
            == '/')
    } else {
        path.len() > 0 && path[0] == '/'
    }
}

/// Whether a path recorded by the engine is one *this* host could even look at:
/// a machine run through WSL records `/mnt/d/vms/root.raw`, which a Windows
/// manager must not report as vanished.
pub fn nameable_here(path: &str, on_windows: bool) -> (r: bool)
    ensures
        r == is_nameable(path@, on_windows),
{
    let v = text::chars_of(path);
    if on_windows {
        v.len() >= 3 && text::letter(v[0]) && v[1] == ':' && (v[2] == '\\' || v[2] == '/')
    } else {
        v.len() > 0 && v[0] == '/'
    }
}

/// What one file of a session says: a reason against resuming it, a note, or
/// nothing.
pub open spec fn file_says(file: FileRecord, state: FileState, host: Host) -> (
    Seq<Seq<char>>,
    Seq<Seq<char>>,
) {
    let none = Seq::<Seq<char>>::empty();
    if !is_nameable(file.path@, host == Host::Windows) {
        (
            none,
            seq![
                "The "@ + file.role@ + " "@ + file.path@ + ELSEWHERE_NOTE@,
            ],
        )
    } else {
        match state {
            FileState::Unchanged => (none, none),
            FileState::Note(note) => (none, seq!["The "@ + note@ + SURVIVABLE_NOTE@]),
            FileState::Changed { path, what, snapshot, current } => (
                seq![
                    "The "@ + file.role@ + " "@ + path@ + " has changed since this was saved ("@
                        + what@ + ": was "@ + snapshot@ + ", is "@ + current@ + CORRUPTING_CHANGE@,
                ],
                none,
            ),
            FileState::Failed(message) => (seq![message@], none),
        }
    }
}

pub const ELSEWHERE_NOTE: &'static str =
    " is named the way the other engine sees it, so Entangled checks it \
     when the machine resumes rather than now.";
pub const SURVIVABLE_NOTE: &'static str =
    ". That is survivable — it is only re-read if the machine reboots.";
pub const CORRUPTING_CHANGE: &'static str =
    "). The suspended guest still holds that filesystem in its memory, so \
     resuming onto it would corrupt it.";
pub const FOREIGN_STATE: &'static str =
    ". A saved processor carries its own hypervisor's state, which the other one cannot load.";
pub const EDITED_SINCE: &'static str =
    "). A snapshot only goes back onto the machine it came off — put the setting back, or start \
     the machine fresh and delete this file.";
pub const CARRIES_PROFILE: &'static str =
    "' any more. Resuming still works — the snapshot carries its own copy of it.";

/// Why a session saved on one hypervisor cannot be resumed on another.
pub open spec fn foreign_host(saved: HostKind, here: HostKind, host: Host) -> Seq<char> {
    let message = "This was saved on "@ + saved.spec_name() + " and the machine is set to run on "@
        + here.spec_name() + FOREIGN_STATE@;
    if Backend::Wsl.available(host) {
        message + " Set this machine to run on \""@ + (if saved == HostKind::KvmLinux {
            "WSL (KVM)"@
        } else {
            Backend::Native.spec_label(host)
        }) + "\" and it will resume."@
    } else {
        message
    }
}

/// The reasons against and the notes that the recorded files give, in order.
pub open spec fn files_say(files: Seq<FileRecord>, states: Seq<FileState>, host: Host) -> (
    Seq<Seq<char>>,
    Seq<Seq<char>>,
)
    decreases files.len(),
{
    if files.len() == 0 {
        (Seq::empty(), Seq::empty())
    } else {
        let (blocked, notes) = files_say(files.drop_last(), states.drop_last(), host);
        let (b, n) = file_says(files.last(), states.last(), host);
        (blocked + b, notes + n)
    }
}

/// Why a session's hypervisor stands against resuming it, if it does.
pub open spec fn host_blocks(facts: SnapshotFacts, backend: Backend, host: Host) -> Seq<Seq<char>> {
    match spec_host_of(backend, host) {
        Some(here) => if here != facts.host {
            seq![foreign_host(facts.host, here, host)]
        } else {
            Seq::empty()
        },
        None => Seq::empty(),
    }
}

/// Why the machine's profile stands against resuming it, if it does.
pub open spec fn shape_blocks(facts: SnapshotFacts, profile: Option<VmEntry>) -> Seq<Seq<char>> {
    match profile {
        Some(vm) => match shape_changed(facts, vm) {
            Some(change) => seq![
                "'"@ + facts.vm_name@ + "' has been changed since this was saved ("@ + change
                    + EDITED_SINCE@,
            ],
            None => Seq::empty(),
        },
        None => Seq::empty(),
    }
}

/// What a missing profile adds to the notes.
pub open spec fn profile_notes(facts: SnapshotFacts, profile: Option<VmEntry>) -> Seq<Seq<char>> {
    match profile {
        Some(_) => Seq::empty(),
        None => seq![
            "There is no machine profile named '"@ + facts.vm_name@ + CARRIES_PROFILE@,
        ],
    }
}

/// Everything standing between a session and a resume, and everything else
/// worth saying.
pub open spec fn verdict_of(
    row: SnapshotRow,
    backend: Backend,
    profile: Option<VmEntry>,
    states: Seq<FileState>,
    host: Host,
) -> (Seq<Seq<char>>, Seq<Seq<char>>) {
    match row.facts {
        Err(error) => (
            seq!["This file cannot be read by this version of Entangled: "@ + error@],
            Seq::empty(),
        ),
        Ok(facts) => {
            let (b, n) = files_say(facts.files@, states, host);
            (
                host_blocks(facts, backend, host) + shape_blocks(facts, profile) + b,
                profile_notes(facts, profile) + n,
            )
        },
    }
}

/// The profile that a verdict is taken against.
pub open spec fn entry_of(profile: Option<&VmEntry>) -> Option<VmEntry> {
    match profile {
        Some(vm) => Some(*vm),
        None => None,
    }
}

/// Everything standing between this session and a resume. `states` says how each
/// recorded file compares with its record now.
///
/// `profile` is the machine as it is on disk now, when one of that name still
/// exists. A session carries its own copy of the profile, so a missing one is a
/// note rather than a refusal; a profile that has been edited is a refusal.
pub fn verdict(
    row: &SnapshotRow,
    backend: Backend,
    profile: Option<&VmEntry>,
    states: &Vec<FileState>,
    host: Host,
) -> (r: Verdict)
    requires
        row.facts matches Ok(f) ==> states@.len() == f.files@.len(),
    ensures
        (text::texts(r.blocked@), text::texts(r.notes@)) == verdict_of(
            *row,
            backend,
            entry_of(profile),
            states@,
            host,
        ),
        r.blocked@.len() == 0 ==> row.facts is Ok,
        r.blocked@.len() == 0 && (backend == Backend::Wsl || host == Host::Linux)
            ==> row.facts->Ok_0.host == HostKind::KvmLinux,
        r.blocked@.len() == 0 && backend == Backend::Native && host == Host::Windows
            ==> row.facts->Ok_0.host == HostKind::WhpWindows,
        r.blocked@.len() == 0 && profile is Some ==> {
            &&& row.facts->Ok_0.memory_bytes == profile->0.memory_mib << 20
            &&& row.facts->Ok_0.vcpus == profile->0.vcpus
            &&& profile->0.transport == VirtioTransport::Pci ==> row.facts->Ok_0.transport@
                == "pci"@
            &&& profile->0.transport == VirtioTransport::Mmio ==> row.facts->Ok_0.transport@
                == "mmio"@
            &&& profile->0.uefi ==> row.facts->Ok_0.boot_mode@ == "uefi"@
            &&& !profile->0.uefi ==> row.facts->Ok_0.boot_mode@ == "direct-linux"@
        },
        r.blocked@.len() == 0 ==> forall|i: int|
            0 <= i < row.facts->Ok_0.files@.len() && is_nameable(
                (#[trigger] row.facts->Ok_0.files@[i]).path@,
                host == Host::Windows,
            ) ==> states@[i] is Unchanged || states@[i] is Note,
{
    let mut blocked: Vec<String> = Vec::new();
    let mut notes: Vec<String> = Vec::new();
    let facts = match &row.facts {
        Ok(facts) => facts,
        Err(error) => {
            blocked.push(
                text::cat("This file cannot be read by this version of Entangled: ", error),
            );
            proof {
                assert(text::texts(blocked@) =~= seq![
                    "This file cannot be read by this version of Entangled: "@ + error@,
                ]);
                assert(text::texts(notes@) =~= Seq::empty());
            }
            return Verdict { blocked, notes };
        },
    };
    if let Some(here) = host_of(backend, host) {
        if here != facts.host {
            let mut message = text::cat5(
                "This was saved on ",
                facts.host.as_str(),
                " and the machine is set to run on ",
                here.as_str(),
                FOREIGN_STATE,
            );
            if Backend::Wsl.available_on_host(host) {
                let fix = match facts.host {
                    HostKind::KvmLinux => "WSL (KVM)",
                    HostKind::WhpWindows => Backend::Native.label(host),
                };
                message.append(" Set this machine to run on \"");
                message.append(fix);
                message.append("\" and it will resume.");
            }
            blocked.push(message);
        }
    }
    proof {
        assert(text::texts(blocked@) =~= host_blocks(*facts, backend, host));
    }
    let ghost hosts = text::texts(blocked@);
    match profile {
        None => {
            notes.push(
                text::cat3(
                    "There is no machine profile named '",
                    &facts.vm_name,
                    CARRIES_PROFILE,
                ),
            );
        },
        Some(vm) => {
            if let Some(change) = shape_change(facts, vm) {
                blocked.push(
                    text::cat5(
                        "'",
                        &facts.vm_name,
                        "' has been changed since this was saved (",
                        &change,
                        EDITED_SINCE,
                    ),
                );
            }
        },
    }
    proof {
        assert(text::texts(blocked@) =~= hosts + shape_blocks(*facts, entry_of(profile)));
        assert(text::texts(notes@) =~= profile_notes(*facts, entry_of(profile)));
    }
    let ghost head_b = text::texts(blocked@);
    let ghost head_n = text::texts(notes@);
    let mut i: usize = 0;
    proof {
        let start = files_say(facts.files@.take(0), states@.take(0), host);
        assert(head_b + start.0 =~= head_b);
        assert(head_n + start.1 =~= head_n);
    }
    while i < facts.files.len()
        invariant
            states@.len() == facts.files@.len(),
            i <= facts.files@.len(),
            text::texts(blocked@) == head_b + files_say(
                facts.files@.take(i as int),
                states@.take(i as int),
                host,
            ).0,
            text::texts(notes@) == head_n + files_say(
                facts.files@.take(i as int),
                states@.take(i as int),
                host,
            ).1,
        decreases facts.files@.len() - i,
    {
        let ghost bs = text::texts(blocked@);
        let ghost ns = text::texts(notes@);
        let ghost said = file_says(facts.files@[i as int], states@[i as int], host);
        let ghost so_far = files_say(facts.files@.take(i as int), states@.take(i as int), host);
        proof {
            assert(facts.files@.take(i + 1).drop_last() =~= facts.files@.take(i as int));
            assert(states@.take(i + 1).drop_last() =~= states@.take(i as int));
        }
        let file = &facts.files[i];
        if !nameable_here(&file.path, host.is_windows()) {
            notes.push(text::cat5("The ", &file.role, " ", &file.path, ELSEWHERE_NOTE));
        } else {
            match &states[i] {
                FileState::Unchanged => {},
                FileState::Note(note) => {
                    notes.push(text::cat3("The ", note, SURVIVABLE_NOTE));
                },
                FileState::Changed { path, what, snapshot, current } => {
                    let mut m = text::cat5(
                        "The ",
                        &file.role,
                        " ",
                        path,
                        " has changed since this was saved (",
                    );
                    m.append(what);
                    m.append(": was ");
                    m.append(snapshot);
                    m.append(", is ");
                    m.append(current);
                    m.append(CORRUPTING_CHANGE);
                    blocked.push(m);
                },
                FileState::Failed(message) => {
                    blocked.push(message.clone());
                },
            }
        }
        proof {
            assert(text::texts(blocked@) =~= bs + said.0);
            assert(text::texts(notes@) =~= ns + said.1);
            assert(head_b + so_far.0 + said.0 =~= head_b + (so_far.0 + said.0));
            assert(head_n + so_far.1 + said.1 =~= head_n + (so_far.1 + said.1));
        }
        i = i + 1;
    }
    proof {
        assert(facts.files@.take(i as int) =~= facts.files@);
        assert(states@.take(i as int) =~= states@);
        sessions::what_resumes_is_what_was_saved(*row, backend, entry_of(profile), states@, host);
        assert(text::texts(blocked@).len() == blocked@.len());
        assert(verdict_of(*row, backend, entry_of(profile), states@, host).0 =~= text::texts(
            blocked@,
        ));
    }
    Verdict { blocked, notes }
}

/// A missing profile is never a reason against: without one, the only reasons
/// are the hypervisor and the files.
pub proof fn a_missing_profile_blocks_nothing(
    row: SnapshotRow,
    backend: Backend,
    states: Seq<FileState>,
    host: Host,
)
    requires
        row.facts is Ok,
        spec_host_of(backend, host) == Some(row.facts->Ok_0.host) || spec_host_of(backend, host) is None,
        row.facts->Ok_0.files@.len() == 0,
    ensures
        verdict_of(row, backend, None, states, host).0.len() == 0,
        verdict_of(row, backend, None, states, host).1.len() == 1,
{
}

/// The sentence a delete confirmation puts under the title; `taken` is when the
/// session was saved, in words.
pub fn what_is_lost(row: &SnapshotRow, taken: &str) -> (r: String)
    ensures
        r@ == match row.facts {
            Ok(f) => "'"@ + f.vm_name@ + "' as it was at "@ + taken@ + LOST_WITH_SESSION@,
            Err(_) => "A snapshot this build cannot read. Nothing else is touched."@,
        },
{
    match &row.facts {
        Ok(f) => text::cat5("'", &f.vm_name, "' as it was at ", taken, LOST_WITH_SESSION),
        Err(_) => "A snapshot this build cannot read. Nothing else is touched.".to_owned(),
    }
}

pub const LOST_WITH_SESSION: &'static str =
    " — everything it had open, and everything it was in the \
     middle of. Its disks and its profile are untouched, so the machine will cold-boot \
     the next time it starts.";

} // verus!
