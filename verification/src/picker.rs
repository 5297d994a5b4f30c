//! File and folder pickers: what each dialog asks for, and where it opens.
//!
//! A picker is the easy path, not the only one: every path in the product
//! remains typeable.
use crate::host::Host;
use crate::paths;
use crate::text;
use vstd::prelude::*;

verus! {

/// Which field a picked path belongs to.
#[derive(Debug, Clone, Copy, PartialEq, Eq, Structural)]
pub enum PickTarget {
    /// Where machines are kept.
    VmDir,
    /// The engine.
    EngineBinary,
    /// The working directory children inherit.
    WorkDir,
    /// A new machine's optional installer image.
    WizardIso,
    /// A new machine's existing disk image.
    WizardDisk,
    EditorKernel,
    EditorInitramfs,
    EditorFirmware,
    EditorNvram,
    EditorCdrom,
    EditorAddDisk,
    MoveDestination,
}

/// What kind of thing the dialog asks for.
#[derive(Debug, Clone, Copy, PartialEq, Eq, Structural)]
pub enum Kind {
    File,
    Directory,
}

/// The files a dialog shows first.
#[derive(Debug, Clone, Copy, PartialEq, Eq, Structural)]
pub enum FileFilter {
    DiskImages,
    InstallerImages,
    Firmware,
    VariableStores,
}

pub const DISK_FILTER: FileFilter = FileFilter::DiskImages;
pub const ISO_FILTER: FileFilter = FileFilter::InstallerImages;
pub const FIRMWARE_FILTER: FileFilter = FileFilter::Firmware;
pub const NVRAM_FILTER: FileFilter = FileFilter::VariableStores;

impl FileFilter {
    pub open spec fn spec_label(self) -> Seq<char> {
        match self {
            FileFilter::DiskImages => "Disk images"@,
            FileFilter::InstallerImages => "Installer images"@,
            FileFilter::Firmware => "UEFI firmware"@,
            FileFilter::VariableStores => "UEFI variable stores"@,
        }
    }

    /// The filter's name in the dialog.
    pub fn label(self) -> (r: &'static str)
        ensures
            r@ == self.spec_label(),
    {
        match self {
            FileFilter::DiskImages => "Disk images",
            FileFilter::InstallerImages => "Installer images",
            FileFilter::Firmware => "UEFI firmware",
            FileFilter::VariableStores => "UEFI variable stores",
        }
    }

    pub open spec fn spec_extensions(self) -> Seq<Seq<char>> {
        match self {
            FileFilter::DiskImages => seq!["raw"@, "img"@],
            FileFilter::InstallerImages => seq!["iso"@],
            FileFilter::Firmware => seq!["fd"@, "bin"@, "rom"@],
            FileFilter::VariableStores => seq!["nvram"@, "fd"@],
        }
    }

    /// The extensions it shows.
    pub fn extensions(self) -> (r: Vec<String>)
        ensures
            text::texts(r@) == self.spec_extensions(),
    {
        let list = match self {
            FileFilter::DiskImages => vec!["raw".to_owned(), "img".to_owned()],
            FileFilter::InstallerImages => vec!["iso".to_owned()],
            FileFilter::Firmware => vec!["fd".to_owned(), "bin".to_owned(), "rom".to_owned()],
            FileFilter::VariableStores => vec!["nvram".to_owned(), "fd".to_owned()],
        };
        assert(text::texts(list@) =~= self.spec_extensions());
        list
    }
}

/// Title, kind and filter of a dialog. Without a filter it shows every file.
#[derive(Debug, Clone, Copy, PartialEq, Eq)]
pub struct Spec {
    pub title: &'static str,
    pub kind: Kind,
    pub filter: Option<FileFilter>,
}

pub open spec fn title_of(target: PickTarget) -> Seq<char> {
    match target {
        PickTarget::VmDir => "Where your machines are kept"@,
        PickTarget::EngineBinary => "Locate the Entangled engine"@,
        PickTarget::WorkDir => "Working directory for machines"@,
        PickTarget::WizardIso => "Choose an installer image"@,
        PickTarget::WizardDisk | PickTarget::EditorAddDisk => "Choose a disk image"@,
        PickTarget::EditorKernel => "Choose a Linux kernel image"@,
        PickTarget::EditorInitramfs => "Choose an initramfs"@,
        PickTarget::EditorFirmware => "Choose the UEFI firmware"@,
        PickTarget::EditorNvram => "Choose this machine's UEFI settings file"@,
        PickTarget::EditorCdrom => "Choose an installer disc image"@,
        PickTarget::MoveDestination => "Move the disk image to"@,
    }
}

pub open spec fn kind_of(target: PickTarget) -> Kind {
    match target {
        PickTarget::VmDir | PickTarget::WorkDir | PickTarget::MoveDestination => Kind::Directory,
        _ => Kind::File,
    }
}

pub open spec fn filter_of(target: PickTarget) -> Option<FileFilter> {
    match target {
        PickTarget::WizardIso | PickTarget::EditorCdrom => Some(ISO_FILTER),
        PickTarget::WizardDisk | PickTarget::EditorAddDisk => Some(DISK_FILTER),
        PickTarget::EditorFirmware => Some(FIRMWARE_FILTER),
        PickTarget::EditorNvram => Some(NVRAM_FILTER),
        _ => None,
    }
}

/// What the dialog for a field asks for.
pub fn spec(target: PickTarget) -> (r: Spec)
    ensures
        r.title@ == title_of(target),
        r.kind == kind_of(target),
        r.filter == filter_of(target),
{
    match target {
        PickTarget::VmDir => Spec {
            title: "Where your machines are kept",
            kind: Kind::Directory,
            filter: None,
        },
        PickTarget::EngineBinary => Spec {
            title: "Locate the Entangled engine",
            kind: Kind::File,
            filter: None,
        },
        PickTarget::WorkDir => Spec {
            title: "Working directory for machines",
            kind: Kind::Directory,
            filter: None,
        },
        PickTarget::WizardIso => Spec {
            title: "Choose an installer image",
            kind: Kind::File,
            filter: Some(ISO_FILTER),
        },
        PickTarget::WizardDisk | PickTarget::EditorAddDisk => Spec {
            title: "Choose a disk image",
            kind: Kind::File,
            filter: Some(DISK_FILTER),
        },
        PickTarget::EditorKernel => Spec {
            title: "Choose a Linux kernel image",
            kind: Kind::File,
            filter: None,
        },
        PickTarget::EditorInitramfs => Spec {
            title: "Choose an initramfs",
            kind: Kind::File,
            filter: None,
        },
        PickTarget::EditorFirmware => Spec {
            title: "Choose the UEFI firmware",
            kind: Kind::File,
            filter: Some(FIRMWARE_FILTER),
        },
        PickTarget::EditorNvram => Spec {
            title: "Choose this machine's UEFI settings file",
            kind: Kind::File,
            filter: Some(NVRAM_FILTER),
        },
        PickTarget::EditorCdrom => Spec {
            title: "Choose an installer disc image",
            kind: Kind::File,
            filter: Some(ISO_FILTER),
        },
        PickTarget::MoveDestination => Spec {
            title: "Move the disk image to",
            kind: Kind::Directory,
            filter: None,
        },
    }
}

/// Which of the places a dialog may open in are directories.
#[derive(Debug, PartialEq, Eq)]
pub struct DirFacts {
    /// What the field names.
    pub current: bool,
    /// What holds it.
    pub parent: bool,
    /// The fallback, and each directory above it in turn.
    pub fallback: Vec<bool>,
}

/// The nearest of `chain` that is a directory, or the working directory.
pub open spec fn nearest(chain: Seq<Seq<char>>, exist: Seq<bool>) -> Seq<char>
    decreases chain.len(),
{
    if chain.len() == 0 || exist.len() == 0 {
        "."@
    } else if exist[0] {
        chain[0]
    } else {
        nearest(chain.drop_first(), exist.drop_first())
    }
}

/// Where a dialog opens.
pub open spec fn start_of(
    host: Host,
    current: Seq<char>,
    fallback: Seq<char>,
    facts: DirFacts,
) -> Seq<char> {
    let named = text::trim_of(current);
    if named.len() > 0 && facts.current {
        named
    } else if named.len() > 0 && paths::parent_of(host, named) is Some && facts.parent {
        paths::parent_of(host, named)->0
    } else if facts.fallback@.len() > 0 && facts.fallback@[0] {
        fallback
    } else {
        nearest(paths::ancestors_of(host, fallback), facts.fallback@)
    }
}

fn nearest_dir(chain: &Vec<String>, exist: &Vec<bool>) -> (r: String)
    ensures
        r@ == nearest(text::texts(chain@), exist@),
{
    let ghost all = text::texts(chain@);
    let mut i: usize = 0;
    proof {
        assert(all.skip(0) =~= all);
        assert(exist@.skip(0) =~= exist@);
    }
    while i < chain.len() && i < exist.len()
        invariant
            all == text::texts(chain@),
            i <= all.len(),
            i <= exist@.len(),
            nearest(all, exist@) == nearest(all.skip(i as int), exist@.skip(i as int)),
        decreases chain@.len() - i,
    {
        proof {
            assert(all.skip(i as int).drop_first() =~= all.skip(i + 1));
            assert(exist@.skip(i as int).drop_first() =~= exist@.skip(i + 1));
            assert(all.skip(i as int)[0] == chain@[i as int]@);
            assert(exist@.skip(i as int)[0] == exist@[i as int]);
        }
        if exist[i] {
            return chain[i].clone();
        }
        i = i + 1;
    }
    ".".to_owned()
}

/// The directory a dialog should open in, given what the field holds and a
/// fallback: next to what the field names, else the fallback, else the nearest
/// directory above it that exists. A machine directory that was not created yet
/// is the normal case on a fresh installation.
pub fn start_directory(host: Host, current: &str, fallback: &str, facts: &DirFacts) -> (r: String)
    ensures
        r@ == start_of(host, current@, fallback@, *facts),
{
    let named = text::trim(current);
    if !named.as_str().is_empty() {
        if facts.current {
            return named;
        }
        if let Some(parent) = paths::parent(host, &named) {
            if facts.parent {
                return parent;
            }
        }
    }
    if facts.fallback.len() > 0 && facts.fallback[0] {
        return fallback.to_owned();
    }
    nearest_dir(&paths::ancestors(host, fallback), &facts.fallback)
}

/// The file name part of what a field holds, for seeding a dialog.
pub fn file_name_of(host: Host, current: &str) -> (r: Option<String>)
    ensures
        text::opt_text(r) == paths::file_name_of(host, text::trim_of(current@)),
{
    paths::file_name(host, &text::trim(current))
}

} // verus!
