//! The other surfaces: notices, disks, saved sessions, the console and the host
//! report.
use crate::backend::Backend;
use crate::cards;
use crate::cards::{Line, LineView, PARAGRAPH, STOP_THE_MACHINE};
use crate::discovery;
use crate::discovery::{DiskAttachment, DiskRow, ScanProblem, VmEntry};
use crate::host::Host;
use crate::hostcheck::Level;
use crate::launcher::DiskMode;
use crate::metrics;
use crate::moving;
use crate::paths;
use crate::picker::PickTarget;
use crate::process;
use crate::process::{Task, TaskState};
use crate::snapshots::{FileState, SnapshotRow};
use crate::state;
use crate::state::{Action, ManagerApp, PendingInstall, Status};
use crate::text;
use crate::update::UpdateInfo;
use crate::wording;
use crate::wording::{Button, ButtonView, Chip, ChipView, Ink};
use vstd::prelude::*;

verus! {

// ---------------------------------------------------------------------------
// Notices
// ---------------------------------------------------------------------------

/// A notice across the surface, with at most one thing to do about it.
pub struct Banner {
    pub text: String,
    pub ink: Ink,
    pub button: Option<Button>,
}

/// A notice as plain values.
pub ghost struct BannerView {
    pub text: Seq<char>,
    pub ink: Ink,
    pub button: Option<ButtonView>,
}

impl View for Banner {
    type V = BannerView;

    open spec fn view(&self) -> BannerView {
        BannerView {
            text: self.text@,
            ink: self.ink,
            button: match self.button {
                Some(b) => Some(b@),
                None => None,
            },
        }
    }
}

/// The notices as plain values.
pub open spec fn banners_of(banners: Seq<Banner>) -> Seq<BannerView> {
    banners.map_values(|b: Banner| b@)
}

/// The notices: the problem at the start, the failed scan and the missing engine.
/// A missing engine is a problem with a fix, not a field to fill in.
pub open spec fn notices(app: ManagerApp, dir_exists: bool) -> Seq<BannerView> {
    let start = match app.startup_warning {
        Some(w) => seq![BannerView { text: w@, ink: Ink::Warn, button: None }],
        None => Seq::empty(),
    };
    let scan = match app.scanner.error {
        Some(e) => start.push(
            BannerView {
                text: e@,
                ink: Ink::Bad,
                button: if dir_exists {
                    None
                } else {
                    Some(
                        wording::ghost_view(
                            "Create directory"@,
                            ""@,
                            true,
                            Ink::Bad,
                            Action::CreateVmDir,
                        ),
                    )
                },
            },
        ),
        None => start,
    };
    match app.engine {
        Err(e) => scan.push(
            BannerView {
                text: e@,
                ink: Ink::Bad,
                button: Some(
                    wording::ghost_view(
                        "Locate it…"@,
                        ""@,
                        true,
                        Ink::Bad,
                        Action::PickPath(PickTarget::EngineBinary),
                    ),
                ),
            },
        ),
        Ok(_) => scan,
    }
}

fn add_banner(banners: &mut Vec<Banner>, text: String, ink: Ink, button: Option<Button>)
    ensures
        banners_of(final(banners)@) == banners_of(old(banners)@).push(
            (BannerView {
                text: text@,
                ink,
                button: match button {
                    Some(b) => Some(b@),
                    None => None,
                },
            }),
        ),
{
    let ghost before = banners_of(banners@);
    let banner = Banner { text, ink, button };
    let ghost shown = banner@;
    banners.push(banner);
    assert(banners_of(banners@) =~= before.push(shown));
}

/// The notices that every surface shows. `dir_exists` tells whether the machine
/// directory is there.
pub fn banners(app: &ManagerApp, dir_exists: bool) -> (r: Vec<Banner>)
    ensures
        banners_of(r@) == notices(*app, dir_exists),
{
    let mut r: Vec<Banner> = Vec::new();
    if let Some(w) = &app.startup_warning {
        add_banner(&mut r, w.clone(), Ink::Warn, None);
    }
    if let Some(e) = &app.scanner.error {
        let button = if dir_exists {
            None
        } else {
            Some(
                wording::ghost_button("Create directory", "", true, Ink::Bad, Action::CreateVmDir),
            )
        };
        add_banner(&mut r, e.clone(), Ink::Bad, button);
    }
    if let Err(e) = &app.engine {
        let button = wording::ghost_button(
            "Locate it…",
            "",
            true,
            Ink::Bad,
            Action::PickPath(PickTarget::EngineBinary),
        );
        add_banner(&mut r, e.clone(), Ink::Bad, Some(button));
    }
    assert(banners_of(r@) =~= notices(*app, dir_exists));
    r
}

/// The buttons of the notice about a newer release. The installer runs on Windows
/// alone; elsewhere the release page is offered.
pub open spec fn offer_buttons(host: Host, info: UpdateInfo, downloading: bool) -> Seq<ButtonView> {
    seq![
        wording::ghost_view("Skip"@, ""@, !downloading, Ink::Dim, Action::DismissUpdate),
        if host == Host::Windows && info.installer_url is Some {
            wording::ghost_view(
                if downloading {
                    "Downloading…"@
                } else {
                    "Download & install"@
                },
                cards::INSTALL_HINT@,
                !downloading,
                Ink::Cyan,
                Action::InstallUpdate,
            )
        } else {
            wording::ghost_view("Release page"@, ""@, true, Ink::Cyan, Action::OpenReleasePage)
        },
    ]
}

/// The notice about a newer release.
pub struct Offer {
    pub title: String,
    pub note: String,
    pub buttons: Vec<Button>,
}

/// The notice about a newer release, if there is one.
pub fn update_banner(app: &ManagerApp) -> (r: Option<Offer>)
    ensures
        match app.update.offer {
            None => r is None,
            Some(info) => r matches Some(offer) && offer.title@ == "Entangled Desktop v"@
                + info.version.spec_text() && offer.note@ == "is available — this is v"@
                + app.version@ && wording::buttons_of(offer.buttons@) == offer_buttons(
                app.host,
                info,
                app.update.downloading,
            ),
        },
{
    let info = match &app.update.offer {
        Some(info) => info,
        None => return None,
    };
    let downloading = app.update.downloading;
    let mut buttons: Vec<Button> = Vec::new();
    wording::add_button(
        &mut buttons,
        wording::ghost_button("Skip", "", !downloading, Ink::Dim, Action::DismissUpdate),
    );
    if app.host.is_windows() && info.installer_url.is_some() {
        let label = if downloading {
            "Downloading…"
        } else {
            "Download & install"
        };
        wording::add_button(
            &mut buttons,
            wording::ghost_button(
                label,
                cards::INSTALL_HINT,
                !downloading,
                Ink::Cyan,
                Action::InstallUpdate,
            ),
        );
    } else {
        wording::add_button(
            &mut buttons,
            wording::ghost_button("Release page", "", true, Ink::Cyan, Action::OpenReleasePage),
        );
    }
    assert(wording::buttons_of(buttons@) =~= offer_buttons(app.host, *info, downloading));
    Some(
        Offer {
            title: text::cat("Entangled Desktop v", &info.version.text()),
            note: text::cat("is available — this is v", &app.version),
            buttons,
        },
    )
}

// ---------------------------------------------------------------------------
// The machine grid
// ---------------------------------------------------------------------------

/// The machines that are busy.
pub open spec fn busy_count(app: ManagerApp, vms: Seq<VmEntry>) -> nat
    decreases vms.len(),
{
    if vms.len() == 0 {
        0
    } else {
        busy_count(app, vms.drop_last()) + (if app.spec_busy(vms.last().name@) {
            1nat
        } else {
            0
        })
    }
}

/// How many machines are busy.
pub fn active_machines(app: &ManagerApp) -> (r: usize)
    requires
        app.wf(),
    ensures
        r == busy_count(*app, app.scan.vms@),
{
    let ghost all = app.scan.vms@;
    let mut r: usize = 0;
    let mut i: usize = 0;
    assert(all.take(0) =~= Seq::<VmEntry>::empty());
    while i < app.scan.vms.len()
        invariant
            app.wf(),
            all == app.scan.vms@,
            r <= i <= all.len(),
            r == busy_count(*app, all.take(i as int)),
        decreases all.len() - i,
    {
        proof {
            assert(all.take(i + 1).drop_last() =~= all.take(i as int));
            assert(all.take(i + 1).last() == all[i as int]);
        }
        if app.is_busy(&app.scan.vms[i].name) {
            r = r + 1;
        }
        i = i + 1;
    }
    assert(all.take(i as int) =~= all);
    r
}

/// A pending installation gets a card of its own until its machine is there.
pub fn shows_pending(app: &ManagerApp, pending: &PendingInstall) -> (r: bool)
    ensures
        r == (app.spec_vm(pending.name@) is None),
{
    app.vm(&pending.name).is_none()
}

/// The chips of a pending installation.
pub open spec fn pending_chips(p: PendingInstall) -> Seq<ChipView> {
    seq![
        wording::chip_view(text::decimal_of(p.machine.memory_mib as nat) + " MiB"@, Ink::Cyan),
        wording::chip_view(text::decimal_of(p.machine.vcpus as nat) + " vCPU"@, Ink::Violet),
        wording::chip_view(
            if p.machine.disk_mode == DiskMode::CreateNew {
                text::decimal_of(p.machine.disk_gib as nat) + " GiB disk"@
            } else {
                "existing disk"@
            },
            Ink::Dim,
        ),
        wording::chip_view(p.machine.family.spec_label(), Ink::Good),
    ]
}

/// The buttons of a pending installation.
pub open spec fn pending_buttons(app: ManagerApp, p: PendingInstall) -> Seq<ButtonView> {
    let abort = seq![
        wording::ghost_view(
            "Abort"@,
            ""@,
            process::busy_in(app.supervisor.tasks@, p.name@),
            Ink::Bad,
            Action::Stop(p.name),
        ),
    ];
    match state::newest_of(app.supervisor.tasks@, p.name@) {
        Some(t) => abort.push(
            wording::ghost_view("View activity"@, ""@, true, Ink::Cyan, Action::SelectLog(t.id)),
        ),
        None => abort,
    }
}

/// The card of a pending installation.
pub struct PendingCard {
    pub title: String,
    pub status: Status,
    pub accent: u32,
    pub chips: Vec<Chip>,
    pub note: String,
    pub buttons: Vec<Button>,
}

/// The card of a pending installation.
pub fn pending_card(app: &ManagerApp, p: &PendingInstall) -> (r: PendingCard)
    ensures
        r.title == p.name,
        r.status == Status::Installing,
        r.accent == wording::sum_of(vstd::utf8::encode_utf8(p.name@)) % 100,
        wording::chips_of(r.chips@) == pending_chips(*p),
        r.note@ == p.machine.family.spec_label()
            + " installer is running — this card becomes a machine when it finishes"@,
        wording::buttons_of(r.buttons@) == pending_buttons(*app, *p),
{
    let m = &p.machine;
    let mut chips: Vec<Chip> = Vec::new();
    wording::add_chip(&mut chips, text::cat(&text::decimal(m.memory_mib), " MiB"), Ink::Cyan);
    wording::add_chip(
        &mut chips,
        text::cat(&text::decimal(m.vcpus as u64), " vCPU"),
        Ink::Violet,
    );
    let disk = match m.disk_mode {
        DiskMode::CreateNew => text::cat(&text::decimal(m.disk_gib), " GiB disk"),
        _ => "existing disk".to_owned(),
    };
    wording::add_chip(&mut chips, disk, Ink::Dim);
    wording::add_chip(&mut chips, m.family.label().to_owned(), Ink::Good);
    assert(wording::chips_of(chips@) =~= pending_chips(*p));
    let mut buttons: Vec<Button> = Vec::new();
    wording::add_button(
        &mut buttons,
        wording::ghost_button(
            "Abort",
            "",
            app.supervisor.is_busy(&p.name),
            Ink::Bad,
            Action::Stop(p.name.clone()),
        ),
    );
    match app.supervisor.newest_index(&p.name) {
        Some(i) => {
            proof {
                state::lemma_newest(app.supervisor.tasks@, p.name@, i as int);
            }
            wording::add_button(
                &mut buttons,
                wording::ghost_button(
                    "View activity",
                    "",
                    true,
                    Ink::Cyan,
                    Action::SelectLog(app.supervisor.tasks[i].id),
                ),
            );
        },
        None => {
            proof {
                state::lemma_no_newest(app.supervisor.tasks@, p.name@);
            }
        },
    }
    assert(wording::buttons_of(buttons@) =~= pending_buttons(*app, *p));
    PendingCard {
        title: p.name.clone(),
        status: Status::Installing,
        accent: wording::accent_for(&p.name),
        chips,
        note: text::cat(
            m.family.label(),
            " installer is running — this card becomes a machine when it finishes",
        ),
        buttons,
    }
}

/// What is said of a profile that could not be read.
pub fn problem_line(host: Host, problem: &ScanProblem) -> (r: String)
    ensures
        r@ == (match paths::file_name_of(host, problem.path@) {
            Some(name) => name,
            None => problem.path@,
        }) + ": "@ + problem.message@,
{
    let name = match paths::file_name(host, &problem.path) {
        Some(name) => name,
        None => problem.path.clone(),
    };
    text::cat3(&name, ": ", &problem.message)
}

// ---------------------------------------------------------------------------
// Disks
// ---------------------------------------------------------------------------

pub const DELETE_DISK_HINT: &'static str = "Remove the image (and its .nvram sidecar)";
pub const MOVE_DISK_HINT: &'static str =
    "Relocate the image (and its .nvram sidecar) to another directory or drive — sparse-preserving, verified";
pub const ATTACH_HINT: &'static str = "Add this image to a stopped machine's profile";
pub const REVEAL_HINT: &'static str = "Show the file in the system file manager";

/// Characters of a path that a row shows.
pub const ROW_PATH_ROOM: usize = 72;
/// Characters of a directory that a chip shows.
pub const DIR_ROOM: usize = 34;

/// The directories that hold images, the machine directory first, each once.
pub open spec fn image_dirs(host: Host, vm_dir: Seq<char>, rows: Seq<DiskRow>) -> Seq<Seq<char>>
    decreases rows.len(),
{
    if rows.len() == 0 {
        seq![vm_dir]
    } else {
        let init = image_dirs(host, vm_dir, rows.drop_last());
        match paths::parent_of(host, rows.last().path@) {
            Some(dir) => if moving::among(host, init, dir) {
                init
            } else {
                init.push(dir)
            },
            None => init,
        }
    }
}

/// The directories whose free space the disks surface tells.
pub fn storage_dirs(app: &ManagerApp) -> (r: Vec<String>)
    ensures
        text::texts(r@) == image_dirs(app.host, app.settings.vm_dir@, app.scan.disks@),
{
    let ghost all = app.scan.disks@;
    let mut r: Vec<String> = Vec::new();
    r.push(app.settings.vm_dir.clone());
    let mut i: usize = 0;
    proof {
        assert(all.take(0) =~= Seq::<DiskRow>::empty());
        assert(text::texts(r@) =~= seq![app.settings.vm_dir@]);
    }
    while i < app.scan.disks.len()
        invariant
            all == app.scan.disks@,
            i <= all.len(),
            text::texts(r@) == image_dirs(app.host, app.settings.vm_dir@, all.take(i as int)),
        decreases all.len() - i,
    {
        proof {
            assert(all.take(i + 1).drop_last() =~= all.take(i as int));
            assert(all.take(i + 1).last() == all[i as int]);
        }
        if let Some(dir) = paths::parent(app.host, &app.scan.disks[i].path) {
            if !moving::is_among(app.host, &r, &dir) {
                let ghost shown = text::texts(r@);
                let ghost d = dir@;
                r.push(dir);
                assert(text::texts(r@) =~= shown.push(d));
            }
        }
        i = i + 1;
    }
    assert(all.take(i as int) =~= all);
    r
}

/// The chip that tells the free space of a directory.
pub fn space_chip(dir: &str, free: u64, total: u64) -> (r: Chip)
    ensures
        r.text@ == wording::tail_of(dir@, DIR_ROOM as nat) + " — "@ + discovery::bytes_shown(
            free as nat,
        ) + " free of "@ + discovery::bytes_shown(total as nat),
        r.ink == (if 100 * wording::used_of(free, total) > 95 * total {
            Ink::Bad
        } else if 100 * wording::used_of(free, total) > 80 * total {
            Ink::Warn
        } else {
            Ink::Dim
        }),
{
    Chip {
        text: text::cat5(
            &wording::shorten(dir, DIR_ROOM),
            " — ",
            &discovery::format_bytes(free),
            " free of ",
            &discovery::format_bytes(total),
        ),
        ink: wording::pressure(free, total),
    }
}

/// The badges of a disk.
pub open spec fn disk_chips(row: DiskRow, busy: bool) -> Seq<ChipView> {
    let nvram = if row.nvram {
        seq![wording::chip_view("NVRAM"@, Ink::Violet)]
    } else {
        Seq::empty()
    };
    let missing = if row.exists {
        nvram
    } else {
        nvram.push(wording::chip_view("missing"@, Ink::Bad))
    };
    if busy {
        missing.push(wording::chip_view("in use"@, Ink::Good))
    } else {
        missing
    }
}

/// What a row says of the machine that attaches its disk.
pub open spec fn attachment_chip(app: ManagerApp, a: DiskAttachment) -> ChipView {
    wording::chip_view(
        a.vm@ + (if a.writable {
            " (rw)"@
        } else {
            " (ro)"@
        }),
        if app.spec_busy(a.vm@) {
            Ink::Good
        } else {
            Ink::Cyan
        },
    )
}

/// The button that detaches a disk from a machine.
pub open spec fn detach_view(app: ManagerApp, a: DiskAttachment) -> ButtonView {
    let running = app.spec_busy(a.vm@);
    wording::ghost_view(
        "Detach"@,
        if running {
            STOP_THE_MACHINE@
        } else {
            "Remove the [[disk]] entry from "@ + a.vm@
        },
        !running,
        Ink::Warn,
        Action::DetachDisk { vm: a.vm, profile: a.profile, declared: a.declared },
    )
}

/// The buttons of a disk. What changes it waits for its machines.
pub open spec fn disk_buttons(row: DiskRow, busy: bool) -> Seq<ButtonView> {
    let free = row.exists && !busy;
    seq![
        wording::ghost_view(
            "Delete"@,
            if busy {
                STOP_THE_MACHINE@
            } else {
                DELETE_DISK_HINT@
            },
            free,
            Ink::Bad,
            Action::AskDeleteDisk(row.path),
        ),
        wording::ghost_view(
            "Move…"@,
            if busy {
                STOP_THE_MACHINE@
            } else {
                MOVE_DISK_HINT@
            },
            free,
            Ink::Violet,
            Action::AskMoveDisk(row.path),
        ),
        wording::ghost_view(
            "Attach…"@,
            ATTACH_HINT@,
            row.exists,
            Ink::Cyan,
            Action::OpenAttachDisk(row.path),
        ),
        wording::ghost_view(
            "Reveal"@,
            REVEAL_HINT@,
            row.exists,
            Ink::Dim,
            Action::Reveal(row.path),
        ),
    ]
}

/// A machine that attaches a disk.
pub struct Attached {
    pub chip: Chip,
    pub detach: Button,
}

/// The machines that attach a disk, as plain values.
pub open spec fn attached_of(list: Seq<Attached>) -> Seq<(ChipView, ButtonView)> {
    list.map_values(|a: Attached| (a.chip@, a.detach@))
}

/// What a row says of each machine that attaches its disk.
pub open spec fn attached_views(app: ManagerApp, list: Seq<DiskAttachment>) -> Seq<
    (ChipView, ButtonView),
> {
    list.map_values(|a: DiskAttachment| (attachment_chip(app, a), detach_view(app, a)))
}

fn attached(app: &ManagerApp, a: &DiskAttachment) -> (r: Attached)
    requires
        app.wf(),
    ensures
        r.chip@ == attachment_chip(*app, *a),
        r.detach@ == detach_view(*app, *a),
{
    let running = app.is_busy(&a.vm);
    let mode = if a.writable {
        " (rw)"
    } else {
        " (ro)"
    };
    let hint = if running {
        STOP_THE_MACHINE.to_owned()
    } else {
        text::cat("Remove the [[disk]] entry from ", &a.vm)
    };
    Attached {
        chip: Chip {
            text: text::cat(&a.vm, mode),
            ink: if running {
                Ink::Good
            } else {
                Ink::Cyan
            },
        },
        detach: wording::ghost_button(
            "Detach",
            &hint,
            !running,
            Ink::Warn,
            Action::DetachDisk {
                vm: a.vm.clone(),
                profile: a.profile.clone(),
                declared: a.declared.clone(),
            },
        ),
    }
}

fn attached_list(app: &ManagerApp, list: &Vec<DiskAttachment>) -> (r: Vec<Attached>)
    requires
        app.wf(),
    ensures
        attached_of(r@) == attached_views(*app, list@),
{
    let mut r: Vec<Attached> = Vec::new();
    let mut i: usize = 0;
    assert(attached_of(r@) =~= attached_views(*app, list@.take(0)));
    while i < list.len()
        invariant
            app.wf(),
            i <= list@.len(),
            attached_of(r@) == attached_views(*app, list@.take(i as int)),
        decreases list@.len() - i,
    {
        let ghost shown = attached_of(r@);
        r.push(attached(app, &list[i]));
        proof {
            assert(attached_of(r@) =~= shown.push(
                (attachment_chip(*app, list@[i as int]), detach_view(*app, list@[i as int])),
            ));
            assert(attached_views(*app, list@.take(i + 1)) =~= shown.push(
                (attachment_chip(*app, list@[i as int]), detach_view(*app, list@[i as int])),
            ));
        }
        i = i + 1;
    }
    assert(list@.take(i as int) =~= list@);
    r
}

fn buttons_for_disk(row: &DiskRow, busy: bool) -> (r: Vec<Button>)
    ensures
        wording::buttons_of(r@) == disk_buttons(*row, busy),
{
    let free = row.exists && !busy;
    let mut r: Vec<Button> = Vec::new();
    wording::add_button(
        &mut r,
        wording::ghost_button(
            "Delete",
            if busy {
                STOP_THE_MACHINE
            } else {
                DELETE_DISK_HINT
            },
            free,
            Ink::Bad,
            Action::AskDeleteDisk(row.path.clone()),
        ),
    );
    wording::add_button(
        &mut r,
        wording::ghost_button(
            "Move…",
            if busy {
                STOP_THE_MACHINE
            } else {
                MOVE_DISK_HINT
            },
            free,
            Ink::Violet,
            Action::AskMoveDisk(row.path.clone()),
        ),
    );
    wording::add_button(
        &mut r,
        wording::ghost_button(
            "Attach…",
            ATTACH_HINT,
            row.exists,
            Ink::Cyan,
            Action::OpenAttachDisk(row.path.clone()),
        ),
    );
    wording::add_button(
        &mut r,
        wording::ghost_button(
            "Reveal",
            REVEAL_HINT,
            row.exists,
            Ink::Dim,
            Action::Reveal(row.path.clone()),
        ),
    );
    assert(wording::buttons_of(r@) =~= disk_buttons(*row, busy));
    r
}

/// A disk's row.
pub struct DiskCard {
    pub title: String,
    pub accent: u32,
    pub chips: Vec<Chip>,
    pub sizes: String,
    pub summary: Line,
    pub path: Line,
    pub attached: Vec<Attached>,
    pub buttons: Vec<Button>,
}

/// The row of a disk.
pub fn disk_row(app: &ManagerApp, row: &DiskRow) -> (r: DiskCard)
    requires
        app.wf(),
    ensures
        r.title == row.file_name,
        r.accent == wording::sum_of(vstd::utf8::encode_utf8(row.file_name@)) % 100,
        wording::chips_of(r.chips@) == disk_chips(*row, app.spec_disk_busy(*row)),
        r.sizes@ == wording::sizes_of(row.apparent_bytes, row.allocated_bytes, " apparent"@),
        r.summary@ == (match row.summary {
            Ok(text) => LineView { text: text@, ink: Ink::Dim, hint: Seq::empty() },
            Err(e) => LineView { text: e@, ink: Ink::Bad, hint: Seq::empty() },
        }),
        r.path@ == (LineView {
            text: wording::tail_of(row.path@, ROW_PATH_ROOM as nat),
            ink: Ink::Faint,
            hint: row.path@,
        }),
        attached_of(r.attached@) == attached_views(*app, row.attachments@),
        wording::buttons_of(r.buttons@) == disk_buttons(*row, app.spec_disk_busy(*row)),
{
    let busy = app.disk_busy(row);
    let mut chips: Vec<Chip> = Vec::new();
    if row.nvram {
        wording::add_chip(&mut chips, "NVRAM".to_owned(), Ink::Violet);
    }
    if !row.exists {
        wording::add_chip(&mut chips, "missing".to_owned(), Ink::Bad);
    }
    if busy {
        wording::add_chip(&mut chips, "in use".to_owned(), Ink::Good);
    }
    assert(wording::chips_of(chips@) =~= disk_chips(*row, busy));
    let summary = match &row.summary {
        Ok(text) => Line { text: text.clone(), ink: Ink::Dim, hint: String::new() },
        Err(e) => Line { text: e.clone(), ink: Ink::Bad, hint: String::new() },
    };
    DiskCard {
        title: row.file_name.clone(),
        accent: wording::accent_for(&row.file_name),
        chips,
        sizes: wording::sizes(row.apparent_bytes, row.allocated_bytes, " apparent"),
        summary,
        path: Line {
            text: wording::shorten(&row.path, ROW_PATH_ROOM),
            ink: Ink::Faint,
            hint: row.path.clone(),
        },
        attached: attached_list(app, &row.attachments),
        buttons: buttons_for_disk(row, busy),
    }
}

/// A disk whose machine is busy offers nothing that would change it.
pub proof fn disks_in_use_are_left_alone(app: ManagerApp, row: DiskRow, i: int)
    requires
        app.spec_disk_busy(row),
        0 <= i < disk_buttons(row, app.spec_disk_busy(row)).len(),
        disk_buttons(row, app.spec_disk_busy(row))[i].enabled,
    ensures
        match disk_buttons(row, app.spec_disk_busy(row))[i].action {
            Action::AskDeleteDisk(_) | Action::AskMoveDisk(_) => false,
            _ => true,
        },
{
}

// ---------------------------------------------------------------------------
// Saved sessions
// ---------------------------------------------------------------------------

pub const SESSION_RUNNING_HINT: &'static str =
    "The machine is running — it may be about to write here";
pub const SESSION_DELETE_HINT: &'static str =
    "Throw the saved session away. The machine and its disks stay.";
pub const UNKNOWN_MACHINE: &'static str = "unknown machine";

/// What the sessions occupy together, on paper.
pub open spec fn total_apparent(rows: Seq<SnapshotRow>) -> nat
    decreases rows.len(),
{
    if rows.len() == 0 {
        0
    } else {
        total_apparent(rows.drop_last()) + rows.last().apparent_bytes as nat
    }
}

/// What the sessions occupy together on the disk, as far as they say.
pub open spec fn total_on_disk(rows: Seq<SnapshotRow>) -> nat
    decreases rows.len(),
{
    if rows.len() == 0 {
        0
    } else {
        total_on_disk(rows.drop_last()) + (match rows.last().allocated_bytes {
            Some(n) => n as nat,
            None => 0,
        })
    }
}

proof fn lemma_totals_grow(rows: Seq<SnapshotRow>, i: int)
    requires
        0 <= i <= rows.len(),
    ensures
        total_apparent(rows.take(i)) <= total_apparent(rows),
        total_on_disk(rows.take(i)) <= total_on_disk(rows),
    decreases rows.len(),
{
    if i < rows.len() {
        lemma_totals_grow(rows.drop_last(), i);
        assert(rows.drop_last().take(i) =~= rows.take(i));
    } else {
        assert(rows.take(i) =~= rows);
    }
}

/// What the sessions occupy together, on paper and on the disk.
pub fn session_totals(rows: &Vec<SnapshotRow>) -> (r: (u64, u64))
    requires
        total_apparent(rows@) <= u64::MAX,
        total_on_disk(rows@) <= u64::MAX,
    ensures
        r.0 == total_apparent(rows@),
        r.1 == total_on_disk(rows@),
{
    let ghost all = rows@;
    let mut apparent: u64 = 0;
    let mut on_disk: u64 = 0;
    let mut i: usize = 0;
    assert(all.take(0) =~= Seq::<SnapshotRow>::empty());
    while i < rows.len()
        invariant
            all == rows@,
            i <= all.len(),
            total_apparent(all) <= u64::MAX,
            total_on_disk(all) <= u64::MAX,
            apparent == total_apparent(all.take(i as int)),
            on_disk == total_on_disk(all.take(i as int)),
        decreases all.len() - i,
    {
        proof {
            assert(all.take(i + 1).drop_last() =~= all.take(i as int));
            assert(all.take(i + 1).last() == all[i as int]);
            lemma_totals_grow(all, i + 1);
        }
        apparent = apparent + rows[i].apparent_bytes;
        if let Some(n) = rows[i].allocated_bytes {
            on_disk = on_disk + n;
        }
        i = i + 1;
    }
    assert(all.take(i as int) =~= all);
    (apparent, on_disk)
}

/// The machine that a session is of, or that it does not say.
pub open spec fn session_title(row: SnapshotRow) -> Seq<char> {
    match row.spec_vm_name() {
        Some(name) => name,
        None => UNKNOWN_MACHINE@,
    }
}

/// The badges of a session.
pub open spec fn session_chips(row: SnapshotRow, resumable: bool, busy: bool) -> Seq<ChipView> {
    let base = match row.facts {
        Ok(f) => seq![
            wording::chip_view(f.host.spec_name(), Ink::Cyan),
            if resumable {
                wording::chip_view("resumable"@, Ink::Good)
            } else {
                wording::chip_view("cannot resume here"@, Ink::Warn)
            },
        ],
        Err(_) => seq![wording::chip_view("unreadable"@, Ink::Bad)],
    };
    if busy {
        base.push(wording::chip_view("machine is running"@, Ink::Good))
    } else {
        base
    }
}

/// The buttons of a session.
pub open spec fn session_buttons(row: SnapshotRow, blocked: Seq<Seq<char>>, busy: bool) -> Seq<
    ButtonView,
> {
    let resumable = blocked.len() == 0 && !busy;
    let name = session_title(row);
    seq![
        wording::ghost_view(
            "Delete"@,
            if busy {
                SESSION_RUNNING_HINT@
            } else {
                SESSION_DELETE_HINT@
            },
            !busy,
            Ink::Bad,
            Action::AskDeleteSnapshot(row.path),
        ),
        wording::ghost_view("Reveal"@, REVEAL_HINT@, true, Ink::Dim, Action::Reveal(row.path)),
        wording::ghost_view(
            "Resume"@,
            if busy {
                state::quoted(name) + " is already running"@
            } else if resumable {
                "Start "@ + state::quoted(name) + " from this session instead of booting it"@
            } else {
                text::join_of(blocked, PARAGRAPH@)
            },
            resumable,
            Ink::Violet,
            Action::ResumeSnapshot(row.path),
        ),
    ]
}

/// The first lines of a list, all in one colour.
pub open spec fn first_lines(list: Seq<Seq<char>>, max: int, ink: Ink) -> Seq<LineView> {
    Seq::new(
        (if list.len() < max {
            list.len() as int
        } else {
            max
        }) as nat,
        |i: int| LineView { text: list[i], ink, hint: Seq::empty() },
    )
}

/// What a session's row says under its title: the first reasons against resuming
/// it, or else the first thing worth knowing.
pub open spec fn session_notes(blocked: Seq<Seq<char>>, notes: Seq<Seq<char>>) -> Seq<LineView> {
    if blocked.len() > 0 {
        first_lines(blocked, 2, Ink::Warn)
    } else {
        first_lines(notes, 1, Ink::Faint)
    }
}

fn take_lines(list: &Vec<String>, max: usize, ink: Ink) -> (r: Vec<Line>)
    ensures
        cards::lines_of(r@) == first_lines(text::texts(list@), max as int, ink),
{
    let ghost all = first_lines(text::texts(list@), max as int, ink);
    let mut r: Vec<Line> = Vec::new();
    let mut i: usize = 0;
    assert(cards::lines_of(r@) =~= all.take(0));
    while i < list.len() && i < max
        invariant
            i <= list@.len(),
            i <= max,
            all == first_lines(text::texts(list@), max as int, ink),
            cards::lines_of(r@) == all.take(i as int),
        decreases list@.len() - i,
    {
        cards::add_line(&mut r, list[i].clone(), ink, String::new());
        assert(cards::lines_of(r@) =~= all.take(i + 1));
        i = i + 1;
    }
    assert(all.take(i as int) =~= all);
    r
}

/// A session's row.
pub struct SessionCard {
    pub title: String,
    pub accent: u32,
    pub chips: Vec<Chip>,
    pub sizes: String,
    /// When it was taken and the machine's shape; nothing for a file that cannot
    /// be read.
    pub shape: Option<Line>,
    pub path: Line,
    pub notes: Vec<Line>,
    pub buttons: Vec<Button>,
}

/// The second line of a session: its machine's shape, and when it was taken.
pub open spec fn session_shape(row: SnapshotRow, age: Seq<char>, taken: Seq<char>) -> Option<
    LineView,
> {
    match row.facts {
        Ok(f) => Some(
            LineView {
                text: row.spec_shape_line() + " · taken "@ + age,
                ink: Ink::Dim,
                hint: taken + "\nwritten by "@ + f.writer@,
            },
        ),
        Err(_) => None,
    }
}

fn shape_of(row: &SnapshotRow, age: &str, taken: &str) -> (r: Option<Line>)
    ensures
        match r {
            Some(line) => session_shape(*row, age@, taken@) == Some(line@),
            None => session_shape(*row, age@, taken@) is None,
        },
{
    match &row.facts {
        Ok(f) => Some(
            Line {
                text: text::cat3(&row.shape_line(), " · taken ", age),
                ink: Ink::Dim,
                hint: text::cat3(taken, "\nwritten by ", &f.writer),
            },
        ),
        Err(_) => None,
    }
}

fn badges(row: &SnapshotRow, resumable: bool, busy: bool) -> (r: Vec<Chip>)
    ensures
        wording::chips_of(r@) == session_chips(*row, resumable, busy),
{
    let mut r: Vec<Chip> = Vec::new();
    match &row.facts {
        Ok(f) => {
            wording::add_chip(&mut r, f.host.as_str().to_owned(), Ink::Cyan);
            if resumable {
                wording::add_chip(&mut r, "resumable".to_owned(), Ink::Good);
            } else {
                wording::add_chip(&mut r, "cannot resume here".to_owned(), Ink::Warn);
            }
        },
        Err(_) => wording::add_chip(&mut r, "unreadable".to_owned(), Ink::Bad),
    }
    if busy {
        wording::add_chip(&mut r, "machine is running".to_owned(), Ink::Good);
    }
    assert(wording::chips_of(r@) =~= session_chips(*row, resumable, busy));
    r
}

fn buttons_for_session(row: &SnapshotRow, title: &str, blocked: &Vec<String>, busy: bool) -> (r:
    Vec<Button>)
    requires
        title@ == session_title(*row),
    ensures
        wording::buttons_of(r@) == session_buttons(*row, text::texts(blocked@), busy),
{
    let resumable = blocked.len() == 0 && !busy;
    let mut r: Vec<Button> = Vec::new();
    wording::add_button(
        &mut r,
        wording::ghost_button(
            "Delete",
            if busy {
                SESSION_RUNNING_HINT
            } else {
                SESSION_DELETE_HINT
            },
            !busy,
            Ink::Bad,
            Action::AskDeleteSnapshot(row.path.clone()),
        ),
    );
    wording::add_button(
        &mut r,
        wording::ghost_button(
            "Reveal",
            REVEAL_HINT,
            true,
            Ink::Dim,
            Action::Reveal(row.path.clone()),
        ),
    );
    let hint = if busy {
        text::cat(&state::quote(title), " is already running")
    } else if resumable {
        text::cat3("Start ", &state::quote(title), " from this session instead of booting it")
    } else {
        text::join(blocked, PARAGRAPH)
    };
    wording::add_button(
        &mut r,
        wording::ghost_button(
            "Resume",
            &hint,
            resumable,
            Ink::Violet,
            Action::ResumeSnapshot(row.path.clone()),
        ),
    );
    assert(wording::buttons_of(r@) =~= session_buttons(*row, text::texts(blocked@), busy));
    r
}

/// The row of a saved session. `age` and `taken` say when it was taken, and
/// `states` are those of the files that it names.
pub fn snapshot_row(
    app: &ManagerApp,
    row: &SnapshotRow,
    states: &Vec<FileState>,
    age: &str,
    taken: &str,
) -> (r: SessionCard)
    requires
        app.wf(),
        row.facts matches Ok(f) ==> states@.len() == f.files@.len(),
    ensures
        r.title@ == session_title(*row),
        r.accent == wording::sum_of(vstd::utf8::encode_utf8(row.file_name@)) % 100,
        ({
            let (blocked, notes) = app.spec_verdict(*row, states@);
            let busy = app.spec_busy(session_title(*row));
            &&& wording::chips_of(r.chips@) == session_chips(*row, blocked.len() == 0, busy)
            &&& cards::lines_of(r.notes@) == session_notes(blocked, notes)
            &&& wording::buttons_of(r.buttons@) == session_buttons(*row, blocked, busy)
        }),
        r.sizes@ == wording::sizes_of(row.apparent_bytes, row.allocated_bytes, " apparent"@),
        match r.shape {
            Some(line) => session_shape(*row, age@, taken@) == Some(line@),
            None => session_shape(*row, age@, taken@) is None,
        },
        r.path@ == (LineView {
            text: wording::tail_of(row.path@, ROW_PATH_ROOM as nat),
            ink: Ink::Faint,
            hint: row.path@,
        }),
{
    let verdict = app.snapshot_verdict(row, states);
    let title = match row.vm_name() {
        Some(name) => name.to_owned(),
        None => UNKNOWN_MACHINE.to_owned(),
    };
    let busy = app.is_busy(&title);
    let notes = if verdict.blocked.len() > 0 {
        take_lines(&verdict.blocked, 2, Ink::Warn)
    } else {
        take_lines(&verdict.notes, 1, Ink::Faint)
    };
    SessionCard {
        accent: wording::accent_for(&row.file_name),
        chips: badges(row, verdict.resumable(), busy),
        sizes: wording::sizes(row.apparent_bytes, row.allocated_bytes, " apparent"),
        shape: shape_of(row, age, taken),
        path: Line {
            text: wording::shorten(&row.path, ROW_PATH_ROOM),
            ink: Ink::Faint,
            hint: row.path.clone(),
        },
        notes,
        buttons: buttons_for_session(row, &title, &verdict.blocked, busy),
        title,
    }
}

/// A session is offered for resuming exactly when nothing is against it and its
/// machine is not busy.
pub proof fn only_sound_sessions_resume(row: SnapshotRow, blocked: Seq<Seq<char>>, busy: bool)
    ensures
        session_buttons(row, blocked, busy)[2].action == Action::ResumeSnapshot(row.path),
        session_buttons(row, blocked, busy)[2].enabled <==> blocked.len() == 0 && !busy,
{
}

// ---------------------------------------------------------------------------
// The console
// ---------------------------------------------------------------------------

/// Lines of a log that are shown at once; the whole log stays on the disk.
pub const VISIBLE_LINES: usize = 600;

/// What the console calls a task.
pub open spec fn task_title(task: Task, now: u64) -> Seq<char> {
    task.kind.spec_label() + " "@ + task.vm@ + " · "@ + (match task.state {
        TaskState::Running => "running "@ + wording::elapsed_of(
            metrics::beyond(now, task.started_at) as nat / 1000,
        ),
        TaskState::Stopping => "stopping"@,
        TaskState::Finished(outcome) => outcome.detail@,
    })
}

/// What the console calls a task.
pub fn describe(task: &Task, now: u64) -> (r: String)
    ensures
        r@ == task_title(*task, now),
{
    let state = match &task.state {
        TaskState::Running => {
            let ms: u64 = if now >= task.started_at {
                now - task.started_at
            } else {
                0
            };
            text::cat("running ", &wording::elapsed(ms / 1000))
        },
        TaskState::Stopping => "stopping".to_owned(),
        TaskState::Finished(outcome) => outcome.detail.clone(),
    };
    text::cat5(task.kind.label(), " ", &task.vm, " · ", &state)
}

/// What is said of the lines that are not shown.
pub fn dropped_note(dropped: usize, log_path: &str) -> (r: Option<String>)
    ensures
        if dropped > 0 {
            r matches Some(t) && t@ == "… "@ + text::decimal_of(dropped as nat)
                + " earlier lines are only in "@ + log_path@
        } else {
            r is None
        },
{
    if dropped > 0 {
        Some(
            text::cat4(
                "… ",
                &text::decimal(dropped as u64),
                " earlier lines are only in ",
                log_path,
            ),
        )
    } else {
        None
    }
}

// ---------------------------------------------------------------------------
// The host
// ---------------------------------------------------------------------------

/// What a line of the host report looks like.
pub fn report_ink(level: Level) -> (r: Ink)
    ensures
        r == match level {
            Level::Missing => Ink::Warn,
            Level::Failure => Ink::Bad,
            Level::Info => Ink::Dim,
        },
{
    match level {
        Level::Missing => Ink::Warn,
        Level::Failure => Ink::Bad,
        Level::Info => Ink::Dim,
    }
}

/// What is said of something that one backend may lack.
pub open spec fn capability_text(capability: Seq<char>, blocked: bool) -> Seq<char> {
    capability + (if blocked {
        ": WSL (KVM) only"@
    } else {
        ": available on both backends"@
    })
}

pub const EVERYWHERE: &'static str = "Available on every backend this host has.";

/// What the two backends can do, where there are two.
pub open spec fn capability_views(host: Host) -> Seq<LineView> {
    let blocked = !Backend::Native.linux_kvm(host);
    let hint = |long: Seq<char>| if blocked {
        long
    } else {
        EVERYWHERE@
    };
    seq![
        LineView {
            text: capability_text("3D acceleration"@, blocked),
            ink: Ink::Faint,
            hint: hint(crate::backend::VIRGL_BLOCK_LONG@),
        },
        LineView {
            text: capability_text("TAP networking"@, blocked),
            ink: Ink::Faint,
            hint: hint(crate::backend::TAP_BLOCK_LONG@),
        },
        LineView {
            text: capability_text("Debian installer"@, blocked),
            ink: Ink::Faint,
            hint: hint(crate::backend::DEBIAN_BLOCK_LONG@),
        },
    ]
}

fn add_capability(lines: &mut Vec<Line>, capability: &str, long: Option<&'static str>)
    ensures
        cards::lines_of(final(lines)@) == cards::lines_of(old(lines)@).push(
            (LineView {
                text: capability_text(capability@, long is Some),
                ink: Ink::Faint,
                hint: match long {
                    Some(hint) => hint@,
                    None => EVERYWHERE@,
                },
            }),
        ),
{
    match long {
        Some(hint) => cards::add_line(
            lines,
            text::cat(capability, ": WSL (KVM) only"),
            Ink::Faint,
            hint.to_owned(),
        ),
        None => cards::add_line(
            lines,
            text::cat(capability, ": available on both backends"),
            Ink::Faint,
            EVERYWHERE.to_owned(),
        ),
    }
}

fn long_of(block: Option<crate::backend::Block>) -> (r: Option<&'static str>)
    ensures
        match block {
            Some(b) => r == Some(b.long),
            None => r is None,
        },
{
    match block {
        Some(b) => Some(b.long),
        None => None,
    }
}

/// What the two backends of this host can do.
pub fn capabilities(host: Host) -> (r: Vec<Line>)
    ensures
        cards::lines_of(r@) == capability_views(host),
{
    let mut r: Vec<Line> = Vec::new();
    add_capability(&mut r, "3D acceleration", long_of(Backend::Native.virgl_block(host)));
    add_capability(&mut r, "TAP networking", long_of(Backend::Native.tap_block(host)));
    add_capability(&mut r, "Debian installer", long_of(Backend::Native.debian_install_block(host)));
    assert(cards::lines_of(r@) =~= capability_views(host));
    r
}

/// What is said of the engine inside WSL.
pub fn linux_engine_line(path: &Option<String>) -> (r: String)
    ensures
        r@ == match *path {
            Some(p) => "Linux engine: "@ + p@,
            None => "Linux engine: whatever `entangled` resolves to inside WSL"@,
        },
{
    match path {
        Some(p) => text::cat("Linux engine: ", p),
        None => "Linux engine: whatever `entangled` resolves to inside WSL".to_owned(),
    }
}

/// The machines that the supervisor has a child for.
pub open spec fn child_count(app: ManagerApp, vms: Seq<VmEntry>) -> nat
    decreases vms.len(),
{
    if vms.len() == 0 {
        0
    } else {
        child_count(app, vms.drop_last()) + (if process::busy_in(
            app.supervisor.tasks@,
            vms.last().name@,
        ) {
            1nat
        } else {
            0
        })
    }
}

/// The lines of the host's status: its machines, its processor share in whole
/// percent and its free space, as far as they are known.
pub open spec fn host_lines(app: ManagerApp, cpu: Option<u64>) -> Seq<Seq<char>> {
    let base = seq![
        text::decimal_of(app.scan.vms@.len()) + " machines · "@ + text::decimal_of(
            child_count(app, app.scan.vms@),
        ) + " active"@,
    ];
    let with_cpu = match cpu {
        Some(percent) => base.push("CPU "@ + text::decimal_of(percent as nat) + "%"@),
        None => base,
    };
    match app.stats.host.vm_dir_space {
        Some((free, _)) => with_cpu.push(
            discovery::bytes_shown(free as nat) + " storage free"@,
        ),
        None => with_cpu,
    }
}

/// The lines of the host's status.
pub fn host_status(app: &ManagerApp, cpu: Option<u64>) -> (r: Vec<String>)
    ensures
        text::texts(r@) == host_lines(*app, cpu),
{
    let ghost all = app.scan.vms@;
    let mut active: u64 = 0;
    let mut i: usize = 0;
    assert(all.take(0) =~= Seq::<VmEntry>::empty());
    while i < app.scan.vms.len()
        invariant
            all == app.scan.vms@,
            active <= i <= all.len(),
            active == child_count(*app, all.take(i as int)),
        decreases all.len() - i,
    {
        proof {
            assert(all.take(i + 1).drop_last() =~= all.take(i as int));
            assert(all.take(i + 1).last() == all[i as int]);
        }
        if app.supervisor.is_busy(&app.scan.vms[i].name) {
            active = active + 1;
        }
        i = i + 1;
    }
    assert(all.take(i as int) =~= all);
    let mut r: Vec<String> = Vec::new();
    r.push(
        text::cat4(
            &text::decimal(app.scan.vms.len() as u64),
            " machines · ",
            &text::decimal(active),
            " active",
        ),
    );
    if let Some(percent) = cpu {
        r.push(text::cat3("CPU ", &text::decimal(percent), "%"));
    }
    if let Some((free, _)) = app.stats.host.vm_dir_space {
        r.push(text::cat(&discovery::format_bytes(free), " storage free"));
    }
    assert(text::texts(r@) =~= host_lines(*app, cpu));
    r
}

/// What the navigation calls the console.
pub fn activity_label(open: bool) -> (r: &'static str)
    ensures
        r@ == (if open {
            "Hide activity"@
        } else {
            "Activity"@
        }),
{
    if open {
        "Hide activity"
    } else {
        "Activity"
    }
}

} // verus!
