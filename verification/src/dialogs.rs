//! The dialogs that are not about one machine or disk: the wizard's start, the
//! settings, file pickers, the host check and the log pane.
use crate::app;
use crate::backend::DEFAULT_WSL_DISTRO;
use crate::editor;
use crate::host::Host;
use crate::hostcheck;
use crate::hostcheck::{Level, Line, Report};
use crate::launcher;
use crate::launcher::{DiskMode, EngineFacts, GuestFamily, NewMachine, Runner};
use crate::paths;
use crate::picker;
use crate::picker::{DirFacts, PickTarget};
use crate::process::Task;
use crate::settings::Settings;
use crate::state;
use crate::state::{
    Desk, DoctorState, EditVmState, ManagerApp, Modal, MoveDiskState, PendingInstall, SettingsForm,
    ToastLevel, WizardState,
};
use crate::text;
use vstd::prelude::*;

verus! {

// ---------------------------------------------------------------------------
// A name for a new machine
// ---------------------------------------------------------------------------

pub open spec fn candidate(host: Host, n: nat) -> Seq<char> {
    GuestFamily::spec_default(host).spec_cli_name() + "-"@ + text::decimal_of(n)
}

/// Some pending installation has that name.
pub open spec fn pending_has(pending: Seq<PendingInstall>, name: Seq<char>) -> bool {
    exists|i: int| 0 <= i < pending.len() && (#[trigger] pending[i]).name@ == name
}

/// The answer to question number `i`, where there is one.
pub open spec fn told_of(facts: Seq<bool>, i: int) -> bool {
    0 <= i < facts.len() && facts[i]
}

fn told(facts: &Vec<bool>, i: usize) -> (r: bool)
    ensures
        r == told_of(facts@, i as int),
{
    i < facts.len() && facts[i]
}

impl ManagerApp {
    /// The name is not free: a machine or a pending installation has it, or there
    /// is a profile of that name.
    pub open spec fn name_taken(self, name: Seq<char>, profile: bool) -> bool {
        self.spec_vm(name) is Some || pending_has(self.pending@, name) || profile
    }

    /// The first free name from number `n` on.
    pub open spec fn suggested_from(self, n: nat, profiles: Seq<bool>) -> Seq<char>
        decreases 100 - n,
    {
        if n > 99 {
            GuestFamily::spec_default(self.host).spec_cli_name() + "-new"@
        } else if !self.name_taken(candidate(self.host, n), told_of(profiles, n - 1)) {
            candidate(self.host, n)
        } else {
            self.suggested_from(n + 1, profiles)
        }
    }

    fn has_pending(&self, name: &str) -> (r: bool)
        ensures
            r == pending_has(self.pending@, name@),
    {
        let mut i: usize = 0;
        while i < self.pending.len()
            invariant
                i <= self.pending@.len(),
                forall|j: int| 0 <= j < i ==> (#[trigger] self.pending@[j]).name@ != name@,
            decreases self.pending@.len() - i,
        {
            if text::same(&self.pending[i].name, name) {
                assert(self.pending@[i as int].name@ == name@);
                return true;
            }
            i = i + 1;
        }
        false
    }

    /// A free name for a new machine, which starts with the distribution that
    /// this host installs by default. `profiles` tells which of the numbered
    /// names have a profile in the machine directory.
    pub fn suggest_name(&self, profiles: &Vec<bool>) -> (r: String)
        ensures
            r@ == self.suggested_from(1, profiles@),
    {
        let family = GuestFamily::default_for_host(self.host).cli_name();
        let mut n: u64 = 1;
        while n <= 99
            invariant
                1 <= n <= 100,
                family@ == GuestFamily::spec_default(self.host).spec_cli_name(),
                self.suggested_from(1, profiles@) == self.suggested_from(n as nat, profiles@),
            decreases 100 - n,
        {
            let name = text::cat3(family, "-", &text::decimal(n));
            let taken = self.vm(&name).is_some() || self.has_pending(&name) || told(
                profiles,
                (n - 1) as usize,
            );
            if !taken {
                return name;
            }
            n = n + 1;
        }
        text::cat(family, "-new")
    }

    /// What the wizard starts out with, under that name.
    pub open spec fn starts_with(self, machine: NewMachine, name: Seq<char>) -> bool {
        &&& machine.name@ == name
        &&& machine.memory_mib == self.settings.default_memory_mib
        &&& machine.vcpus == self.settings.default_vcpus
        &&& machine.disk_gib == self.settings.default_disk_gib
        &&& machine.disk_path@.len() == 0
        &&& machine.disk_mode == DiskMode::CreateNew
        &&& machine.family == GuestFamily::spec_default(self.host)
        &&& machine.iso_path@.len() == 0
        &&& machine.variant == self.settings.default_variant
        &&& machine.automated
        &&& machine.headless == self.settings.headless_install
        &&& machine.backend == self.spec_preferred()
    }

    /// Opens the wizard, and asks WSL about its engine where that is not known.
    pub fn open_wizard(&mut self, profiles: &Vec<bool>)
        ensures
            app::rechecked(*old(self), final(self).wsl, false),
            final(self).desk.requests@ == old(self).desk.requests@ + old(self).wsl_requests(false),
            final(self).desk.modal matches Modal::Wizard(w) && w.step == 0 && w.error is None
                && final(self).starts_with(w.machine, old(self).suggested_from(1, profiles@)),
            *final(self) == (ManagerApp {
                wsl: final(self).wsl,
                desk: final(self).desk,
                ..*old(self)
            }),
            final(self).desk == (Desk {
                modal: final(self).desk.modal,
                requests: final(self).desk.requests,
                ..old(self).desk
            }),
    {
        let name = self.suggest_name(profiles);
        self.ensure_wsl_check(false);
        let machine = NewMachine {
            name,
            memory_mib: self.settings.default_memory_mib,
            vcpus: self.settings.default_vcpus,
            disk_gib: self.settings.default_disk_gib,
            disk_path: String::new(),
            disk_mode: DiskMode::CreateNew,
            family: GuestFamily::default_for_host(self.host),
            iso_path: String::new(),
            variant: self.settings.default_variant.clone(),
            automated: true,
            headless: self.settings.headless_install,
            backend: self.preferred_backend(),
        };
        self.desk.modal = Modal::Wizard(WizardState { machine, step: 0, error: None });
    }
}

/// The free name depends on the host, the machines and the pending installations
/// alone.
pub proof fn lemma_suggested(a: ManagerApp, b: ManagerApp, n: nat, profiles: Seq<bool>)
    requires
        a.host == b.host,
        a.scan.vms == b.scan.vms,
        a.pending == b.pending,
    ensures
        a.suggested_from(n, profiles) == b.suggested_from(n, profiles),
    decreases 100 - n,
{
    if n <= 99 {
        lemma_suggested(a, b, n + 1, profiles);
    }
}

// ---------------------------------------------------------------------------
// Settings
// ---------------------------------------------------------------------------

/// `form` shows `settings`.
pub open spec fn form_shows(form: SettingsForm, settings: Settings) -> bool {
    &&& form.vm_dir == settings.vm_dir
    &&& form.entangled_binary@ == editor::shown(text::opt_text(settings.entangled_binary))
    &&& form.work_dir@ == editor::shown(text::opt_text(settings.work_dir))
    &&& form.headless_install == settings.headless_install
    &&& form.check_updates_on_startup == settings.check_updates_on_startup
    &&& form.animations_enabled == settings.animations_enabled
    &&& form.default_backend == settings.default_backend
    &&& form.wsl_distro == settings.wsl_distro
    &&& form.wsl_entangled@ == editor::shown(text::opt_text(settings.wsl_entangled))
    &&& !form.advanced_open
}

/// `after` is `before` with what `form` says. What the form does not show stays.
pub open spec fn form_applied(before: Settings, form: SettingsForm, after: Settings) -> bool {
    &&& after == (Settings {
        vm_dir: after.vm_dir,
        entangled_binary: after.entangled_binary,
        work_dir: after.work_dir,
        wsl_distro: after.wsl_distro,
        wsl_entangled: after.wsl_entangled,
        headless_install: form.headless_install,
        check_updates_on_startup: form.check_updates_on_startup,
        animations_enabled: form.animations_enabled,
        default_backend: form.default_backend,
        ..before
    })
    &&& after.vm_dir@ == text::trim_of(form.vm_dir@)
    &&& text::opt_text(after.entangled_binary) == editor::meant(form.entangled_binary@)
    &&& text::opt_text(after.work_dir) == editor::meant(form.work_dir@)
    &&& after.wsl_distro@ == (match editor::meant(form.wsl_distro@) {
        Some(distro) => distro,
        None => DEFAULT_WSL_DISTRO@,
    })
    &&& text::opt_text(after.wsl_entangled) == editor::meant(form.wsl_entangled@)
}

fn text_of(value: &Option<String>) -> (r: String)
    ensures
        r@ == editor::shown(text::opt_text(*value)),
{
    match value {
        Some(v) => v.clone(),
        None => String::new(),
    }
}

fn field_of(field: &str) -> (r: Option<String>)
    ensures
        text::opt_text(r) == editor::meant(field@),
{
    let t = text::trim(field);
    if t.as_str().is_empty() {
        None
    } else {
        Some(t)
    }
}

pub const VM_DIR_EMPTY: &'static str = "the VM directory must not be empty";
pub const SESSION_ONLY: &'static str =
    "settings applied for this session only (no configuration directory)";

/// What saving the settings tells: where they went, why they did not, or that
/// there is no place for them.
pub open spec fn save_news(path: Option<String>, saved: Result<(), String>) -> (
    ToastLevel,
    Seq<char>,
) {
    match path {
        Some(p) => match saved {
            Ok(()) => (ToastLevel::Success, "settings saved to "@ + p@),
            Err(e) => (ToastLevel::Error, e@),
        },
        None => (ToastLevel::Warn, SESSION_ONLY@),
    }
}

fn saved_as(path: &Option<String>, saved: Result<(), String>) -> (r: (ToastLevel, String))
    ensures
        (r.0, r.1@) == save_news(*path, saved),
{
    match path {
        Some(p) => match saved {
            Ok(()) => (ToastLevel::Success, text::cat("settings saved to ", p)),
            Err(e) => (ToastLevel::Error, e),
        },
        None => (ToastLevel::Warn, SESSION_ONLY.to_owned()),
    }
}

impl ManagerApp {
    /// Opens the settings.
    pub fn open_settings(&mut self)
        ensures
            final(self).desk.modal matches Modal::Settings(f) && form_shows(f, old(self).settings),
            *final(self) == (ManagerApp {
                desk: Desk { modal: final(self).desk.modal, ..old(self).desk },
                ..*old(self)
            }),
    {
        let form = SettingsForm {
            vm_dir: self.settings.vm_dir.clone(),
            entangled_binary: text_of(&self.settings.entangled_binary),
            work_dir: text_of(&self.settings.work_dir),
            headless_install: self.settings.headless_install,
            check_updates_on_startup: self.settings.check_updates_on_startup,
            animations_enabled: self.settings.animations_enabled,
            default_backend: self.settings.default_backend,
            wsl_distro: self.settings.wsl_distro.clone(),
            wsl_entangled: text_of(&self.settings.wsl_entangled),
            advanced_open: false,
        };
        self.desk.modal = Modal::Settings(form);
    }

    /// The settings as the open form would have them, unless there is no such
    /// form or it names no machine directory.
    pub fn edited_settings(&self) -> (r: Option<Settings>)
        ensures
            match self.desk.modal {
                Modal::Settings(form) => if text::trim_of(form.vm_dir@).len() == 0 {
                    r is None
                } else {
                    r matches Some(s) && s.vm_backends.rows@ == self.settings.vm_backends.rows@
                        && form_applied(
                        Settings { vm_backends: s.vm_backends, ..self.settings },
                        form,
                        s,
                    )
                },
                _ => r is None,
            },
    {
        match &self.desk.modal {
            Modal::Settings(form) => {
                let vm_dir = text::trim(&form.vm_dir);
                if vm_dir.as_str().is_empty() {
                    return None;
                }
                let mut s = self.settings.clone();
                s.vm_dir = vm_dir;
                s.entangled_binary = field_of(&form.entangled_binary);
                s.work_dir = field_of(&form.work_dir);
                s.headless_install = form.headless_install;
                s.check_updates_on_startup = form.check_updates_on_startup;
                s.animations_enabled = form.animations_enabled;
                s.default_backend = form.default_backend;
                s.wsl_distro = match field_of(&form.wsl_distro) {
                    Some(distro) => distro,
                    None => DEFAULT_WSL_DISTRO.to_owned(),
                };
                s.wsl_entangled = field_of(&form.wsl_entangled);
                Some(s)
            },
            _ => None,
        }
    }

    /// Takes the settings from the open form. `saved` is what writing
    /// [`ManagerApp::edited_settings`] gave, where there is a place for them, and
    /// `facts` is where an engine is under them. Without a machine directory
    /// nothing is taken.
    pub fn save_settings(&mut self, saved: Result<(), String>, facts: &EngineFacts)
        ensures
            match old(self).desk.modal {
                Modal::Settings(form) => if text::trim_of(form.vm_dir@).len() == 0 {
                    &&& final(self).desk.modal matches Modal::Settings(f) && f == (SettingsForm {
                        vm_dir: old(self).settings.vm_dir,
                        ..form
                    })
                    &&& app::told_one(
                        ManagerApp {
                            desk: Desk { modal: final(self).desk.modal, ..old(self).desk },
                            ..*old(self)
                        },
                        *final(self),
                        ToastLevel::Warn,
                        VM_DIR_EMPTY@,
                    )
                } else {
                    let mid = ManagerApp { settings: final(self).settings, ..*old(self) };
                    let news = save_news(old(self).settings_path, saved);
                    &&& form_applied(
                        Settings { vm_backends: final(self).settings.vm_backends, ..old(
                            self).settings },
                        form,
                        final(self).settings,
                    )
                    &&& final(self).settings.vm_backends.rows@ == old(
                        self).settings.vm_backends.rows@
                    &&& final(self).told() == old(self).told().push(state::fresh(news.0, news.1))
                    &&& app::relocated(mid, final(self).engine, *facts)
                    &&& app::rechecked(mid, final(self).wsl, false)
                    &&& app::rescanned(
                        *old(self),
                        old(self).desk.requests@ + app::probe_requests(
                            old(self).mock_mode,
                            final(self).engine,
                        ) + mid.wsl_requests(false),
                        *final(self),
                        true,
                    )
                    &&& final(self).desk.modal is Closed
                    &&& *final(self) == (ManagerApp {
                        settings: final(self).settings,
                        engine: final(self).engine,
                        wsl: final(self).wsl,
                        scanner: final(self).scanner,
                        desk: final(self).desk,
                        ..*old(self)
                    })
                    &&& final(self).desk == (Desk {
                        modal: final(self).desk.modal,
                        toasts: final(self).desk.toasts,
                        requests: final(self).desk.requests,
                        ..old(self).desk
                    })
                },
                _ => *final(self) == *old(self),
            },
    {
        match &self.desk.modal {
            Modal::Settings(_) => {},
            _ => return,
        }
        let edited = match self.edited_settings() {
            Some(s) => s,
            None => {
                let dir = self.settings.vm_dir.clone();
                if let Modal::Settings(form) = &mut self.desk.modal {
                    form.vm_dir = dir;
                }
                self.toast(ToastLevel::Warn, VM_DIR_EMPTY.to_owned());
                return;
            },
        };
        self.settings = edited;
        let (level, message) = saved_as(&self.settings_path, saved);
        self.toast(level, message);
        self.refresh_engine(facts);
        self.ensure_wsl_check(false);
        self.desk.modal = Modal::Closed;
        self.request_scan(true);
    }
}

/// Opening the settings and saving them unchanged keeps every one of them that
/// is neither blank nor padded.
pub proof fn unchanged_forms_keep_the_settings(
    settings: Settings,
    form: SettingsForm,
    after: Settings,
)
    requires
        form_shows(form, settings),
        form_applied(settings, form, after),
        text::is_trimmed(settings.vm_dir@),
        editor::neat(text::opt_text(settings.entangled_binary)),
        editor::neat(text::opt_text(settings.work_dir)),
        editor::neat(Some(settings.wsl_distro@)),
        editor::neat(text::opt_text(settings.wsl_entangled)),
    ensures
        after.vm_dir@ == settings.vm_dir@,
        text::opt_text(after.entangled_binary) == text::opt_text(settings.entangled_binary),
        text::opt_text(after.work_dir) == text::opt_text(settings.work_dir),
        after.wsl_distro@ == settings.wsl_distro@,
        text::opt_text(after.wsl_entangled) == text::opt_text(settings.wsl_entangled),
        after == (Settings {
            vm_dir: after.vm_dir,
            entangled_binary: after.entangled_binary,
            work_dir: after.work_dir,
            wsl_distro: after.wsl_distro,
            wsl_entangled: after.wsl_entangled,
            ..settings
        }),
{
    text::trim_is_idempotent(settings.vm_dir@);
    editor::lemma_neat(text::opt_text(settings.entangled_binary));
    editor::lemma_neat(text::opt_text(settings.work_dir));
    editor::lemma_neat(Some(settings.wsl_distro@));
    editor::lemma_neat(text::opt_text(settings.wsl_entangled));
}

// ---------------------------------------------------------------------------
// File pickers
// ---------------------------------------------------------------------------

impl Modal {
    /// The text in the field that a picked path belongs in, if the dialog has
    /// it.
    pub open spec fn spec_field(self, target: PickTarget) -> Option<String> {
        match (self, target) {
            (Modal::Settings(form), PickTarget::VmDir) => Some(form.vm_dir),
            (Modal::Settings(form), PickTarget::EngineBinary) => Some(form.entangled_binary),
            (Modal::Settings(form), PickTarget::WorkDir) => Some(form.work_dir),
            (Modal::Wizard(w), PickTarget::WizardIso) => Some(w.machine.iso_path),
            (Modal::Wizard(w), PickTarget::WizardDisk) => Some(w.machine.disk_path),
            (Modal::MoveDisk(m), PickTarget::MoveDestination) => Some(m.dest),
            (Modal::EditVm(e), PickTarget::EditorKernel) => Some(e.form.kernel),
            (Modal::EditVm(e), PickTarget::EditorInitramfs) => Some(e.form.initramfs),
            (Modal::EditVm(e), PickTarget::EditorFirmware) => Some(e.form.firmware),
            (Modal::EditVm(e), PickTarget::EditorNvram) => Some(e.form.nvram),
            (Modal::EditVm(e), PickTarget::EditorCdrom) => Some(e.form.cdrom),
            (Modal::EditVm(e), PickTarget::EditorAddDisk) => Some(e.form.add_disk),
            _ => None,
        }
    }

    /// The dialog with `text` in that field; as it is, if it has no such field.
    pub open spec fn spec_filled(self, target: PickTarget, text: String) -> Modal {
        match (self, target) {
            (Modal::Settings(form), PickTarget::VmDir) => Modal::Settings(
                SettingsForm { vm_dir: text, ..form },
            ),
            (Modal::Settings(form), PickTarget::EngineBinary) => Modal::Settings(
                SettingsForm { entangled_binary: text, ..form },
            ),
            (Modal::Settings(form), PickTarget::WorkDir) => Modal::Settings(
                SettingsForm { work_dir: text, ..form },
            ),
            (Modal::Wizard(w), PickTarget::WizardIso) => Modal::Wizard(
                WizardState { machine: NewMachine { iso_path: text, ..w.machine }, ..w },
            ),
            (Modal::Wizard(w), PickTarget::WizardDisk) => Modal::Wizard(
                WizardState { machine: NewMachine { disk_path: text, ..w.machine }, ..w },
            ),
            (Modal::MoveDisk(m), PickTarget::MoveDestination) => Modal::MoveDisk(
                MoveDiskState { dest: text, ..m },
            ),
            (Modal::EditVm(e), PickTarget::EditorKernel) => Modal::EditVm(
                EditVmState { form: editor::EditForm { kernel: text, ..e.form }, ..e },
            ),
            (Modal::EditVm(e), PickTarget::EditorInitramfs) => Modal::EditVm(
                EditVmState { form: editor::EditForm { initramfs: text, ..e.form }, ..e },
            ),
            (Modal::EditVm(e), PickTarget::EditorFirmware) => Modal::EditVm(
                EditVmState { form: editor::EditForm { firmware: text, ..e.form }, ..e },
            ),
            (Modal::EditVm(e), PickTarget::EditorNvram) => Modal::EditVm(
                EditVmState { form: editor::EditForm { nvram: text, ..e.form }, ..e },
            ),
            (Modal::EditVm(e), PickTarget::EditorCdrom) => Modal::EditVm(
                EditVmState { form: editor::EditForm { cdrom: text, ..e.form }, ..e },
            ),
            (Modal::EditVm(e), PickTarget::EditorAddDisk) => Modal::EditVm(
                EditVmState { form: editor::EditForm { add_disk: text, ..e.form }, ..e },
            ),
            _ => self,
        }
    }

    /// The text in the field that a picked path belongs in, if the dialog has
    /// it.
    pub fn picker_field(&self, target: PickTarget) -> (r: Option<String>)
        ensures
            r == self.spec_field(target),
    {
        match (self, target) {
            (Modal::Settings(form), PickTarget::VmDir) => Some(form.vm_dir.clone()),
            (Modal::Settings(form), PickTarget::EngineBinary) => Some(
                form.entangled_binary.clone(),
            ),
            (Modal::Settings(form), PickTarget::WorkDir) => Some(form.work_dir.clone()),
            (Modal::Wizard(w), PickTarget::WizardIso) => Some(w.machine.iso_path.clone()),
            (Modal::Wizard(w), PickTarget::WizardDisk) => Some(w.machine.disk_path.clone()),
            (Modal::MoveDisk(m), PickTarget::MoveDestination) => Some(m.dest.clone()),
            (Modal::EditVm(e), PickTarget::EditorKernel) => Some(e.form.kernel.clone()),
            (Modal::EditVm(e), PickTarget::EditorInitramfs) => Some(e.form.initramfs.clone()),
            (Modal::EditVm(e), PickTarget::EditorFirmware) => Some(e.form.firmware.clone()),
            (Modal::EditVm(e), PickTarget::EditorNvram) => Some(e.form.nvram.clone()),
            (Modal::EditVm(e), PickTarget::EditorCdrom) => Some(e.form.cdrom.clone()),
            (Modal::EditVm(e), PickTarget::EditorAddDisk) => Some(e.form.add_disk.clone()),
            _ => None,
        }
    }

    /// Puts `text` into that field, and tells whether the dialog has it.
    pub fn fill(&mut self, target: PickTarget, text: String) -> (r: bool)
        ensures
            r == (old(self).spec_field(target) is Some),
            *final(self) == old(self).spec_filled(target, text),
    {
        match self {
            Modal::Settings(form) => match target {
                PickTarget::VmDir => {
                    form.vm_dir = text;
                    true
                },
                PickTarget::EngineBinary => {
                    form.entangled_binary = text;
                    true
                },
                PickTarget::WorkDir => {
                    form.work_dir = text;
                    true
                },
                _ => false,
            },
            Modal::Wizard(w) => match target {
                PickTarget::WizardIso => {
                    w.machine.iso_path = text;
                    true
                },
                PickTarget::WizardDisk => {
                    w.machine.disk_path = text;
                    true
                },
                _ => false,
            },
            Modal::MoveDisk(m) => match target {
                PickTarget::MoveDestination => {
                    m.dest = text;
                    true
                },
                _ => false,
            },
            Modal::EditVm(e) => match target {
                PickTarget::EditorKernel => {
                    e.form.kernel = text;
                    true
                },
                PickTarget::EditorInitramfs => {
                    e.form.initramfs = text;
                    true
                },
                PickTarget::EditorFirmware => {
                    e.form.firmware = text;
                    true
                },
                PickTarget::EditorNvram => {
                    e.form.nvram = text;
                    true
                },
                PickTarget::EditorCdrom => {
                    e.form.cdrom = text;
                    true
                },
                PickTarget::EditorAddDisk => {
                    e.form.add_disk = text;
                    true
                },
                _ => false,
            },
            _ => false,
        }
    }
}

/// A picked path lands in the field that the dialog was opened from, and in no
/// other.
pub proof fn picks_land_where_they_were_asked(
    modal: Modal,
    target: PickTarget,
    other: PickTarget,
    text: String,
)
    requires
        modal.spec_field(target) is Some,
    ensures
        modal.spec_filled(target, text).spec_field(target) == Some(text),
        other != target ==> modal.spec_filled(target, text).spec_field(other) == modal.spec_field(
            other,
        ),
{
}

/// A file dialog to be opened.
#[derive(Debug, PartialEq, Eq)]
pub struct DialogPlan {
    pub target: PickTarget,
    /// Where it opens.
    pub start: String,
    /// The file name it starts out with.
    pub seed: Option<String>,
}

impl ManagerApp {
    /// Where a dialog opens when its field says nothing useful.
    pub open spec fn spec_fallback(self, target: PickTarget, current_dir: Option<String>) -> Seq<
        char,
    > {
        match target {
            PickTarget::EngineBinary
            | PickTarget::WorkDir => self.settings.spec_child_cwd(current_dir),
            _ => self.settings.vm_dir@,
        }
    }

    /// What a dialog's field holds, and where it opens when that says nothing
    /// useful.
    pub fn picker_places(&self, target: PickTarget, current_dir: &Option<String>) -> (r: (
        String,
        String,
    ))
        ensures
            r.0@ == editor::shown(text::opt_text(self.desk.modal.spec_field(target))),
            r.1@ == self.spec_fallback(target, *current_dir),
    {
        let fallback = match target {
            PickTarget::EngineBinary
            | PickTarget::WorkDir => self.settings.child_cwd(current_dir),
            _ => self.settings.vm_dir.clone(),
        };
        (text_of(&self.desk.modal.picker_field(target)), fallback)
    }

    /// The file dialog for a field, unless one is open already. `facts` tells
    /// which of [`ManagerApp::picker_places`] are directories.
    pub fn open_picker(
        &self,
        target: PickTarget,
        current_dir: &Option<String>,
        facts: &DirFacts,
    ) -> (r: Option<DialogPlan>)
        ensures
            match r {
                None => self.desk.picker is Some,
                Some(plan) => {
                    let current = editor::shown(text::opt_text(self.desk.modal.spec_field(target)));
                    &&& self.desk.picker is None
                    &&& plan.target == target
                    &&& plan.start@ == picker::start_of(
                        self.host,
                        current,
                        self.spec_fallback(target, *current_dir),
                        *facts,
                    )
                    &&& text::opt_text(plan.seed) == paths::file_name_of(
                        self.host,
                        text::trim_of(current),
                    )
                },
            },
    {
        if self.desk.picker.is_some() {
            return None;
        }
        let (current, fallback) = self.picker_places(target, current_dir);
        Some(
            DialogPlan {
                target,
                start: picker::start_directory(self.host, &current, &fallback, facts),
                seed: picker::file_name_of(self.host, &current),
            },
        )
    }

    /// Takes whether a file dialog could be opened.
    pub fn picker_opened(&mut self, target: PickTarget, opened: Result<(), String>)
        ensures
            match opened {
                Ok(()) => *final(self) == (ManagerApp {
                    desk: Desk { picker: Some(target), ..old(self).desk },
                    ..*old(self)
                }),
                Err(m) => app::told_one(*old(self), *final(self), ToastLevel::Error, m@),
            },
    {
        match opened {
            Ok(()) => {
                self.desk.picker = Some(target);
            },
            Err(m) => self.toast(ToastLevel::Error, m),
        }
    }

    /// Takes the answer of the open file dialog: a path, or nothing when it was
    /// cancelled. The path goes into its field. An engine picked where no form is
    /// open is taken at once. The result tells whether the engine has to be
    /// looked for again.
    pub fn collect_picker(&mut self, answer: Option<String>) -> (r: bool)
        ensures
            match (old(self).desk.picker, answer) {
                (None, _) => !r && *final(self) == *old(self),
                (Some(_), None) => !r && *final(self) == (ManagerApp {
                    desk: Desk { picker: None, ..old(self).desk },
                    ..*old(self)
                }),
                (Some(target), Some(path)) => {
                    let filled = ManagerApp {
                        desk: Desk {
                            picker: None,
                            modal: old(self).desk.modal.spec_filled(target, path),
                            ..old(self).desk
                        },
                        ..*old(self)
                    };
                    &&& r == (target == PickTarget::EngineBinary)
                    &&& if target == PickTarget::EngineBinary && old(self).desk.modal.spec_field(
                        target,
                    ) is None {
                        &&& final(self).settings == (Settings {
                            entangled_binary: Some(path),
                            ..old(self).settings
                        })
                        &&& final(self).told() == old(self).told().push(
                            state::fresh(
                                ToastLevel::Success,
                                "using the Entangled engine at "@ + path@,
                            ),
                        )
                        &&& final(self).desk.requests@ == old(self).desk.requests@ + old(
                            self).save_requests()
                        &&& *final(self) == (ManagerApp {
                            settings: final(self).settings,
                            desk: final(self).desk,
                            ..filled
                        })
                        &&& final(self).desk == (Desk {
                            toasts: final(self).desk.toasts,
                            requests: final(self).desk.requests,
                            ..filled.desk
                        })
                    } else {
                        *final(self) == filled
                    }
                },
            },
    {
        let target = match self.desk.picker {
            Some(target) => target,
            None => return false,
        };
        self.desk.picker = None;
        let path = match answer {
            Some(path) => path,
            None => return false,
        };
        let taken = self.desk.modal.fill(target, path.clone());
        if !taken && target == PickTarget::EngineBinary {
            let message = text::cat("using the Entangled engine at ", &path);
            self.settings.entangled_binary = Some(path);
            self.persist_settings_quietly();
            self.toast(ToastLevel::Success, message);
        }
        target == PickTarget::EngineBinary
    }
}

// ---------------------------------------------------------------------------
// The host check
// ---------------------------------------------------------------------------

/// A host check to be run.
#[derive(Debug, PartialEq, Eq)]
pub struct DoctorRun {
    pub runner: Runner,
    pub cwd: String,
}

impl ManagerApp {
    /// Starts the engine's host check for the default backend, unless one runs.
    /// Without an engine its absence is the report.
    pub fn run_diagnostics(&mut self, current_dir: &Option<String>) -> (r: Option<DoctorRun>)
        ensures
            if old(self).doctor.running {
                r is None && *final(self) == *old(self)
            } else {
                match old(self).engine {
                    Ok(engine) => {
                        &&& r matches Some(run) && run.runner@ == launcher::runner_of(
                            old(self).settings.default_backend,
                            engine.path@,
                            old(self).settings,
                        ) && run.cwd@ == old(self).settings.spec_child_cwd(*current_dir)
                        &&& *final(self) == (ManagerApp {
                            doctor: DoctorState { running: true, ..old(self).doctor },
                            ..*old(self)
                        })
                    },
                    Err(m) => {
                        &&& r is None
                        &&& final(self).doctor.report matches Some(report) && report.command@.len()
                            == 0 && report.backend == old(self).settings.default_backend
                            && !report.healthy && hostcheck::line_views(report.lines@) == seq![
                            (m@, Level::Failure),
                        ]
                        &&& *final(self) == (ManagerApp {
                            doctor: DoctorState {
                                report: final(self).doctor.report,
                                ..old(self).doctor
                            },
                            ..*old(self)
                        })
                    },
                }
            },
    {
        if self.doctor.running {
            return None;
        }
        let found: Result<String, String> = match &self.engine {
            Ok(engine) => Ok(engine.path.clone()),
            Err(m) => Err(m.clone()),
        };
        match found {
            Ok(path) => {
                self.doctor.running = true;
                Some(
                    DoctorRun {
                        runner: Runner::new(self.settings.default_backend, path, &self.settings),
                        cwd: self.settings.child_cwd(current_dir),
                    },
                )
            },
            Err(m) => {
                let ghost message = m@;
                let lines = vec![Line { text: m, level: Level::Failure }];
                assert(hostcheck::line_views(lines@) =~= seq![(message, Level::Failure)]);
                let report = Report {
                    command: String::new(),
                    backend: self.settings.default_backend,
                    healthy: false,
                    lines,
                };
                self.doctor.report = Some(report);
                None
            },
        }
    }

    /// Takes the answer of the host check.
    pub fn collect_diagnostics(&mut self, report: Report)
        ensures
            *final(self) == (ManagerApp {
                doctor: DoctorState { report: Some(report), running: false },
                ..*old(self)
            }),
    {
        self.doctor.running = false;
        self.doctor.report = Some(report);
    }
}

// ---------------------------------------------------------------------------
// The log pane
// ---------------------------------------------------------------------------

/// The newest running child.
pub open spec fn newest_active(tasks: Seq<Task>) -> Option<u64>
    decreases tasks.len(),
{
    if tasks.len() == 0 {
        None
    } else if tasks.last().active() {
        Some(tasks.last().id)
    } else {
        newest_active(tasks.drop_last())
    }
}

/// The child whose log is shown: the selected one while it is known, else the
/// newest running one, else the newest.
pub open spec fn log_choice(selected: Option<u64>, tasks: Seq<Task>) -> Option<u64> {
    if selected matches Some(id) && exists|i: int|
        0 <= i < tasks.len() && (#[trigger] tasks[i]).id == id {
        selected
    } else if newest_active(tasks) is Some {
        newest_active(tasks)
    } else if tasks.len() > 0 {
        Some(tasks.last().id)
    } else {
        None
    }
}

impl ManagerApp {
    fn newest_running(&self) -> (r: Option<u64>)
        ensures
            r == newest_active(self.supervisor.tasks@),
    {
        let ghost all = self.supervisor.tasks@;
        let mut i: usize = self.supervisor.tasks.len();
        assert(all.take(i as int) =~= all);
        while i > 0
            invariant
                all == self.supervisor.tasks@,
                i <= all.len(),
                newest_active(all) == newest_active(all.take(i as int)),
            decreases i,
        {
            proof {
                assert(all.take(i as int).drop_last() =~= all.take(i - 1));
                assert(all.take(i as int).last() == all[i - 1]);
            }
            i = i - 1;
            if self.supervisor.tasks[i].is_active() {
                return Some(self.supervisor.tasks[i].id);
            }
        }
        None
    }

    /// Keeps a log selected, as long as there is one.
    pub fn ensure_log_selection(&mut self)
        ensures
            *final(self) == (ManagerApp {
                desk: Desk {
                    log_selected: log_choice(
                        old(self).desk.log_selected,
                        old(self).supervisor.tasks@,
                    ),
                    ..old(self).desk
                },
                ..*old(self)
            }),
    {
        if let Some(id) = self.desk.log_selected {
            let known = self.supervisor.task(id).is_some();
            if known {
                return;
            }
        }
        let running = self.newest_running();
        let n = self.supervisor.tasks.len();
        let choice: Option<u64> = if running.is_some() {
            running
        } else if n > 0 {
            Some(self.supervisor.tasks[n - 1].id)
        } else {
            None
        };
        self.desk.log_selected = choice;
    }
}

} // verus!
