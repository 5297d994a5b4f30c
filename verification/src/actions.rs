//! What a user asks for, carried out or handed back.
//!
//! An action that needs nothing from the host is carried out at once. Any other is
//! handed back untouched: the host is asked or changed outside, and the operation
//! of that name then takes what that gave.
use crate::app;
use crate::launching;
use crate::moving;
use crate::state::{Action, Desk, ManagerApp, Modal, ScannerState, Surface, ToastLevel, UpdateState};
use crate::storage;
use crate::text;
use vstd::prelude::*;

verus! {

/// A move in flight owns its dialog: closing it would orphan the copy's progress.
pub open spec fn is_moving(modal: Modal) -> bool {
    modal matches Modal::MoveDisk(s) && s.running
}

impl ManagerApp {
    /// The action needs the host before it can be carried out.
    pub open spec fn needs_host(action: Action) -> bool {
        match action {
            Action::CreateVmDir
            | Action::OpenWizard
            | Action::SubmitWizard
            | Action::SaveSettings
            | Action::Start(_)
            | Action::TogglePause(_)
            | Action::Reset(_)
            | Action::Suspend(_)
            | Action::ResumeVm(_)
            | Action::ResumeSnapshot(_)
            | Action::ConfirmDeleteSnapshot
            | Action::ConfirmDiscardSnapshot
            | Action::AskDelete(_)
            | Action::ConfirmDelete
            | Action::OpenReleasePage
            | Action::OpenCreateDisk
            | Action::SubmitCreateDisk
            | Action::ConfirmDeleteDisk
            | Action::SubmitAttachDisk
            | Action::DetachDisk { .. }
            | Action::Reveal(_)
            | Action::AskEditVm(_)
            | Action::SubmitEditVm
            | Action::SubmitMoveDisk
            | Action::PickPath(_)
            | Action::RunDiagnostics
            | Action::InstallWslEngine
            | Action::SubmitResizeDisk => true,
            _ => false,
        }
    }

    /// What an action does that needs nothing from the host.
    pub open spec fn acted(self, action: Action, after: ManagerApp) -> bool {
        match action {
            Action::Refresh => {
                let asked = ManagerApp {
                    scanner: ScannerState { manual_refresh_at: Some(self.now), ..self.scanner },
                    ..self
                };
                &&& app::rescanned(asked, self.desk.requests@, after, true)
                &&& app::only_requests(ManagerApp { scanner: after.scanner, ..asked }, after)
            },
            Action::CloseModal => if is_moving(self.desk.modal) {
                after == self
            } else {
                &&& after.desk.modal is Closed
                &&& app::only_modal(self, after)
            },
            Action::OpenSettings => {
                &&& after.desk.modal matches Modal::Settings(f) && crate::dialogs::form_shows(
                    f,
                    self.settings,
                )
                &&& app::only_modal(self, after)
            },
            Action::Stop(name) => launching::stop_asked(self, after, name@),
            Action::AskDeleteSnapshot(path) => launching::session_deletion_asked(
                self,
                after,
                path@,
            ),
            Action::CopyProfilePath(path) => app::told_one(
                self,
                after,
                ToastLevel::Info,
                "copied "@ + path@,
            ),
            Action::SelectLog(id) => after == (ManagerApp {
                desk: Desk {
                    log_selected: Some(id),
                    log_open: true,
                    log_follow: true,
                    ..self.desk
                },
                ..self
            }),
            Action::ToggleLogPane => after == (ManagerApp {
                desk: Desk { log_open: !self.desk.log_open, ..self.desk },
                ..self
            }),
            Action::DismissToast(index) => {
                &&& after.desk.toasts@ == (if index < self.desk.toasts@.len() {
                    self.desk.toasts@.remove(index as int)
                } else {
                    self.desk.toasts@
                })
                &&& after == (ManagerApp {
                    desk: Desk { toasts: after.desk.toasts, ..self.desk },
                    ..self
                })
            },
            Action::InstallUpdate => app::update_wanted(self, after),
            Action::DismissUpdate => after == (ManagerApp {
                update: UpdateState { offer: None, ..self.update },
                ..self
            }),
            Action::SwitchView(view) => {
                let switched = ManagerApp { desk: Desk { view, ..self.desk }, ..self };
                &&& app::rescanned(switched, self.desk.requests@, after, true)
                &&& app::only_requests(ManagerApp { scanner: after.scanner, ..switched }, after)
            },
            Action::AskDeleteDisk(path) => storage::disk_deletion_asked(self, after, path@),
            Action::OpenAttachDisk(path) => storage::attach_asked(self, after, path@),
            Action::AskMoveDisk(path) => moving::move_asked(self, after, path@),
            Action::AskResizeDisk(path) => moving::resize_asked(self, after, path@),
            Action::CheckWslEngine => {
                &&& app::rechecked(self, after.wsl, true)
                &&& after.desk.requests@ == self.desk.requests@ + self.wsl_requests(true)
                &&& app::only_requests(ManagerApp { wsl: after.wsl, ..self }, after)
            },
            Action::AskDiscardSnapshot(name) => launching::discard_asked(
                self,
                after,
                name@,
                self.spec_snapshot_for(name@) is None,
            ),
            _ => after == self,
        }
    }

    /// What is handed back: an action that needs the host, the path that is to be
    /// copied, or the start of a machine that turns out to have no saved session.
    pub open spec fn handed_back(self, action: Action) -> Option<Action> {
        match action {
            Action::AskDiscardSnapshot(name) => if self.spec_snapshot_for(name@) is None {
                Some(Action::Start(name))
            } else {
                None
            },
            Action::CopyProfilePath(_) => Some(action),
            _ => if Self::needs_host(action) {
                Some(action)
            } else {
                None
            },
        }
    }

    fn close_modal(&mut self)
        ensures
            old(self).acted(Action::CloseModal, *final(self)),
    {
        let moving = match &self.desk.modal {
            Modal::MoveDisk(s) => s.running,
            _ => false,
        };
        if !moving {
            self.desk.modal = Modal::Closed;
        }
    }

    fn manual_refresh(&mut self)
        ensures
            old(self).acted(Action::Refresh, *final(self)),
    {
        self.scanner.manual_refresh_at = Some(self.now);
        self.request_scan(true);
    }

    fn switch_view(&mut self, view: Surface)
        ensures
            old(self).acted(Action::SwitchView(view), *final(self)),
    {
        self.desk.view = view;
        self.request_scan(true);
    }

    fn dismiss_toast(&mut self, index: usize)
        ensures
            old(self).acted(Action::DismissToast(index), *final(self)),
    {
        if index < self.desk.toasts.len() {
            let _ = self.desk.toasts.remove(index);
        }
    }

    /// Carries out an action, or hands it back when the host is needed first. In a
    /// session with sample data, what would commit a change is played instead.
    /// `verdict` is what the engine's rules say of the edited profile, if one is
    /// open.
    pub fn apply(&mut self, action: Action, verdict: &Result<(), String>) -> (r: Option<Action>)
        requires
            old(self).wf(),
        ensures
            final(self).wf(),
            if old(self).mock_handles(action) {
                r is None && old(self).mock_played(action, *verdict, *final(self))
            } else {
                r == old(self).handed_back(action) && old(self).acted(action, *final(self))
            },
    {
        if self.apply_mock(&action, verdict) {
            return None;
        }
        match &action {
            Action::Refresh => self.manual_refresh(),
            Action::CloseModal => self.close_modal(),
            Action::OpenSettings => self.open_settings(),
            Action::Stop(name) => self.stop(name),
            Action::AskDeleteSnapshot(path) => self.ask_delete_snapshot(path),
            Action::SelectLog(id) => {
                self.desk.log_selected = Some(*id);
                self.desk.log_open = true;
                self.desk.log_follow = true;
            },
            Action::ToggleLogPane => self.desk.log_open = !self.desk.log_open,
            Action::DismissToast(index) => self.dismiss_toast(*index),
            Action::InstallUpdate => self.install_update(),
            Action::DismissUpdate => self.update.offer = None,
            Action::SwitchView(view) => self.switch_view(*view),
            Action::AskDeleteDisk(path) => self.ask_delete_disk(path),
            Action::OpenAttachDisk(path) => self.open_attach_disk(path),
            Action::AskMoveDisk(path) => self.ask_move_disk(path),
            Action::AskResizeDisk(path) => self.ask_resize_disk(path),
            Action::CheckWslEngine => self.ensure_wsl_check(true),
            Action::AskDiscardSnapshot(name) => {
                if self.ask_discard_snapshot(name) {
                    return Some(Action::Start(name.clone()));
                }
            },
            Action::CopyProfilePath(path) => {
                self.toast(ToastLevel::Info, text::cat("copied ", path));
                return Some(action);
            },
            _ => return Some(action),
        }
        None
    }
}

// ---------------------------------------------------------------------------
// Laws
// ---------------------------------------------------------------------------

/// In a session with sample data, what is handed back asks the file system a
/// question, opens a dialog, copies a text or is a command for a running child.
/// Nothing that writes, starts a child or reaches the network is.
pub proof fn samples_leave_the_host_alone(app: ManagerApp, action: Action)
    requires
        app.mock_mode,
        !app.mock_handles(action),
    ensures
        match app.handed_back(action) {
            Some(Action::OpenWizard)
            | Some(Action::TogglePause(_))
            | Some(Action::Reset(_))
            | Some(Action::AskDelete(_))
            | Some(Action::CopyProfilePath(_))
            | Some(Action::OpenCreateDisk)
            | Some(Action::AskEditVm(_))
            | None => true,
            _ => false,
        },
{
}

/// A dialog whose move is running cannot be closed.
pub proof fn running_moves_stay_open(app: ManagerApp, after: ManagerApp)
    requires
        is_moving(app.desk.modal),
        app.acted(Action::CloseModal, after),
    ensures
        after.desk.modal == app.desk.modal,
{
}

/// Closing a dialog leaves everything else as it was, and any dialog but that of a
/// running move is closed by it.
pub proof fn closing_changes_nothing_else(app: ManagerApp, after: ManagerApp)
    requires
        app.acted(Action::CloseModal, after),
    ensures
        after == (ManagerApp { desk: Desk { modal: after.desk.modal, ..app.desk }, ..app }),
        !is_moving(app.desk.modal) ==> after.desk.modal is Closed,
{
}

/// Asking twice for the log pane changes nothing.
pub proof fn toggling_twice_changes_nothing(app: ManagerApp, once: ManagerApp, twice: ManagerApp)
    requires
        app.acted(Action::ToggleLogPane, once),
        once.acted(Action::ToggleLogPane, twice),
    ensures
        twice == app,
{
}

} // verus!
