//! The manager's housekeeping: messages, scans, the engine, and the checks that
//! run in the background.
//!
//! Every failure becomes a message or a line in a dialog, never a panic.
use crate::backend::{Backend, DEFAULT_WSL_DISTRO};
use crate::discovery::{Scan, VmEntry};
use crate::launcher;
use crate::launcher::{Engine, EngineFacts, EngineOrigin, LaunchError};
use crate::metrics;
use crate::process;
use crate::process::Task;
use crate::settings::Settings;
use crate::state;
use crate::state::{
    Desk, ManagerApp, Modal, PendingInstall, Request, ScannerState, Toast, ToastLevel, ToastView,
    UpdateState, WslState, SCAN_INTERVAL_MS,
};
use crate::text;
use crate::update::UpdateInfo;
use crate::wslengine;
use crate::wslengine::{EngineFault, EngineFound, Installed, Target};
use vstd::prelude::*;

verus! {

pub const SCANNER_GONE: &'static str = "the VM scanner thread is gone; restart the manager";

// ---------------------------------------------------------------------------
// Messages and scans
// ---------------------------------------------------------------------------

/// The messages that stay at `now`: those not shown yet are stamped, and those
/// shown long enough are dropped.
pub open spec fn kept_toasts(toasts: Seq<ToastView>, now: u64) -> Seq<ToastView>
    decreases toasts.len(),
{
    if toasts.len() == 0 {
        Seq::empty()
    } else {
        let init = kept_toasts(toasts.drop_last(), now);
        let last = toasts.last();
        let born = match last.born {
            Some(t) => t,
            None => now,
        };
        if metrics::beyond(now, born) < state::lifetime_of(last.level) {
            init.push(ToastView { born: Some(born), ..last })
        } else {
            init
        }
    }
}

/// Everything but the messages, the dialog and what a scan touches is as it was.
pub open spec fn kept(before: ManagerApp, after: ManagerApp) -> bool {
    &&& after == (ManagerApp { desk: after.desk, scanner: after.scanner, ..before })
    &&& after.desk == (Desk {
        toasts: after.desk.toasts,
        modal: after.desk.modal,
        requests: after.desk.requests,
        ..before.desk
    })
}

/// What a wish for a scan does to the requests, which were `base`, and to what
/// is known of the scanner.
pub open spec fn rescanned(
    before: ManagerApp,
    base: Seq<Request>,
    after: ManagerApp,
    force: bool,
) -> bool {
    if before.scan_due(force) && before.scanner.alive {
        &&& after.desk.requests@ == base.push(Request::Scan)
        &&& after.scanner == (ScannerState {
            in_flight: true,
            last: Some(before.now),
            ..before.scanner
        })
    } else {
        &&& after.desk.requests@ == base
        &&& if before.scan_due(force) {
            &&& after.scanner == (ScannerState { error: after.scanner.error, ..before.scanner })
            &&& state::says(after.scanner.error, SCANNER_GONE@)
        } else {
            after.scanner == before.scanner
        }
    }
}

/// A message was told and a scan was wished for.
pub open spec fn announced(
    before: ManagerApp,
    after: ManagerApp,
    level: ToastLevel,
    text: Seq<char>,
) -> bool {
    &&& after.told() == before.told().push(state::fresh(level, text))
    &&& rescanned(before, before.desk.requests@, after, true)
    &&& kept(before, after)
    &&& after.desk.modal == before.desk.modal
}

/// The dialog is closed, a message was told and a scan was wished for.
pub open spec fn concluded(
    before: ManagerApp,
    after: ManagerApp,
    level: ToastLevel,
    text: Seq<char>,
) -> bool {
    announced(
        ManagerApp { desk: Desk { modal: Modal::Closed, ..before.desk }, ..before },
        after,
        level,
        text,
    )
}

/// What a wish for a check of WSL does.
pub open spec fn rechecked(before: ManagerApp, after: WslState, force: bool) -> bool {
    if before.wsl_due(force) {
        &&& after.target matches Some(t) && t@ == before.spec_wsl_target()
        &&& after == (WslState {
            engine: wslengine::Status::Checking,
            target: after.target,
            checking: true,
            ..before.wsl
        })
    } else {
        after == before.wsl
    }
}

/// A pending installation has become a machine: its profile is there and its
/// installer is not running.
pub open spec fn settled(p: PendingInstall, vms: Seq<VmEntry>, tasks: Seq<Task>) -> bool {
    state::vm_at(vms, p.name@) is Some && !process::busy_in(tasks, p.name@)
}

/// The installations that are still pending.
pub open spec fn unsettled(
    pending: Seq<PendingInstall>,
    vms: Seq<VmEntry>,
    tasks: Seq<Task>,
) -> Seq<PendingInstall>
    decreases pending.len(),
{
    if pending.len() == 0 {
        Seq::empty()
    } else if settled(pending.last(), vms, tasks) {
        unsettled(pending.drop_last(), vms, tasks)
    } else {
        unsettled(pending.drop_last(), vms, tasks).push(pending.last())
    }
}

proof fn lemma_unsettled_step(
    head: Seq<PendingInstall>,
    p: PendingInstall,
    rest: Seq<PendingInstall>,
    vms: Seq<VmEntry>,
    tasks: Seq<Task>,
)
    ensures
        unsettled(head + seq![p] + rest, vms, tasks) == unsettled(head, vms, tasks) + (if settled(
            p,
            vms,
            tasks,
        ) {
            Seq::<PendingInstall>::empty()
        } else {
            seq![p]
        }) + unsettled(rest, vms, tasks),
    decreases rest.len(),
{
    let all = head + seq![p] + rest;
    if rest.len() == 0 {
        assert(all.drop_last() =~= head);
        assert(all.last() == p);
        if settled(p, vms, tasks) {
            assert(unsettled(all, vms, tasks) =~= unsettled(head, vms, tasks)
                + Seq::<PendingInstall>::empty() + Seq::<PendingInstall>::empty());
        } else {
            assert(unsettled(all, vms, tasks) =~= unsettled(head, vms, tasks) + seq![p]
                + Seq::<PendingInstall>::empty());
        }
    } else {
        assert(all.drop_last() =~= head + seq![p] + rest.drop_last());
        lemma_unsettled_step(head, p, rest.drop_last(), vms, tasks);
        let mid = if settled(p, vms, tasks) {
            Seq::<PendingInstall>::empty()
        } else {
            seq![p]
        };
        assert(all.last() == rest.last());
        let a = unsettled(head, vms, tasks) + mid + unsettled(rest.drop_last(), vms, tasks);
        if !settled(rest.last(), vms, tasks) {
            assert(a.push(rest.last()) =~= unsettled(head, vms, tasks) + mid + unsettled(
                rest.drop_last(),
                vms,
                tasks,
            ).push(rest.last()));
        }
    }
}

/// More requests, and nothing else.
pub open spec fn only_requests(before: ManagerApp, after: ManagerApp) -> bool {
    &&& after == (ManagerApp { desk: after.desk, ..before })
    &&& after.desk == (Desk { requests: after.desk.requests, ..before.desk })
}

/// Another dialog, and nothing else.
pub open spec fn only_modal(before: ManagerApp, after: ManagerApp) -> bool {
    after == (ManagerApp { desk: Desk { modal: after.desk.modal, ..before.desk }, ..before })
}

/// The dialog shows `message`, and nothing else changed.
pub open spec fn faulted_only(before: ManagerApp, after: ManagerApp, message: Seq<char>) -> bool {
    &&& state::faulted(before.desk.modal, after.desk.modal, message)
    &&& only_modal(before, after)
}

/// One message more, and nothing else.
pub open spec fn told_one(
    before: ManagerApp,
    after: ManagerApp,
    level: ToastLevel,
    text: Seq<char>,
) -> bool {
    &&& after.told() == before.told().push(state::fresh(level, text))
    &&& after == (ManagerApp { desk: after.desk, ..before })
    &&& after.desk == (Desk { toasts: after.desk.toasts, ..before.desk })
}

impl Desk {
    /// The messages, as plain values.
    pub open spec fn told(self) -> Seq<ToastView> {
        state::toast_views(self.toasts@)
    }

    /// Shows a message.
    pub fn toast(&mut self, level: ToastLevel, text: String)
        ensures
            final(self).told() == old(self).told().push(state::fresh(level, text@)),
            *final(self) == (Desk { toasts: final(self).toasts, ..*old(self) }),
    {
        let ghost before = self.told();
        let ghost t = text@;
        self.toasts.push(Toast { text, level, born: None });
        assert(self.told() =~= before.push(state::fresh(level, t)));
    }

    /// Stamps the messages that are shown for the first time, and drops those
    /// that were shown long enough.
    pub fn expire_toasts(&mut self, now: u64)
        ensures
            final(self).told() == kept_toasts(old(self).told(), now),
            *final(self) == (Desk { toasts: final(self).toasts, ..*old(self) }),
    {
        let mut kept: Vec<Toast> = Vec::new();
        let ghost before = self.told();
        let mut i: usize = 0;
        proof {
            assert(before.take(0) =~= Seq::<ToastView>::empty());
            assert(state::toast_views(kept@) =~= kept_toasts(before.take(0), now));
        }
        while i < self.toasts.len()
            invariant
                i <= self.toasts@.len(),
                *self == *old(self),
                before == self.told(),
                state::toast_views(kept@) == kept_toasts(before.take(i as int), now),
            decreases self.toasts@.len() - i,
        {
            proof {
                assert(before.take(i + 1).drop_last() =~= before.take(i as int));
                assert(before.take(i + 1).last() == self.toasts@[i as int]@);
            }
            let born: u64 = match self.toasts[i].born {
                Some(t) => t,
                None => now,
            };
            let age: u64 = if now >= born {
                now - born
            } else {
                0
            };
            if age < self.toasts[i].lifetime() {
                let ghost shown = state::toast_views(kept@);
                kept.push(
                    Toast {
                        text: self.toasts[i].text.clone(),
                        level: self.toasts[i].level,
                        born: Some(born),
                    },
                );
                assert(state::toast_views(kept@) =~= shown.push(
                    (ToastView { born: Some(born), ..self.toasts@[i as int]@ }),
                ));
            }
            i = i + 1;
        }
        assert(before.take(i as int) =~= before);
        self.toasts = kept;
    }
}

/// What asking for the newer release does.
pub open spec fn update_wanted(before: ManagerApp, after: ManagerApp) -> bool {
    match before.update.offer {
        Some(info) if !before.update.downloading => if info.installer_url is None {
            told_one(
                before,
                after,
                ToastLevel::Warn,
                "this release has no installer asset — use the release page"@,
            )
        } else {
            &&& after.desk.requests@ == before.desk.requests@.push(
                Request::DownloadUpdate,
            )
            &&& only_requests(
                ManagerApp {
                    update: UpdateState { downloading: true, ..before.update },
                    ..before
                },
                after,
            )
        },
        _ => after == before,
    }
}

impl ManagerApp {
    /// Shows a message.
    pub fn toast(&mut self, level: ToastLevel, text: String)
        ensures
            told_one(*old(self), *final(self), level, text@),
    {
        self.desk.toast(level, text);
    }

    /// Tells a message and wishes for a scan.
    pub fn announce(&mut self, level: ToastLevel, text: String)
        ensures
            announced(*old(self), *final(self), level, text@),
    {
        self.toast(level, text);
        self.request_scan(true);
    }

    /// Closes the dialog, tells a message and wishes for a scan.
    pub fn conclude(&mut self, level: ToastLevel, text: String)
        ensures
            concluded(*old(self), *final(self), level, text@),
    {
        self.desk.modal = Modal::Closed;
        self.announce(level, text);
    }

    /// A scan is wanted and none is under way.
    pub open spec fn scan_due(self, force: bool) -> bool {
        &&& !self.mock_mode
        &&& !self.scanner.in_flight
        &&& force || (self.scanner.last matches Some(last) ==> metrics::beyond(self.now, last)
            >= SCAN_INTERVAL_MS)
    }

    /// Asks for a scan of the machine directory: when one is due, or at once.
    pub fn request_scan(&mut self, force: bool)
        ensures
            rescanned(*old(self), old(self).desk.requests@, *final(self), force),
            *final(self) == (ManagerApp {
                desk: final(self).desk,
                scanner: final(self).scanner,
                ..*old(self)
            }),
            final(self).desk == (Desk { requests: final(self).desk.requests, ..old(self).desk }),
    {
        if self.mock_mode || self.scanner.in_flight {
            return;
        }
        if !force {
            if let Some(last) = self.scanner.last {
                let age: u64 = if self.now >= last {
                    self.now - last
                } else {
                    0
                };
                if age < SCAN_INTERVAL_MS {
                    return;
                }
            }
        }
        if self.scanner.alive {
            self.desk.requests.push(Request::Scan);
            self.scanner.in_flight = true;
            self.scanner.last = Some(self.now);
        } else {
            self.scanner.error = Some(SCANNER_GONE.to_owned());
        }
    }

    /// Drops the pending installations that have become machines.
    fn settle_pending(&mut self)
        ensures
            final(self).pending@ == unsettled(
                old(self).pending@,
                old(self).scan.vms@,
                old(self).supervisor.tasks@,
            ),
            *final(self) == (ManagerApp { pending: final(self).pending, ..*old(self) }),
    {
        let ghost vms = self.scan.vms@;
        let ghost tasks = self.supervisor.tasks@;
        let mut i: usize = 0;
        proof {
            assert(self.pending@.take(0) =~= Seq::<PendingInstall>::empty());
            assert(self.pending@.skip(0) =~= self.pending@);
            assert(self.pending@.take(0) + unsettled(self.pending@.skip(0), vms, tasks)
                =~= unsettled(self.pending@, vms, tasks));
        }
        while i < self.pending.len()
            invariant
                i <= self.pending@.len(),
                vms == self.scan.vms@,
                tasks == self.supervisor.tasks@,
                self.pending@.take(i as int) + unsettled(self.pending@.skip(i as int), vms, tasks)
                    == unsettled(old(self).pending@, vms, tasks),
                *self == (ManagerApp { pending: self.pending, ..*old(self) }),
            decreases self.pending@.len() - i,
        {
            let ghost all = self.pending@;
            let known = self.vm(&self.pending[i].name).is_some();
            let busy = self.supervisor.is_busy(&self.pending[i].name);
            proof {
                let p = all[i as int];
                let rest = all.skip(i + 1);
                lemma_unsettled_step(Seq::empty(), p, rest, vms, tasks);
                assert(Seq::<PendingInstall>::empty() + seq![p] + rest =~= all.skip(i as int));
                assert(unsettled(Seq::<PendingInstall>::empty(), vms, tasks) =~= Seq::<
                    PendingInstall,
                >::empty());
            }
            if known && !busy {
                let _ = self.pending.remove(i);
                proof {
                    assert(self.pending@.take(i as int) =~= all.take(i as int));
                    assert(self.pending@.skip(i as int) =~= all.skip(i + 1));
                    assert(unsettled(all.skip(i as int), vms, tasks) =~= unsettled(
                        all.skip(i + 1),
                        vms,
                        tasks,
                    ));
                }
            } else {
                proof {
                    assert(all.take(i + 1) =~= all.take(i as int).push(all[i as int]));
                    assert(unsettled(all.skip(i as int), vms, tasks) =~= seq![all[i as int]]
                        + unsettled(all.skip(i + 1), vms, tasks));
                    assert(all.take(i + 1) + unsettled(all.skip(i + 1), vms, tasks) =~= all.take(
                        i as int,
                    ) + unsettled(all.skip(i as int), vms, tasks));
                }
                i = i + 1;
            }
        }
        proof {
            assert(self.pending@.take(i as int) =~= self.pending@);
            assert(self.pending@.skip(i as int) =~= Seq::<PendingInstall>::empty());
            assert(self.pending@ + Seq::<PendingInstall>::empty() =~= self.pending@);
        }
    }

    /// Takes what a scan gave, if one has answered, and drops the pending
    /// installations that have become machines.
    pub fn collect_scan(&mut self, answer: Option<Result<Scan, String>>)
        ensures
            match answer {
                Some(Ok(scan)) => final(self).scan == scan && final(self).scanner == (ScannerState {
                    in_flight: false,
                    error: None,
                    ..old(self).scanner
                }),
                Some(Err(message)) => final(self).scan == old(self).scan && final(self).scanner == (
                ScannerState { in_flight: false, error: Some(message), ..old(self).scanner }),
                None => final(self).scan == old(self).scan && final(self).scanner == old(
                    self).scanner,
            },
            final(self).pending@ == unsettled(
                old(self).pending@,
                final(self).scan.vms@,
                old(self).supervisor.tasks@,
            ),
            *final(self) == (ManagerApp {
                scan: final(self).scan,
                scanner: final(self).scanner,
                pending: final(self).pending,
                ..*old(self)
            }),
    {
        match answer {
            Some(Ok(scan)) => {
                self.scanner.in_flight = false;
                self.scan = scan;
                self.scanner.error = None;
            },
            Some(Err(message)) => {
                self.scanner.in_flight = false;
                self.scanner.error = Some(message);
            },
            None => {},
        }
        self.settle_pending();
    }

    /// The requests that a quiet save adds.
    pub open spec fn save_requests(self) -> Seq<Request> {
        if self.mock_mode || self.settings_path is None {
            Seq::empty()
        } else {
            seq![Request::SaveSettings]
        }
    }

    /// Asks for the settings to be written without telling the user, for changes
    /// the application makes on the user's behalf.
    pub fn persist_settings_quietly(&mut self)
        ensures
            final(self).desk.requests@ == old(self).desk.requests@ + old(self).save_requests(),
            only_requests(*old(self), *final(self)),
    {
        if !self.mock_mode && self.settings_path.is_some() {
            self.desk.requests.push(Request::SaveSettings);
        }
        assert(self.desk.requests@ =~= old(self).desk.requests@ + old(self).save_requests());
    }

    // -----------------------------------------------------------------------
    // WSL
    // -----------------------------------------------------------------------

    pub open spec fn spec_wsl_target(self) -> wslengine::TargetView {
        wslengine::target_of(self.settings.wsl_distro@, text::opt_text(self.settings.wsl_entangled))
    }

    /// Which distribution and engine a check of WSL is about.
    pub fn wsl_target(&self) -> (r: Target)
        ensures
            r@ == self.spec_wsl_target(),
    {
        match &self.settings.wsl_entangled {
            Some(path) => Target::new(&self.settings.wsl_distro, Some(path.as_str())),
            None => Target::new(&self.settings.wsl_distro, None),
        }
    }

    /// A check of WSL is wanted: nothing is known of what it would be about, and
    /// none is under way.
    pub open spec fn wsl_due(self, force: bool) -> bool {
        &&& !self.mock_mode
        &&& Backend::Wsl.available(self.host)
        &&& force || (!(self.wsl.target matches Some(t) && t@ == self.spec_wsl_target())
            && !self.wsl.checking)
    }

    /// The request that a check of WSL adds, if it is wanted.
    pub open spec fn wsl_requests(self, force: bool) -> Seq<Request> {
        if self.wsl_due(force) {
            seq![Request::CheckWsl]
        } else {
            Seq::empty()
        }
    }

    /// Asks for a check of WSL, unless its answer is known or under way. `force`
    /// is for the same question asked anew: by the user, or after an
    /// installation.
    pub fn ensure_wsl_check(&mut self, force: bool)
        ensures
            rechecked(*old(self), final(self).wsl, force),
            final(self).desk.requests@ == old(self).desk.requests@ + old(self).wsl_requests(force),
            *final(self) == (ManagerApp {
                wsl: final(self).wsl,
                desk: final(self).desk,
                ..*old(self)
            }),
            final(self).desk == (Desk { requests: final(self).desk.requests, ..old(self).desk }),
    {
        let ghost before = self.desk.requests@;
        let due = self.wsl_check_due(force);
        if due {
            self.wsl.target = Some(self.wsl_target());
            self.wsl.engine = wslengine::Status::Checking;
            self.wsl.checking = true;
            self.desk.requests.push(Request::CheckWsl);
        }
        assert(self.desk.requests@ =~= before + old(self).wsl_requests(force));
    }

    fn wsl_check_due(&self, force: bool) -> (r: bool)
        ensures
            r == self.wsl_due(force),
    {
        if self.mock_mode || !Backend::Wsl.available_on_host(self.host) {
            return false;
        }
        if force {
            return true;
        }
        if let Some(known) = &self.wsl.target {
            if known.same(&self.wsl_target()) {
                return false;
            }
        }
        !self.wsl.checking
    }

    /// Takes the answer of a check of WSL.
    pub fn wsl_answered(&mut self, answer: Result<EngineFound, EngineFault>)
        ensures
            *final(self) == (ManagerApp {
                wsl: WslState {
                    engine: match answer {
                        Ok(found) => wslengine::Status::Ready(found),
                        Err(fault) => wslengine::Status::Failed(fault),
                    },
                    checking: false,
                    ..old(self).wsl
                },
                ..*old(self)
            }),
    {
        self.wsl.checking = false;
        self.wsl.engine = match answer {
            Ok(found) => wslengine::Status::Ready(found),
            Err(fault) => wslengine::Status::Failed(fault),
        };
    }

    /// The distribution that an engine is installed into.
    pub open spec fn spec_install_distro(self) -> Seq<char> {
        if self.spec_wsl_target().distro.len() == 0 {
            DEFAULT_WSL_DISTRO@
        } else {
            self.spec_wsl_target().distro
        }
    }

    /// Starts installing the Linux engine: hands back the distribution to
    /// install it into, unless an installation runs or this build cannot offer
    /// one, which `block` tells.
    pub fn install_wsl_engine(&mut self, block: Option<String>) -> (r: Option<String>)
        ensures
            if old(self).wsl.install_running {
                r is None && *final(self) == *old(self)
            } else if block is Some {
                r is None && told_one(*old(self), *final(self), ToastLevel::Error, block->0@)
            } else {
                &&& r matches Some(d) && d@ == old(self).spec_install_distro()
                &&& told_one(
                    ManagerApp {
                        wsl: WslState { install_running: true, ..old(self).wsl },
                        ..*old(self)
                    },
                    *final(self),
                    ToastLevel::Info,
                    "downloading the Linux engine and installing it into "@ + old(
                        self).spec_install_distro() + "…"@,
                )
            },
    {
        if self.wsl.install_running {
            return None;
        }
        if let Some(message) = block {
            self.toast(ToastLevel::Error, message);
            return None;
        }
        let target = self.wsl_target();
        let distro = if target.distro.as_str().is_empty() {
            DEFAULT_WSL_DISTRO.to_owned()
        } else {
            target.distro
        };
        self.wsl.install_running = true;
        self.toast(
            ToastLevel::Info,
            text::cat3(
                "downloading the Linux engine and installing it into ",
                &distro,
                "…",
            ),
        );
        Some(distro)
    }

    /// Takes what an installation of the Linux engine gave. Its path becomes the
    /// setting, which is saved quietly, and WSL is asked anew.
    pub fn wsl_installed(&mut self, result: Result<Installed, String>)
        ensures
            ({
                let done = ManagerApp {
                    wsl: WslState { install_running: false, ..old(self).wsl },
                    ..*old(self)
                };
                match result {
                    Ok(installed) => {
                        let mid = ManagerApp {
                            settings: Settings {
                                wsl_entangled: Some(installed.path),
                                ..old(self).settings
                            },
                            ..done
                        };
                        &&& final(self).told() == old(self).told().push(
                            state::fresh(ToastLevel::Success, installed.spec_message()),
                        )
                        &&& rechecked(mid, final(self).wsl, true)
                        &&& final(self).desk.requests@ == old(self).desk.requests@ + old(
                            self).save_requests() + mid.wsl_requests(true)
                        &&& *final(self) == (ManagerApp {
                            wsl: final(self).wsl,
                            desk: final(self).desk,
                            ..mid
                        })
                        &&& final(self).desk == (Desk {
                            toasts: final(self).desk.toasts,
                            requests: final(self).desk.requests,
                            ..old(self).desk
                        })
                    },
                    Err(e) => told_one(
                        done,
                        *final(self),
                        ToastLevel::Error,
                        "the Linux engine was not installed: "@ + e@,
                    ),
                }
            }),
    {
        self.wsl.install_running = false;
        match result {
            Ok(installed) => {
                let message = installed.message();
                self.settings.wsl_entangled = Some(installed.path);
                self.persist_settings_quietly();
                self.toast(ToastLevel::Success, message);
                self.ensure_wsl_check(true);
            },
            Err(e) => {
                self.toast(
                    ToastLevel::Error,
                    text::cat("the Linux engine was not installed: ", &e),
                );
            },
        }
    }

    // -----------------------------------------------------------------------
    // Updates
    // -----------------------------------------------------------------------

    /// Takes a newer release that was found.
    pub fn update_found(&mut self, info: UpdateInfo)
        ensures
            *final(self) == (ManagerApp {
                update: UpdateState { offer: Some(info), ..old(self).update },
                ..*old(self)
            }),
    {
        self.update.offer = Some(info);
    }

    /// Asks for the installer of the newer release to be downloaded, unless it is
    /// already.
    pub fn install_update(&mut self)
        ensures
            update_wanted(*old(self), *final(self)),
    {
        if self.update.downloading {
            return;
        }
        let offered = match &self.update.offer {
            Some(info) => info.installer_url.is_some(),
            None => return,
        };
        if !offered {
            self.toast(
                ToastLevel::Warn,
                "this release has no installer asset — use the release page".to_owned(),
            );
            return;
        }
        self.update.downloading = true;
        self.desk.requests.push(Request::DownloadUpdate);
    }

    /// Takes what downloading and launching the installer gave.
    pub fn update_downloaded(&mut self, result: Result<String, String>)
        ensures
            match result {
                Ok(path) => told_one(
                    ManagerApp {
                        update: UpdateState { offer: None, downloading: false },
                        ..*old(self)
                    },
                    *final(self),
                    ToastLevel::Success,
                    "installer saved to "@ + path@ + " and launched — it takes over from here"@,
                ),
                Err(e) => told_one(
                    ManagerApp {
                        update: UpdateState { downloading: false, ..old(self).update },
                        ..*old(self)
                    },
                    *final(self),
                    ToastLevel::Error,
                    "update failed: "@ + e@,
                ),
            },
    {
        self.update.downloading = false;
        match result {
            Ok(path) => {
                self.update.offer = None;
                self.toast(
                    ToastLevel::Success,
                    text::cat3(
                        "installer saved to ",
                        &path,
                        " and launched — it takes over from here",
                    ),
                );
            },
            Err(e) => self.toast(ToastLevel::Error, text::cat("update failed: ", &e)),
        }
    }

    // -----------------------------------------------------------------------
    // The engine
    // -----------------------------------------------------------------------

    /// Where the engine is according to the settings and the host, or the error.
    pub open spec fn spec_located(self, facts: EngineFacts) -> Result<
        (Seq<char>, EngineOrigin),
        Seq<char>,
    > {
        match self.settings.entangled_binary {
            Some(chosen) => if facts.chosen_is_file {
                Ok((chosen@, EngineOrigin::Chosen))
            } else {
                Err(LaunchError::OverrideMissing(chosen).spec_message())
            },
            None => match launcher::engine_of(self.host, facts) {
                Ok(found) => Ok(found),
                Err(e) => Err(e.spec_message()),
            },
        }
    }

    fn look_for_engine(&self, facts: &EngineFacts) -> (r: Result<Engine, String>)
        ensures
            is_located(self.spec_located(*facts), r),
    {
        match launcher::locate_engine(&self.settings, self.host, facts) {
            Ok(engine) => Ok(engine),
            Err(e) => Err(e.message()),
        }
    }

    /// Looks for the engine again, and asks for its version. A session with
    /// sample data keeps its own.
    pub fn refresh_engine(&mut self, facts: &EngineFacts)
        ensures
            relocated(*old(self), final(self).engine, *facts),
            final(self).desk.requests@ == old(self).desk.requests@ + probe_requests(
                old(self).mock_mode,
                final(self).engine,
            ),
            only_requests(
                ManagerApp { engine: final(self).engine, ..*old(self) },
                *final(self),
            ),
    {
        let ghost before = self.desk.requests@;
        if self.mock_mode {
            assert(before =~= before + Seq::<Request>::empty());
            return;
        }
        let engine = self.look_for_engine(facts);
        let found = engine.is_ok();
        self.engine = engine;
        if found {
            self.desk.requests.push(Request::ProbeVersion);
        }
        assert(self.desk.requests@ =~= before + probe_requests(false, self.engine));
    }

    /// Takes the engine's answer about its version.
    pub fn engine_version(&mut self, version: Option<String>)
        ensures
            *final(self) == (ManagerApp {
                engine: match old(self).engine {
                    Ok(engine) => Ok::<Engine, String>(Engine { version, ..engine }),
                    Err(e) => Err::<Engine, String>(e),
                },
                ..*old(self)
            }),
    {
        if let Ok(engine) = &mut self.engine {
            engine.version = version;
        }
    }

    /// The engine's path after a fresh look, or a message and nothing.
    pub fn engine_path(&mut self, facts: &EngineFacts) -> (r: Option<String>)
        ensures
            relocated(*old(self), final(self).engine, *facts),
            final(self).desk.requests@ == old(self).desk.requests@ + probe_requests(
                old(self).mock_mode,
                final(self).engine,
            ),
            match final(self).engine {
                Ok(engine) => r == Some(engine.path) && final(self).desk.toasts == old(
                    self).desk.toasts,
                Err(m) => r is None && final(self).told() == old(self).told().push(
                    state::fresh(ToastLevel::Error, m@),
                ),
            },
            *final(self) == (ManagerApp {
                engine: final(self).engine,
                desk: final(self).desk,
                ..*old(self)
            }),
            final(self).desk == (Desk {
                toasts: final(self).desk.toasts,
                requests: final(self).desk.requests,
                ..old(self).desk
            }),
    {
        self.refresh_engine(facts);
        let message = match &self.engine {
            Ok(engine) => return Some(engine.path.clone()),
            Err(m) => m.clone(),
        };
        self.toast(ToastLevel::Error, message);
        None
    }
}

/// `engine` is what was found, its version not yet known.
pub open spec fn is_located(
    found: Result<(Seq<char>, EngineOrigin), Seq<char>>,
    engine: Result<Engine, String>,
) -> bool {
    match found {
        Ok((path, origin)) => engine matches Ok(e) && e.path@ == path && e.origin == origin
            && e.version is None,
        Err(m) => engine matches Err(e) && e@ == m,
    }
}

/// What a fresh look for the engine does to it. A session with sample data keeps
/// its own.
pub open spec fn relocated(
    before: ManagerApp,
    engine: Result<Engine, String>,
    facts: EngineFacts,
) -> bool {
    if before.mock_mode {
        engine == before.engine
    } else {
        is_located(before.spec_located(facts), engine)
    }
}

/// The request that a fresh look for the engine adds: for its version.
pub open spec fn probe_requests(mock: bool, engine: Result<Engine, String>) -> Seq<Request> {
    if !mock && engine is Ok {
        seq![Request::ProbeVersion]
    } else {
        Seq::empty()
    }
}

/// A check of WSL is asked for once: as long as the settings name the same
/// distribution and engine, asking again adds nothing.
pub proof fn known_targets_are_not_checked_again(before: ManagerApp, after: ManagerApp, force: bool)
    requires
        rechecked(before, after.wsl, force),
        after.mock_mode == before.mock_mode,
        after.host == before.host,
        after.spec_wsl_target() == before.spec_wsl_target(),
    ensures
        !after.wsl_due(false),
        after.wsl_requests(false).len() == 0,
{
}

} // verus!
