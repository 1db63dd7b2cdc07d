use vstd::prelude::*;
use vstd::std_specs::convert::FromSpecImpl;
use crate::update::manifest::{VerifiedUpdate, VerifiedUpdateView};

verus! {

/// The user's answer to automatic update checks, as preferences persist it.
#[derive(Clone, Copy, Debug, PartialEq, Eq, Structural)]
pub enum UpdateConsent {
    Undecided,
    Disabled,
    Enabled,
}

pub open spec fn consent_of(persisted: Option<bool>) -> UpdateConsent {
    match persisted {
        None => UpdateConsent::Undecided,
        Some(false) => UpdateConsent::Disabled,
        Some(true) => UpdateConsent::Enabled,
    }
}

impl From<Option<bool>> for UpdateConsent {
    fn from(persisted: Option<bool>) -> (r: Self) {
        match persisted {
            None => UpdateConsent::Undecided,
            Some(false) => UpdateConsent::Disabled,
            Some(true) => UpdateConsent::Enabled,
        }
    }
}

impl FromSpecImpl<Option<bool>> for UpdateConsent {
    open spec fn obeys_from_spec() -> bool {
        true
    }

    open spec fn from_spec(v: Option<bool>) -> Self {
        consent_of(v)
    }
}

impl UpdateConsent {
    pub fn is_enabled(self) -> (r: bool)
        ensures
            r == (self == UpdateConsent::Enabled),
    {
        match self {
            UpdateConsent::Enabled => true,
            _ => false,
        }
    }
}

/// What the update section of the interface shows.
#[derive(Clone, Copy, Debug, PartialEq, Eq, Structural)]
pub enum UpdateUiState {
    Ready,
    Checking,
    Current,
    Available,
    Downloading,
    Installing,
    Verified,
    Error,
}

/// Where the updater is; the update it works on lives in the state that needs it.
pub enum UpdateLifecycle {
    Ready,
    Checking,
    Current,
    Available(VerifiedUpdate),
    Downloading(VerifiedUpdate),
    Installing(VerifiedUpdate),
    Verified { path: String, update: VerifiedUpdate },
    Error,
}

/// The abstract state of the updater: its phase, the update it carries and, once
/// downloaded and verified, the installer's path.
pub ghost struct UpdaterView {
    pub ui: UpdateUiState,
    pub update: Option<VerifiedUpdateView>,
    pub path: Option<Seq<char>>,
}

/// A phase in which work runs in the background.
pub open spec fn is_busy_state(ui: UpdateUiState) -> bool {
    ui == UpdateUiState::Checking || ui == UpdateUiState::Downloading || ui
        == UpdateUiState::Installing
}

pub struct UpdateController {
    lifecycle: UpdateLifecycle,
}

impl View for UpdateController {
    type V = UpdaterView;

    closed spec fn view(&self) -> UpdaterView {
        match self.lifecycle {
            UpdateLifecycle::Ready => UpdaterView { ui: UpdateUiState::Ready, update: None, path: None },
            UpdateLifecycle::Checking => UpdaterView {
                ui: UpdateUiState::Checking,
                update: None,
                path: None,
            },
            UpdateLifecycle::Current => UpdaterView {
                ui: UpdateUiState::Current,
                update: None,
                path: None,
            },
            UpdateLifecycle::Available(u) => UpdaterView {
                ui: UpdateUiState::Available,
                update: Some(u@),
                path: None,
            },
            UpdateLifecycle::Downloading(u) => UpdaterView {
                ui: UpdateUiState::Downloading,
                update: Some(u@),
                path: None,
            },
            UpdateLifecycle::Installing(u) => UpdaterView {
                ui: UpdateUiState::Installing,
                update: Some(u@),
                path: None,
            },
            UpdateLifecycle::Verified { path, update } => UpdaterView {
                ui: UpdateUiState::Verified,
                update: Some(update@),
                path: Some(path@),
            },
            UpdateLifecycle::Error => UpdaterView { ui: UpdateUiState::Error, update: None, path: None },
        }
    }
}

impl UpdateController {
    /// The updater before any check.
    pub fn new() -> (r: Self)
        ensures
            r@ == (UpdaterView { ui: UpdateUiState::Ready, update: None, path: None }),
    {
        UpdateController { lifecycle: UpdateLifecycle::Ready }
    }

    pub fn is_busy(&self) -> (r: bool)
        ensures
            r == is_busy_state(self@.ui),
    {
        match &self.lifecycle {
            UpdateLifecycle::Checking | UpdateLifecycle::Downloading(_)
            | UpdateLifecycle::Installing(_) => true,
            _ => false,
        }
    }

    pub fn ui_state(&self) -> (r: UpdateUiState)
        ensures
            r == self@.ui,
    {
        match &self.lifecycle {
            UpdateLifecycle::Ready => UpdateUiState::Ready,
            UpdateLifecycle::Checking => UpdateUiState::Checking,
            UpdateLifecycle::Current => UpdateUiState::Current,
            UpdateLifecycle::Available(_) => UpdateUiState::Available,
            UpdateLifecycle::Downloading(_) => UpdateUiState::Downloading,
            UpdateLifecycle::Installing(_) => UpdateUiState::Installing,
            UpdateLifecycle::Verified { .. } => UpdateUiState::Verified,
            UpdateLifecycle::Error => UpdateUiState::Error,
        }
    }

    /// Starts a check unless background work is already running.
    pub fn begin_check(&mut self) -> (r: bool)
        ensures
            r == !is_busy_state(old(self)@.ui),
            r ==> final(self)@ == (UpdaterView {
                ui: UpdateUiState::Checking,
                update: None,
                path: None,
            }),
            !r ==> final(self)@ == old(self)@,
    {
        if self.is_busy() {
            return false;
        }
        self.lifecycle = UpdateLifecycle::Checking;
        true
    }

    pub fn mark_current(&mut self)
        ensures
            final(self)@ == (UpdaterView { ui: UpdateUiState::Current, update: None, path: None }),
    {
        self.lifecycle = UpdateLifecycle::Current;
    }

    pub fn mark_available(&mut self, update: VerifiedUpdate)
        ensures
            final(self)@ == (UpdaterView {
                ui: UpdateUiState::Available,
                update: Some(update@),
                path: None,
            }),
    {
        self.lifecycle = UpdateLifecycle::Available(update);
    }

    pub fn mark_downloaded(&mut self, path: String, update: VerifiedUpdate)
        ensures
            final(self)@ == (UpdaterView {
                ui: UpdateUiState::Verified,
                update: Some(update@),
                path: Some(path@),
            }),
    {
        self.lifecycle = UpdateLifecycle::Verified { path, update };
    }

    pub fn mark_failed(&mut self)
        ensures
            final(self)@ == (UpdaterView { ui: UpdateUiState::Error, update: None, path: None }),
    {
        self.lifecycle = UpdateLifecycle::Error;
    }

    /// The update on offer, while one is offered.
    pub fn available_update(&self) -> (r: Option<&VerifiedUpdate>)
        ensures
            r is Some <==> self@.ui == UpdateUiState::Available,
            r matches Some(u) ==> self@.update == Some(u@),
    {
        match &self.lifecycle {
            UpdateLifecycle::Available(update) => Some(update),
            _ => None,
        }
    }

    /// Automatic checks run only with the user's consent and while nothing else runs.
    pub fn allows_automatic_checks(&self, persisted_consent: Option<bool>) -> (r: bool)
        ensures
            r == (!is_busy_state(self@.ui) && persisted_consent == Some(true)),
    {
        !self.is_busy() && UpdateConsent::from(persisted_consent).is_enabled()
    }

    /// The release page of the update in hand, if there is one.
    pub fn release_url(&self) -> (r: Option<&str>)
        ensures
            r is Some <==> self@.update is Some,
            r matches Some(url) ==> url@ == self@.update.unwrap().release_url,
    {
        match &self.lifecycle {
            UpdateLifecycle::Available(update) | UpdateLifecycle::Downloading(update)
            | UpdateLifecycle::Installing(update) => Some(update.release_url()),
            UpdateLifecycle::Verified { update, .. } => Some(update.release_url()),
            UpdateLifecycle::Ready | UpdateLifecycle::Checking | UpdateLifecycle::Current
            | UpdateLifecycle::Error => None,
        }
    }

    /// Moves an offered update to downloading and hands it out.
    pub fn begin_download(&mut self) -> (r: Option<VerifiedUpdate>)
        ensures
            old(self)@.ui == UpdateUiState::Available ==> {
                &&& r matches Some(u) && old(self)@.update == Some(u@)
                &&& final(self)@ == (UpdaterView {
                    ui: UpdateUiState::Downloading,
                    update: old(self)@.update,
                    path: None,
                })
            },
            old(self)@.ui != UpdateUiState::Available ==> r is None && final(self)@ == old(self)@,
    {
        let update = match &self.lifecycle {
            UpdateLifecycle::Available(update) => update.clone(),
            _ => return None,
        };
        self.lifecycle = UpdateLifecycle::Downloading(update.clone());
        Some(update)
    }

    /// Moves a downloaded, verified update to installing and hands out it and its path.
    pub fn begin_install(&mut self) -> (r: Option<(String, VerifiedUpdate)>)
        ensures
            old(self)@.ui == UpdateUiState::Verified ==> {
                &&& r matches Some((path, u)) && old(self)@.update == Some(u@) && old(self)@.path
                    == Some(path@)
                &&& final(self)@ == (UpdaterView {
                    ui: UpdateUiState::Installing,
                    update: old(self)@.update,
                    path: None,
                })
            },
            old(self)@.ui != UpdateUiState::Verified ==> r is None && final(self)@ == old(self)@,
    {
        let (path, update) = match &self.lifecycle {
            UpdateLifecycle::Verified { path, update } => (path.clone(), update.clone()),
            _ => return None,
        };
        self.lifecycle = UpdateLifecycle::Installing(update.clone());
        Some((path, update))
    }
}

impl Default for UpdateController {
    fn default() -> (r: Self)
        ensures
            r@ == (UpdaterView { ui: UpdateUiState::Ready, update: None, path: None }),
    {
        UpdateController::new()
    }
}

} // verus!
