//! A phase of hooking: one aggregate that is installed at most once, and
//! removed when the payload is detached.
//!
//! A phase whose enable pass fails tells the user so and stays uninstalled;
//! what the pass had applied before it failed is left in place.

use vstd::prelude::*;
use crate::hooks::{HookEntryView, HookLibrary};
use crate::manager::{
    concat_all, lemma_advance_keeps_direction, lemma_advance_wf, lemma_begin_wf, library_views,
    HookAction, HookActionView, HookError, HookErrorKind, HookEvent, HookEventView,
    HookLibraries, HookLibrariesView,
};
use crate::util::message_box;

verus! {

/// Where a phase stands.
#[derive(Clone, Copy, Debug, PartialEq, Eq)]
pub enum PhaseStage {
    /// Nothing was attempted yet.
    Vacant,
    /// The enable pass is running.
    Installing,
    /// The enable pass failed, and the user is being told.
    Reporting { error: HookError },
    /// The enable pass failed; the phase stays uninstalled.
    Abandoned { error: HookError },
    /// The aggregate is enabled.
    Installed,
    /// The disable pass is running.
    Removing,
    /// The aggregate was disabled again.
    Removed,
}

/// An operation for the payload's host to perform.
#[derive(Clone, Debug, PartialEq, Eq)]
pub enum PayloadAction {
    /// Switch off the per-thread notifications of the module loader.
    DisableThreadLibraryCalls,
    /// Make `size` bytes from `address` on writable and executable.
    Unprotect { address: u64, size: u64 },
    /// An operation of the running pass.
    Hook(HookAction),
    /// Show the user a message and wait until it is dismissed.
    Notify { title: String, message: String },
}

/// The mathematical value of a [`PayloadAction`].
pub enum PayloadActionView {
    DisableThreadLibraryCalls,
    Unprotect { address: u64, size: u64 },
    Hook(HookActionView),
    Notify { title: Seq<char>, message: Seq<char> },
}

impl View for PayloadAction {
    type V = PayloadActionView;

    open spec fn view(&self) -> PayloadActionView {
        match self {
            PayloadAction::DisableThreadLibraryCalls => {
                PayloadActionView::DisableThreadLibraryCalls
            },
            PayloadAction::Unprotect { address, size } => PayloadActionView::Unprotect {
                address: *address,
                size: *size,
            },
            PayloadAction::Hook(action) => PayloadActionView::Hook(action@),
            PayloadAction::Notify { title, message } => PayloadActionView::Notify {
                title: title@,
                message: message@,
            },
        }
    }
}

/// The title of the message that reports a failed phase.
pub open spec fn notification_title() -> Seq<char> {
    "Error in jc3boot hooks"@
}

/// The text that names a kind of failure.
pub open spec fn failure_text(kind: HookErrorKind) -> Seq<char> {
    match kind {
        HookErrorKind::PatchWrite => "failed to write patch"@,
        HookErrorKind::ExportResolution => "failed to resolve export"@,
        HookErrorKind::DetourBind => "failed to bind detour"@,
    }
}

/// The message that reports `error` to the user.
pub open spec fn notification(error: HookError) -> PayloadActionView {
    PayloadActionView::Notify { title: notification_title(), message: failure_text(error.kind) }
}

/// The text that names the kind of `error`.
pub fn describe(error: HookError) -> (text: &'static str)
    ensures
        text@ == failure_text(error.kind),
{
    match error.kind {
        HookErrorKind::PatchWrite => "failed to write patch",
        HookErrorKind::ExportResolution => "failed to resolve export",
        HookErrorKind::DetourBind => "failed to bind detour",
    }
}

/// The mathematical value of a [`Phase`].
pub struct PhaseView {
    pub stage: PhaseStage,
    pub hooks: HookLibrariesView,
}

impl PhaseView {
    /// The phase that nothing was attempted on.
    pub open spec fn vacant() -> PhaseView {
        PhaseView {
            stage: PhaseStage::Vacant,
            hooks: HookLibrariesView::fresh(Seq::<HookEntryView>::empty()),
        }
    }

    /// Validity: a pass is running exactly while the phase installs or
    /// removes, in that direction, and an installed phase has its aggregate
    /// enabled.
    pub open spec fn wf(self) -> bool {
        &&& self.hooks.wf()
        &&& match self.stage {
            PhaseStage::Installing => !(self.hooks.pass is Idle) && self.hooks.enabling(),
            PhaseStage::Removing => !(self.hooks.pass is Idle) && !self.hooks.enabling(),
            PhaseStage::Installed => self.hooks.pass is Idle && self.hooks.enabled,
            _ => self.hooks.pass is Idle,
        }
    }

    /// The phase has an operation for the host.
    pub open spec fn busy(self) -> bool {
        self.stage is Installing || self.stage is Reporting || self.stage is Removing
    }

    /// The phase was installed, whether or not it was removed since.
    pub open spec fn completed(self) -> bool {
        self.stage is Installed || self.stage is Removing || self.stage is Removed
    }

    /// The phase after an installation of `libraries` was asked for: the
    /// enable pass starts only on a vacant phase.
    pub open spec fn install(self, libraries: Seq<Seq<HookEntryView>>) -> PhaseView {
        if self.stage is Vacant {
            PhaseView {
                stage: PhaseStage::Installing,
                hooks: HookLibrariesView::fresh(concat_all(libraries)).begin(true),
            }
        } else {
            self
        }
    }

    /// The phase after its removal was asked for: the disable pass starts
    /// only on an installed phase.
    pub open spec fn uninstall(self) -> PhaseView {
        if self.stage is Installed {
            PhaseView { stage: PhaseStage::Removing, hooks: self.hooks.begin(false) }
        } else {
            self
        }
    }

    /// The operation that the host is asked to perform, if there is one.
    pub open spec fn pending(self) -> Option<PayloadActionView> {
        match self.stage {
            PhaseStage::Installing | PhaseStage::Removing => match self.hooks.pending() {
                Some(action) => Some(PayloadActionView::Hook(action)),
                None => None,
            },
            PhaseStage::Reporting { error } => Some(notification(error)),
            _ => None,
        }
    }

    /// The phase after the host reported `event`.
    ///
    /// An enable pass that ends well leaves the phase installed; one that
    /// fails is reported to the user, after which the phase is abandoned. A
    /// disable pass leaves the phase removed however it ends.
    pub open spec fn advance(self, event: HookEventView) -> PhaseView {
        match self.stage {
            PhaseStage::Installing => PhaseView {
                stage: match self.hooks.report() {
                    Some(Ok(_)) => PhaseStage::Installed,
                    Some(Err(error)) => PhaseStage::Reporting { error },
                    None => PhaseStage::Installing,
                },
                hooks: self.hooks.advance(event),
            },
            PhaseStage::Reporting { error } => PhaseView {
                stage: PhaseStage::Abandoned { error },
                ..self
            },
            PhaseStage::Removing => PhaseView {
                stage: if self.hooks.report() is Some {
                    PhaseStage::Removed
                } else {
                    PhaseStage::Removing
                },
                hooks: self.hooks.advance(event),
            },
            _ => self,
        }
    }
}

/// One phase of hooking.
pub struct Phase {
    stage: PhaseStage,
    hooks: HookLibraries,
}

impl View for Phase {
    type V = PhaseView;

    closed spec fn view(&self) -> PhaseView {
        PhaseView { stage: self.stage, hooks: self.hooks@ }
    }
}

/// Asking for an installation keeps a phase valid.
pub proof fn lemma_install_wf(phase: PhaseView, libraries: Seq<Seq<HookEntryView>>)
    requires
        phase.wf(),
        concat_all(libraries).len() <= usize::MAX,
    ensures
        phase.install(libraries).wf(),
{
    let fresh = HookLibrariesView::fresh(concat_all(libraries));
    assert(fresh.wf());
    lemma_begin_wf(fresh, true);
}

/// Asking for a removal keeps a phase valid.
pub proof fn lemma_uninstall_wf(phase: PhaseView)
    requires
        phase.wf(),
    ensures
        phase.uninstall().wf(),
{
    lemma_begin_wf(phase.hooks, false);
}

/// Every report of the host keeps a phase valid.
pub proof fn lemma_phase_advance_wf(phase: PhaseView, event: HookEventView)
    requires
        phase.wf(),
    ensures
        phase.advance(event).wf(),
{
    lemma_advance_wf(phase.hooks, event);
    if !(phase.hooks.pass is Idle) {
        lemma_advance_keeps_direction(phase.hooks, event);
    }
}

impl Phase {
    /// A phase that nothing was attempted on.
    pub fn new() -> (phase: Phase)
        ensures
            phase@ == PhaseView::vacant(),
            phase@.wf(),
    {
        let libraries: Vec<HookLibrary> = Vec::new();
        let hooks = HookLibraries::new(libraries);
        assert(library_views(libraries@) =~= Seq::<Seq<HookEntryView>>::empty());
        Phase { stage: PhaseStage::Vacant, hooks }
    }

    /// Where the phase stands.
    pub fn stage(&self) -> (stage: PhaseStage)
        ensures
            stage == self@.stage,
    {
        self.stage
    }

    /// Whether the phase has an operation for the host.
    pub fn is_busy(&self) -> (busy: bool)
        ensures
            busy == self@.busy(),
    {
        match self.stage {
            PhaseStage::Installing | PhaseStage::Reporting { .. } | PhaseStage::Removing => true,
            _ => false,
        }
    }

    /// The aggregate of the phase: empty while the phase is vacant.
    pub fn hooks(&self) -> (hooks: &HookLibraries)
        ensures
            hooks@ == self@.hooks,
    {
        &self.hooks
    }

    /// Starts the enable pass over `libraries` if the phase is vacant, and
    /// says whether it did.
    pub fn install(&mut self, libraries: Vec<HookLibrary>) -> (started: bool)
        ensures
            final(self)@ == old(self)@.install(library_views(libraries@)),
            started == (old(self)@.stage is Vacant),
            old(self)@.wf() ==> final(self)@.wf(),
    {
        match self.stage {
            PhaseStage::Vacant => {
                let mut hooks = HookLibraries::new(libraries);
                hooks.enable();
                self.hooks = hooks;
                self.stage = PhaseStage::Installing;
                true
            },
            _ => false,
        }
    }

    /// Starts the disable pass if the phase is installed, and says whether
    /// it did. On a phase that was never installed this does nothing.
    pub fn uninstall(&mut self) -> (started: bool)
        ensures
            final(self)@ == old(self)@.uninstall(),
            started == (old(self)@.stage is Installed),
            old(self)@.wf() ==> final(self)@.wf(),
    {
        match self.stage {
            PhaseStage::Installed => {
                self.hooks.disable();
                self.stage = PhaseStage::Removing;
                true
            },
            _ => false,
        }
    }

    /// The operation that the host has to perform now, if there is one.
    pub fn pending_action(&self) -> (action: Option<PayloadAction>)
        ensures
            action.is_some() == self@.pending().is_some(),
            action.is_some() ==> action.unwrap()@ == self@.pending().unwrap(),
    {
        match self.stage {
            PhaseStage::Installing | PhaseStage::Removing => match self.hooks.pending_action() {
                Some(action) => Some(PayloadAction::Hook(action)),
                None => None,
            },
            PhaseStage::Reporting { error } => Some(
                message_box("Error in jc3boot hooks", describe(error)),
            ),
            _ => None,
        }
    }

    /// Takes the host's report of the pending operation.
    pub fn advance(&mut self, event: HookEvent)
        ensures
            final(self)@ == old(self)@.advance(event@),
            old(self)@.wf() ==> final(self)@.wf(),
    {
        proof {
            if old(self)@.wf() {
                lemma_phase_advance_wf(old(self)@, event@);
            }
        }
        match self.stage {
            PhaseStage::Installing => {
                match self.hooks.advance(event) {
                    Some(Ok(_)) => {
                        self.stage = PhaseStage::Installed;
                    },
                    Some(Err(error)) => {
                        self.stage = PhaseStage::Reporting { error };
                    },
                    None => {},
                }
            },
            PhaseStage::Reporting { error } => {
                self.stage = PhaseStage::Abandoned { error };
            },
            PhaseStage::Removing => {
                match self.hooks.advance(event) {
                    Some(_) => {
                        self.stage = PhaseStage::Removed;
                    },
                    None => {},
                }
            },
            _ => {},
        }
    }
}

} // verus!
