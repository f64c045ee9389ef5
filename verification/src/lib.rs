//! Hook lifecycle orchestration for a launcher and its in-process payload.
//!
//! Everything here decides and nothing here touches a process: each state
//! machine names the next operation for its host to perform and takes the
//! outcome back as an event.
//!
//! The payload's registry, [`Payload`], holds one slot for each phase and is
//! handed to the entry points by reference. The startup phase is installed
//! when the launcher runs the payload; the second phase follows when the
//! application creates its main window; both are removed, the later one
//! first, when the module is detached.

pub mod hooks;
pub mod launcher;
pub mod manager;
pub mod model;
pub mod phase;
pub mod postinit;
pub mod startup;
pub mod suspend;
pub mod util;

use vstd::prelude::*;
use crate::manager::{HookEvent, HookEventView};
use crate::phase::{
    lemma_install_wf, lemma_phase_advance_wf, lemma_uninstall_wf, PayloadAction,
    PayloadActionView, Phase, PhaseView,
};
use crate::postinit::postinit_libraries;
use crate::startup::{main_window_class, startup_libraries};

verus! {

/// The loader's reason for calling the module: the process attaches it.
pub const DLL_PROCESS_ATTACH: u32 = 1;

/// The loader's reason for calling the module: the process detaches it.
pub const DLL_PROCESS_DETACH: u32 = 0;

/// The first address of the region that is made writable before any patch:
/// the start of the code segment.
pub const UNPROTECT_START: u64 = 0x1_431D_4000;

/// The size of that region, which reaches to the end of the last segment
/// that the hooks refer to.
pub const UNPROTECT_SIZE: u64 = 0x6C3_A000;

/// The state of the payload as a whole.
#[derive(Clone, Copy, Debug, PartialEq, Eq, Structural)]
pub enum Stage {
    Unloaded,
    Attached,
    StartupHooked,
    PostInitHooked,
    Detached,
}

/// What the payload is in the middle of.
#[derive(Clone, Copy, Debug, PartialEq, Eq, Structural)]
pub enum Task {
    /// Nothing: the payload waits for the next call.
    Idle,
    /// The module was attached.
    Attaching,
    /// The region of the hooks is being made writable.
    Unprotecting,
    /// The startup phase is being installed.
    Startup,
    /// The second phase is being installed.
    PostInit,
    /// The phases are being removed.
    Detaching,
}

/// The mathematical value of a [`Payload`].
pub struct PayloadView {
    pub stage: Stage,
    pub task: Task,
    pub startup: PhaseView,
    pub postinit: PhaseView,
}

impl PayloadView {
    /// The payload before the module is attached.
    pub open spec fn unloaded() -> PayloadView {
        PayloadView {
            stage: Stage::Unloaded,
            task: Task::Idle,
            startup: PhaseView::vacant(),
            postinit: PhaseView::vacant(),
        }
    }

    /// Validity: the task says which phase has work for the host and at
    /// which stage, the stage says which phases are installed, and the
    /// second phase was attempted only after the startup phase was
    /// installed.
    pub open spec fn wf(self) -> bool {
        &&& self.startup.wf()
        &&& self.postinit.wf()
        &&& !(self.postinit.stage is Vacant) ==> self.startup.completed()
        &&& match self.task {
            Task::Idle => !self.startup.busy() && !self.postinit.busy(),
            Task::Attaching => {
                &&& self.stage is Attached
                &&& !self.startup.busy()
                &&& !self.postinit.busy()
            },
            Task::Unprotecting => {
                &&& self.stage is Attached
                &&& self.startup.stage is Vacant
                &&& self.postinit.stage is Vacant
            },
            Task::Startup => {
                &&& self.stage is Attached
                &&& self.startup.busy()
                &&& !(self.startup.stage is Removing)
                &&& self.postinit.stage is Vacant
            },
            Task::PostInit => {
                &&& self.stage is StartupHooked
                &&& self.postinit.busy()
                &&& !(self.postinit.stage is Removing)
                &&& self.startup.stage is Installed
            },
            Task::Detaching => {
                &&& self.postinit.busy() || self.startup.busy()
                &&& self.postinit.busy() ==> self.postinit.stage is Removing
                    && self.startup.stage is Installed
                &&& self.startup.busy() ==> self.startup.stage is Removing
            },
        }
        &&& !(self.task is Detaching) ==> {
            &&& self.stage is StartupHooked ==> self.startup.stage is Installed
                && !(self.postinit.stage is Installed)
            &&& self.stage is PostInitHooked ==> self.startup.stage is Installed
                && self.postinit.stage is Installed
            &&& (self.stage is Unloaded || self.stage is Attached) ==> !self.startup.completed()
        }
    }

    /// The payload after the loader attached the module.
    pub open spec fn attach(self) -> PayloadView {
        if self.stage is Unloaded && self.task is Idle {
            PayloadView { stage: Stage::Attached, task: Task::Attaching, ..self }
        } else {
            self
        }
    }

    /// The payload after the launcher ran it: the region is made writable
    /// first, then the startup phase is installed. This happens once, on an
    /// attached payload that is idle.
    pub open spec fn install(self) -> PayloadView {
        if self.stage is Attached && self.task is Idle && self.startup.stage is Vacant {
            PayloadView { task: Task::Unprotecting, ..self }
        } else {
            self
        }
    }

    /// The payload after the second phase was asked for: its enable pass
    /// starts only once the startup phase is installed, and only on the
    /// first request.
    pub open spec fn install_postinit(self) -> PayloadView {
        if self.stage is StartupHooked && self.task is Idle && self.postinit.stage is Vacant {
            PayloadView {
                task: Task::PostInit,
                postinit: self.postinit.install(postinit_libraries()),
                ..self
            }
        } else {
            self
        }
    }

    /// The payload after the application created a window of class
    /// `class_name`: the main window asks for the second phase.
    pub open spec fn window_created(self, class_name: Seq<u8>) -> PayloadView {
        if class_name == main_window_class() {
            self.install_postinit()
        } else {
            self
        }
    }

    /// The removal moves on: the startup phase is removed once the second
    /// phase has nothing left to do, and the payload is detached once
    /// neither has.
    pub open spec fn settle(self) -> PayloadView {
        if self.postinit.busy() {
            self
        } else if self.startup.stage is Installed {
            PayloadView { startup: self.startup.uninstall(), ..self }
        } else if self.startup.busy() {
            self
        } else {
            PayloadView { stage: Stage::Detached, task: Task::Idle, ..self }
        }
    }

    /// The payload after the loader detached the module: the phases are
    /// removed in the opposite order of their installation. A phase that
    /// was never installed is passed over.
    pub open spec fn uninstall(self) -> PayloadView {
        if self.task is Idle && !(self.stage is Detached) {
            PayloadView {
                task: Task::Detaching,
                postinit: self.postinit.uninstall(),
                ..self
            }.settle()
        } else {
            self
        }
    }

    /// The payload after the loader called the module for `reason`.
    pub open spec fn module_event(self, reason: u32) -> PayloadView {
        if reason == DLL_PROCESS_ATTACH {
            self.attach()
        } else if reason == DLL_PROCESS_DETACH {
            self.uninstall()
        } else {
            self
        }
    }

    /// The operation that the host is asked to perform, if there is one.
    pub open spec fn pending(self) -> Option<PayloadActionView> {
        match self.task {
            Task::Idle => None,
            Task::Attaching => Some(PayloadActionView::DisableThreadLibraryCalls),
            Task::Unprotecting => Some(
                PayloadActionView::Unprotect { address: UNPROTECT_START, size: UNPROTECT_SIZE },
            ),
            Task::Startup => self.startup.pending(),
            Task::PostInit => self.postinit.pending(),
            Task::Detaching => if self.postinit.busy() {
                self.postinit.pending()
            } else {
                self.startup.pending()
            },
        }
    }

    /// The payload after the host reported `event`.
    ///
    /// No patch is written unless the region was made writable. A phase
    /// whose enable pass succeeds moves the payload to the next stage; one
    /// that fails leaves the stage as it is.
    pub open spec fn advance(self, event: HookEventView) -> PayloadView {
        match self.task {
            Task::Idle => self,
            Task::Attaching => PayloadView { task: Task::Idle, ..self },
            Task::Unprotecting => if event is Failed {
                PayloadView { task: Task::Idle, ..self }
            } else {
                PayloadView {
                    task: Task::Startup,
                    startup: self.startup.install(startup_libraries()),
                    ..self
                }
            },
            Task::Startup => {
                let startup = self.startup.advance(event);
                if startup.busy() {
                    PayloadView { startup, ..self }
                } else {
                    PayloadView {
                        startup,
                        task: Task::Idle,
                        stage: if startup.stage is Installed {
                            Stage::StartupHooked
                        } else {
                            self.stage
                        },
                        ..self
                    }
                }
            },
            Task::PostInit => {
                let postinit = self.postinit.advance(event);
                if postinit.busy() {
                    PayloadView { postinit, ..self }
                } else {
                    PayloadView {
                        postinit,
                        task: Task::Idle,
                        stage: if postinit.stage is Installed {
                            Stage::PostInitHooked
                        } else {
                            self.stage
                        },
                        ..self
                    }
                }
            },
            Task::Detaching => if self.postinit.busy() {
                PayloadView { postinit: self.postinit.advance(event), ..self }.settle()
            } else {
                PayloadView { startup: self.startup.advance(event), ..self }.settle()
            },
        }
    }
}

/// The payload's registry: the stage it has reached, and one slot for each
/// phase.
pub struct Payload {
    stage: Stage,
    task: Task,
    startup: Phase,
    postinit: Phase,
}

impl View for Payload {
    type V = PayloadView;

    closed spec fn view(&self) -> PayloadView {
        PayloadView {
            stage: self.stage,
            task: self.task,
            startup: self.startup@,
            postinit: self.postinit@,
        }
    }
}

impl Payload {
    /// The registry of a module that was not attached yet.
    pub fn new() -> (payload: Payload)
        ensures
            payload@ == PayloadView::unloaded(),
            payload@.wf(),
    {
        Payload {
            stage: Stage::Unloaded,
            task: Task::Idle,
            startup: Phase::new(),
            postinit: Phase::new(),
        }
    }

    /// The stage that the payload has reached.
    pub fn stage(&self) -> (stage: Stage)
        ensures
            stage == self@.stage,
    {
        self.stage
    }

    /// What the payload is in the middle of.
    pub fn task(&self) -> (task: Task)
        ensures
            task == self@.task,
    {
        self.task
    }

    /// The slot of the startup phase.
    pub fn startup(&self) -> (phase: &Phase)
        ensures
            phase@ == self@.startup,
    {
        &self.startup
    }

    /// The slot of the second phase.
    pub fn postinit(&self) -> (phase: &Phase)
        ensures
            phase@ == self@.postinit,
    {
        &self.postinit
    }

    /// The operation that the host has to perform now; `None` when the
    /// payload waits for the next call.
    pub fn pending_action(&self) -> (action: Option<PayloadAction>)
        ensures
            action.is_some() == self@.pending().is_some(),
            action.is_some() ==> action.unwrap()@ == self@.pending().unwrap(),
    {
        match self.task {
            Task::Idle => None,
            Task::Attaching => Some(PayloadAction::DisableThreadLibraryCalls),
            Task::Unprotecting => Some(
                PayloadAction::Unprotect { address: UNPROTECT_START, size: UNPROTECT_SIZE },
            ),
            Task::Startup => self.startup.pending_action(),
            Task::PostInit => self.postinit.pending_action(),
            Task::Detaching => if self.postinit.is_busy() {
                self.postinit.pending_action()
            } else {
                self.startup.pending_action()
            },
        }
    }

    fn settle(&mut self)
        ensures
            final(self)@ == old(self)@.settle(),
    {
        if self.postinit.is_busy() {
        } else if self.startup_installed() {
            self.startup.uninstall();
        } else if self.startup.is_busy() {
        } else {
            self.stage = Stage::Detached;
            self.task = Task::Idle;
        }
    }

    fn startup_installed(&self) -> (installed: bool)
        ensures
            installed == (self@.startup.stage is Installed),
    {
        match self.startup.stage() {
            crate::phase::PhaseStage::Installed => true,
            _ => false,
        }
    }

    fn postinit_installed(&self) -> (installed: bool)
        ensures
            installed == (self@.postinit.stage is Installed),
    {
        match self.postinit.stage() {
            crate::phase::PhaseStage::Installed => true,
            _ => false,
        }
    }

    fn startup_vacant(&self) -> (vacant: bool)
        ensures
            vacant == (self@.startup.stage is Vacant),
    {
        match self.startup.stage() {
            crate::phase::PhaseStage::Vacant => true,
            _ => false,
        }
    }

    fn postinit_vacant(&self) -> (vacant: bool)
        ensures
            vacant == (self@.postinit.stage is Vacant),
    {
        match self.postinit.stage() {
            crate::phase::PhaseStage::Vacant => true,
            _ => false,
        }
    }

    /// Takes the host's report of the pending operation.
    pub fn advance(&mut self, event: HookEvent)
        ensures
            final(self)@ == old(self)@.advance(event@),
            old(self)@.wf() ==> final(self)@.wf(),
    {
        proof {
            if old(self)@.wf() {
                lemma_payload_advance_wf(old(self)@, event@);
            }
        }
        match self.task {
            Task::Idle => {},
            Task::Attaching => {
                self.task = Task::Idle;
            },
            Task::Unprotecting => {
                match event {
                    HookEvent::Failed { .. } => {
                        self.task = Task::Idle;
                    },
                    _ => {
                        crate::startup::install(&mut self.startup);
                        self.task = Task::Startup;
                    },
                }
            },
            Task::Startup => {
                self.startup.advance(event);
                if !self.startup.is_busy() {
                    self.task = Task::Idle;
                    if self.startup_installed() {
                        self.stage = Stage::StartupHooked;
                    }
                }
            },
            Task::PostInit => {
                self.postinit.advance(event);
                if !self.postinit.is_busy() {
                    self.task = Task::Idle;
                    if self.postinit_installed() {
                        self.stage = Stage::PostInitHooked;
                    }
                }
            },
            Task::Detaching => {
                if self.postinit.is_busy() {
                    self.postinit.advance(event);
                } else {
                    self.startup.advance(event);
                }
                self.settle();
            },
        }
    }

    /// The decision of the window-creation detour for a window of class
    /// `class_name`: the application's main window asks for the second
    /// phase. Says whether the enable pass of that phase started, which it
    /// does at most once.
    pub fn window_created(&mut self, class_name: &[u8]) -> (started: bool)
        ensures
            final(self)@ == old(self)@.window_created(class_name@),
            started == (final(self)@ != old(self)@),
            old(self)@.wf() ==> final(self)@.wf(),
    {
        if crate::startup::create_window_ex_a_hook(class_name) {
            install_postinit(self)
        } else {
            false
        }
    }
}

/// The module's entry point for the loader. On attach the per-thread
/// notifications are switched off and nothing else happens; on detach the
/// phases are removed. The loader is always told that the call succeeded.
#[allow(non_snake_case)]
pub fn DllMain(payload: &mut Payload, reason: u32) -> (accepted: bool)
    ensures
        accepted,
        final(payload)@ == old(payload)@.module_event(reason),
        old(payload)@.wf() ==> final(payload)@.wf(),
{
    if reason == DLL_PROCESS_ATTACH {
        match (payload.stage, payload.task) {
            (Stage::Unloaded, Task::Idle) => {
                payload.stage = Stage::Attached;
                payload.task = Task::Attaching;
            },
            _ => {},
        }
    } else if reason == DLL_PROCESS_DETACH {
        uninstall(payload);
    }
    true
}

/// The entry point that the launcher calls in the target process: it
/// installs the startup phase.
pub fn run(payload: &mut Payload) -> (started: bool)
    ensures
        final(payload)@ == old(payload)@.install(),
        started == (final(payload)@ != old(payload)@),
        old(payload)@.wf() ==> final(payload)@.wf(),
{
    install(payload)
}

/// Starts the installation of the startup phase: the host is asked to make
/// the region of the hooks writable, and the enable pass follows. Says
/// whether anything started.
pub fn install(payload: &mut Payload) -> (started: bool)
    ensures
        final(payload)@ == old(payload)@.install(),
        started == (final(payload)@ != old(payload)@),
        old(payload)@.wf() ==> final(payload)@.wf(),
{
    match (payload.stage, payload.task) {
        (Stage::Attached, Task::Idle) => {
            if payload.startup_vacant() {
                payload.task = Task::Unprotecting;
                true
            } else {
                false
            }
        },
        _ => false,
    }
}

/// Starts the installation of the second phase. Says whether the enable
/// pass started: it does so once, and only after the startup phase was
/// installed.
pub fn install_postinit(payload: &mut Payload) -> (started: bool)
    ensures
        final(payload)@ == old(payload)@.install_postinit(),
        started == (final(payload)@ != old(payload)@),
        old(payload)@.wf() ==> final(payload)@.wf(),
{
    proof {
        if old(payload)@.wf() {
            lemma_payload_calls_wf(old(payload)@);
        }
    }
    match (payload.stage, payload.task) {
        (Stage::StartupHooked, Task::Idle) => {
            if payload.postinit_vacant() {
                crate::postinit::install(&mut payload.postinit);
                payload.task = Task::PostInit;
                true
            } else {
                false
            }
        },
        _ => false,
    }
}

/// Starts the removal of the phases, the second one first. Says whether
/// anything started; the payload is detached at once where no phase is
/// installed.
pub fn uninstall(payload: &mut Payload) -> (started: bool)
    ensures
        final(payload)@ == old(payload)@.uninstall(),
        started == (old(payload)@.task is Idle && !(old(payload)@.stage is Detached)),
        old(payload)@.wf() ==> final(payload)@.wf(),
{
    proof {
        if old(payload)@.wf() {
            lemma_payload_calls_wf(old(payload)@);
        }
    }
    match (payload.stage, payload.task) {
        (Stage::Detached, _) => false,
        (_, Task::Idle) => {
            payload.task = Task::Detaching;
            payload.postinit.uninstall();
            payload.settle();
            true
        },
        _ => false,
    }
}

/// The calls of the loader, the launcher and the detour keep the payload
/// valid.
pub proof fn lemma_payload_calls_wf(payload: PayloadView)
    requires
        payload.wf(),
    ensures
        payload.attach().wf(),
        payload.install().wf(),
        payload.install_postinit().wf(),
        payload.uninstall().wf(),
        forall|reason: u32| #[trigger] payload.module_event(reason).wf(),
        forall|class_name: Seq<u8>| #[trigger] payload.window_created(class_name).wf(),
{
    lemma_libraries_fit();
    lemma_install_wf(payload.postinit, postinit_libraries());
    lemma_uninstall_wf(payload.postinit);
    lemma_uninstall_wf(payload.startup);
}

/// Every report of the host keeps the payload valid.
pub proof fn lemma_payload_advance_wf(payload: PayloadView, event: HookEventView)
    requires
        payload.wf(),
    ensures
        payload.advance(event).wf(),
{
    lemma_libraries_fit();
    lemma_install_wf(payload.startup, startup_libraries());
    lemma_phase_advance_wf(payload.startup, event);
    lemma_phase_advance_wf(payload.postinit, event);
    lemma_uninstall_wf(payload.startup);
    lemma_uninstall_wf(payload.startup.advance(event));
}

/// The hook sets of both phases hold a handful of entries.
proof fn lemma_libraries_fit()
    ensures
        crate::manager::concat_all(startup_libraries()).len() == 10,
        crate::manager::concat_all(postinit_libraries()).len() == 3,
{
    reveal_with_fuel(crate::manager::concat_all, 3);
    assert(startup_libraries().drop_last().drop_last() =~= Seq::empty());
    assert(postinit_libraries().drop_last().drop_last() =~= Seq::empty());
}

/// Something that happens to the payload.
pub enum PayloadInput {
    /// The loader calls the module.
    Module { reason: u32 },
    /// The launcher runs the payload.
    Run,
    /// The application creates a window.
    WindowCreated { class_name: Seq<u8> },
    /// The host reports the outcome of the pending operation.
    Report { event: HookEventView },
}

impl PayloadView {
    /// The payload after `input` happened.
    pub open spec fn feed(self, input: PayloadInput) -> PayloadView {
        match input {
            PayloadInput::Module { reason } => self.module_event(reason),
            PayloadInput::Run => self.install(),
            PayloadInput::WindowCreated { class_name } => self.window_created(class_name),
            PayloadInput::Report { event } => self.advance(event),
        }
    }

    /// The payload after all of `inputs` happened, in their order.
    pub open spec fn feed_all(self, inputs: Seq<PayloadInput>) -> PayloadView
        decreases inputs.len(),
    {
        if inputs.len() == 0 {
            self
        } else {
            self.feed_all(inputs.drop_last()).feed(inputs.last())
        }
    }

    /// The enable pass of the second phase has just been asked for.
    pub open spec fn postinit_starting(self) -> bool {
        self.postinit.hooks.pass == (crate::manager::Pass::Suspending { enabling: true })
    }

    /// How often the enable pass of the second phase starts while `inputs`
    /// happen.
    pub open spec fn postinit_starts(self, inputs: Seq<PayloadInput>) -> nat
        decreases inputs.len(),
    {
        if inputs.len() == 0 {
            0
        } else {
            let before = self.feed_all(inputs.drop_last());
            let after = before.feed(inputs.last());
            let earlier = self.postinit_starts(inputs.drop_last());
            if after.postinit_starting() && !before.postinit_starting() {
                earlier + 1
            } else {
                earlier
            }
        }
    }
}

/// Whatever happens keeps the payload valid. The enable pass of the second
/// phase starts only where that phase is vacant, and the phase is never
/// vacant again after that.
pub proof fn lemma_feed(payload: PayloadView, input: PayloadInput)
    requires
        payload.wf(),
    ensures
        payload.feed(input).wf(),
        !(payload.postinit.stage is Vacant) ==> !(payload.feed(input).postinit.stage is Vacant),
        payload.feed(input).postinit_starting() && !payload.postinit_starting()
            ==> payload.postinit.stage is Vacant && payload.startup.stage is Installed,
{
    lemma_payload_calls_wf(payload);
    match input {
        PayloadInput::Report { event } => {
            lemma_payload_advance_wf(payload, event);
            if !(payload.postinit.hooks.pass is Idle) {
                crate::manager::lemma_advance_keeps_suspension(payload.postinit.hooks, event);
            }
        },
        _ => {},
    }
}

/// How far a stage is from the start.
pub open spec fn stage_rank(stage: Stage) -> nat {
    match stage {
        Stage::Unloaded => 0,
        Stage::Attached => 1,
        Stage::StartupHooked => 2,
        Stage::PostInitHooked => 3,
        Stage::Detached => 4,
    }
}

/// Whatever happens, the payload never goes back to an earlier stage, and
/// it reaches the stage of a phase only by installing that phase.
pub proof fn lemma_stage_only_advances(payload: PayloadView, input: PayloadInput)
    requires
        payload.wf(),
    ensures
        stage_rank(payload.stage) <= stage_rank(payload.feed(input).stage),
        payload.feed(input).stage != payload.stage && payload.feed(input).stage is StartupHooked
            ==> payload.stage is Attached && payload.feed(input).startup.stage is Installed,
        payload.feed(input).stage != payload.stage && payload.feed(input).stage
            is PostInitHooked ==> payload.stage is StartupHooked && payload.feed(
            input,
        ).postinit.stage is Installed,
{
    lemma_feed(payload, input);
}

/// The startup phase, and with it the first patch, begins only with the
/// host's report that the region of the hooks was made writable.
pub proof fn lemma_patches_follow_unprotect(payload: PayloadView, input: PayloadInput)
    requires
        payload.wf(),
        payload.startup.stage is Vacant,
        !(payload.feed(input).startup.stage is Vacant),
    ensures
        payload.pending() == Some(
            PayloadActionView::Unprotect { address: UNPROTECT_START, size: UNPROTECT_SIZE },
        ),
        input matches PayloadInput::Report { event } && !(event is Failed),
{
    lemma_feed(payload, input);
}

/// Whatever happens to a payload from its start on, the second phase is
/// attempted only after the startup phase was installed.
pub proof fn lemma_postinit_follows_startup(inputs: Seq<PayloadInput>)
    ensures
        PayloadView::unloaded().feed_all(inputs).wf(),
        !(PayloadView::unloaded().feed_all(inputs).postinit.stage is Vacant)
            ==> PayloadView::unloaded().feed_all(inputs).startup.completed(),
    decreases inputs.len(),
{
    if inputs.len() > 0 {
        lemma_postinit_follows_startup(inputs.drop_last());
        lemma_feed(PayloadView::unloaded().feed_all(inputs.drop_last()), inputs.last());
    }
}

/// Whatever happens to a payload, and however often the main window is
/// created, the enable pass of the second phase starts at most once: not at
/// all if the phase was attempted before, and otherwise exactly once if the
/// phase is attempted in the end.
pub proof fn lemma_postinit_starts_once(payload: PayloadView, inputs: Seq<PayloadInput>)
    requires
        payload.wf(),
    ensures
        payload.feed_all(inputs).wf(),
        payload.postinit_starts(inputs) <= 1,
        !(payload.postinit.stage is Vacant) ==> payload.postinit_starts(inputs) == 0 && !(
        payload.feed_all(inputs).postinit.stage is Vacant),
        payload.postinit_starts(inputs) == 1 ==> !(payload.feed_all(inputs).postinit.stage
            is Vacant),
    decreases inputs.len(),
{
    if inputs.len() > 0 {
        lemma_postinit_starts_once(payload, inputs.drop_last());
        lemma_feed(payload.feed_all(inputs.drop_last()), inputs.last());
    }
}

} // verus!
