//! The startup phase: the hooks that are installed as soon as the payload
//! runs, and the detour on window creation that triggers the next phase.

use vstd::prelude::*;
use crate::hooks::{CallbackSpec, HookEntryView, HookLibrary};
use crate::manager::HookErrorKind;
use crate::phase::Phase;
use crate::util::{patch_entry, ret_one_code, ret_zero_code, HookLibraryExt};

verus! {

/// The number under which the host keeps the routines that hook window
/// creation.
pub const CREATE_WINDOW_EX_A: u32 = 1;

/// The module that exports the window-creation function.
pub const WINDOW_MODULE: &'static str = "user32.dll";

/// The window-creation function that is detoured.
pub const WINDOW_EXPORT: &'static str = "CreateWindowExA";

/// The checks for an attached debugger, each answered with a constant.
pub open spec fn denuvo_entries() -> Seq<HookEntryView> {
    seq![
        patch_entry(0x1_45D8_DB00, ret_one_code()),
        patch_entry(0x1_45D8_DC30, ret_zero_code()),
        patch_entry(0x1_45D8_DCC0, ret_one_code()),
        patch_entry(0x1_45D8_DD20, ret_zero_code()),
        patch_entry(0x1_45D8_DEB0, ret_zero_code()),
        patch_entry(0x1_45D8_DEF0, ret_zero_code()),
        patch_entry(0x1_45D8_DF20, ret_zero_code()),
        patch_entry(0x1_45D8_DF80, ret_one_code()),
        patch_entry(0x1_45D8_E060, ret_one_code()),
    ]
}

/// The hook set that answers the checks for an attached debugger.
pub fn denuvo_hook_library() -> (library: HookLibrary)
    ensures
        library@ == denuvo_entries(),
{
    HookLibrary::new()
        // debug registers
        .with_patch_ret_one(0x1_45D8_DB00)
        // RtlCreateQueryDebugBuffer
        .with_patch_ret_zero(0x1_45D8_DC30)
        // UmsInfo
        .with_patch_ret_one(0x1_45D8_DCC0)
        // AlignmentFaultFixup
        .with_patch_ret_zero(0x1_45D8_DD20)
        // NtGlobalFlag
        .with_patch_ret_zero(0x1_45D8_DEB0)
        // ThreadHideFromDebugger, second form
        .with_patch_ret_zero(0x1_45D8_DEF0)
        // ThreadHideFromDebugger
        .with_patch_ret_zero(0x1_45D8_DF20)
        // DbgUiRemoteBreakin
        .with_patch_ret_one(0x1_45D8_DF80)
        // DbgUiIssueRemoteBreakin
        .with_patch_ret_one(0x1_45D8_E060)
}

/// The one entry that hooks window creation.
pub open spec fn create_window_entries() -> Seq<HookEntryView> {
    seq![HookEntryView::Callback(CallbackSpec { id: CREATE_WINDOW_EX_A })]
}

/// The hook set that detours window creation. The host performs it by
/// driving an [`ExportDetour`].
pub fn create_window_ex_a_hook_library() -> (library: HookLibrary)
    ensures
        library@ == create_window_entries(),
{
    HookLibrary::new().with_callbacks(CREATE_WINDOW_EX_A)
}

/// The hook sets of the startup phase, in the order in which they are
/// applied.
pub open spec fn startup_libraries() -> Seq<Seq<HookEntryView>> {
    seq![denuvo_entries(), create_window_entries()]
}

/// Starts the startup phase: the enable pass over the debugger checks and
/// the window-creation hook. Says whether the pass started; it starts only
/// on a vacant phase.
pub fn install(phase: &mut Phase) -> (started: bool)
    ensures
        final(phase)@ == old(phase)@.install(startup_libraries()),
        started == (old(phase)@.stage is Vacant),
        old(phase)@.wf() ==> final(phase)@.wf(),
{
    let mut libraries: Vec<HookLibrary> = Vec::new();
    libraries.push(denuvo_hook_library());
    libraries.push(create_window_ex_a_hook_library());
    assert(crate::manager::library_views(libraries@) =~= startup_libraries());
    phase.install(libraries)
}

/// Starts the removal of the startup phase. Says whether the disable pass
/// started; on a phase that is not installed nothing happens.
pub fn uninstall(phase: &mut Phase) -> (started: bool)
    ensures
        final(phase)@ == old(phase)@.uninstall(),
        started == (old(phase)@.stage is Installed),
        old(phase)@.wf() ==> final(phase)@.wf(),
{
    phase.uninstall()
}

/// The class name of the application's main window: `JC3`.
pub open spec fn main_window_class() -> Seq<u8> {
    seq![0x4Au8, 0x43u8, 0x33u8]
}

/// The decision of the window-creation detour: whether a window of class
/// `class_name` is the application's main window, whose creation triggers
/// the next phase. The call goes on to the original function either way.
pub fn create_window_ex_a_hook(class_name: &[u8]) -> (is_main_window: bool)
    ensures
        is_main_window == (class_name@ == main_window_class()),
{
    let matches = class_name.len() == 3 && class_name[0] == 0x4A && class_name[1] == 0x43
        && class_name[2] == 0x33;
    proof {
        if matches {
            assert(class_name@ =~= main_window_class());
        }
    }
    matches
}

/// What the detour object is in the middle of.
#[derive(Clone, Copy, Debug, PartialEq, Eq, Structural)]
pub enum DetourTask {
    Idle,
    Resolving,
    Binding,
    Enabling,
    Disabling,
}

/// An operation on the detour object for the host to perform.
#[derive(Clone, Copy, Debug, PartialEq, Eq, Structural)]
pub enum DetourAction {
    /// Find the address of [`WINDOW_EXPORT`] in [`WINDOW_MODULE`].
    Resolve,
    /// Bind a detour of the address found to the replacement, and keep it
    /// for the lifetime of the process.
    Bind,
    /// Switch the detour on.
    Enable,
    /// Switch the detour off.
    Disable,
}

/// The next thing to happen with the detour object.
#[derive(Clone, Copy, Debug, PartialEq, Eq)]
pub enum DetourStep {
    /// The host performs the operation and reports whether it succeeded.
    Perform(DetourAction),
    /// The routine is over, with this result.
    Finished(Result<(), HookErrorKind>),
}

/// The detour of an exported function, bound at most once in the lifetime
/// of the process and switched on and off after that.
#[derive(Clone, Copy, Debug, PartialEq, Eq, Structural)]
pub struct ExportDetour {
    /// The detour object exists.
    pub bound: bool,
    /// The detour is switched on.
    pub active: bool,
    /// What the host was asked for.
    pub task: DetourTask,
}

impl ExportDetour {
    /// Validity: only a bound detour is ever active, bound again, or
    /// switched.
    pub open spec fn wf(self) -> bool {
        &&& self.active ==> self.bound
        &&& (self.task is Resolving || self.task is Binding) ==> !self.bound
        &&& (self.task is Enabling || self.task is Disabling) ==> self.bound
    }

    /// The detour and the step after the enable routine was asked for: an
    /// unbound detour is resolved and bound first.
    pub open spec fn enabled(self) -> (ExportDetour, DetourStep) {
        if !(self.task is Idle) {
            (self, DetourStep::Finished(Err(HookErrorKind::DetourBind)))
        } else if self.bound {
            (
                ExportDetour { task: DetourTask::Enabling, ..self },
                DetourStep::Perform(DetourAction::Enable),
            )
        } else {
            (
                ExportDetour { task: DetourTask::Resolving, ..self },
                DetourStep::Perform(DetourAction::Resolve),
            )
        }
    }

    /// The detour and the step after the disable routine was asked for:
    /// there is nothing to do on a detour that was never bound.
    pub open spec fn disabled(self) -> (ExportDetour, DetourStep) {
        if !(self.task is Idle) {
            (self, DetourStep::Finished(Err(HookErrorKind::DetourBind)))
        } else if self.bound {
            (
                ExportDetour { task: DetourTask::Disabling, ..self },
                DetourStep::Perform(DetourAction::Disable),
            )
        } else {
            (self, DetourStep::Finished(Ok(())))
        }
    }

    /// The detour and the step after the host reported whether the
    /// operation succeeded. A failure ends the routine: of the resolution
    /// as a failed resolution, of any later operation as a failed bind.
    pub open spec fn advanced(self, success: bool) -> (ExportDetour, DetourStep) {
        let idle = ExportDetour { task: DetourTask::Idle, ..self };
        match self.task {
            DetourTask::Idle => (self, DetourStep::Finished(Ok(()))),
            DetourTask::Resolving => if success {
                (
                    ExportDetour { task: DetourTask::Binding, ..self },
                    DetourStep::Perform(DetourAction::Bind),
                )
            } else {
                (idle, DetourStep::Finished(Err(HookErrorKind::ExportResolution)))
            },
            DetourTask::Binding => if success {
                (
                    ExportDetour { task: DetourTask::Enabling, bound: true, ..self },
                    DetourStep::Perform(DetourAction::Enable),
                )
            } else {
                (idle, DetourStep::Finished(Err(HookErrorKind::DetourBind)))
            },
            DetourTask::Enabling => if success {
                (ExportDetour { active: true, ..idle }, DetourStep::Finished(Ok(())))
            } else {
                (idle, DetourStep::Finished(Err(HookErrorKind::DetourBind)))
            },
            DetourTask::Disabling => if success {
                (ExportDetour { active: false, ..idle }, DetourStep::Finished(Ok(())))
            } else {
                (idle, DetourStep::Finished(Err(HookErrorKind::DetourBind)))
            },
        }
    }

    /// The detour before anything was done: not bound, not active.
    pub fn new() -> (detour: ExportDetour)
        ensures
            detour == (ExportDetour { bound: false, active: false, task: DetourTask::Idle }),
            detour.wf(),
    {
        ExportDetour { bound: false, active: false, task: DetourTask::Idle }
    }

    /// Starts the enable routine of the window-creation hook.
    pub fn enable(&mut self) -> (step: DetourStep)
        ensures
            (*final(self), step) == old(self).enabled(),
            old(self).wf() ==> final(self).wf(),
    {
        match self.task {
            DetourTask::Idle => {
                if self.bound {
                    self.task = DetourTask::Enabling;
                    DetourStep::Perform(DetourAction::Enable)
                } else {
                    self.task = DetourTask::Resolving;
                    DetourStep::Perform(DetourAction::Resolve)
                }
            },
            _ => DetourStep::Finished(Err(HookErrorKind::DetourBind)),
        }
    }

    /// Starts the disable routine of the window-creation hook.
    pub fn disable(&mut self) -> (step: DetourStep)
        ensures
            (*final(self), step) == old(self).disabled(),
            old(self).wf() ==> final(self).wf(),
    {
        match self.task {
            DetourTask::Idle => {
                if self.bound {
                    self.task = DetourTask::Disabling;
                    DetourStep::Perform(DetourAction::Disable)
                } else {
                    DetourStep::Finished(Ok(()))
                }
            },
            _ => DetourStep::Finished(Err(HookErrorKind::DetourBind)),
        }
    }

    /// Takes the host's report of the operation it was asked for.
    pub fn advance(&mut self, success: bool) -> (step: DetourStep)
        ensures
            (*final(self), step) == old(self).advanced(success),
            old(self).wf() ==> final(self).wf(),
    {
        let task = self.task;
        match task {
            DetourTask::Idle => DetourStep::Finished(Ok(())),
            DetourTask::Resolving => {
                if success {
                    self.task = DetourTask::Binding;
                    DetourStep::Perform(DetourAction::Bind)
                } else {
                    self.task = DetourTask::Idle;
                    DetourStep::Finished(Err(HookErrorKind::ExportResolution))
                }
            },
            DetourTask::Binding => {
                if success {
                    self.bound = true;
                    self.task = DetourTask::Enabling;
                    DetourStep::Perform(DetourAction::Enable)
                } else {
                    self.task = DetourTask::Idle;
                    DetourStep::Finished(Err(HookErrorKind::DetourBind))
                }
            },
            DetourTask::Enabling => {
                self.task = DetourTask::Idle;
                if success {
                    self.active = true;
                    DetourStep::Finished(Ok(()))
                } else {
                    DetourStep::Finished(Err(HookErrorKind::DetourBind))
                }
            },
            DetourTask::Disabling => {
                self.task = DetourTask::Idle;
                if success {
                    self.active = false;
                    DetourStep::Finished(Ok(()))
                } else {
                    DetourStep::Finished(Err(HookErrorKind::DetourBind))
                }
            },
        }
    }
}

} // verus!
