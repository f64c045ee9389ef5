use std::collections::HashMap;

use jc3boot::manager::{HookAction, HookError, HookErrorKind, HookEvent};
use jc3boot::phase::{describe, PayloadAction, Phase, PhaseStage};
use jc3boot::startup::{DetourAction, DetourStep, DetourTask, ExportDetour};
use jc3boot::{
    install, install_postinit, run, uninstall, DllMain, Payload, Stage, Task, DLL_PROCESS_ATTACH,
    DLL_PROCESS_DETACH, UNPROTECT_SIZE, UNPROTECT_START,
};

const RET: [u8; 1] = [0xC3];
const RET_ZERO: [u8; 4] = [0x48, 0x31, 0xC0, 0xC3];
const RET_ONE: [u8; 8] = [0x48, 0xC7, 0xC0, 0x01, 0x00, 0x00, 0x00, 0xC3];

/// A host that keeps the bytes it was asked to write, and fails where told.
struct Host {
    memory: HashMap<u64, u8>,
    log: Vec<PayloadAction>,
    fail: Option<PayloadAction>,
}

impl Host {
    fn new() -> Host {
        Host { memory: HashMap::new(), log: Vec::new(), fail: None }
    }

    fn byte(&self, address: u64) -> u8 {
        *self.memory.get(&address).unwrap_or(&((address % 199) as u8))
    }

    fn read(&self, address: u64, count: usize) -> Vec<u8> {
        (0..count as u64).map(|i| self.byte(address + i)).collect()
    }

    fn write(&mut self, address: u64, bytes: &[u8]) {
        for (i, byte) in bytes.iter().enumerate() {
            self.memory.insert(address + i as u64, *byte);
        }
    }

    fn perform(&mut self, action: PayloadAction) -> HookEvent {
        self.log.push(action.clone());
        if self.fail.as_ref() == Some(&action) {
            return HookEvent::Failed { kind: HookErrorKind::ExportResolution };
        }
        match action {
            PayloadAction::Hook(HookAction::Patch { address, bytes }) => {
                let original = self.read(address, bytes.len());
                self.write(address, &bytes);
                HookEvent::Patched { original }
            }
            PayloadAction::Hook(HookAction::Restore { address, bytes }) => {
                self.write(address, &bytes);
                HookEvent::Done
            }
            _ => HookEvent::Done,
        }
    }

    fn drive(&mut self, payload: &mut Payload) {
        while let Some(action) = payload.pending_action() {
            let event = self.perform(action);
            payload.advance(event);
        }
    }
}

fn patch(address: u64, bytes: &[u8]) -> PayloadAction {
    PayloadAction::Hook(HookAction::Patch { address, bytes: bytes.to_vec() })
}

fn restore(host: &Host, address: u64, count: usize) -> PayloadAction {
    let original = (0..count as u64).map(|i| ((address + i) % 199) as u8).collect();
    let _ = host;
    PayloadAction::Hook(HookAction::Restore { address, bytes: original })
}

fn startup_actions() -> Vec<PayloadAction> {
    vec![
        PayloadAction::Unprotect { address: 0x1431D4000, size: 0x6C3A000 },
        PayloadAction::Hook(HookAction::Suspend),
        patch(0x145D8DB00, &RET_ONE),
        patch(0x145D8DC30, &RET_ZERO),
        patch(0x145D8DCC0, &RET_ONE),
        patch(0x145D8DD20, &RET_ZERO),
        patch(0x145D8DEB0, &RET_ZERO),
        patch(0x145D8DEF0, &RET_ZERO),
        patch(0x145D8DF20, &RET_ZERO),
        patch(0x145D8DF80, &RET_ONE),
        patch(0x145D8E060, &RET_ONE),
        PayloadAction::Hook(HookAction::EnableCallback { id: 1 }),
        PayloadAction::Hook(HookAction::Resume),
    ]
}

fn postinit_actions() -> Vec<PayloadAction> {
    vec![
        PayloadAction::Hook(HookAction::Suspend),
        patch(0x144883F60, &RET_ONE),
        patch(0x1448AB620, &RET),
        PayloadAction::Hook(HookAction::EnableDetour { address: 0x143EC4320, replacement: 1 }),
        PayloadAction::Hook(HookAction::Resume),
    ]
}

fn attached() -> (Host, Payload) {
    let mut host = Host::new();
    let mut payload = Payload::new();
    assert!(DllMain(&mut payload, DLL_PROCESS_ATTACH));
    host.drive(&mut payload);
    host.log.clear();
    (host, payload)
}

fn startup_hooked() -> (Host, Payload) {
    let (mut host, mut payload) = attached();
    assert!(run(&mut payload));
    host.drive(&mut payload);
    assert_eq!(payload.stage(), Stage::StartupHooked);
    host.log.clear();
    (host, payload)
}

#[test]
fn attach_only_switches_thread_notifications_off() {
    let mut host = Host::new();
    let mut payload = Payload::new();
    assert_eq!(payload.stage(), Stage::Unloaded);
    assert_eq!(payload.pending_action(), None);
    assert!(DllMain(&mut payload, DLL_PROCESS_ATTACH));
    assert_eq!(payload.stage(), Stage::Attached);
    assert_eq!(payload.task(), Task::Attaching);
    host.drive(&mut payload);
    assert_eq!(host.log, vec![PayloadAction::DisableThreadLibraryCalls]);
    assert_eq!(payload.stage(), Stage::Attached);
    assert_eq!(payload.task(), Task::Idle);
    assert_eq!(payload.startup().stage(), PhaseStage::Vacant);
    assert!(host.memory.is_empty());
}

#[test]
fn failed_switch_of_thread_notifications_is_ignored() {
    let mut host = Host::new();
    host.fail = Some(PayloadAction::DisableThreadLibraryCalls);
    let mut payload = Payload::new();
    DllMain(&mut payload, DLL_PROCESS_ATTACH);
    host.drive(&mut payload);
    assert_eq!(payload.stage(), Stage::Attached);
    assert!(run(&mut payload));
}

#[test]
fn other_loader_reasons_change_nothing() {
    let (mut host, mut payload) = attached();
    assert!(DllMain(&mut payload, 2));
    assert!(DllMain(&mut payload, 3));
    assert!(DllMain(&mut payload, DLL_PROCESS_ATTACH));
    host.drive(&mut payload);
    assert!(host.log.is_empty());
    assert_eq!(payload.stage(), Stage::Attached);
}

#[test]
fn unprotect_region_spans_code_to_last_segment() {
    assert_eq!(UNPROTECT_START, 0x1431D4000);
    assert_eq!(UNPROTECT_START + UNPROTECT_SIZE, 0x1431D8000 + 0x6C36000);
    assert_eq!(DLL_PROCESS_ATTACH, 1);
    assert_eq!(DLL_PROCESS_DETACH, 0);
}

#[test]
fn run_unprotects_before_any_patch_and_installs_startup() {
    let (mut host, mut payload) = attached();
    assert!(run(&mut payload));
    assert_eq!(payload.task(), Task::Unprotecting);
    host.drive(&mut payload);
    assert_eq!(host.log, startup_actions());
    assert_eq!(payload.stage(), Stage::StartupHooked);
    assert_eq!(payload.startup().stage(), PhaseStage::Installed);
    assert!(payload.startup().hooks().is_enabled());
    assert_eq!(payload.startup().hooks().ledger().len(), 9);
    assert_eq!(host.read(0x145D8DB00, 8), RET_ONE.to_vec());
    assert_eq!(host.read(0x145D8DC30, 4), RET_ZERO.to_vec());
}

#[test]
fn run_before_attach_does_nothing() {
    let mut payload = Payload::new();
    assert!(!run(&mut payload));
    assert!(!install(&mut payload));
    assert_eq!(payload.stage(), Stage::Unloaded);
    assert_eq!(payload.pending_action(), None);
}

#[test]
fn startup_is_installed_once() {
    let (mut host, mut payload) = startup_hooked();
    assert!(!run(&mut payload));
    assert!(!install(&mut payload));
    host.drive(&mut payload);
    assert!(host.log.is_empty());
}

#[test]
fn failed_unprotect_writes_nothing() {
    let (mut host, mut payload) = attached();
    host.fail = Some(PayloadAction::Unprotect { address: UNPROTECT_START, size: UNPROTECT_SIZE });
    run(&mut payload);
    host.drive(&mut payload);
    assert_eq!(host.log.len(), 1);
    assert!(host.memory.is_empty());
    assert_eq!(payload.stage(), Stage::Attached);
    assert_eq!(payload.startup().stage(), PhaseStage::Vacant);
}

#[test]
fn main_window_installs_postinit_exactly_once() {
    let (mut host, mut payload) = startup_hooked();
    assert!(!payload.window_created(b"Splash"));
    assert_eq!(payload.pending_action(), None);
    assert!(payload.window_created(b"JC3"));
    // the window is created again before the pass is over
    assert!(!payload.window_created(b"JC3"));
    host.drive(&mut payload);
    assert_eq!(host.log, postinit_actions());
    assert_eq!(payload.stage(), Stage::PostInitHooked);
    assert_eq!(payload.postinit().stage(), PhaseStage::Installed);
    host.log.clear();
    assert!(!payload.window_created(b"JC3"));
    assert!(!payload.window_created(b"JC3"));
    assert!(!install_postinit(&mut payload));
    host.drive(&mut payload);
    assert!(host.log.is_empty());
    assert_eq!(host.read(0x144883F60, 8), RET_ONE.to_vec());
    assert_eq!(host.read(0x1448AB620, 1), RET.to_vec());
}

#[test]
fn postinit_never_precedes_startup() {
    let mut host = Host::new();
    let mut payload = Payload::new();
    assert!(!payload.window_created(b"JC3"));
    DllMain(&mut payload, DLL_PROCESS_ATTACH);
    assert!(!payload.window_created(b"JC3"));
    host.drive(&mut payload);
    assert!(!payload.window_created(b"JC3"));
    run(&mut payload);
    // the startup pass is still running
    assert!(!payload.window_created(b"JC3"));
    payload.advance(HookEvent::Done);
    payload.advance(HookEvent::Done);
    assert!(!install_postinit(&mut payload));
    assert_eq!(payload.postinit().stage(), PhaseStage::Vacant);
    host.drive(&mut payload);
    assert_eq!(payload.stage(), Stage::StartupHooked);
    assert!(payload.window_created(b"JC3"));
}

#[test]
fn detach_removes_postinit_before_startup() {
    let (mut host, mut payload) = startup_hooked();
    payload.window_created(b"JC3");
    host.drive(&mut payload);
    host.log.clear();
    assert!(DllMain(&mut payload, DLL_PROCESS_DETACH));
    assert_eq!(payload.task(), Task::Detaching);
    host.drive(&mut payload);
    assert_eq!(
        host.log,
        vec![
            PayloadAction::Hook(HookAction::Suspend),
            restore(&host, 0x144883F60, 8),
            restore(&host, 0x1448AB620, 1),
            PayloadAction::Hook(HookAction::DisableDetour { address: 0x143EC4320, replacement: 1 }),
            PayloadAction::Hook(HookAction::Resume),
            PayloadAction::Hook(HookAction::Suspend),
            restore(&host, 0x145D8DB00, 8),
            restore(&host, 0x145D8DC30, 4),
            restore(&host, 0x145D8DCC0, 8),
            restore(&host, 0x145D8DD20, 4),
            restore(&host, 0x145D8DEB0, 4),
            restore(&host, 0x145D8DEF0, 4),
            restore(&host, 0x145D8DF20, 4),
            restore(&host, 0x145D8DF80, 8),
            restore(&host, 0x145D8E060, 8),
            PayloadAction::Hook(HookAction::DisableCallback { id: 1 }),
            PayloadAction::Hook(HookAction::Resume),
        ]
    );
    assert_eq!(payload.stage(), Stage::Detached);
    assert_eq!(payload.postinit().stage(), PhaseStage::Removed);
    assert_eq!(payload.startup().stage(), PhaseStage::Removed);
    for (address, byte) in &host.memory {
        assert_eq!(*byte, (*address % 199) as u8);
    }
}

#[test]
fn detach_without_postinit_removes_startup_only() {
    let (mut host, mut payload) = startup_hooked();
    assert!(uninstall(&mut payload));
    host.drive(&mut payload);
    assert_eq!(host.log.len(), 12);
    assert_eq!(host.log[0], PayloadAction::Hook(HookAction::Suspend));
    assert_eq!(host.log[1], restore(&host, 0x145D8DB00, 8));
    assert_eq!(payload.stage(), Stage::Detached);
    assert_eq!(payload.postinit().stage(), PhaseStage::Vacant);
}

#[test]
fn detach_with_nothing_installed_is_a_no_op() {
    let (mut host, mut payload) = attached();
    assert!(DllMain(&mut payload, DLL_PROCESS_DETACH));
    assert_eq!(payload.stage(), Stage::Detached);
    assert_eq!(payload.pending_action(), None);
    host.drive(&mut payload);
    assert!(host.log.is_empty());
    // a second detach finds nothing to do
    assert!(!uninstall(&mut payload));
    assert!(!run(&mut payload));
}

#[test]
fn failed_startup_is_reported_and_left_uninstalled() {
    let (mut host, mut payload) = attached();
    host.fail = Some(PayloadAction::Hook(HookAction::EnableCallback { id: 1 }));
    run(&mut payload);
    host.drive(&mut payload);
    let mut expected = startup_actions();
    expected.push(PayloadAction::Notify {
        title: "Error in jc3boot hooks".to_string(),
        message: "failed to resolve export".to_string(),
    });
    assert_eq!(host.log, expected);
    assert_eq!(payload.stage(), Stage::Attached);
    assert_eq!(
        payload.startup().stage(),
        PhaseStage::Abandoned {
            error: HookError { kind: HookErrorKind::ExportResolution, index: 9 }
        }
    );
    // what was applied stays applied
    assert_eq!(host.read(0x145D8E060, 8), RET_ONE.to_vec());
    assert_eq!(payload.startup().hooks().ledger().len(), 9);
    // nothing is tried again, and the next phase never starts
    assert!(!run(&mut payload));
    assert!(!payload.window_created(b"JC3"));
    host.log.clear();
    assert!(uninstall(&mut payload));
    host.drive(&mut payload);
    assert!(host.log.is_empty());
    assert_eq!(payload.stage(), Stage::Detached);
}

#[test]
fn failed_postinit_is_reported_and_startup_stays() {
    let (mut host, mut payload) = startup_hooked();
    host.fail = Some(PayloadAction::Hook(HookAction::EnableDetour {
        address: 0x143EC4320,
        replacement: 1,
    }));
    assert!(payload.window_created(b"JC3"));
    host.drive(&mut payload);
    assert_eq!(
        host.log.last(),
        Some(&PayloadAction::Notify {
            title: "Error in jc3boot hooks".to_string(),
            message: "failed to bind detour".to_string(),
        })
    );
    assert_eq!(payload.stage(), Stage::StartupHooked);
    assert_eq!(
        payload.postinit().stage(),
        PhaseStage::Abandoned { error: HookError { kind: HookErrorKind::DetourBind, index: 2 } }
    );
    assert!(!payload.window_created(b"JC3"));
    host.log.clear();
    host.fail = None;
    uninstall(&mut payload);
    host.drive(&mut payload);
    assert_eq!(host.log.len(), 12);
    assert_eq!(payload.stage(), Stage::Detached);
    assert_eq!(payload.startup().stage(), PhaseStage::Removed);
}

#[test]
fn calls_during_a_pass_are_ignored() {
    let (_, mut payload) = attached();
    run(&mut payload);
    assert!(!run(&mut payload));
    assert!(!uninstall(&mut payload));
    assert!(DllMain(&mut payload, DLL_PROCESS_DETACH));
    assert_eq!(payload.task(), Task::Unprotecting);
}

#[test]
fn failures_have_their_texts() {
    let error = |kind| HookError { kind, index: 0 };
    assert_eq!(describe(error(HookErrorKind::PatchWrite)), "failed to write patch");
    assert_eq!(describe(error(HookErrorKind::ExportResolution)), "failed to resolve export");
    assert_eq!(describe(error(HookErrorKind::DetourBind)), "failed to bind detour");
}

#[test]
fn phase_is_written_once() {
    let mut phase = Phase::new();
    assert_eq!(phase.stage(), PhaseStage::Vacant);
    assert!(!phase.is_busy());
    assert!(!phase.uninstall());
    assert!(jc3boot::postinit::install(&mut phase));
    assert_eq!(phase.stage(), PhaseStage::Installing);
    assert!(phase.is_busy());
    assert!(!jc3boot::postinit::install(&mut phase));
    assert!(!jc3boot::startup::install(&mut phase));
    assert!(!jc3boot::postinit::uninstall(&mut phase));
    assert_eq!(phase.hooks().len(), 3);
}

#[test]
fn export_detour_is_bound_once_and_switched_after_that() {
    let mut detour = ExportDetour::new();
    assert_eq!(detour.enable(), DetourStep::Perform(DetourAction::Resolve));
    assert_eq!(detour.advance(true), DetourStep::Perform(DetourAction::Bind));
    assert_eq!(detour.advance(true), DetourStep::Perform(DetourAction::Enable));
    assert_eq!(detour.advance(true), DetourStep::Finished(Ok(())));
    assert_eq!(detour, ExportDetour { bound: true, active: true, task: DetourTask::Idle });
    assert_eq!(detour.disable(), DetourStep::Perform(DetourAction::Disable));
    assert_eq!(detour.advance(true), DetourStep::Finished(Ok(())));
    assert_eq!(detour, ExportDetour { bound: true, active: false, task: DetourTask::Idle });
    assert_eq!(detour.enable(), DetourStep::Perform(DetourAction::Enable));
    assert_eq!(detour.advance(true), DetourStep::Finished(Ok(())));
    assert!(detour.active);
}

#[test]
fn export_detour_names_its_failures() {
    let mut detour = ExportDetour::new();
    detour.enable();
    assert_eq!(
        detour.advance(false),
        DetourStep::Finished(Err(HookErrorKind::ExportResolution))
    );
    assert_eq!(detour, ExportDetour::new());

    detour.enable();
    detour.advance(true);
    assert_eq!(detour.advance(false), DetourStep::Finished(Err(HookErrorKind::DetourBind)));
    assert!(!detour.bound);

    detour.enable();
    detour.advance(true);
    detour.advance(true);
    assert_eq!(detour.advance(false), DetourStep::Finished(Err(HookErrorKind::DetourBind)));
    assert_eq!(detour, ExportDetour { bound: true, active: false, task: DetourTask::Idle });

    detour.enable();
    detour.advance(true);
    detour.disable();
    assert_eq!(detour.advance(false), DetourStep::Finished(Err(HookErrorKind::DetourBind)));
    assert!(detour.active);
}

#[test]
fn export_detour_has_nothing_to_disable_before_it_is_bound() {
    let mut detour = ExportDetour::new();
    assert_eq!(detour.disable(), DetourStep::Finished(Ok(())));
    assert_eq!(detour, ExportDetour::new());
    assert_eq!(detour.advance(true), DetourStep::Finished(Ok(())));
    detour.enable();
    assert_eq!(detour.enable(), DetourStep::Finished(Err(HookErrorKind::DetourBind)));
    assert_eq!(detour.disable(), DetourStep::Finished(Err(HookErrorKind::DetourBind)));
    assert_eq!(detour.task, DetourTask::Resolving);
}
