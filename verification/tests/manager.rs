use jc3boot::hooks::{HookEntry, HookLibrary, PatchSpec};
use jc3boot::manager::{
    HookAction, HookError, HookErrorKind, HookEvent, HookLibraries, LedgerEntry, Pass,
};
use jc3boot::util::HookLibraryExt;

/// A process image of `size` bytes starting at `base`, with a host that does
/// what it is asked.
struct Image {
    base: u64,
    bytes: Vec<u8>,
    log: Vec<HookAction>,
    fail_on: Option<usize>,
}

impl Image {
    fn new(base: u64, size: usize) -> Image {
        let bytes = (0..size).map(|i| (i % 251) as u8).collect();
        Image { base, bytes, log: Vec::new(), fail_on: None }
    }

    fn perform(&mut self, action: &HookAction) -> HookEvent {
        let position = self.log.len();
        self.log.push(action.clone());
        if self.fail_on == Some(position) {
            return HookEvent::Failed { kind: HookErrorKind::ExportResolution };
        }
        match action {
            HookAction::Patch { address, bytes } => {
                let start = (*address - self.base) as usize;
                let original = self.bytes[start..start + bytes.len()].to_vec();
                self.bytes[start..start + bytes.len()].copy_from_slice(bytes);
                HookEvent::Patched { original }
            }
            HookAction::Restore { address, bytes } => {
                let start = (*address - self.base) as usize;
                self.bytes[start..start + bytes.len()].copy_from_slice(bytes);
                HookEvent::Done
            }
            _ => HookEvent::Done,
        }
    }

    fn drive(&mut self, hooks: &mut HookLibraries) -> Result<(), HookError> {
        loop {
            let action = hooks.pending_action().expect("a pass is running");
            let event = self.perform(&action);
            if let Some(report) = hooks.advance(event) {
                return report;
            }
        }
    }
}

fn sample() -> HookLibraries {
    HookLibraries::new(vec![
        HookLibrary::new().with_patch_ret_one(0x1000).with_patch_ret_zero(0x1010),
        HookLibrary::new()
            .with_callbacks(7)
            .with_static_binder(0x1020, 3)
            .with_immediate_ret(0x1030),
    ])
}

#[test]
fn enable_then_disable_restores_every_byte() {
    let mut image = Image::new(0x1000, 0x40);
    let before = image.bytes.clone();
    let mut hooks = sample();
    assert!(hooks.ledger().is_empty());
    assert!(hooks.enable());
    assert_eq!(image.drive(&mut hooks), Ok(()));
    assert!(hooks.is_enabled());
    assert_eq!(&image.bytes[0..8], &[0x48, 0xC7, 0xC0, 0x01, 0x00, 0x00, 0x00, 0xC3]);
    assert_eq!(&image.bytes[0x10..0x14], &[0x48, 0x31, 0xC0, 0xC3]);
    assert_eq!(image.bytes[0x30], 0xC3);
    assert_eq!(
        hooks.ledger(),
        vec![
            LedgerEntry { address: 0x1000, original: before[0..8].to_vec() },
            LedgerEntry { address: 0x1010, original: before[0x10..0x14].to_vec() },
            LedgerEntry { address: 0x1030, original: before[0x30..0x31].to_vec() },
        ]
    );
    assert!(hooks.disable());
    assert_eq!(image.drive(&mut hooks), Ok(()));
    assert!(!hooks.is_enabled());
    assert_eq!(image.bytes, before);
    assert!(hooks.ledger().is_empty());
}

#[test]
fn pass_runs_in_declaration_order_between_suspend_and_resume() {
    let mut image = Image::new(0x1000, 0x40);
    let mut hooks = sample();
    hooks.enable();
    image.drive(&mut hooks).unwrap();
    assert_eq!(
        image.log,
        vec![
            HookAction::Suspend,
            HookAction::Patch {
                address: 0x1000,
                bytes: vec![0x48, 0xC7, 0xC0, 0x01, 0x00, 0x00, 0x00, 0xC3],
            },
            HookAction::Patch { address: 0x1010, bytes: vec![0x48, 0x31, 0xC0, 0xC3] },
            HookAction::EnableCallback { id: 7 },
            HookAction::EnableDetour { address: 0x1020, replacement: 3 },
            HookAction::Patch { address: 0x1030, bytes: vec![0xC3] },
            HookAction::Resume,
        ]
    );
}

#[test]
fn first_failure_aborts_the_rest_and_keeps_what_was_applied() {
    let mut image = Image::new(0x1000, 0x40);
    let before = image.bytes.clone();
    let mut hooks = sample();
    image.fail_on = Some(3);
    hooks.enable();
    assert_eq!(
        image.drive(&mut hooks),
        Err(HookError { kind: HookErrorKind::ExportResolution, index: 2 })
    );
    assert!(!hooks.is_enabled());
    assert_eq!(hooks.pass(), Pass::Idle);
    assert_eq!(image.log.len(), 5);
    assert_eq!(image.log[4], HookAction::Resume);
    assert_eq!(&image.bytes[0..8], &[0x48, 0xC7, 0xC0, 0x01, 0x00, 0x00, 0x00, 0xC3]);
    assert_eq!(image.bytes[0x30], before[0x30]);
    assert_eq!(hooks.ledger().len(), 2);
    image.fail_on = None;
    hooks.disable();
    assert_eq!(image.drive(&mut hooks), Ok(()));
    assert_eq!(image.bytes, before);
}

#[test]
fn entries_keep_their_declaration() {
    let library = HookLibrary::new().with_patch(0x20, &[1, 2, 3]);
    assert_eq!(library.len(), 1);
    assert_eq!(
        library.entry(0),
        Some(HookEntry::Patch(PatchSpec { address: 0x20, bytes: vec![1, 2, 3] }))
    );
    assert_eq!(library.entry(1), None);
}

#[test]
fn hooked_constant_targets_hold_their_stub_until_disabled() {
    let mut image = Image::new(0x1000, 0x40);
    let before = image.bytes.clone();
    let mut hooks = HookLibraries::new(vec![HookLibrary::new()
        .with_patch_ret_zero(0x1008)
        .with_patch_ret_one(0x1020)]);
    hooks.enable();
    image.drive(&mut hooks).unwrap();
    // xor rax, rax; ret
    assert_eq!(&image.bytes[0x08..0x0C], &[0x48, 0x31, 0xC0, 0xC3]);
    // mov rax, 1; ret
    assert_eq!(&image.bytes[0x20..0x28], &[0x48, 0xC7, 0xC0, 0x01, 0x00, 0x00, 0x00, 0xC3]);
    hooks.disable();
    image.drive(&mut hooks).unwrap();
    assert_eq!(&image.bytes[0x08..0x0C], &before[0x08..0x0C]);
    assert_eq!(&image.bytes[0x20..0x28], &before[0x20..0x28]);
}

#[test]
fn new_aggregate_is_disabled_and_idle() {
    let hooks = sample();
    assert_eq!(hooks.len(), 5);
    assert!(!hooks.is_enabled());
    assert_eq!(hooks.pass(), Pass::Idle);
    assert_eq!(hooks.pending_action(), None);
}

#[test]
fn empty_aggregate_only_suspends_and_resumes() {
    let mut image = Image::new(0, 0);
    let mut hooks = HookLibraries::new(Vec::new());
    assert!(hooks.enable());
    assert_eq!(image.drive(&mut hooks), Ok(()));
    assert!(hooks.is_enabled());
    assert_eq!(image.log, vec![HookAction::Suspend, HookAction::Resume]);
}

#[test]
fn no_pass_starts_while_one_is_running() {
    let mut hooks = sample();
    assert!(hooks.enable());
    assert_eq!(hooks.pass(), Pass::Suspending { enabling: true });
    assert!(!hooks.disable());
    assert!(!hooks.set_enabled(true));
    assert_eq!(hooks.pass(), Pass::Suspending { enabling: true });
}

#[test]
fn report_without_a_pass_changes_nothing() {
    let mut hooks = sample();
    assert_eq!(hooks.advance(HookEvent::Done), None);
    assert_eq!(hooks.pass(), Pass::Idle);
    assert!(!hooks.is_enabled());
}

#[test]
fn patch_without_its_original_bytes_is_a_failed_write() {
    let mut hooks = sample();
    hooks.enable();
    assert_eq!(hooks.advance(HookEvent::Done), None);
    assert_eq!(hooks.pass(), Pass::Working { enabling: true, index: 0 });
    // eight bytes are written, so eight must come back
    assert_eq!(hooks.advance(HookEvent::Patched { original: vec![1, 2, 3] }), None);
    assert_eq!(
        hooks.pass(),
        Pass::Resuming {
            enabling: true,
            failure: Some(HookError { kind: HookErrorKind::PatchWrite, index: 0 })
        }
    );
    assert_eq!(hooks.pending_action(), Some(HookAction::Resume));
    assert_eq!(
        hooks.advance(HookEvent::Done),
        Some(Err(HookError { kind: HookErrorKind::PatchWrite, index: 0 }))
    );
    assert!(hooks.ledger().is_empty());
}

#[test]
fn failures_are_named_by_the_kind_of_entry() {
    let mut hooks = HookLibraries::new(vec![HookLibrary::new().with_static_binder(0x10, 1)]);
    hooks.enable();
    hooks.advance(HookEvent::Done);
    hooks.advance(HookEvent::Failed { kind: HookErrorKind::PatchWrite });
    assert_eq!(
        hooks.advance(HookEvent::Done),
        Some(Err(HookError { kind: HookErrorKind::DetourBind, index: 0 }))
    );

    let mut hooks = HookLibraries::new(vec![HookLibrary::new().with_patch(0x10, &[1])]);
    hooks.enable();
    hooks.advance(HookEvent::Done);
    hooks.advance(HookEvent::Failed { kind: HookErrorKind::DetourBind });
    assert_eq!(
        hooks.advance(HookEvent::Done),
        Some(Err(HookError { kind: HookErrorKind::PatchWrite, index: 0 }))
    );

    let mut hooks = HookLibraries::new(vec![HookLibrary::new().with_callbacks(2)]);
    hooks.enable();
    hooks.advance(HookEvent::Done);
    hooks.advance(HookEvent::Failed { kind: HookErrorKind::ExportResolution });
    assert_eq!(
        hooks.advance(HookEvent::Done),
        Some(Err(HookError { kind: HookErrorKind::ExportResolution, index: 0 }))
    );
}

#[test]
fn disable_is_idempotent() {
    let mut image = Image::new(0x1000, 0x40);
    let before = image.bytes.clone();
    let mut hooks = sample();
    hooks.enable();
    image.drive(&mut hooks).unwrap();
    hooks.disable();
    image.drive(&mut hooks).unwrap();
    image.log.clear();
    assert!(hooks.disable());
    assert_eq!(image.drive(&mut hooks), Ok(()));
    assert_eq!(image.log, vec![HookAction::Suspend, HookAction::Resume]);
    assert_eq!(image.bytes, before);
}

#[test]
fn second_enable_writes_nothing_again() {
    let mut image = Image::new(0x1000, 0x40);
    let mut hooks = sample();
    hooks.enable();
    image.drive(&mut hooks).unwrap();
    let ledger = hooks.ledger();
    image.log.clear();
    assert!(hooks.enable());
    assert_eq!(image.drive(&mut hooks), Ok(()));
    assert_eq!(image.log, vec![HookAction::Suspend, HookAction::Resume]);
    assert!(hooks.is_enabled());
    assert_eq!(hooks.ledger(), ledger);
}

#[test]
fn disable_runs_in_declaration_order() {
    let mut image = Image::new(0x1000, 0x40);
    let before = image.bytes.clone();
    let mut hooks = sample();
    hooks.enable();
    image.drive(&mut hooks).unwrap();
    image.log.clear();
    hooks.disable();
    image.drive(&mut hooks).unwrap();
    assert_eq!(
        image.log,
        vec![
            HookAction::Suspend,
            HookAction::Restore { address: 0x1000, bytes: before[0..8].to_vec() },
            HookAction::Restore { address: 0x1010, bytes: before[0x10..0x14].to_vec() },
            HookAction::DisableCallback { id: 7 },
            HookAction::DisableDetour { address: 0x1020, replacement: 3 },
            HookAction::Restore { address: 0x1030, bytes: before[0x30..0x31].to_vec() },
            HookAction::Resume,
        ]
    );
}

#[test]
fn failed_disable_keeps_the_rest_applied() {
    let mut image = Image::new(0x1000, 0x40);
    let before = image.bytes.clone();
    let mut hooks = sample();
    hooks.enable();
    image.drive(&mut hooks).unwrap();
    image.log.clear();
    image.fail_on = Some(3);
    hooks.disable();
    assert_eq!(
        image.drive(&mut hooks),
        Err(HookError { kind: HookErrorKind::ExportResolution, index: 2 })
    );
    assert!(!hooks.is_enabled());
    assert_eq!(&image.bytes[0..0x14], &before[0..0x14]);
    assert_eq!(image.bytes[0x30], 0xC3);
    assert_eq!(
        hooks.ledger(),
        vec![LedgerEntry { address: 0x1030, original: before[0x30..0x31].to_vec() }]
    );
    // a later pass takes up what is left
    image.fail_on = None;
    image.log.clear();
    hooks.disable();
    assert_eq!(image.drive(&mut hooks), Ok(()));
    assert_eq!(image.bytes, before);
    assert_eq!(
        image.log,
        vec![
            HookAction::Suspend,
            HookAction::DisableCallback { id: 7 },
            HookAction::DisableDetour { address: 0x1020, replacement: 3 },
            HookAction::Restore { address: 0x1030, bytes: before[0x30..0x31].to_vec() },
            HookAction::Resume,
        ]
    );
}

#[test]
fn overlapping_patches_are_not_restored_in_declaration_order() {
    let mut image = Image::new(0x1000, 0x10);
    let before = image.bytes.clone();
    let mut hooks = HookLibraries::new(vec![HookLibrary::new()
        .with_patch(0x1000, &[0xAA, 0xAA, 0xAA, 0xAA])
        .with_patch(0x1002, &[0xBB, 0xBB, 0xBB, 0xBB])]);
    hooks.enable();
    image.drive(&mut hooks).unwrap();
    hooks.disable();
    image.drive(&mut hooks).unwrap();
    assert_ne!(image.bytes, before);
    assert_eq!(&image.bytes[2..4], &[0xAA, 0xAA]);
}
