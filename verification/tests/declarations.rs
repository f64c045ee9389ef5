use jc3boot::hooks::{CallbackSpec, DetourSpec, HookEntry, HookLibrary, PatchSpec};
use jc3boot::phase::PayloadAction;
use jc3boot::postinit::{
    intro_skip_hook_library, login_manager_login, offline_mode_hook_library, LOGIN_MANAGER_LOGIN,
    OFFLINE_MODE,
};
use jc3boot::startup::{
    create_window_ex_a_hook, create_window_ex_a_hook_library, denuvo_hook_library,
    CREATE_WINDOW_EX_A, WINDOW_EXPORT, WINDOW_MODULE,
};
use jc3boot::util::{message_box, HookLibraryExt};

const RET: [u8; 1] = [0xC3];
const RET_ZERO: [u8; 4] = [0x48, 0x31, 0xC0, 0xC3];
const RET_ONE: [u8; 8] = [0x48, 0xC7, 0xC0, 0x01, 0x00, 0x00, 0x00, 0xC3];

fn patch(address: u64, bytes: &[u8]) -> HookEntry {
    HookEntry::Patch(PatchSpec { address, bytes: bytes.to_vec() })
}

#[test]
fn stubs_are_the_three_byte_sequences() {
    let library = HookLibrary::new()
        .with_immediate_ret(0x10)
        .with_patch_ret_zero(0x20)
        .with_patch_ret_one(0x30);
    assert_eq!(
        library.into_entries(),
        vec![patch(0x10, &RET), patch(0x20, &RET_ZERO), patch(0x30, &RET_ONE)]
    );
}

#[test]
fn builder_keeps_declaration_order_across_kinds() {
    let library = HookLibrary::new()
        .with_callbacks(9)
        .with_patch(0x40, &[0x90, 0x90])
        .with_static_binder(0x50, 4);
    assert_eq!(library.len(), 3);
    assert_eq!(
        library.into_entries(),
        vec![
            HookEntry::Callback(CallbackSpec { id: 9 }),
            patch(0x40, &[0x90, 0x90]),
            HookEntry::Detour(DetourSpec { address: 0x50, replacement: 4 }),
        ]
    );
}

#[test]
fn empty_library_has_no_entries() {
    let library = HookLibrary::new();
    assert_eq!(library.len(), 0);
    assert_eq!(library.entry(0), None);
    assert!(library.into_entries().is_empty());
}

#[test]
fn debugger_checks_are_answered_with_constants() {
    assert_eq!(
        denuvo_hook_library().into_entries(),
        vec![
            patch(0x145D8DB00, &RET_ONE),
            patch(0x145D8DC30, &RET_ZERO),
            patch(0x145D8DCC0, &RET_ONE),
            patch(0x145D8DD20, &RET_ZERO),
            patch(0x145D8DEB0, &RET_ZERO),
            patch(0x145D8DEF0, &RET_ZERO),
            patch(0x145D8DF20, &RET_ZERO),
            patch(0x145D8DF80, &RET_ONE),
            patch(0x145D8E060, &RET_ONE),
        ]
    );
}

#[test]
fn window_creation_is_hooked_by_the_host_routine() {
    assert_eq!(
        create_window_ex_a_hook_library().into_entries(),
        vec![HookEntry::Callback(CallbackSpec { id: CREATE_WINDOW_EX_A })]
    );
    assert_eq!(WINDOW_MODULE, "user32.dll");
    assert_eq!(WINDOW_EXPORT, "CreateWindowExA");
}

#[test]
fn intro_is_skipped_by_two_patches() {
    assert_eq!(
        intro_skip_hook_library().into_entries(),
        vec![patch(0x144883F60, &RET_ONE), patch(0x1448AB620, &RET)]
    );
}

#[test]
fn offline_mode_detours_the_login() {
    assert_eq!(
        offline_mode_hook_library().into_entries(),
        vec![HookEntry::Detour(DetourSpec {
            address: 0x143EC4320,
            replacement: LOGIN_MANAGER_LOGIN
        })]
    );
}

#[test]
fn login_always_goes_offline() {
    assert_eq!(OFFLINE_MODE, 1);
    assert_eq!(login_manager_login(0), 1);
    assert_eq!(login_manager_login(1), 1);
    assert_eq!(login_manager_login(u32::MAX), 1);
}

#[test]
fn main_window_class_is_matched_exactly() {
    assert!(create_window_ex_a_hook(b"JC3"));
    assert!(!create_window_ex_a_hook(b"JC"));
    assert!(!create_window_ex_a_hook(b"JC3 "));
    assert!(!create_window_ex_a_hook(b"jc3"));
    assert!(!create_window_ex_a_hook(b""));
    assert!(!create_window_ex_a_hook(&[0x4A, 0x43, 0xFF]));
}

#[test]
fn message_box_asks_for_a_notification() {
    assert_eq!(
        message_box("Error in jc3boot hooks", "failed to bind detour"),
        PayloadAction::Notify {
            title: "Error in jc3boot hooks".to_string(),
            message: "failed to bind detour".to_string(),
        }
    );
}
