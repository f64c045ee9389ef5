//! The second phase: the hooks that are valid only once the application has
//! created its main window.

use vstd::prelude::*;
use crate::hooks::{DetourSpec, HookEntryView, HookLibrary};
use crate::phase::Phase;
use crate::util::{immediate_ret_code, patch_entry, ret_one_code, HookLibraryExt};

verus! {

/// The number under which the host keeps the replacement of the login
/// function.
pub const LOGIN_MANAGER_LOGIN: u32 = 1;

/// The login mode that stays offline.
pub const OFFLINE_MODE: u32 = 1;

/// The intro film counts as played, and playing it returns at once.
pub open spec fn intro_skip_entries() -> Seq<HookEntryView> {
    seq![
        patch_entry(0x1_4488_3F60, ret_one_code()),
        patch_entry(0x1_448A_B620, immediate_ret_code()),
    ]
}

/// The hook set that skips the intro film.
pub fn intro_skip_hook_library() -> (library: HookLibrary)
    ensures
        library@ == intro_skip_entries(),
{
    HookLibrary::new()
        // CTitleUi::IsIntroMovieComplete
        .with_patch_ret_one(0x1_4488_3F60)
        // CTitleUi::PlayIntroVideo
        .with_immediate_ret(0x1_448A_B620)
}

/// The detour of the login function.
pub open spec fn offline_mode_entries() -> Seq<HookEntryView> {
    seq![
        HookEntryView::Detour(
            DetourSpec { address: 0x1_43EC_4320, replacement: LOGIN_MANAGER_LOGIN },
        ),
    ]
}

/// The hook set that keeps the application offline.
pub fn offline_mode_hook_library() -> (library: HookLibrary)
    ensures
        library@ == offline_mode_entries(),
{
    HookLibrary::new()
        // CLoginManager::Login
        .with_static_binder(0x1_43EC_4320, LOGIN_MANAGER_LOGIN)
}

/// The decision of the login replacement: the mode with which the
/// original login function is called, whatever mode was asked for.
pub fn login_manager_login(mode: u32) -> (forwarded: u32)
    ensures
        forwarded == OFFLINE_MODE,
{
    OFFLINE_MODE
}

/// The hook sets of the second phase, in the order in which they are
/// applied.
pub open spec fn postinit_libraries() -> Seq<Seq<HookEntryView>> {
    seq![intro_skip_entries(), offline_mode_entries()]
}

/// Starts the second phase: the enable pass over the intro skip and the
/// offline mode. Says whether the pass started; it starts only on a vacant
/// phase.
pub fn install(phase: &mut Phase) -> (started: bool)
    ensures
        final(phase)@ == old(phase)@.install(postinit_libraries()),
        started == (old(phase)@.stage is Vacant),
        old(phase)@.wf() ==> final(phase)@.wf(),
{
    let mut libraries: Vec<HookLibrary> = Vec::new();
    libraries.push(intro_skip_hook_library());
    libraries.push(offline_mode_hook_library());
    assert(crate::manager::library_views(libraries@) =~= postinit_libraries());
    phase.install(libraries)
}

/// Starts the removal of the second phase. Says whether the disable pass
/// started; on a phase that is not installed nothing happens.
pub fn uninstall(phase: &mut Phase) -> (started: bool)
    ensures
        final(phase)@ == old(phase)@.uninstall(),
        started == (old(phase)@.stage is Installed),
        old(phase)@.wf() ==> final(phase)@.wf(),
{
    phase.uninstall()
}

} // verus!
