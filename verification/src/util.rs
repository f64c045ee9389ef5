//! Shorthands for the three stubs that replace a function's first bytes, and
//! for the message that tells the user of a failure.

use vstd::prelude::*;
use vstd::string::*;
use crate::hooks::{HookEntryView, HookLibrary, PatchSpecView};
use crate::phase::{PayloadAction, PayloadActionView};

verus! {

/// `ret`: the function returns at once.
pub open spec fn immediate_ret_code() -> Seq<u8> {
    seq![0xC3u8]
}

/// `xor rax, rax; ret`: the function returns 0.
pub open spec fn ret_zero_code() -> Seq<u8> {
    seq![0x48u8, 0x31u8, 0xC0u8, 0xC3u8]
}

/// `mov rax, 1; ret`: the function returns 1.
pub open spec fn ret_one_code() -> Seq<u8> {
    seq![0x48u8, 0xC7u8, 0xC0u8, 0x01u8, 0x00u8, 0x00u8, 0x00u8, 0xC3u8]
}

/// The patch entry that puts `code` at `address`.
pub open spec fn patch_entry(address: u64, code: Seq<u8>) -> HookEntryView {
    HookEntryView::Patch(PatchSpecView { address, bytes: code })
}

/// Declarations of the stubs on a hook set.
pub trait HookLibraryExt: Sized {
    /// Makes the function at `address` return at once.
    fn with_immediate_ret(self, address: u64) -> Self;

    /// Makes the function at `address` return 0.
    fn with_patch_ret_zero(self, address: u64) -> Self;

    /// Makes the function at `address` return 1.
    fn with_patch_ret_one(self, address: u64) -> Self;
}

impl HookLibraryExt for HookLibrary {
    fn with_immediate_ret(self, address: u64) -> (library: HookLibrary)
        ensures
            library@ == self@.push(patch_entry(address, immediate_ret_code())),
    {
        let code: [u8; 1] = [0xC3];
        assert(code@ =~= immediate_ret_code());
        self.with_patch(address, code.as_slice())
    }

    fn with_patch_ret_zero(self, address: u64) -> (library: HookLibrary)
        ensures
            library@ == self@.push(patch_entry(address, ret_zero_code())),
    {
        let code: [u8; 4] = [0x48, 0x31, 0xC0, 0xC3];
        assert(code@ =~= ret_zero_code());
        self.with_patch(address, code.as_slice())
    }

    fn with_patch_ret_one(self, address: u64) -> (library: HookLibrary)
        ensures
            library@ == self@.push(patch_entry(address, ret_one_code())),
    {
        let code: [u8; 8] = [0x48, 0xC7, 0xC0, 0x01, 0x00, 0x00, 0x00, 0xC3];
        assert(code@ =~= ret_one_code());
        self.with_patch(address, code.as_slice())
    }
}

/// The request to show the user `message` under `title` and to wait until
/// the message is dismissed.
pub fn message_box(title: &str, message: &str) -> (action: PayloadAction)
    ensures
        action@ == (PayloadActionView::Notify { title: title@, message: message@ }),
{
    PayloadAction::Notify { title: String::from_str(title), message: String::from_str(message) }
}

} // verus!
