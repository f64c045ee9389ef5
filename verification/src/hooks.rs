//! Hook set declarations: ordered lists of patch, detour and callback entries.

use vstd::prelude::*;
use vstd::slice::slice_to_vec;

verus! {

/// A byte patch: `bytes` replace what stands at `address`.
#[derive(Clone, Debug, PartialEq, Eq)]
pub struct PatchSpec {
    pub address: u64,
    pub bytes: Vec<u8>,
}

/// The mathematical value of a [`PatchSpec`].
pub struct PatchSpecView {
    pub address: u64,
    pub bytes: Seq<u8>,
}

impl View for PatchSpec {
    type V = PatchSpecView;

    open spec fn view(&self) -> PatchSpecView {
        PatchSpecView { address: self.address, bytes: self.bytes@ }
    }
}

/// A detour: calls of the function at `address` go to the replacement that
/// the host keeps under the number `replacement`.
#[derive(Clone, Copy, Debug, PartialEq, Eq, Structural)]
pub struct DetourSpec {
    pub address: u64,
    pub replacement: u32,
}

/// A hook that only the host can perform: it keeps an enable and a disable
/// routine under the number `id`.
#[derive(Clone, Copy, Debug, PartialEq, Eq, Structural)]
pub struct CallbackSpec {
    pub id: u32,
}

/// One entry of a hook set.
#[derive(Clone, Debug, PartialEq, Eq)]
pub enum HookEntry {
    Patch(PatchSpec),
    Detour(DetourSpec),
    Callback(CallbackSpec),
}

/// The mathematical value of a [`HookEntry`].
pub enum HookEntryView {
    Patch(PatchSpecView),
    Detour(DetourSpec),
    Callback(CallbackSpec),
}

impl View for HookEntry {
    type V = HookEntryView;

    open spec fn view(&self) -> HookEntryView {
        match self {
            HookEntry::Patch(patch) => HookEntryView::Patch(patch@),
            HookEntry::Detour(detour) => HookEntryView::Detour(*detour),
            HookEntry::Callback(callback) => HookEntryView::Callback(*callback),
        }
    }
}

impl HookEntry {
    /// An independent copy of the entry.
    pub fn duplicate(&self) -> (copy: HookEntry)
        ensures
            copy@ == self@,
    {
        match self {
            HookEntry::Patch(patch) => HookEntry::Patch(
                PatchSpec { address: patch.address, bytes: patch.bytes.clone() },
            ),
            HookEntry::Detour(detour) => HookEntry::Detour(*detour),
            HookEntry::Callback(callback) => HookEntry::Callback(*callback),
        }
    }
}

/// The views of a sequence of entries, in the same order.
pub open spec fn entry_views(entries: Seq<HookEntry>) -> Seq<HookEntryView> {
    entries.map_values(|entry: HookEntry| entry@)
}

/// An ordered hook set. Entries are applied in the order in which they were
/// declared.
#[derive(Debug)]
pub struct HookLibrary {
    entries: Vec<HookEntry>,
}

impl View for HookLibrary {
    type V = Seq<HookEntryView>;

    closed spec fn view(&self) -> Seq<HookEntryView> {
        entry_views(self.entries@)
    }
}

impl HookLibrary {
    /// The empty hook set.
    pub fn new() -> (library: HookLibrary)
        ensures
            library@ == Seq::<HookEntryView>::empty(),
    {
        let library = HookLibrary { entries: Vec::new() };
        assert(library@ =~= Seq::<HookEntryView>::empty());
        library
    }

    fn with_entry(self, entry: HookEntry) -> (library: HookLibrary)
        ensures
            library@ == self@.push(entry@),
    {
        let mut entries = self.entries;
        let ghost before = entries@;
        entries.push(entry);
        let library = HookLibrary { entries };
        assert(entry_views(before.push(entry)) =~= entry_views(before).push(entry@));
        library
    }

    /// Declares a byte patch after the entries already declared.
    pub fn with_patch(self, address: u64, bytes: &[u8]) -> (library: HookLibrary)
        ensures
            library@ == self@.push(
                HookEntryView::Patch(PatchSpecView { address, bytes: bytes@ }),
            ),
    {
        self.with_entry(HookEntry::Patch(PatchSpec { address, bytes: slice_to_vec(bytes) }))
    }

    /// Declares a detour of the function at `address` to the replacement
    /// numbered `replacement`.
    pub fn with_static_binder(self, address: u64, replacement: u32) -> (library: HookLibrary)
        ensures
            library@ == self@.push(HookEntryView::Detour(DetourSpec { address, replacement })),
    {
        self.with_entry(HookEntry::Detour(DetourSpec { address, replacement }))
    }

    /// Declares the host's pair of routines numbered `id`.
    pub fn with_callbacks(self, id: u32) -> (library: HookLibrary)
        ensures
            library@ == self@.push(HookEntryView::Callback(CallbackSpec { id })),
    {
        self.with_entry(HookEntry::Callback(CallbackSpec { id }))
    }

    /// The number of entries.
    pub fn len(&self) -> (count: usize)
        ensures
            count == self@.len(),
    {
        self.entries.len()
    }

    /// The entry declared at position `index`, if there is one.
    pub fn entry(&self, index: usize) -> (found: Option<HookEntry>)
        ensures
            index < self@.len() ==> found.is_some() && found.unwrap()@ == self@[index as int],
            index >= self@.len() ==> found.is_none(),
    {
        if index < self.entries.len() {
            Some(self.entries[index].duplicate())
        } else {
            None
        }
    }

    /// The entries in declaration order.
    pub fn into_entries(self) -> (entries: Vec<HookEntry>)
        ensures
            entry_views(entries@) == self@,
    {
        self.entries
    }
}

} // verus!
