//! The hook lifecycle manager: an aggregate of hook sets that is enabled and
//! disabled as a unit, one operation at a time.
//!
//! A pass over the aggregate is a conversation with the host. The aggregate
//! names the pending operation, the host performs it and reports what
//! happened, and the aggregate moves on. Every pass starts by suspending the
//! other threads and ends by resuming them, whatever happens in between.

use vstd::prelude::*;
use crate::hooks::{HookEntry, HookEntryView, HookLibrary};

verus! {

/// Why an entry could not be applied or removed.
#[derive(Clone, Copy, Debug, PartialEq, Eq, Structural)]
pub enum HookErrorKind {
    /// Bytes could not be written.
    PatchWrite,
    /// An export could not be resolved.
    ExportResolution,
    /// A detour could not be bound or switched.
    DetourBind,
}

/// The failure that ended a pass: its kind, and the position of the entry in
/// declaration order.
#[derive(Clone, Copy, Debug, PartialEq, Eq, Structural)]
pub struct HookError {
    pub kind: HookErrorKind,
    pub index: usize,
}

/// Where a pass stands.
#[derive(Clone, Copy, Debug, PartialEq, Eq)]
pub enum Pass {
    /// No pass is running.
    Idle,
    /// The host was asked to suspend the other threads.
    Suspending { enabling: bool },
    /// The host was asked to apply or remove the entry at `index`.
    Working { enabling: bool, index: usize },
    /// The host was asked to resume the threads it suspended.
    Resuming { enabling: bool, failure: Option<HookError> },
}

/// What is known of one entry: whether it is applied, and for a patch the
/// bytes that it replaced.
#[derive(Clone, Debug, PartialEq, Eq)]
pub enum EntryState {
    Inactive,
    Patched { original: Vec<u8> },
    Active,
}

/// The mathematical value of an [`EntryState`].
pub enum EntryStateView {
    Inactive,
    Patched { original: Seq<u8> },
    Active,
}

impl View for EntryState {
    type V = EntryStateView;

    open spec fn view(&self) -> EntryStateView {
        match self {
            EntryState::Inactive => EntryStateView::Inactive,
            EntryState::Patched { original } => EntryStateView::Patched { original: original@ },
            EntryState::Active => EntryStateView::Active,
        }
    }
}

/// An operation for the host to perform.
#[derive(Clone, Debug, PartialEq, Eq)]
pub enum HookAction {
    /// Suspend every thread of the process but the calling one.
    Suspend,
    /// Read as many bytes at `address` as `bytes` holds, then write `bytes`
    /// there. The bytes read come back in [`HookEvent::Patched`].
    Patch { address: u64, bytes: Vec<u8> },
    /// Write `bytes`, the content before the patch, back at `address`.
    Restore { address: u64, bytes: Vec<u8> },
    /// Bind the detour if it is not bound yet, and switch it on.
    EnableDetour { address: u64, replacement: u32 },
    /// Switch the detour off.
    DisableDetour { address: u64, replacement: u32 },
    /// Run the enable routine kept under `id`.
    EnableCallback { id: u32 },
    /// Run the disable routine kept under `id`.
    DisableCallback { id: u32 },
    /// Resume the threads that were suspended.
    Resume,
}

/// The mathematical value of a [`HookAction`].
pub enum HookActionView {
    Suspend,
    Patch { address: u64, bytes: Seq<u8> },
    Restore { address: u64, bytes: Seq<u8> },
    EnableDetour { address: u64, replacement: u32 },
    DisableDetour { address: u64, replacement: u32 },
    EnableCallback { id: u32 },
    DisableCallback { id: u32 },
    Resume,
}

impl View for HookAction {
    type V = HookActionView;

    open spec fn view(&self) -> HookActionView {
        match self {
            HookAction::Suspend => HookActionView::Suspend,
            HookAction::Patch { address, bytes } => HookActionView::Patch {
                address: *address,
                bytes: bytes@,
            },
            HookAction::Restore { address, bytes } => HookActionView::Restore {
                address: *address,
                bytes: bytes@,
            },
            HookAction::EnableDetour { address, replacement } => HookActionView::EnableDetour {
                address: *address,
                replacement: *replacement,
            },
            HookAction::DisableDetour { address, replacement } => HookActionView::DisableDetour {
                address: *address,
                replacement: *replacement,
            },
            HookAction::EnableCallback { id } => HookActionView::EnableCallback { id: *id },
            HookAction::DisableCallback { id } => HookActionView::DisableCallback { id: *id },
            HookAction::Resume => HookActionView::Resume,
        }
    }
}

/// What the host reports of the operation it was asked for.
#[derive(Clone, Debug, PartialEq, Eq)]
pub enum HookEvent {
    /// The operation was performed.
    Done,
    /// The patch was written; `original` is what stood there before.
    Patched { original: Vec<u8> },
    /// The operation failed.
    Failed { kind: HookErrorKind },
}

/// The mathematical value of a [`HookEvent`].
pub enum HookEventView {
    Done,
    Patched { original: Seq<u8> },
    Failed { kind: HookErrorKind },
}

impl View for HookEvent {
    type V = HookEventView;

    open spec fn view(&self) -> HookEventView {
        match self {
            HookEvent::Done => HookEventView::Done,
            HookEvent::Patched { original } => HookEventView::Patched { original: original@ },
            HookEvent::Failed { kind } => HookEventView::Failed { kind: *kind },
        }
    }
}

/// One line of the rollback ledger: the bytes that stood at `address` before
/// a patch that is now applied.
#[derive(Clone, Debug, PartialEq, Eq)]
pub struct LedgerEntry {
    pub address: u64,
    pub original: Vec<u8>,
}

/// The mathematical value of a [`LedgerEntry`].
pub struct LedgerEntryView {
    pub address: u64,
    pub original: Seq<u8>,
}

impl View for LedgerEntry {
    type V = LedgerEntryView;

    open spec fn view(&self) -> LedgerEntryView {
        LedgerEntryView { address: self.address, original: self.original@ }
    }
}

/// The views of a sequence of ledger lines, in the same order.
pub open spec fn ledger_views(lines: Seq<LedgerEntry>) -> Seq<LedgerEntryView> {
    lines.map_values(|line: LedgerEntry| line@)
}

/// The state that an entry may be in: a patch is inactive or holds the bytes
/// it replaced, as many as it wrote; a detour or callback is inactive or
/// active.
pub open spec fn state_fits(entry: HookEntryView, state: EntryStateView) -> bool {
    match state {
        EntryStateView::Inactive => true,
        EntryStateView::Patched { original } => entry matches HookEntryView::Patch(patch)
            && original.len() == patch.bytes.len(),
        EntryStateView::Active => !(entry is Patch),
    }
}

/// The operation that applies (`enabling`) or removes an entry in `state`.
pub open spec fn action_for(
    entry: HookEntryView,
    state: EntryStateView,
    enabling: bool,
) -> HookActionView {
    match entry {
        HookEntryView::Patch(patch) => if enabling {
            HookActionView::Patch { address: patch.address, bytes: patch.bytes }
        } else {
            HookActionView::Restore {
                address: patch.address,
                bytes: match state {
                    EntryStateView::Patched { original } => original,
                    _ => Seq::empty(),
                },
            }
        },
        HookEntryView::Detour(detour) => if enabling {
            HookActionView::EnableDetour {
                address: detour.address,
                replacement: detour.replacement,
            }
        } else {
            HookActionView::DisableDetour {
                address: detour.address,
                replacement: detour.replacement,
            }
        },
        HookEntryView::Callback(callback) => if enabling {
            HookActionView::EnableCallback { id: callback.id }
        } else {
            HookActionView::DisableCallback { id: callback.id }
        },
    }
}

/// The kind of failure that `event` reports for `entry`, if it reports one.
///
/// A patch is applied only by an event that hands back as many original
/// bytes as the patch writes; every other answer to it is a failed write.
/// Failures of patches and detours have their own kind; a callback's failure
/// has the kind that the host reports.
pub open spec fn failure_of(
    entry: HookEntryView,
    enabling: bool,
    event: HookEventView,
) -> Option<HookErrorKind> {
    match entry {
        HookEntryView::Patch(patch) => if enabling {
            match event {
                HookEventView::Patched { original } => if original.len() == patch.bytes.len() {
                    None
                } else {
                    Some(HookErrorKind::PatchWrite)
                },
                _ => Some(HookErrorKind::PatchWrite),
            }
        } else {
            match event {
                HookEventView::Failed { kind } => Some(HookErrorKind::PatchWrite),
                _ => None,
            }
        },
        HookEntryView::Detour(detour) => match event {
            HookEventView::Failed { kind } => Some(HookErrorKind::DetourBind),
            _ => None,
        },
        HookEntryView::Callback(callback) => match event {
            HookEventView::Failed { kind } => Some(kind),
            _ => None,
        },
    }
}

/// The state of `entry` after `event` reported success.
pub open spec fn state_after(
    entry: HookEntryView,
    enabling: bool,
    event: HookEventView,
) -> EntryStateView {
    if !enabling {
        EntryStateView::Inactive
    } else {
        match entry {
            HookEntryView::Patch(patch) => match event {
                HookEventView::Patched { original } => EntryStateView::Patched { original },
                _ => EntryStateView::Inactive,
            },
            _ => EntryStateView::Active,
        }
    }
}

/// The mathematical value of a [`HookLibraries`].
pub struct HookLibrariesView {
    /// The entries of all hook sets, in declaration order.
    pub entries: Seq<HookEntryView>,
    /// For each entry, whether it is applied.
    pub states: Seq<EntryStateView>,
    /// The pass that is running.
    pub pass: Pass,
    /// Whether an enable pass succeeded and no disable pass was started
    /// since.
    pub enabled: bool,
}

impl HookLibrariesView {
    /// The aggregate of `entries` with none of them applied and no pass
    /// running.
    pub open spec fn fresh(entries: Seq<HookEntryView>) -> HookLibrariesView {
        HookLibrariesView {
            entries,
            states: Seq::new(entries.len(), |i: int| EntryStateView::Inactive),
            pass: Pass::Idle,
            enabled: false,
        }
    }

    /// Validity: every entry has a fitting state, a running pass has dealt
    /// with the entries before the one it points at, and an enabled
    /// aggregate has every entry applied.
    pub open spec fn wf(self) -> bool {
        &&& self.states.len() == self.entries.len()
        &&& self.entries.len() <= usize::MAX
        &&& forall|i: int|
            0 <= i < self.entries.len() ==> state_fits(
                #[trigger] self.entries[i],
                self.states[i],
            )
        &&& (self.pass matches Pass::Working { enabling, index } ==> self.needs_work(
            enabling,
            index as int,
        ) && self.settled(enabling, index as int))
        &&& (self.pass matches Pass::Resuming { enabling, failure } ==> failure is None
            ==> self.settled(enabling, self.states.len() as int))
        &&& (self.enabled ==> self.all_applied() && (self.pass is Idle || self.enabling()))
    }

    /// The pass has nothing to do at the positions from `from` up to, but not
    /// including, `upto`.
    pub open spec fn quiet(self, enabling: bool, from: int, upto: int) -> bool {
        forall|j: int|
            from <= j < upto && 0 <= j < self.states.len() ==> (#[trigger] self.states[j]
                is Inactive) != enabling
    }

    /// The pass has nothing left to do before position `upto`.
    pub open spec fn settled(self, enabling: bool, upto: int) -> bool {
        self.quiet(enabling, 0, upto)
    }

    /// Every entry is applied.
    pub open spec fn all_applied(self) -> bool {
        forall|i: int| 0 <= i < self.states.len() ==> !(#[trigger] self.states[i] is Inactive)
    }

    /// No entry is applied.
    pub open spec fn none_applied(self) -> bool {
        forall|i: int| 0 <= i < self.states.len() ==> #[trigger] self.states[i] is Inactive
    }

    /// An enable pass works on the inactive entries, a disable pass on the
    /// others.
    pub open spec fn needs_work(self, enabling: bool, index: int) -> bool {
        &&& 0 <= index < self.states.len()
        &&& index < self.entries.len()
        &&& (self.states[index] is Inactive) == enabling
    }

    /// The first position from `from` on that the pass has to work on, or the
    /// number of entries if there is none.
    pub open spec fn next_index(self, enabling: bool, from: int) -> int
        decreases self.states.len() - from,
    {
        if from < 0 || from >= self.states.len() || from >= self.entries.len() {
            self.states.len() as int
        } else if self.needs_work(enabling, from) {
            from
        } else {
            self.next_index(enabling, from + 1)
        }
    }

    /// Where the pass goes once everything before `from` is dealt with.
    pub open spec fn pass_from(self, enabling: bool, from: int) -> Pass {
        let index = self.next_index(enabling, from);
        if self.needs_work(enabling, index) {
            Pass::Working { enabling, index: index as usize }
        } else {
            Pass::Resuming { enabling, failure: None }
        }
    }

    /// The operation that the host is asked to perform, if a pass is running.
    pub open spec fn pending(self) -> Option<HookActionView> {
        match self.pass {
            Pass::Idle => None,
            Pass::Suspending { enabling } => Some(HookActionView::Suspend),
            Pass::Working { enabling, index } => if self.needs_work(enabling, index as int) {
                Some(action_for(self.entries[index as int], self.states[index as int], enabling))
            } else {
                Some(HookActionView::Resume)
            },
            Pass::Resuming { enabling, failure } => Some(HookActionView::Resume),
        }
    }

    /// The aggregate after a pass was asked for: it starts only where none is
    /// running. A disable pass clears the enabled flag at once.
    pub open spec fn begin(self, enabling: bool) -> HookLibrariesView {
        if self.pass is Idle {
            HookLibrariesView {
                pass: Pass::Suspending { enabling },
                enabled: self.enabled && enabling,
                ..self
            }
        } else {
            self
        }
    }

    /// The failure with which the pass ends, if it is about to report one.
    pub open spec fn failure(self) -> Option<HookError> {
        match self.pass {
            Pass::Resuming { enabling, failure } => failure,
            _ => None,
        }
    }

    /// The direction of the running pass.
    pub open spec fn enabling(self) -> bool {
        match self.pass {
            Pass::Idle => false,
            Pass::Suspending { enabling } => enabling,
            Pass::Working { enabling, index } => enabling,
            Pass::Resuming { enabling, failure } => enabling,
        }
    }

    /// Whether the next event ends the pass.
    pub open spec fn finishing(self) -> bool {
        match self.pass {
            Pass::Idle => false,
            Pass::Suspending { enabling } => false,
            Pass::Working { enabling, index } => !self.needs_work(enabling, index as int),
            Pass::Resuming { enabling, failure } => true,
        }
    }

    /// The aggregate after the host reported `event`.
    ///
    /// Once the threads are suspended the pass takes the entries in
    /// declaration order. A success records the entry's new state and moves
    /// to the next entry to work on; the first failure leaves the remaining
    /// entries untouched, and what was applied stays applied. Either way the
    /// threads are resumed before the pass ends.
    pub open spec fn advance(self, event: HookEventView) -> HookLibrariesView {
        match self.pass {
            Pass::Idle => self,
            Pass::Suspending { enabling } => HookLibrariesView {
                pass: self.pass_from(enabling, 0),
                ..self
            },
            Pass::Working { enabling, index } => if self.needs_work(enabling, index as int) {
                let entry = self.entries[index as int];
                match failure_of(entry, enabling, event) {
                    Some(kind) => HookLibrariesView {
                        pass: Pass::Resuming {
                            enabling,
                            failure: Some(HookError { kind, index }),
                        },
                        ..self
                    },
                    None => {
                        let updated = HookLibrariesView {
                            states: self.states.update(
                                index as int,
                                state_after(entry, enabling, event),
                            ),
                            ..self
                        };
                        HookLibrariesView {
                            pass: updated.pass_from(enabling, index + 1),
                            ..updated
                        }
                    },
                }
            } else {
                HookLibrariesView { pass: Pass::Idle, enabled: enabling, ..self }
            },
            Pass::Resuming { enabling, failure } => HookLibrariesView {
                pass: Pass::Idle,
                enabled: enabling && failure is None,
                ..self
            },
        }
    }

    /// What the pass reports when the next event ends it.
    pub open spec fn report(self) -> Option<Result<(), HookError>> {
        if self.finishing() {
            match self.failure() {
                Some(error) => Some(Err(error)),
                None => Some(Ok(())),
            }
        } else {
            None
        }
    }

    /// The rollback ledger over the first `count` entries: one line for each
    /// patch that is applied, in declaration order.
    pub open spec fn ledger_upto(self, count: int) -> Seq<LedgerEntryView>
        decreases count,
    {
        if count <= 0 {
            Seq::empty()
        } else {
            let rest = self.ledger_upto(count - 1);
            match (self.entries[count - 1], self.states[count - 1]) {
                (HookEntryView::Patch(patch), EntryStateView::Patched { original }) => rest.push(
                    LedgerEntryView { address: patch.address, original },
                ),
                _ => rest,
            }
        }
    }

    /// The rollback ledger.
    pub open spec fn ledger(self) -> Seq<LedgerEntryView> {
        self.ledger_upto(self.entries.len() as int)
    }
}

/// All entries of `libraries`, set after set.
pub open spec fn concat_all(libraries: Seq<Seq<HookEntryView>>) -> Seq<HookEntryView>
    decreases libraries.len(),
{
    if libraries.len() == 0 {
        Seq::empty()
    } else {
        concat_all(libraries.drop_last()) + libraries.last()
    }
}

/// The views of a sequence of hook sets.
pub open spec fn library_views(libraries: Seq<HookLibrary>) -> Seq<Seq<HookEntryView>> {
    libraries.map_values(|library: HookLibrary| library@)
}

struct HookSlot {
    entry: HookEntry,
    state: EntryState,
}

/// An aggregate of hook sets with the ledger of what is applied.
pub struct HookLibraries {
    slots: Vec<HookSlot>,
    pass: Pass,
    enabled: bool,
}

impl View for HookLibraries {
    type V = HookLibrariesView;

    closed spec fn view(&self) -> HookLibrariesView {
        HookLibrariesView {
            entries: self.slots@.map_values(|slot: HookSlot| slot.entry@),
            states: self.slots@.map_values(|slot: HookSlot| slot.state@),
            pass: self.pass,
            enabled: self.enabled,
        }
    }
}

/// `next_index` is the first position at or after `from` that needs work.
pub proof fn lemma_next_index(view: HookLibrariesView, enabling: bool, from: int, found: int)
    requires
        view.states.len() == view.entries.len(),
        0 <= from <= found <= view.states.len(),
        view.quiet(enabling, from, found),
        found < view.states.len() ==> view.needs_work(enabling, found),
    ensures
        view.next_index(enabling, from) == found,
    decreases found - from,
{
    if from < found {
        lemma_next_index(view, enabling, from + 1, found);
    }
}

impl HookLibraries {
    /// Aggregates `libraries`: their entries in declaration order, none of
    /// them applied, no pass running.
    pub fn new(libraries: Vec<HookLibrary>) -> (aggregate: HookLibraries)
        ensures
            aggregate@ == HookLibrariesView::fresh(concat_all(library_views(libraries@))),
            aggregate@.wf(),
    {
        let mut slots: Vec<HookSlot> = Vec::new();
        let ghost views = library_views(libraries@);
        let mut i: usize = 0;
        while i < libraries.len()
            invariant
                i <= libraries.len(),
                views == library_views(libraries@),
                slots@.map_values(|slot: HookSlot| slot.entry@) == concat_all(views.take(i as int)),
                forall|k: int| 0 <= k < slots@.len() ==> #[trigger] slots@[k].state is Inactive,
            decreases libraries.len() - i,
        {
            let library = &libraries[i];
            let ghost before = slots@.map_values(|slot: HookSlot| slot.entry@);
            let mut j: usize = 0;
            while j < library.len()
                invariant
                    j <= library@.len(),
                    i < libraries.len(),
                    library == libraries@[i as int],
                    slots@.map_values(|slot: HookSlot| slot.entry@) == before + library@.take(
                        j as int,
                    ),
                    forall|k: int| 0 <= k < slots@.len() ==> #[trigger] slots@[k].state is Inactive,
                decreases library@.len() - j,
            {
                let ghost old_slots = slots@;
                match library.entry(j) {
                    Some(entry) => {
                        slots.push(HookSlot { entry, state: EntryState::Inactive });
                    },
                    None => {},
                }
                assert(slots@.map_values(|slot: HookSlot| slot.entry@) =~= old_slots.map_values(
                    |slot: HookSlot| slot.entry@,
                ).push(library@[j as int]));
                assert(library@.take(j as int + 1) =~= library@.take(j as int).push(
                    library@[j as int],
                ));
                j = j + 1;
            }
            proof {
                assert(library@.take(library@.len() as int) =~= library@);
                assert(views.take(i as int + 1).drop_last() =~= views.take(i as int));
                assert(views.take(i as int + 1).last() == library@);
            }
            i = i + 1;
        }
        proof {
            assert(views.take(libraries@.len() as int) =~= views);
        }
        let count = slots.len();
        let aggregate = HookLibraries { slots, pass: Pass::Idle, enabled: false };
        proof {
            assert(aggregate@.entries.len() == count);
            let fresh = HookLibrariesView::fresh(concat_all(views));
            assert forall|k: int| 0 <= k < aggregate@.states.len() implies aggregate@.states[k]
                == fresh.states[k] by {
                assert(aggregate.slots@[k].state is Inactive);
            }
            assert(aggregate@.states =~= fresh.states);
        }
        aggregate
    }

    /// The number of entries.
    pub fn len(&self) -> (count: usize)
        ensures
            count == self@.entries.len(),
            self@.states.len() == self@.entries.len(),
    {
        self.slots.len()
    }

    /// Whether an enable pass succeeded and no disable pass was started
    /// since.
    pub fn is_enabled(&self) -> (enabled: bool)
        ensures
            enabled == self@.enabled,
    {
        self.enabled
    }

    /// Where the running pass stands.
    pub fn pass(&self) -> (pass: Pass)
        ensures
            pass == self@.pass,
    {
        self.pass
    }

    fn needs_work(&self, enabling: bool, index: usize) -> (needed: bool)
        ensures
            needed == self@.needs_work(enabling, index as int),
    {
        if index < self.slots.len() {
            let inactive = match self.slots[index].state {
                EntryState::Inactive => true,
                _ => false,
            };
            inactive == enabling
        } else {
            false
        }
    }

    fn pass_from(&self, enabling: bool, from: usize) -> (pass: Pass)
        ensures
            pass == self@.pass_from(enabling, from as int),
    {
        let mut index: usize = from;
        while index < self.slots.len() && !self.needs_work(enabling, index)
            invariant
                from <= index,
                from <= self.slots@.len() ==> index <= self.slots@.len(),
                self@.quiet(enabling, from as int, index as int),
            decreases self.slots@.len() - index,
        {
            index = index + 1;
        }
        proof {
            if from <= self.slots@.len() {
                lemma_next_index(self@, enabling, from as int, index as int);
            }
        }
        if self.needs_work(enabling, index) {
            Pass::Working { enabling, index }
        } else {
            Pass::Resuming { enabling, failure: None }
        }
    }

    /// Starts an enable pass: see [`HookLibraries::set_enabled`].
    pub fn enable(&mut self) -> (started: bool)
        ensures
            final(self)@ == old(self)@.begin(true),
            started == (old(self)@.pass is Idle),
            old(self)@.wf() ==> final(self)@.wf(),
    {
        self.set_enabled(true)
    }

    /// Starts a disable pass: see [`HookLibraries::set_enabled`].
    pub fn disable(&mut self) -> (started: bool)
        ensures
            final(self)@ == old(self)@.begin(false),
            started == (old(self)@.pass is Idle),
            old(self)@.wf() ==> final(self)@.wf(),
    {
        self.set_enabled(false)
    }

    /// Starts a pass that applies (`enabled`) or removes every entry. Nothing
    /// starts while another pass is running; the result says whether the
    /// pass started.
    pub fn set_enabled(&mut self, enabled: bool) -> (started: bool)
        ensures
            final(self)@ == old(self)@.begin(enabled),
            started == (old(self)@.pass is Idle),
            old(self)@.wf() ==> final(self)@.wf(),
    {
        match self.pass {
            Pass::Idle => {
                self.pass = Pass::Suspending { enabling: enabled };
                self.enabled = self.enabled && enabled;
                true
            },
            _ => false,
        }
    }

    /// The operation that the host has to perform now; `None` when no pass is
    /// running.
    pub fn pending_action(&self) -> (action: Option<HookAction>)
        ensures
            action.is_some() == self@.pending().is_some(),
            action.is_some() ==> action.unwrap()@ == self@.pending().unwrap(),
    {
        match self.pass {
            Pass::Idle => None,
            Pass::Suspending { enabling } => Some(HookAction::Suspend),
            Pass::Resuming { enabling, failure } => Some(HookAction::Resume),
            Pass::Working { enabling, index } => {
                if !self.needs_work(enabling, index) {
                    return Some(HookAction::Resume);
                }
                let slot = &self.slots[index];
                let action = match &slot.entry {
                    HookEntry::Patch(patch) => if enabling {
                        HookAction::Patch { address: patch.address, bytes: patch.bytes.clone() }
                    } else {
                        let bytes = match &slot.state {
                            EntryState::Patched { original } => original.clone(),
                            _ => Vec::new(),
                        };
                        HookAction::Restore { address: patch.address, bytes }
                    },
                    HookEntry::Detour(detour) => if enabling {
                        HookAction::EnableDetour {
                            address: detour.address,
                            replacement: detour.replacement,
                        }
                    } else {
                        HookAction::DisableDetour {
                            address: detour.address,
                            replacement: detour.replacement,
                        }
                    },
                    HookEntry::Callback(callback) => if enabling {
                        HookAction::EnableCallback { id: callback.id }
                    } else {
                        HookAction::DisableCallback { id: callback.id }
                    },
                };
                Some(action)
            },
        }
    }

    /// Takes the host's report of the pending operation and moves the pass
    /// on. The result is `Some` when this report ended the pass: `Ok` where
    /// every entry was dealt with, else the first failure.
    pub fn advance(&mut self, event: HookEvent) -> (report: Option<Result<(), HookError>>)
        ensures
            final(self)@ == old(self)@.advance(event@),
            report == old(self)@.report(),
            old(self)@.wf() ==> final(self)@.wf(),
    {
        match self.pass {
            Pass::Idle => None,
            Pass::Suspending { enabling } => {
                self.pass = self.pass_from(enabling, 0);
                proof {
                    if old(self)@.wf() {
                        lemma_advance_wf(old(self)@, event@);
                    }
                }
                None
            },
            Pass::Resuming { enabling, failure } => {
                self.pass = Pass::Idle;
                match failure {
                    Some(error) => {
                        self.enabled = false;
                        Some(Err(error))
                    },
                    None => {
                        proof {
                            if old(self)@.wf() {
                                lemma_advance_wf(old(self)@, event@);
                            }
                        }
                        self.enabled = enabling;
                        Some(Ok(()))
                    },
                }
            },
            Pass::Working { enabling, index } => {
                if !self.needs_work(enabling, index) {
                    self.pass = Pass::Idle;
                    self.enabled = enabling;
                    return Some(Ok(()));
                }
                let failure = failure_kind(&self.slots[index].entry, enabling, &event);
                match failure {
                    Some(kind) => {
                        self.pass = Pass::Resuming {
                            enabling,
                            failure: Some(HookError { kind, index }),
                        };
                    },
                    None => {
                        let state = if !enabling {
                            EntryState::Inactive
                        } else {
                            match &self.slots[index].entry {
                                HookEntry::Patch(patch) => match event {
                                    HookEvent::Patched { original } => EntryState::Patched {
                                        original,
                                    },
                                    _ => EntryState::Inactive,
                                },
                                _ => EntryState::Active,
                            }
                        };
                        let ghost entry = old(self)@.entries[index as int];
                        self.slots[index].state = state;
                        proof {
                            let updated = HookLibrariesView {
                                states: old(self)@.states.update(
                                    index as int,
                                    state_after(entry, enabling, event@),
                                ),
                                ..old(self)@
                            };
                            assert(self@.entries =~= updated.entries);
                            assert(self@.states =~= updated.states);
                            assert(self@ == updated);
                            if old(self)@.wf() {
                                lemma_advance_wf(old(self)@, event@);
                            }
                        }
                        let count = self.slots.len();
                        assert(index < count);
                        self.pass = self.pass_from(enabling, index + 1);
                    },
                }
                None
            },
        }
    }

    /// The rollback ledger: for each patch that is applied, in declaration
    /// order, its address and the bytes that it replaced.
    pub fn ledger(&self) -> (lines: Vec<LedgerEntry>)
        ensures
            ledger_views(lines@) == self@.ledger(),
    {
        let mut lines: Vec<LedgerEntry> = Vec::new();
        let mut i: usize = 0;
        assert(ledger_views(lines@) =~= self@.ledger_upto(0));
        while i < self.slots.len()
            invariant
                i <= self.slots@.len(),
                ledger_views(lines@) == self@.ledger_upto(i as int),
            decreases self.slots@.len() - i,
        {
            let slot = &self.slots[i];
            let ghost before = lines@;
            match (&slot.entry, &slot.state) {
                (HookEntry::Patch(patch), EntryState::Patched { original }) => {
                    let line = LedgerEntry { address: patch.address, original: original.clone() };
                    lines.push(line);
                    assert(ledger_views(before.push(line)) =~= ledger_views(before).push(line@));
                },
                _ => {},
            }
            i = i + 1;
        }
        lines
    }
}

/// The kind of failure that `event` reports for `entry`, if it reports one.
fn failure_kind(entry: &HookEntry, enabling: bool, event: &HookEvent) -> (failure: Option<
    HookErrorKind,
>)
    ensures
        failure == failure_of(entry@, enabling, event@),
{
    match entry {
        HookEntry::Patch(patch) => if enabling {
            match event {
                HookEvent::Patched { original } => if original.len() == patch.bytes.len() {
                    None
                } else {
                    Some(HookErrorKind::PatchWrite)
                },
                _ => Some(HookErrorKind::PatchWrite),
            }
        } else {
            match event {
                HookEvent::Failed { kind } => Some(HookErrorKind::PatchWrite),
                _ => None,
            }
        },
        HookEntry::Detour(detour) => match event {
            HookEvent::Failed { kind } => Some(HookErrorKind::DetourBind),
            _ => None,
        },
        HookEntry::Callback(callback) => match event {
            HookEvent::Failed { kind } => Some(*kind),
            _ => None,
        },
    }
}

/// Positions before the one that `next_index` finds need no work.
pub proof fn lemma_next_index_skips(view: HookLibrariesView, enabling: bool, from: int)
    requires
        view.states.len() == view.entries.len(),
        0 <= from,
    ensures
        from <= view.states.len() ==> from <= view.next_index(enabling, from) <= view.states.len(),
        from > view.states.len() ==> view.next_index(enabling, from) == view.states.len(),
        view.quiet(enabling, from, view.next_index(enabling, from)),
        view.next_index(enabling, from) < view.states.len() ==> view.needs_work(
            enabling,
            view.next_index(enabling, from),
        ),
    decreases view.states.len() - from,
{
    if from < view.states.len() && !view.needs_work(enabling, from) {
        lemma_next_index_skips(view, enabling, from + 1);
    }
}

/// Where a pass goes from `from`: to the first entry that needs work, or to
/// the end if none does.
pub proof fn lemma_pass_from(view: HookLibrariesView, enabling: bool, from: int)
    requires
        view.states.len() == view.entries.len(),
        view.states.len() <= usize::MAX,
        0 <= from,
    ensures
        view.pass_from(enabling, from) matches Pass::Working { enabling: e, index } ==> e
            == enabling && view.needs_work(enabling, index as int) && from <= index
            && view.next_index(enabling, from) == index,
        view.pass_from(enabling, from) matches Pass::Resuming { enabling: e, failure } ==> e
            == enabling && failure is None,
        view.quiet(enabling, from, view.next_index(enabling, from)),
        view.pass_from(enabling, from) is Resuming ==> view.next_index(enabling, from)
            >= view.states.len(),
        view.pass_from(enabling, from) is Working || view.pass_from(enabling, from) is Resuming,
{
    lemma_next_index_skips(view, enabling, from);
}

/// Starting a pass keeps the aggregate valid.
pub proof fn lemma_begin_wf(view: HookLibrariesView, enabling: bool)
    requires
        view.wf(),
    ensures
        view.begin(enabling).wf(),
{
}

/// Every report of the host keeps the aggregate valid.
pub proof fn lemma_advance_wf(view: HookLibrariesView, event: HookEventView)
    requires
        view.wf(),
    ensures
        view.advance(event).wf(),
{
    let after = view.advance(event);
    match view.pass {
        Pass::Idle => {},
        Pass::Suspending { enabling } => {
            lemma_pass_from(view, enabling, 0);
        },
        Pass::Working { enabling, index } => {
            let entry = view.entries[index as int];
            if failure_of(entry, enabling, event) is None {
                let updated = HookLibrariesView {
                    states: view.states.update(index as int, state_after(entry, enabling, event)),
                    ..view
                };
                lemma_pass_from(updated, enabling, index + 1);
                assert(!updated.needs_work(enabling, index as int));
                assert(updated.quiet(enabling, 0, index + 1)) by {
                    assert forall|j: int| 0 <= j < index + 1 implies (
                    #[trigger] updated.states[j] is Inactive) != enabling by {
                        if j < index {
                            assert((view.states[j] is Inactive) != enabling);
                        }
                    }
                }
                assert forall|i: int| 0 <= i < after.entries.len() implies state_fits(
                    #[trigger] after.entries[i],
                    after.states[i],
                ) by {
                    if i != index {
                        assert(state_fits(view.entries[i], view.states[i]));
                    }
                }
            }
        },
        Pass::Resuming { enabling, failure } => {
            if failure is None && enabling {
                assert forall|i: int| 0 <= i < after.states.len() implies !(
                #[trigger] after.states[i] is Inactive) by {
                    assert((view.states[i] is Inactive) != enabling);
                }
            }
        },
    }
}

/// Where a pass goes next depends on the entries and their states alone.
pub proof fn lemma_next_index_by_states(
    first: HookLibrariesView,
    second: HookLibrariesView,
    enabling: bool,
    from: int,
)
    requires
        first.entries == second.entries,
        first.states == second.states,
    ensures
        first.next_index(enabling, from) == second.next_index(enabling, from),
        first.pass_from(enabling, from) == second.pass_from(enabling, from),
    decreases first.states.len() - from,
{
    if 0 <= from < first.states.len() && from < first.entries.len() && !first.needs_work(
        enabling,
        from,
    ) {
        lemma_next_index_by_states(first, second, enabling, from + 1);
    }
}

/// An aggregate with nothing applied has an empty ledger.
pub proof fn lemma_ledger_empty(view: HookLibrariesView, count: int)
    requires
        view.none_applied(),
        count <= view.states.len(),
    ensures
        view.ledger_upto(count) == Seq::<LedgerEntryView>::empty(),
    decreases count,
{
    if count > 0 {
        lemma_ledger_empty(view, count - 1);
        assert(view.states[count - 1] is Inactive);
    }
}

/// A report either ends the pass or leaves it running in the same direction.
pub proof fn lemma_advance_keeps_direction(view: HookLibrariesView, event: HookEventView)
    requires
        view.wf(),
        !(view.pass is Idle),
    ensures
        view.report() is Some <==> view.advance(event).pass is Idle,
        view.report() is None ==> view.advance(event).enabling() == view.enabling(),
        view.report() matches Some(Ok(_)) ==> view.advance(event).enabled == view.enabling(),
{
    match view.pass {
        Pass::Suspending { enabling } => {
            lemma_pass_from(view, enabling, 0);
        },
        Pass::Working { enabling, index } => {
            let entry = view.entries[index as int];
            if failure_of(entry, enabling, event) is None {
                let updated = HookLibrariesView {
                    states: view.states.update(index as int, state_after(entry, enabling, event)),
                    ..view
                };
                lemma_pass_from(updated, enabling, index + 1);
            }
        },
        _ => {},
    }
}

/// No report of the host starts a pass.
pub proof fn lemma_advance_keeps_suspension(view: HookLibrariesView, event: HookEventView)
    requires
        view.states.len() == view.entries.len(),
        view.states.len() <= usize::MAX,
    ensures
        !(view.advance(event).pass is Suspending) || view.pass is Idle,
        view.pass is Idle ==> view.advance(event) == view,
{
    match view.pass {
        Pass::Suspending { enabling } => {
            lemma_pass_from(view, enabling, 0);
        },
        Pass::Working { enabling, index } => {
            let entry = view.entries[index as int];
            if view.needs_work(enabling, index as int) && failure_of(entry, enabling, event)
                is None {
                let updated = HookLibrariesView {
                    states: view.states.update(index as int, state_after(entry, enabling, event)),
                    ..view
                };
                lemma_pass_from(updated, enabling, index + 1);
            }
        },
        _ => {},
    }
}

/// A pass is one scope of the thread guard: it begins by suspending the
/// other threads, asks for nothing else before that is done, and whatever
/// the host reports it ends only with the answer to the request to resume
/// them.
pub proof fn lemma_pass_is_guarded(view: HookLibrariesView, enabling: bool, event: HookEventView)
    requires
        view.wf(),
    ensures
        view.pass is Idle ==> view.begin(enabling).pending() == Some(HookActionView::Suspend),
        !(view.pass is Idle) && view.advance(event).pass is Idle ==> view.pending() == Some(
            HookActionView::Resume,
        ),
        view.report() is Some ==> view.pending() == Some(HookActionView::Resume),
{
    if !(view.pass is Idle) {
        lemma_advance_keeps_direction(view, event);
    }
}

/// `line` is the ledger line of `entry` in `state`: the entry is a patch at
/// the line's address, applied, and the line holds the bytes it replaced.
pub open spec fn records(
    entry: HookEntryView,
    state: EntryStateView,
    line: LedgerEntryView,
) -> bool {
    &&& entry matches HookEntryView::Patch(patch)
    &&& patch.address == line.address
    &&& state == (EntryStateView::Patched { original: line.original })
}

/// The ledger holds a line exactly for each patch that is applied: its
/// address, and the bytes that the patch replaced.
pub proof fn lemma_ledger_lists_applied_patches(
    view: HookLibrariesView,
    count: int,
    line: LedgerEntryView,
)
    requires
        0 <= count <= view.entries.len(),
        view.states.len() == view.entries.len(),
    ensures
        view.ledger_upto(count).contains(line) <==> exists|i: int|
            0 <= i < count && records(#[trigger] view.entries[i], view.states[i], line),
    decreases count,
{
    if count > 0 {
        lemma_ledger_lists_applied_patches(view, count - 1, line);
        let earlier = view.ledger_upto(count - 1);
        let ledger = view.ledger_upto(count);
        if ledger.contains(line) {
            let k = choose|k: int| 0 <= k < ledger.len() && ledger[k] == line;
            if k < earlier.len() {
                assert(earlier[k] == line);
                assert(earlier.contains(line));
                let i = choose|i: int|
                    0 <= i < count - 1 && records(#[trigger] view.entries[i], view.states[i], line);
                assert(records(view.entries[i], view.states[i], line));
            } else {
                assert(records(view.entries[count - 1], view.states[count - 1], line));
            }
        }
        if exists|i: int|
            0 <= i < count && records(#[trigger] view.entries[i], view.states[i], line) {
            let i = choose|i: int|
                0 <= i < count && records(#[trigger] view.entries[i], view.states[i], line);
            if i == count - 1 {
                assert(ledger[ledger.len() - 1] == line);
            } else {
                assert(earlier.contains(line));
                let k = choose|k: int| 0 <= k < earlier.len() && earlier[k] == line;
                assert(ledger[k] == line);
            }
        }
    }
}

} // verus!
