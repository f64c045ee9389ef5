//! A model of the host, to state what a pass does to the process image.
//!
//! The image is a map from address to byte. The model host performs the
//! operations it is asked for, but those it is set to fail: a patch hands
//! back the bytes it overwrites, a restore writes what it is given, and the
//! operations on threads, detours and callbacks leave the image alone.

use vstd::prelude::*;
use crate::hooks::HookEntryView;
use crate::util::{immediate_ret_code, patch_entry, ret_one_code, ret_zero_code};
use crate::manager::{
    action_for, failure_of, lemma_ledger_empty, lemma_next_index, lemma_next_index_by_states,
    lemma_pass_from, state_after, state_fits, EntryStateView, HookActionView, HookErrorKind,
    HookEventView, HookLibrariesView, LedgerEntryView, Pass,
};

verus! {

/// The `count` bytes of the image from `address` on.
pub open spec fn read(memory: Map<int, u8>, address: int, count: nat) -> Seq<u8> {
    Seq::new(count, |i: int| memory[address + i])
}

/// The image with `bytes` written from `address` on. Addresses that the
/// image does not hold stay out of it.
pub open spec fn write(memory: Map<int, u8>, address: int, bytes: Seq<u8>) -> Map<int, u8> {
    Map::new(
        |a: int| memory.dom().contains(a),
        |a: int|
            if address <= a < address + bytes.len() {
                bytes[a - address]
            } else {
                memory[a]
            },
    )
}

/// The image after the model host performed `action`, and its report. The
/// host fails the operations in `failing`, which leaves the image alone,
/// and performs every other operation.
pub open spec fn respond(
    memory: Map<int, u8>,
    action: HookActionView,
    failing: Set<HookActionView>,
) -> (Map<int, u8>, HookEventView) {
    if failing.contains(action) {
        (memory, HookEventView::Failed { kind: HookErrorKind::DetourBind })
    } else {
        match action {
            HookActionView::Patch { address, bytes } => (
                write(memory, address as int, bytes),
                HookEventView::Patched { original: read(memory, address as int, bytes.len()) },
            ),
            HookActionView::Restore { address, bytes } => (
                write(memory, address as int, bytes),
                HookEventView::Done,
            ),
            _ => (memory, HookEventView::Done),
        }
    }
}

/// An upper bound of the number of operations that the running pass still
/// asks for.
pub open spec fn fuel(view: HookLibrariesView) -> nat {
    match view.pass {
        Pass::Idle => 0,
        Pass::Resuming { enabling, failure } => 1,
        Pass::Working { enabling, index } => if index < view.states.len() {
            (2 + view.states.len() - index) as nat
        } else {
            2
        },
        Pass::Suspending { enabling } => 3 + view.states.len(),
    }
}

/// Every report brings the running pass nearer to its end.
pub proof fn lemma_advance_uses_fuel(view: HookLibrariesView, event: HookEventView)
    requires
        view.states.len() == view.entries.len(),
        view.states.len() <= usize::MAX,
        !(view.pass is Idle),
    ensures
        fuel(view.advance(event)) < fuel(view),
        view.advance(event).states.len() == view.advance(event).entries.len(),
        view.advance(event).entries == view.entries,
{
    match view.pass {
        Pass::Idle => {},
        Pass::Suspending { enabling } => {
            lemma_pass_from(view, enabling, 0);
        },
        Pass::Working { enabling, index } => {
            if view.needs_work(enabling, index as int) {
                let entry = view.entries[index as int];
                let updated = HookLibrariesView {
                    states: view.states.update(
                        index as int,
                        state_after(entry, enabling, event),
                    ),
                    ..view
                };
                lemma_pass_from(updated, enabling, index + 1);
            }
        },
        Pass::Resuming { enabling, failure } => {},
    }
}

/// The aggregate and the image once the model host has carried the running
/// pass to its end.
pub open spec fn run(
    view: HookLibrariesView,
    memory: Map<int, u8>,
    failing: Set<HookActionView>,
) -> (HookLibrariesView, Map<int, u8>)
    decreases fuel(view),
    when view.states.len() == view.entries.len() && view.states.len() <= usize::MAX
{
    match view.pending() {
        None => (view, memory),
        Some(action) => {
            let (image, event) = respond(memory, action, failing);
            proof {
                lemma_advance_uses_fuel(view, event);
            }
            run(view.advance(event), image, failing)
        },
    }
}

/// The first position from `from` on at which the model host fails to apply
/// the entry, or the number of entries if it applies them all.
pub open spec fn stops_at(
    entries: Seq<HookEntryView>,
    failing: Set<HookActionView>,
    from: int,
) -> int
    decreases entries.len() - from,
{
    if from < 0 || from >= entries.len() {
        entries.len() as int
    } else if failing.contains(action_for(entries[from], EntryStateView::Inactive, true)) {
        from
    } else {
        stops_at(entries, failing, from + 1)
    }
}

/// A host that fails nothing applies every entry.
pub proof fn lemma_nothing_stops(entries: Seq<HookEntryView>, from: int)
    requires
        0 <= from,
    ensures
        stops_at(entries, Set::empty(), from) == entries.len(),
    decreases entries.len() - from,
{
    if from < entries.len() {
        lemma_nothing_stops(entries, from + 1);
    }
}

/// An enable pass stops within the entries.
pub proof fn lemma_stops_within(
    entries: Seq<HookEntryView>,
    failing: Set<HookActionView>,
    from: int,
)
    requires
        0 <= from <= entries.len(),
    ensures
        from <= stops_at(entries, failing, from) <= entries.len(),
    decreases entries.len() - from,
{
    if from < entries.len() {
        lemma_stops_within(entries, failing, from + 1);
    }
}

/// `entry` is a patch that writes to address `a`.
pub open spec fn covers(entry: HookEntryView, a: int) -> bool {
    entry matches HookEntryView::Patch(patch) && patch.address <= a < patch.address
        + patch.bytes.len()
}

/// One of the first `count` entries is a patch that writes to address `a`.
pub open spec fn covered(entries: Seq<HookEntryView>, count: int, a: int) -> bool
    decreases count,
{
    count > 0 && (covers(entries[count - 1], a) || covered(entries, count - 1, a))
}

/// Two entries write to no common address.
pub open spec fn apart(first: HookEntryView, second: HookEntryView) -> bool {
    first matches HookEntryView::Patch(p) ==> second matches HookEntryView::Patch(q)
        ==> p.bytes.len() == 0 || q.bytes.len() == 0 || p.address + p.bytes.len() <= q.address
        || q.address + q.bytes.len() <= p.address
}

/// No two patches write to a common address.
pub open spec fn patches_disjoint(entries: Seq<HookEntryView>) -> bool {
    forall|i: int, j: int|
        0 <= i < j < entries.len() ==> apart(#[trigger] entries[i], #[trigger] entries[j])
}

/// The image once the patches among the first `count` entries are written,
/// in declaration order.
pub open spec fn image_after(entries: Seq<HookEntryView>, memory: Map<int, u8>, count: int) -> Map<
    int,
    u8,
>
    decreases count,
{
    if count <= 0 {
        memory
    } else {
        let before = image_after(entries, memory, count - 1);
        match entries[count - 1] {
            HookEntryView::Patch(patch) => write(before, patch.address as int, patch.bytes),
            _ => before,
        }
    }
}

/// The state of every entry once an enable pass over a fresh aggregate has
/// dealt with the first `count` entries: each patch holds the bytes that
/// stood at its address when it was written.
pub open spec fn states_after(entries: Seq<HookEntryView>, memory: Map<int, u8>, count: int) -> Seq<
    EntryStateView,
> {
    Seq::new(
        entries.len(),
        |i: int|
            if i < count {
                match entries[i] {
                    HookEntryView::Patch(patch) => EntryStateView::Patched {
                        original: read(
                            image_after(entries, memory, i),
                            patch.address as int,
                            patch.bytes.len(),
                        ),
                    },
                    _ => EntryStateView::Active,
                }
            } else {
                EntryStateView::Inactive
            },
    )
}

/// The image once the ledger lines of the first `count` entries are written
/// back, in declaration order.
pub open spec fn image_restored(
    entries: Seq<HookEntryView>,
    states: Seq<EntryStateView>,
    memory: Map<int, u8>,
    count: int,
) -> Map<int, u8>
    decreases count,
{
    if count <= 0 {
        memory
    } else {
        let before = image_restored(entries, states, memory, count - 1);
        match (entries[count - 1], states[count - 1]) {
            (HookEntryView::Patch(patch), EntryStateView::Patched { original }) => write(
                before,
                patch.address as int,
                original,
            ),
            _ => before,
        }
    }
}

/// The states once a disable pass has dealt with the first `count` entries.
pub open spec fn states_cleared(states: Seq<EntryStateView>, count: int) -> Seq<EntryStateView> {
    Seq::new(
        states.len(),
        |i: int|
            if i < count {
                EntryStateView::Inactive
            } else {
                states[i]
            },
    )
}

proof fn lemma_image_after_dom(entries: Seq<HookEntryView>, memory: Map<int, u8>, count: int)
    ensures
        image_after(entries, memory, count).dom() == memory.dom(),
    decreases count,
{
    if count > 0 {
        lemma_image_after_dom(entries, memory, count - 1);
        assert(image_after(entries, memory, count).dom() =~= memory.dom());
    }
}

proof fn lemma_image_restored_dom(
    entries: Seq<HookEntryView>,
    states: Seq<EntryStateView>,
    memory: Map<int, u8>,
    count: int,
)
    ensures
        image_restored(entries, states, memory, count).dom() == memory.dom(),
    decreases count,
{
    if count > 0 {
        lemma_image_restored_dom(entries, states, memory, count - 1);
        assert(image_restored(entries, states, memory, count).dom() =~= memory.dom());
    }
}

proof fn lemma_image_after_frame(
    entries: Seq<HookEntryView>,
    memory: Map<int, u8>,
    count: int,
    a: int,
)
    requires
        count <= entries.len(),
        memory.dom().contains(a),
    ensures
        image_after(entries, memory, count).dom() == memory.dom(),
        !covered(entries, count, a) ==> image_after(entries, memory, count)[a] == memory[a],
    decreases count,
{
    if count > 0 {
        lemma_image_after_frame(entries, memory, count - 1, a);
        assert(image_after(entries, memory, count).dom() =~= memory.dom());
    }
}

proof fn lemma_disjoint_not_covered(entries: Seq<HookEntryView>, count: int, index: int, a: int)
    requires
        patches_disjoint(entries),
        0 <= count <= index < entries.len(),
        covers(entries[index], a),
    ensures
        !covered(entries, count, a),
    decreases count,
{
    if count > 0 {
        assert(apart(entries[count - 1], entries[index]));
        lemma_disjoint_not_covered(entries, count - 1, index, a);
    }
}

proof fn lemma_image_restored_byte(
    entries: Seq<HookEntryView>,
    memory: Map<int, u8>,
    applied: int,
    count: int,
    a: int,
)
    requires
        patches_disjoint(entries),
        0 <= count <= applied <= entries.len(),
        memory.dom().contains(a),
    ensures
        ({
            let states = states_after(entries, memory, applied);
            let patched = image_after(entries, memory, applied);
            let restored = image_restored(entries, states, patched, count);
            &&& restored.dom() == memory.dom()
            &&& restored[a] == if covered(entries, count, a) {
                memory[a]
            } else {
                patched[a]
            }
        }),
    decreases count,
{
    let states = states_after(entries, memory, applied);
    let patched = image_after(entries, memory, applied);
    lemma_image_after_frame(entries, memory, applied, a);
    if count > 0 {
        lemma_image_restored_byte(entries, memory, applied, count - 1, a);
        let restored = image_restored(entries, states, patched, count);
        assert(restored.dom() =~= memory.dom());
        if covers(entries[count - 1], a) {
            lemma_disjoint_not_covered(entries, count - 1, count - 1, a);
            lemma_image_after_frame(entries, memory, count - 1, a);
        }
    }
}

/// Writing the ledger lines back, after the patches among the first
/// `applied` entries were written, gives the image that the patches found,
/// provided no two patches overlap.
pub proof fn lemma_restore_undoes_patches(
    entries: Seq<HookEntryView>,
    memory: Map<int, u8>,
    applied: int,
)
    requires
        patches_disjoint(entries),
        0 <= applied <= entries.len(),
    ensures
        image_restored(
            entries,
            states_after(entries, memory, applied),
            image_after(entries, memory, applied),
            applied,
        ) == memory,
{
    let states = states_after(entries, memory, applied);
    let patched = image_after(entries, memory, applied);
    let restored = image_restored(entries, states, patched, applied);
    lemma_image_restored_dom(entries, states, patched, applied);
    lemma_image_after_dom(entries, memory, applied);
    assert forall|a: int| memory.dom().contains(a) implies #[trigger] restored[a] == memory[a] by {
        lemma_image_restored_byte(entries, memory, applied, applied, a);
        lemma_image_after_frame(entries, memory, applied, a);
    }
    assert(restored =~= memory);
}

/// The aggregate as an enable pass over a fresh aggregate leaves it when
/// the pass dealt with the first `applied` entries: those are applied, and
/// the aggregate is enabled if they are all.
pub open spec fn enabled_upto(
    entries: Seq<HookEntryView>,
    memory: Map<int, u8>,
    applied: int,
) -> HookLibrariesView {
    HookLibrariesView {
        entries,
        states: states_after(entries, memory, applied),
        pass: Pass::Idle,
        enabled: applied == entries.len(),
    }
}

proof fn lemma_run_enable(
    view: HookLibrariesView,
    memory: Map<int, u8>,
    failing: Set<HookActionView>,
    count: int,
)
    requires
        view.entries.len() <= usize::MAX,
        0 <= count <= view.entries.len(),
        view.states == states_after(view.entries, memory, count),
        view.pass == view.pass_from(true, count),
    ensures
        run(view, image_after(view.entries, memory, count), failing) == (
            enabled_upto(view.entries, memory, stops_at(view.entries, failing, count)),
            image_after(view.entries, memory, stops_at(view.entries, failing, count)),
        ),
    decreases view.entries.len() - count,
{
    let total = view.entries.len() as int;
    let image = image_after(view.entries, memory, count);
    lemma_next_index(view, true, count, count);
    if count < total {
        assert(view.states[count] is Inactive);
        assert(view.pass == Pass::Working { enabling: true, index: count as usize });
        let entry = view.entries[count];
        let action = action_for(entry, view.states[count], true);
        let (written, event) = respond(image, action, failing);
        let next = view.advance(event);
        lemma_advance_uses_fuel(view, event);
        if failing.contains(action) {
            assert(failure_of(entry, true, event) is Some);
            assert(next.pass is Resuming);
            let (unchanged, resumed) = respond(written, HookActionView::Resume, failing);
            let last = next.advance(resumed);
            assert(last.pending() is None);
            assert(last == enabled_upto(view.entries, memory, count));
            reveal_with_fuel(run, 3);
        } else {
            assert(failure_of(entry, true, event) is None);
            let updated = HookLibrariesView {
                states: view.states.update(count, state_after(entry, true, event)),
                ..view
            };
            assert(next.states =~= states_after(view.entries, memory, count + 1));
            lemma_next_index_by_states(updated, next, true, count + 1);
            assert(written == image_after(view.entries, memory, count + 1));
            lemma_run_enable(next, memory, failing, count + 1);
        }
    } else {
        assert(view.pass == Pass::Resuming { enabling: true, failure: None });
        let (unchanged, resumed) = respond(image, HookActionView::Resume, failing);
        let next = view.advance(resumed);
        assert(next.pending() is None);
        assert(next == enabled_upto(view.entries, memory, total));
        reveal_with_fuel(run, 2);
    }
}

proof fn lemma_image_restored_rest(
    entries: Seq<HookEntryView>,
    memory: Map<int, u8>,
    image: Map<int, u8>,
    applied: int,
    count: int,
)
    requires
        0 <= applied <= count <= entries.len(),
    ensures
        image_restored(entries, states_after(entries, memory, applied), image, count)
            == image_restored(entries, states_after(entries, memory, applied), image, applied),
    decreases count,
{
    if applied < count {
        lemma_image_restored_rest(entries, memory, image, applied, count - 1);
    }
}

proof fn lemma_run_disable(
    view: HookLibrariesView,
    memory: Map<int, u8>,
    image: Map<int, u8>,
    applied: int,
    count: int,
)
    requires
        view.entries.len() <= usize::MAX,
        0 <= count <= applied <= view.entries.len(),
        view.states == states_cleared(states_after(view.entries, memory, applied), count),
        view.pass == view.pass_from(false, count),
    ensures
        run(
            view,
            image_restored(
                view.entries,
                states_after(view.entries, memory, applied),
                image,
                count,
            ),
            Set::empty(),
        ) == (
            HookLibrariesView::fresh(view.entries),
            image_restored(
                view.entries,
                states_after(view.entries, memory, applied),
                image,
                applied,
            ),
        ),
    decreases applied - count,
{
    let total = view.entries.len() as int;
    let states = states_after(view.entries, memory, applied);
    let current = image_restored(view.entries, states, image, count);
    let nothing = Set::<HookActionView>::empty();
    if count < applied {
        assert(view.states[count] == states[count]);
        lemma_next_index(view, false, count, count);
        assert(view.pass == Pass::Working { enabling: false, index: count as usize });
        let entry = view.entries[count];
        let action = action_for(entry, view.states[count], false);
        let (written, event) = respond(current, action, nothing);
        assert(failure_of(entry, false, event) is None);
        let updated = HookLibrariesView {
            states: view.states.update(count, state_after(entry, false, event)),
            ..view
        };
        let next = view.advance(event);
        assert(next.states =~= states_cleared(states, count + 1));
        lemma_next_index_by_states(updated, next, false, count + 1);
        assert(written == image_restored(view.entries, states, image, count + 1));
        lemma_run_disable(next, memory, image, applied, count + 1);
        lemma_advance_uses_fuel(view, event);
    } else {
        assert(view.states =~= HookLibrariesView::fresh(view.entries).states);
        lemma_next_index(view, false, count, total);
        assert(view.pass == Pass::Resuming { enabling: false, failure: None });
        let next = view.advance(HookEventView::Done);
        assert(next.pending() is None);
        assert(next == HookLibrariesView::fresh(view.entries));
        reveal_with_fuel(run, 2);
    }
}

/// An enable pass over an aggregate with nothing applied writes the patches
/// in declaration order and records what each of them replaced, up to the
/// first entry that the host fails to apply. The aggregate is enabled in
/// the end exactly if every entry was applied.
pub proof fn lemma_enable_applies_in_order(
    aggregate: HookLibrariesView,
    memory: Map<int, u8>,
    failing: Set<HookActionView>,
)
    requires
        aggregate.wf(),
        aggregate.pass is Idle,
        aggregate.none_applied(),
    ensures
        ({
            let applied = stops_at(aggregate.entries, failing, 0);
            &&& 0 <= applied <= aggregate.entries.len()
            &&& run(aggregate.begin(true), memory, failing) == (
                enabled_upto(aggregate.entries, memory, applied),
                image_after(aggregate.entries, memory, applied),
            )
            &&& enabled_upto(aggregate.entries, memory, applied).wf()
        }),
{
    let started = aggregate.begin(true);
    let (unchanged, suspended) = respond(memory, HookActionView::Suspend, failing);
    let next = started.advance(suspended);
    assert(next.states =~= states_after(aggregate.entries, memory, 0));
    lemma_next_index_by_states(started, next, true, 0);
    lemma_run_enable(next, memory, failing, 0);
    lemma_advance_uses_fuel(started, suspended);
    lemma_stops_within(aggregate.entries, failing, 0);
    let applied = stops_at(aggregate.entries, failing, 0);
    let enabled = enabled_upto(aggregate.entries, memory, applied);
    assert forall|i: int| 0 <= i < enabled.entries.len() implies state_fits(
        #[trigger] enabled.entries[i],
        enabled.states[i],
    ) by {}
}

/// Enabling an aggregate and then disabling it leaves every byte of the
/// image as it was before, and the ledger empty, provided no two patches
/// overlap. This holds also where the enable pass failed on the way and
/// left only some of the entries applied.
pub proof fn lemma_disable_restores(
    aggregate: HookLibrariesView,
    memory: Map<int, u8>,
    failing: Set<HookActionView>,
)
    requires
        aggregate.wf(),
        aggregate.pass is Idle,
        aggregate.none_applied(),
        patches_disjoint(aggregate.entries),
    ensures
        ({
            let (enabled, patched) = run(aggregate.begin(true), memory, failing);
            let (disabled, restored) = run(enabled.begin(false), patched, Set::empty());
            &&& enabled.enabled <==> stops_at(aggregate.entries, failing, 0)
                == aggregate.entries.len()
            &&& restored == memory
            &&& disabled == HookLibrariesView::fresh(aggregate.entries)
            &&& disabled.ledger() == Seq::<LedgerEntryView>::empty()
        }),
{
    lemma_enable_applies_in_order(aggregate, memory, failing);
    let entries = aggregate.entries;
    let total = entries.len() as int;
    let applied = stops_at(entries, failing, 0);
    let enabled = enabled_upto(entries, memory, applied);
    let patched = image_after(entries, memory, applied);
    let started = enabled.begin(false);
    let next = started.advance(HookEventView::Done);
    assert(next.states =~= states_cleared(enabled.states, 0));
    lemma_next_index_by_states(started, next, false, 0);
    lemma_run_disable(next, memory, patched, applied, 0);
    lemma_advance_uses_fuel(started, HookEventView::Done);
    lemma_restore_undoes_patches(entries, memory, applied);
    lemma_ledger_empty(HookLibrariesView::fresh(entries), total);
}

/// The four bytes of an immediate operand as the processor widens them: the
/// value they spell, lowest byte first, with its sign carried to 64 bits.
pub open spec fn immediate(b0: u8, b1: u8, b2: u8, b3: u8) -> u64 {
    let value = b0 + b1 * 0x100 + b2 * 0x1_0000 + b3 * 0x100_0000;
    if value < 0x8000_0000 {
        value as u64
    } else {
        (value + 0xFFFF_FFFF_0000_0000) as u64
    }
}

/// The accumulator with which the code at the start of `code` returns to
/// its caller, entered with `accumulator`; `None` where the code leaves the
/// three instructions that the stubs are made of: `ret`, `xor rax, rax` and
/// `mov rax, imm32`. None of them reads an argument.
pub open spec fn returned(code: Seq<u8>, accumulator: u64) -> Option<u64>
    decreases code.len(),
{
    if code.len() >= 1 && code[0] == 0xC3 {
        Some(accumulator)
    } else if code.len() >= 3 && code[0] == 0x48 && code[1] == 0x31 && code[2] == 0xC0 {
        returned(code.skip(3), 0)
    } else if code.len() >= 7 && code[0] == 0x48 && code[1] == 0xC7 && code[2] == 0xC0 {
        returned(code.skip(7), immediate(code[3], code[4], code[5], code[6]))
    } else {
        None
    }
}

/// The stubs do what their names say, whatever the accumulator holds on
/// entry: one returns at once, one returns 0, one returns 1.
pub proof fn lemma_stubs_return_constants(accumulator: u64)
    ensures
        returned(immediate_ret_code(), accumulator) == Some(accumulator),
        returned(ret_zero_code(), accumulator) == Some(0u64),
        returned(ret_one_code(), accumulator) == Some(1u64),
{
    reveal_with_fuel(returned, 3);
    assert(ret_zero_code().skip(3) =~= seq![0xC3u8]);
    assert(ret_one_code().skip(7) =~= seq![0xC3u8]);
}

proof fn lemma_image_after_holds_patch(
    entries: Seq<HookEntryView>,
    memory: Map<int, u8>,
    index: int,
    count: int,
    a: int,
)
    requires
        patches_disjoint(entries),
        0 <= index < count <= entries.len(),
        covers(entries[index], a),
        memory.dom().contains(a),
    ensures
        entries[index] matches HookEntryView::Patch(patch) && image_after(entries, memory, count)[a]
            == patch.bytes[a - patch.address],
    decreases count,
{
    lemma_image_after_dom(entries, memory, count - 1);
    if index < count - 1 {
        lemma_image_after_holds_patch(entries, memory, index, count - 1, a);
        assert(apart(entries[index], entries[count - 1]));
    }
}

/// Once a host that fails nothing has enabled an aggregate, the bytes of
/// each of its patches stand at the patch's address, provided no two
/// patches overlap and the image holds the addresses.
pub proof fn lemma_enabled_patch_in_place(
    aggregate: HookLibrariesView,
    memory: Map<int, u8>,
    index: int,
)
    requires
        aggregate.wf(),
        aggregate.pass is Idle,
        aggregate.none_applied(),
        patches_disjoint(aggregate.entries),
        0 <= index < aggregate.entries.len(),
        aggregate.entries[index] is Patch,
        forall|a: int| covers(aggregate.entries[index], a) ==> memory.dom().contains(a),
    ensures
        aggregate.entries[index] matches HookEntryView::Patch(patch) && read(
            run(aggregate.begin(true), memory, Set::empty()).1,
            patch.address as int,
            patch.bytes.len(),
        ) == patch.bytes,
{
    lemma_enable_applies_in_order(aggregate, memory, Set::empty());
    lemma_nothing_stops(aggregate.entries, 0);
    let entries = aggregate.entries;
    let patched = image_after(entries, memory, entries.len() as int);
    let patch = entries[index]->Patch_0;
    let found = read(patched, patch.address as int, patch.bytes.len());
    assert forall|k: int| 0 <= k < patch.bytes.len() implies found[k] == patch.bytes[k] by {
        lemma_image_after_holds_patch(
            entries,
            memory,
            index,
            entries.len() as int,
            patch.address + k,
        );
    }
    assert(found =~= patch.bytes);
}

/// A function whose first bytes an enabled aggregate replaced by a stub
/// returns the stub's constant, whatever it is called with: 0 for the stub
/// that returns 0, 1 for the stub that returns 1. After the aggregate is
/// disabled the function's own bytes are back, by
/// [`lemma_disable_restores`].
pub proof fn lemma_hooked_target_returns_constant(
    aggregate: HookLibrariesView,
    memory: Map<int, u8>,
    index: int,
    address: u64,
    accumulator: u64,
)
    requires
        aggregate.wf(),
        aggregate.pass is Idle,
        aggregate.none_applied(),
        patches_disjoint(aggregate.entries),
        0 <= index < aggregate.entries.len(),
        aggregate.entries[index] == patch_entry(address, ret_zero_code())
            || aggregate.entries[index] == patch_entry(address, ret_one_code()),
        forall|a: int| address <= a < address + 8 ==> memory.dom().contains(a),
    ensures
        ({
            let patched = run(aggregate.begin(true), memory, Set::empty()).1;
            &&& aggregate.entries[index] == patch_entry(address, ret_zero_code()) ==> returned(
                read(patched, address as int, 4),
                accumulator,
            ) == Some(0u64)
            &&& aggregate.entries[index] == patch_entry(address, ret_one_code()) ==> returned(
                read(patched, address as int, 8),
                accumulator,
            ) == Some(1u64)
        }),
{
    lemma_enabled_patch_in_place(aggregate, memory, index);
    lemma_stubs_return_constants(accumulator);
}

} // verus!
