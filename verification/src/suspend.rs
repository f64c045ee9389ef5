//! Which threads a pass suspends: every thread of the process but the one
//! that writes the patches.

use vstd::prelude::*;

verus! {

/// One thread, as a snapshot of the system lists it.
#[derive(Clone, Copy, Debug, PartialEq, Eq, Structural)]
pub struct ThreadEntry {
    pub process_id: u32,
    pub thread_id: u32,
}

/// The guard suspends `thread` when it belongs to the process and is not
/// the calling thread.
pub open spec fn is_other_thread(
    thread: ThreadEntry,
    process_id: u32,
    current_thread: u32,
) -> bool {
    thread.process_id == process_id && thread.thread_id != current_thread
}

/// The threads of `threads` that the guard suspends, in the order of the
/// snapshot.
pub open spec fn other_threads(
    threads: Seq<ThreadEntry>,
    process_id: u32,
    current_thread: u32,
) -> Seq<u32>
    decreases threads.len(),
{
    if threads.len() == 0 {
        Seq::empty()
    } else {
        let earlier = other_threads(threads.drop_last(), process_id, current_thread);
        if is_other_thread(threads.last(), process_id, current_thread) {
            earlier.push(threads.last().thread_id)
        } else {
            earlier
        }
    }
}

/// The guard of a pass: the threads that were suspended for it, which are
/// the threads to resume when the pass ends, however it ends.
#[derive(Debug)]
pub struct ThreadSuspender {
    suspended: Vec<u32>,
}

impl View for ThreadSuspender {
    type V = Seq<u32>;

    closed spec fn view(&self) -> Seq<u32> {
        self.suspended@
    }
}

impl ThreadSuspender {
    /// The guard for the thread `current_thread` of process `process_id`,
    /// from a snapshot of the system's threads.
    pub fn new(threads: &Vec<ThreadEntry>, process_id: u32, current_thread: u32) -> (guard:
        ThreadSuspender)
        ensures
            guard@ == other_threads(threads@, process_id, current_thread),
    {
        let mut suspended: Vec<u32> = Vec::new();
        let mut i: usize = 0;
        while i < threads.len()
            invariant
                i <= threads.len(),
                suspended@ == other_threads(threads@.take(i as int), process_id, current_thread),
            decreases threads.len() - i,
        {
            let thread = threads[i];
            assert(threads@.take(i as int + 1).drop_last() =~= threads@.take(i as int));
            if thread.process_id == process_id && thread.thread_id != current_thread {
                suspended.push(thread.thread_id);
            }
            i = i + 1;
        }
        assert(threads@.take(threads@.len() as int) =~= threads@);
        ThreadSuspender { suspended }
    }

    /// The threads to suspend, in the order of the snapshot.
    pub fn threads(&self) -> (threads: &Vec<u32>)
        ensures
            threads@ == self@,
    {
        &self.suspended
    }

    /// Ends the guard: the threads to resume are those that were suspended.
    pub fn release(self) -> (threads: Vec<u32>)
        ensures
            threads@ == self@,
    {
        self.suspended
    }
}

/// The snapshot lists `thread_id` as a thread of the process other than the
/// calling one.
pub open spec fn listed(
    threads: Seq<ThreadEntry>,
    process_id: u32,
    current_thread: u32,
    thread_id: u32,
) -> bool {
    exists|i: int|
        0 <= i < threads.len() && #[trigger] threads[i].thread_id == thread_id && is_other_thread(
            threads[i],
            process_id,
            current_thread,
        )
}

/// The guard suspends exactly the other threads of the process: each one
/// that the snapshot lists, none else, and never the calling thread.
pub proof fn lemma_other_threads(
    threads: Seq<ThreadEntry>,
    process_id: u32,
    current_thread: u32,
    thread_id: u32,
)
    ensures
        other_threads(threads, process_id, current_thread).contains(thread_id) <==> listed(
            threads,
            process_id,
            current_thread,
            thread_id,
        ),
        !other_threads(threads, process_id, current_thread).contains(current_thread),
        other_threads(threads, process_id, current_thread).len() <= threads.len(),
    decreases threads.len(),
{
    let chosen = other_threads(threads, process_id, current_thread);
    if threads.len() > 0 {
        let before = threads.drop_last();
        let earlier = other_threads(before, process_id, current_thread);
        let last = threads.last();
        let taken = is_other_thread(last, process_id, current_thread);
        lemma_other_threads(before, process_id, current_thread, thread_id);
        lemma_other_threads(before, process_id, current_thread, current_thread);
        if chosen.contains(thread_id) {
            let k = choose|k: int| 0 <= k < chosen.len() && chosen[k] == thread_id;
            if taken && k == chosen.len() - 1 {
                assert(threads[threads.len() - 1].thread_id == thread_id);
            } else {
                assert(earlier[k] == thread_id);
                assert(listed(before, process_id, current_thread, thread_id));
                let i = choose|i: int|
                    0 <= i < before.len() && #[trigger] before[i].thread_id == thread_id
                        && is_other_thread(before[i], process_id, current_thread);
                assert(threads[i].thread_id == thread_id);
            }
        }
        if listed(threads, process_id, current_thread, thread_id) {
            let i = choose|i: int|
                0 <= i < threads.len() && #[trigger] threads[i].thread_id == thread_id
                    && is_other_thread(threads[i], process_id, current_thread);
            if i == threads.len() - 1 {
                assert(chosen[chosen.len() - 1] == thread_id);
            } else {
                assert(before[i].thread_id == thread_id);
                assert(earlier.contains(thread_id));
                let k = choose|k: int| 0 <= k < earlier.len() && earlier[k] == thread_id;
                assert(chosen[k] == thread_id);
            }
        }
        if chosen.contains(current_thread) {
            let k = choose|k: int| 0 <= k < chosen.len() && chosen[k] == current_thread;
            if !(taken && k == chosen.len() - 1) {
                assert(earlier[k] == current_thread);
            }
        }
    }
}

} // verus!
