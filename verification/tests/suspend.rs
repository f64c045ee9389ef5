use jc3boot::suspend::{ThreadEntry, ThreadSuspender};

fn thread(process_id: u32, thread_id: u32) -> ThreadEntry {
    ThreadEntry { process_id, thread_id }
}

#[test]
fn guard_takes_every_other_thread_of_the_process() {
    let snapshot = vec![
        thread(4, 40),
        thread(7, 70),
        thread(7, 71),
        thread(9, 90),
        thread(7, 72),
        thread(4, 71),
    ];
    let guard = ThreadSuspender::new(&snapshot, 7, 71);
    assert_eq!(guard.threads(), &vec![70, 72]);
    assert_eq!(guard.release(), vec![70, 72]);
}

#[test]
fn guard_of_a_single_threaded_process_is_empty() {
    let snapshot = vec![thread(1, 10), thread(2, 20)];
    let guard = ThreadSuspender::new(&snapshot, 2, 20);
    assert!(guard.threads().is_empty());
    assert!(guard.release().is_empty());
}

#[test]
fn guard_of_an_empty_snapshot_is_empty() {
    let guard = ThreadSuspender::new(&Vec::new(), 2, 20);
    assert!(guard.release().is_empty());
}

#[test]
fn guard_resumes_what_it_suspended() {
    let snapshot = vec![thread(3, 1), thread(3, 2), thread(3, 3)];
    let guard = ThreadSuspender::new(&snapshot, 3, 2);
    let suspended = guard.threads().clone();
    assert_eq!(guard.release(), suspended);
    assert_eq!(suspended, vec![1, 3]);
}
