use mlua_scheduler::cell::XRefCell;
use mlua_scheduler::ext::{wait_step, WaitEvent};
use mlua_scheduler::feedbacks::ThreadTracker;
use mlua_scheduler::handles::{all_settled, JoinHandles};
use mlua_scheduler::status::ThreadStatus;
use mlua_scheduler::taskmgr::{
    lua_dropped_message, panic_message, plan_resume, PanicPayload, ResumePlan, ReturnTracker,
};
use mlua_scheduler::taskmgr_v1::{DeferredQueue, WaitOp, WaitQueue, WaitingThread};
use mlua_scheduler::taskmgr_v2::{RunBook, RunFlags, StartOutcome};
use std::time::Duration;
use tokio_util::time::DelayQueue;

#[test]
fn xrefcell_read_after_write() {
    let mut cell = XRefCell::new(5u32);
    assert_eq!(*cell.borrow(), 5);
    *cell.borrow_mut() = 9;
    assert_eq!(*cell.borrow(), 9);
    *cell.borrow_mut() += 1;
    assert_eq!(*cell.borrow(), 10);
}

#[test]
fn thread_status_done() {
    assert!(ThreadStatus::Finished.is_done());
    assert!(ThreadStatus::Error.is_done());
    assert!(!ThreadStatus::Resumable.is_done());
    assert!(!ThreadStatus::Running.is_done());
}

#[test]
fn tracker_initiator_and_handles() {
    let mut t: ThreadTracker<&'static str, u32> = ThreadTracker::new();
    assert_eq!(t.get_initiator(1), None);
    t.add_thread("child", 2, "root", 1);
    assert_eq!(t.get_initiator(2), Some("root"));
    assert_eq!(t.get_initiator(1), None);
    t.remove_thread(2);
    assert_eq!(t.get_initiator(2), None);
}

#[test]
fn tracker_initiator_passed_down() {
    let mut t: ThreadTracker<&'static str, u32> = ThreadTracker::new();
    // root creates a; a creates b: both are initiated by root
    t.on_thread_add("spawn", "root", 1, "a", 2);
    t.on_thread_add("spawn", "a", 2, "b", 3);
    assert_eq!(t.get_initiator(2), Some("root"));
    assert_eq!(t.get_initiator(3), Some("root"));
}

#[test]
fn tracker_related_threads() {
    let mut t: ThreadTracker<&'static str, u32> = ThreadTracker::new();
    t.on_thread_add("spawn", "root", 1, "a", 2);
    t.on_thread_add("spawn", "a", 2, "b", 3);
    t.on_thread_add("spawn", "other", 9, "c", 4);
    // threads related to root: the threads it initiated
    let mut r = t.get_related_threads(1);
    r.sort();
    assert_eq!(r, vec!["a", "b"]);
    // threads related to a: its initiator, then those related to root
    let mut r = t.get_related_threads(2);
    r.sort();
    assert_eq!(r, vec!["a", "b", "root"]);
    // unrelated thread
    assert!(t.get_related_threads(42).is_empty());
    let r = t.get_related_threads(4);
    assert_eq!(r.len(), 2);
    assert!(r.iter().all(|h| *h == "other" || *h == "c"));
}

#[test]
fn tracker_metadata() {
    let mut t: ThreadTracker<&'static str, u32> = ThreadTracker::new();
    t.add_thread("child", 2, "root", 1);
    t.set_metadata(2, "worker".to_string());
    assert_eq!(t.get_metadata(2), Some("worker".to_string()));
    assert_eq!(t.get_metadata(1), None);
    assert_eq!(t.get_thread_from_metadata("worker"), Some("child"));
    assert_eq!(t.get_thread_from_metadata("nobody"), None);
    // metadata of a thread that has no handle
    t.set_metadata(77, "ghost".to_string());
    assert_eq!(t.get_thread_from_metadata("ghost"), None);
    t.set_metadata(2, "renamed".to_string());
    assert_eq!(t.get_thread_from_metadata("worker"), None);
}

#[test]
fn tracker_delivers_responses() {
    let mut t: ThreadTracker<&'static str, u32> = ThreadTracker::new();
    let mut rx = t.track_thread(5);
    t.on_response("label", 5, Some(7));
    t.on_response("label", 6, Some(8));
    t.on_response("label", 5, None);
    assert_eq!(rx.try_recv().unwrap(), Some(7));
    assert_eq!(rx.try_recv().unwrap(), None);
    assert!(rx.try_recv().is_err());
}

#[test]
fn return_tracker_delivers_final_result_once() {
    let mut rt: ReturnTracker<u32> = ReturnTracker::new();
    assert!(!rt.is_tracking());
    let mut rx = rt.track();
    assert!(rt.is_tracking());
    rt.push_result(ThreadStatus::Resumable, 1);
    assert!(rt.is_tracking());
    assert!(rx.try_recv().is_err());
    rt.push_result(ThreadStatus::Finished, 2);
    assert!(!rt.is_tracking());
    assert_eq!(rx.try_recv().unwrap(), 2);
    rt.push_result(ThreadStatus::Error, 3);
    assert!(!rt.is_tracking());
}

#[test]
fn return_tracker_stop_track() {
    let mut rt: ReturnTracker<u32> = ReturnTracker::new();
    let mut rx = rt.track();
    rt.stop_track();
    assert!(!rt.is_tracking());
    rt.push_result(ThreadStatus::Finished, 4);
    assert!(rx.try_recv().is_err());
}

#[test]
fn resume_plan_cases() {
    assert_eq!(plan_resume(false, ThreadStatus::Resumable, true), ResumePlan::Skip);
    assert_eq!(plan_resume(true, ThreadStatus::Finished, true), ResumePlan::Skip);
    assert_eq!(plan_resume(true, ThreadStatus::Error, false), ResumePlan::Skip);
    assert_eq!(
        plan_resume(true, ThreadStatus::Resumable, true),
        ResumePlan::Resume { track_result: true }
    );
    assert_eq!(
        plan_resume(true, ThreadStatus::Resumable, false),
        ResumePlan::Resume { track_result: false }
    );
}

#[test]
fn panic_messages() {
    assert_eq!(
        panic_message(&PanicPayload::Text("boom".to_string())),
        "Error in async thread: boom"
    );
    assert_eq!(
        panic_message(&PanicPayload::Opaque),
        "Error in async thread: Any { .. }"
    );
    let opaque: Box<dyn std::any::Any + Send> = Box::new(5u8);
    assert_eq!(
        panic_message(&PanicPayload::Opaque),
        format!("Error in async thread: {opaque:?}")
    );
    assert_eq!(lua_dropped_message(), "Lua state has been dropped");
}

#[test]
fn wait_step_cases() {
    // a result arrives while the thread still runs
    assert_eq!(
        wait_step(None, WaitEvent::Received(1), true, ThreadStatus::Resumable, true),
        (Some(1), false)
    );
    // the final result arrives
    assert_eq!(
        wait_step(Some(1), WaitEvent::Received(2), true, ThreadStatus::Finished, true),
        (Some(2), true)
    );
    // more results queued: keep going
    assert_eq!(
        wait_step(Some(1), WaitEvent::Received(2), true, ThreadStatus::Finished, false),
        (Some(2), false)
    );
    // Lua is gone: stop with what we had
    assert_eq!(
        wait_step(Some(1), WaitEvent::Received(2), false, ThreadStatus::Resumable, true),
        (Some(1), true)
    );
    // tick with nothing waiting
    assert_eq!(
        wait_step(Some(3), WaitEvent::Tick(None), true, ThreadStatus::Error, true),
        (Some(3), true)
    );
    assert_eq!(
        wait_step(None::<u8>, WaitEvent::Tick(Some(4)), true, ThreadStatus::Resumable, true),
        (Some(4), false)
    );
}

#[test]
fn settled_and_handles() {
    assert!(all_settled(&vec![]));
    assert!(all_settled(&vec![ThreadStatus::Finished, ThreadStatus::Resumable]));
    assert!(!all_settled(&vec![ThreadStatus::Finished, ThreadStatus::Running]));

    let mut h: JoinHandles<&'static str> = JoinHandles::new();
    assert_eq!(h.push(Some("first")), 1);
    assert_eq!(h.push(None), 2);
    assert_eq!(h.len(), 2);
    assert_eq!(h.take(1), Some("first"));
    assert_eq!(h.take(1), None);
    assert_eq!(h.take(2), None);
}

fn waiting(name: &'static str, wake_at: u64) -> WaitingThread<&'static str, u32> {
    WaitingThread { thread: name, op: WaitOp::Wait, start: 0, wake_at }
}

#[test]
fn wait_queue_pops_due_entries_in_order() {
    let mut q: WaitQueue<&'static str, u32> = WaitQueue::new();
    q.push(waiting("c", 30));
    q.push(waiting("a", 10));
    q.push(WaitingThread { thread: "b", op: WaitOp::Delay { args: 5 }, start: 1, wake_at: 20 });
    q.push(waiting("a2", 10));
    assert_eq!(q.len(), 4);
    assert_eq!(q.next_wake(), Some(10));
    assert!(q.pop_ready(5).is_none());
    let mut out = Vec::new();
    while let Some(e) = q.pop_ready(25) {
        out.push(e.thread);
    }
    assert_eq!(out, vec!["a", "a2", "b"]);
    assert_eq!(q.len(), 1);
    assert_eq!(q.next_wake(), Some(30));
    assert_eq!(q.pop_ready(30).map(|e| e.thread), Some("c"));
    assert!(q.is_empty());
    assert_eq!(q.next_wake(), None);
}

#[test]
fn waiting_thread_ordering() {
    let early = waiting("x", 1);
    let late = waiting("y", 2);
    assert!(early == waiting("z", 1));
    assert!(early != late);
    // reversed: the thread due first is the greatest
    assert_eq!(early.partial_cmp(&late), Some(std::cmp::Ordering::Greater));
    assert_eq!(late.partial_cmp(&early), Some(std::cmp::Ordering::Less));
    assert!(early > late);
}

#[test]
fn run_flags_lifecycle() {
    let mut f = RunFlags::new();
    assert!(!f.is_running() && !f.is_cancelled());
    assert_eq!(f.start(false), StartOutcome::Refused);
    assert_eq!(f.start(true), StartOutcome::Started);
    assert!(f.is_running());
    assert_eq!(f.start(true), StartOutcome::AlreadyRunning);
    assert!(f.keep_going(true));
    f.stop();
    assert!(f.is_cancelled());
    assert!(!f.keep_going(true));
    assert!(!f.is_running());
    assert_eq!(f.start(true), StartOutcome::Refused);
    f.unstop();
    assert_eq!(f.start(true), StartOutcome::Started);
    f.set_running(false);
    f.set_cancelled(true);
    assert!(!f.is_running() && f.is_cancelled());
}

fn with_keys<R>(n: usize, f: impl FnOnce(Vec<tokio_util::time::delay_queue::Key>) -> R) -> R {
    let rt = tokio::runtime::Builder::new_current_thread().enable_time().build().unwrap();
    rt.block_on(async move {
        let mut q: DelayQueue<usize> = DelayQueue::new();
        let keys = (0..n).map(|i| q.insert(i, Duration::from_secs(60))).collect();
        f(keys)
    })
}

#[test]
fn run_book_cancel_drops_next_resumption_only() {
    with_keys(2, |keys| {
        let mut b = RunBook::new();
        b.on_wait(1, keys[0]);
        b.on_wait(1, keys[1]);
        b.request_cancel(1);
        assert!(!b.on_wait_fired(1, keys[0]));
        assert!(b.on_wait_fired(1, keys[1]));
    });
}

#[test]
fn run_book_cancel_removes_waits_and_deferred() {
    with_keys(2, |keys| {
        let mut b = RunBook::new();
        b.on_wait(1, keys[0]);
        b.on_wait(2, keys[1]);
        b.on_deferred(1);
        let removed = b.on_cancel(1);
        assert_eq!(removed, vec![keys[0]]);
        assert!(b.on_cancel(1).is_empty());
        assert!(!b.on_deferred_ready(1));
        assert_eq!(b.on_cancel(2), vec![keys[1]]);
    });
}

#[test]
fn run_book_deferred_resumes_once() {
    let mut b = RunBook::new();
    assert!(!b.on_deferred_ready(3));
    b.on_deferred(3);
    assert!(b.on_deferred_ready(3));
    assert!(!b.on_deferred_ready(3));
    b.on_deferred(3);
    b.request_cancel(3);
    assert!(!b.on_deferred_ready(3));
    // the cancellation used up, the registration stays pending
    assert!(b.on_deferred_ready(3));
}

#[test]
fn run_book_fired_key_leaves_list() {
    with_keys(2, |keys| {
        let mut b = RunBook::new();
        b.on_wait(4, keys[0]);
        b.on_wait(4, keys[1]);
        assert!(b.on_wait_fired(4, keys[0]));
        assert_eq!(b.on_cancel(4), vec![keys[1]]);
    });
}

#[test]
fn run_book_clear_forgets_waits_and_cancellations() {
    with_keys(1, |keys| {
        let mut b = RunBook::new();
        b.on_wait(1, keys[0]);
        b.request_cancel(1);
        b.on_deferred(1);
        b.on_clear();
        assert!(b.on_cancel(1).is_empty());
        b.on_deferred(1);
        assert!(b.on_deferred_ready(1));
    });
}

#[test]
fn run_book_cancelled_fired_key_is_not_handed_back() {
    with_keys(2, |keys| {
        let mut b = RunBook::new();
        b.on_wait(5, keys[0]);
        b.on_wait(5, keys[1]);
        b.request_cancel(5);
        // the wait expires while the cancellation is pending: nothing resumes,
        // and the expired entry leaves the book
        assert!(!b.on_wait_fired(5, keys[0]));
        // the cancellation arrives: only the entry still queued is handed back
        assert_eq!(b.on_cancel(5), vec![keys[1]]);
    });
}

#[test]
fn run_book_cancel_after_all_fired_hands_back_nothing() {
    let rt = tokio::runtime::Builder::new_current_thread().enable_time().build().unwrap();
    rt.block_on(async {
        let mut q: DelayQueue<u64> = DelayQueue::new();
        let mut b = RunBook::new();
        let key = q.insert(7, Duration::from_millis(1));
        b.on_wait(7, key);
        b.request_cancel(7);
        let expired = futures_util::future::poll_fn(|cx| q.poll_expired(cx)).await.unwrap();
        assert!(!b.on_wait_fired(*expired.get_ref(), expired.key()));
        for k in b.on_cancel(7) {
            // would panic if the book handed back an expired entry
            q.remove(&k);
        }
    });
}

#[test]
fn tracker_metadata_lookup_skips_threads_without_handle() {
    let mut t: ThreadTracker<&'static str, u32> = ThreadTracker::new();
    t.set_metadata(8, "job".to_string());
    assert_eq!(t.get_thread_from_metadata("job"), None);
    t.add_thread("worker", 2, "root", 1);
    t.set_metadata(2, "job".to_string());
    assert_eq!(t.get_thread_from_metadata("job"), Some("worker"));
    assert_eq!(t.get_thread_from_metadata("other"), None);
}

#[test]
fn tracker_on_thread_add_keeps_other_handles() {
    let mut t: ThreadTracker<&'static str, u32> = ThreadTracker::new();
    t.add_thread("x", 10, "y", 11);
    t.on_thread_add("spawn", "root", 1, "a", 2);
    assert_eq!(t.get_initiator(10), Some("y"));
    assert_eq!(t.get_initiator(2), Some("root"));
    let mut r = t.get_related_threads(1);
    r.sort();
    assert_eq!(r, vec!["a"]);
}

#[test]
fn deferred_queue_order() {
    let mut q: DeferredQueue<u32> = DeferredQueue::new();
    q.push_back(1);
    q.push_back(2);
    q.push_front(0);
    assert_eq!(q.len(), 3);
    assert_eq!(q.pop_back(), Some(2));
    assert_eq!(q.pop_back(), Some(1));
    assert_eq!(q.pop_back(), Some(0));
    assert_eq!(q.pop_back(), None);
}

#[test]
fn run_flags_done_on_every_exit() {
    let mut f = RunFlags::new();
    assert!(f.is_done());
    assert_eq!(f.start(true), StartOutcome::Started);
    f.note_pending();
    assert!(!f.is_done());
    f.settle(false);
    assert!(!f.is_done());
    assert!(f.keep_going(true));
    assert!(!f.keep_going(false));
    assert!(!f.is_running() && f.is_done());
    assert_eq!(f.start(true), StartOutcome::Started);
    f.note_pending();
    f.finish();
    assert!(!f.is_running() && f.is_done());
    f.stop();
    assert!(!f.keep_going(true));
    assert!(f.is_done());
}
