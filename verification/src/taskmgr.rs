//! Pieces shared by every scheduler: the tracker that hands a thread's final
//! result to whoever waits for it, and the decisions taken when a thread is
//! to be resumed.
use vstd::prelude::*;
use vstd::string::StringExecFns;
use tokio::sync::oneshot::{Receiver, Sender};
use crate::cell::{MaybeSend, MaybeSync, XRefCell};
use crate::channel::{oneshot_channel, oneshot_send};
use crate::status::ThreadStatus;

verus! {

/// Hands the final result of a thread to the one task that waits for it.
///
/// `T` is the type of a thread's result.
#[verifier::reject_recursive_types(T)]
pub struct ReturnTracker<T> {
    return_tracker: XRefCell<Option<Sender<T>>>,
}

impl<T> View for ReturnTracker<T> {
    type V = bool;

    /// Whether a waiting task is registered.
    closed spec fn view(&self) -> bool {
        self.return_tracker@ is Some
    }
}

impl<T> ReturnTracker<T> {
    /// A tracker with no waiting task.
    pub fn new() -> (t: Self)
        ensures
            !t@,
    {
        ReturnTracker { return_tracker: XRefCell::new(None) }
    }

    /// Whether a waiting task is registered.
    pub fn is_tracking(&self) -> (b: bool)
        ensures
            b == self@,
    {
        self.return_tracker.borrow().is_some()
    }

    /// Offers a result of the thread whose status is `status`. When the thread
    /// has ended and a task waits, the result is sent to it and the tracker
    /// stops tracking; otherwise nothing happens.
    pub fn push_result(&mut self, status: ThreadStatus, result: T)
        ensures
            final(self)@ == (old(self)@ && !status.ended()),
    {
        if status.is_done() {
            let v = self.return_tracker.borrow_mut().take();
            match v {
                Some(tx) => {
                    let _ = oneshot_send(tx, result);
                },
                None => {},
            }
        }
    }

    /// Registers a new waiting task, replacing any earlier one; the thread's
    /// final result arrives on the returned receiver.
    pub fn track(&mut self) -> (rx: Receiver<T>)
        ensures
            final(self)@,
    {
        let (tx, rx) = oneshot_channel();
        let tracker = self.return_tracker.borrow_mut();
        *tracker = Some(tx);
        rx
    }

    /// Drops the waiting task, if any.
    pub fn stop_track(&mut self)
        ensures
            !final(self)@,
    {
        let tracker = self.return_tracker.borrow_mut();
        *tracker = None;
    }
}

/// Hooks that do nothing.
pub struct NoopHooks;

/// State that a scheduler attaches to a thread.
pub trait ExtState: MaybeSend + MaybeSync {}

impl<T: MaybeSend + MaybeSync> ExtState for T {}

/// A future that can be held by the scheduler.
pub trait MaybeSendSyncFut: std::future::Future + MaybeSend + MaybeSync {}

impl<T: std::future::Future + MaybeSend + MaybeSync> MaybeSendSyncFut for T {}

/// What to do with a thread that is to be resumed.
#[derive(Clone, Copy, Debug, PartialEq, Eq, Structural)]
pub enum ResumePlan {
    /// Leave it: the Lua state is gone or the thread has ended.
    Skip,
    /// Resume it, and hand its result to the return tracker when one waits.
    Resume { track_result: bool },
}

/// Decides how to resume a thread: never when the Lua state has been dropped
/// or the thread has ended; the result is kept only when a waiting task is
/// registered for the thread.
pub fn plan_resume(lua_alive: bool, status: ThreadStatus, tracking: bool) -> (p: ResumePlan)
    ensures
        p == (if !lua_alive || status.ended() {
            ResumePlan::Skip
        } else {
            ResumePlan::Resume { track_result: tracking }
        }),
{
    if !lua_alive {
        return ResumePlan::Skip;
    }
    if status.is_done() {
        return ResumePlan::Skip;
    }
    ResumePlan::Resume { track_result: tracking }
}

/// What a panicking async task left behind.
pub enum PanicPayload {
    /// A text payload (a `String` or a `&str`).
    Text(String),
    /// Any other payload.
    Opaque,
}

/// The text that a panicked payload shows: the text itself, or how an opaque
/// payload prints.
pub open spec fn payload_text(p: PanicPayload) -> Seq<char> {
    match p {
        PanicPayload::Text(s) => s@,
        PanicPayload::Opaque => "Any { .. }"@,
    }
}

/// The error with which a thread is resumed when its async task panicked.
pub fn panic_message(payload: &PanicPayload) -> (m: String)
    ensures
        m@ == "Error in async thread: "@ + payload_text(*payload),
{
    let mut m = String::from_str("Error in async thread: ");
    match payload {
        PanicPayload::Text(s) => m.append(s.as_str()),
        PanicPayload::Opaque => m.append("Any { .. }"),
    }
    m
}

/// The error with which resuming fails once the Lua state has been dropped.
pub fn lua_dropped_message() -> (m: String)
    ensures
        m@ == "Lua state has been dropped"@,
{
    String::from_str("Lua state has been dropped")
}

} // verus!
