//! Decisions of the scheduler wrapper that runs a thread and waits for its
//! final result.
use vstd::prelude::*;
use crate::status::ThreadStatus;

verus! {

/// What woke the waiting loop.
pub enum WaitEvent<R> {
    /// A result of the thread arrived.
    Received(R),
    /// The periodic tick fired; it carries the result found waiting in the
    /// channel, if any (looked up only while the Lua state is alive).
    Tick(Option<R>),
}

/// One step of waiting for a thread's final result.
///
/// `value` is the latest result seen so far; `status` and `channel_empty`
/// are read after the event. Returns the latest result and whether to stop
/// waiting: the loop stops when the Lua state is gone (keeping what it had),
/// or when the thread has ended and no further result is queued.
pub fn wait_step<R>(
    value: Option<R>,
    event: WaitEvent<R>,
    lua_alive: bool,
    status: ThreadStatus,
    channel_empty: bool,
) -> (r: (Option<R>, bool))
    ensures
        !lua_alive ==> r == (value, true),
        lua_alive ==> r.1 == (status.ended() && channel_empty),
        lua_alive ==> r.0 == match event {
            WaitEvent::Received(next) => Some(next),
            WaitEvent::Tick(Some(next)) => Some(next),
            WaitEvent::Tick(None) => value,
        },
{
    if !lua_alive {
        return (value, true);
    }
    let latest = match event {
        WaitEvent::Received(next) => Some(next),
        WaitEvent::Tick(Some(next)) => Some(next),
        WaitEvent::Tick(None) => value,
    };
    let stop = status.is_done() && channel_empty;
    (latest, stop)
}

} // verus!
