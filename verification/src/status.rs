//! The life-cycle states of a Lua thread, as the scheduler reads them.
use vstd::prelude::*;

verus! {

/// Status of a Lua thread (coroutine).
#[derive(Clone, Copy, Debug, PartialEq, Eq, Structural)]
pub enum ThreadStatus {
    /// Just created or suspended; it can be resumed.
    Resumable,
    /// Currently running.
    Running,
    /// Returned normally.
    Finished,
    /// Stopped on a Lua error.
    Error,
}

impl ThreadStatus {
    /// A thread has ended when it finished or stopped on an error; an ended
    /// thread is never resumed again.
    pub open spec fn ended(self) -> bool {
        self is Finished || self is Error
    }

    /// Whether the thread has ended (finished or errored).
    pub fn is_done(&self) -> (b: bool)
        ensures
            b == self.ended(),
    {
        match self {
            ThreadStatus::Finished | ThreadStatus::Error => true,
            _ => false,
        }
    }
}

} // verus!
