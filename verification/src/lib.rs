//! Bookkeeping and decision logic of a Roblox-like task scheduler for Lua.
//!
//! The scheduler resumes Lua threads after `task.wait`, `task.delay`,
//! `task.defer` and scheduler-aware async functions. Everything that touches
//! the Lua state or the async runtime is driven from outside; this crate holds
//! the state that the scheduler keeps and the decisions that it takes, each
//! with a contract.
use vstd::prelude::*;

pub mod cell;
pub mod status;
pub mod channel;
pub mod feedbacks;
pub mod ext;
pub mod handles;
pub mod taskmgr;
pub mod taskmgr_v1;
pub mod taskmgr_v2;

pub use cell::{MaybeSend, MaybeSync, XRefCell};
pub use status::ThreadStatus;

verus! {

/// Whether the scheduler is built for multi-threaded (`Send`) use.
pub const IS_SEND: bool = false;

/// The shared pointer used for state that the scheduler shares.
pub type XRc<T> = std::rc::Rc<T>;

} // verus!
