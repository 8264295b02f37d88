//! The channels through which results reach the tasks that wait for them.
//!
//! Both kinds come from `tokio::sync`; this module declares their types and
//! wraps the calls that the scheduler makes.
use vstd::prelude::*;
use tokio::sync::mpsc::{UnboundedReceiver, UnboundedSender};
use tokio::sync::oneshot::{Receiver, Sender};

verus! {

#[verifier::external_type_specification]
#[verifier::external_body]
#[verifier::reject_recursive_types(T)]
pub struct ExOneshotSender<T>(Sender<T>);

#[verifier::external_type_specification]
#[verifier::external_body]
#[verifier::reject_recursive_types(T)]
pub struct ExOneshotReceiver<T>(Receiver<T>);

#[verifier::external_type_specification]
#[verifier::external_body]
pub struct ExOneshotRecvError(tokio::sync::oneshot::error::RecvError);

#[verifier::external_type_specification]
#[verifier::external_body]
#[verifier::reject_recursive_types(T)]
pub struct ExUnboundedSender<T>(UnboundedSender<T>);

#[verifier::external_type_specification]
#[verifier::external_body]
#[verifier::reject_recursive_types(T)]
pub struct ExUnboundedReceiver<T>(UnboundedReceiver<T>);

/// Calls `tokio::sync::oneshot::channel`, which makes a fresh single-value
/// channel. Nothing is stated of the pair: which receiver belongs to which
/// sender is not modelled.
#[verifier::external_body]
pub(crate) fn oneshot_channel<T>() -> (Sender<T>, Receiver<T>) {
    tokio::sync::oneshot::channel()
}

/// Calls `tokio::sync::oneshot::Sender::send`, which consumes the sender. Per
/// its source, a failed send (the receiver is gone) hands the value back
/// unchanged in `Err`; whether the send succeeds depends on the receiving side
/// and is not stated.
#[verifier::external_body]
pub(crate) fn oneshot_send<T>(tx: Sender<T>, value: T) -> (r: Result<(), T>)
    ensures
        r matches Err(v) ==> v == value,
{
    tx.send(value)
}

/// Calls `tokio::sync::mpsc::unbounded_channel`, which makes a fresh
/// unbounded channel. Nothing is stated of the pair.
#[verifier::external_body]
pub(crate) fn unbounded_channel<T>() -> (UnboundedSender<T>, UnboundedReceiver<T>) {
    tokio::sync::mpsc::unbounded_channel()
}

/// Calls `tokio::sync::mpsc::UnboundedSender::send`. Per its source, a failed
/// send (the receiver is closed) hands the message back unchanged inside the
/// `SendError`; whether the send succeeds depends on the receiving side and is
/// not stated.
#[verifier::external_body]
pub(crate) fn unbounded_send<T>(tx: &UnboundedSender<T>, message: T) -> (r: Result<(), T>)
    ensures
        r matches Err(m) ==> m == message,
{
    tx.send(message).map_err(|e| e.0)
}

} // verus!
