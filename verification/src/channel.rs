//! The channel that carries an outcome from a worker to a handle.
//!
//! The channel is `std::sync::mpsc`. Verus does not look inside it: what a
//! receiver yields depends on what another thread has done by then. The
//! items here therefore promise nothing about what comes back. The callers
//! are verified for every answer.

use std::sync::mpsc::{Receiver, Sender, TryRecvError};
use vstd::prelude::*;

verus! {

/// `std::sync::mpsc::Sender`, the sending end. Nothing is known of a value
/// of this type.
#[verifier::external_type_specification]
#[verifier::external_body]
#[verifier::reject_recursive_types(M)]
pub struct ExSender<M>(Sender<M>);

/// `std::sync::mpsc::Receiver`, the receiving end. Nothing is known of a
/// value of this type.
#[verifier::external_type_specification]
#[verifier::external_body]
#[verifier::reject_recursive_types(M)]
pub struct ExReceiver<M>(Receiver<M>);

/// What `Receiver::try_recv` answers.
pub enum Attempt<M> {
    /// A message was waiting.
    Message(M),
    /// No message is waiting, and the sender is still there.
    Empty,
    /// No message is waiting, and the sender is gone.
    Disconnected,
}

/// `std::sync::mpsc::channel` makes the two ends of a new channel. Nothing
/// is claimed of them.
pub assume_specification<M>[ std::sync::mpsc::channel::<M> ]() -> (ends: (Sender<M>, Receiver<M>));

/// Calls `Sender::send` and drops the sender. The call fails where the
/// receiver is gone; the message is then lost, and nobody is told. It neither
/// blocks nor panics.
#[verifier::external_body]
pub(crate) fn send<M>(tx: Sender<M>, message: M) {
    let _ = tx.send(message);
}

/// Calls `Receiver::recv`, which blocks until a message is there or the
/// sender is gone. `None` stands for its error: the sender is gone and has
/// left no message. Nothing is claimed of the answer.
#[verifier::external_body]
pub(crate) fn recv<M>(rx: Receiver<M>) -> (message: Option<M>) {
    match rx.recv() {
        Ok(m) => Some(m),
        Err(_) => None,
    }
}

/// Calls `Receiver::try_recv`, which does not block, and hands on its answer
/// case by case. Nothing is claimed of the answer.
#[verifier::external_body]
pub(crate) fn try_recv<M>(rx: &Receiver<M>) -> (attempt: Attempt<M>) {
    match rx.try_recv() {
        Ok(m) => Attempt::Message(m),
        Err(TryRecvError::Empty) => Attempt::Empty,
        Err(TryRecvError::Disconnected) => Attempt::Disconnected,
    }
}

} // verus!
