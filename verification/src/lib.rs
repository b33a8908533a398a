//! Promises: handles on work done elsewhere.
//!
//! A [`Promise`] stands for an outcome, `Ok` or `Err`, that is delivered
//! once. A handle either holds its outcome from the start, or is bound to the
//! receiving end of a channel whose sending end, the [`Resolver`], a worker
//! holds. A worker that ends without delivering leaves the handle dead:
//! reading it yields no outcome at all, neither a value nor an error.
//!
//! This crate holds the rules: what a chained continuation is called with,
//! which member wins a race, how the values of a gathering are ordered. It
//! starts no work of its own. A caller runs the workers of [`internal`] and the
//! sweeps of [`race`] and [`all`] wherever it wants them to run.

use std::sync::mpsc::{Receiver, Sender};
use vstd::prelude::*;

pub mod all;
mod channel;
pub mod internal;
pub mod race;

verus! {

/// Where a handle's outcome comes from.
#[verifier::reject_recursive_types(T)]
#[verifier::reject_recursive_types(E)]
enum Source<T, E> {
    /// The outcome is on hand.
    Settled(Result<T, E>),
    /// The outcome arrives, if ever, on this channel.
    Edge(Receiver<Result<T, E>>),
}

/// A handle on an outcome that is delivered once.
///
/// Every way of reading a handle takes it by value, so no outcome is read
/// twice.
#[verifier::reject_recursive_types(T)]
#[verifier::reject_recursive_types(E)]
pub struct Promise<T, E> {
    source: Source<T, E>,
}

/// The right to settle one handle, once.
///
/// Settling takes the resolver by value, and a resolver cannot be copied: a
/// second outcome for the same handle cannot be written. Dropping the
/// resolver unused leaves the handle dead.
#[verifier::reject_recursive_types(T)]
#[verifier::reject_recursive_types(E)]
pub struct Resolver<T, E> {
    sender: Sender<Result<T, E>>,
}

impl<T, E> Resolver<T, E> {
    /// Delivers `outcome` to the handle. Where the handle was dropped, the
    /// outcome is dropped with it.
    pub fn settle(self, outcome: Result<T, E>) {
        channel::send(self.sender, outcome);
    }
}

/// What one look at a handle finds.
#[verifier::reject_recursive_types(T)]
#[verifier::reject_recursive_types(E)]
pub enum Poll<T, E> {
    /// The outcome was there, and is now taken.
    Settled(Result<T, E>),
    /// Nothing yet; the handle comes back for a later look.
    Pending(Promise<T, E>),
    /// The worker ended without an outcome. None will ever come.
    Dead,
}

/// Whether `seen` is a possible finding of one look at `handle`.
///
/// A handle that holds its outcome yields exactly that. Of a handle bound to
/// a channel every finding is possible, but a pending one hands back the same
/// handle.
pub open spec fn sights<T, E>(handle: Promise<T, E>, seen: Poll<T, E>) -> bool {
    match handle.outcome() {
        Some(o) => seen == Poll::Settled(o),
        None => seen matches Poll::Pending(rest) ==> rest == handle,
    }
}

impl<T, E> Promise<T, E> {
    /// The outcome that the handle holds on its own, without a worker.
    pub closed spec fn outcome(&self) -> Option<Result<T, E>> {
        match self.source {
            Source::Settled(o) => Some(o),
            Source::Edge(_) => None,
        }
    }

    /// A handle settled with `Ok(val)`.
    pub fn resolve(val: T) -> (p: Promise<T, E>)
        ensures
            p.outcome() == Some(Ok::<T, E>(val)),
    {
        Promise::from_result(Ok(val))
    }

    /// A handle settled with `Err(val)`.
    pub fn reject(val: E) -> (p: Promise<T, E>)
        ensures
            p.outcome() == Some(Err::<T, E>(val)),
    {
        Promise::from_result(Err(val))
    }

    /// A handle settled with `result`.
    pub fn from_result(result: Result<T, E>) -> (p: Promise<T, E>)
        ensures
            p.outcome() == Some(result),
    {
        Promise { source: Source::Settled(result) }
    }

    /// A handle that holds no outcome yet, and the resolver that settles it.
    pub fn pending() -> (edge: (Resolver<T, E>, Promise<T, E>))
        ensures
            edge.1.outcome() is None,
    {
        let (sender, receiver) = std::sync::mpsc::channel();
        (Resolver { sender }, Promise { source: Source::Edge(receiver) })
    }

    /// Reads the handle, blocking until it is settled or dead. `None` is the
    /// dead state.
    pub fn wait(self) -> (read: Option<Result<T, E>>)
        ensures
            self.outcome() is Some ==> read == self.outcome(),
    {
        match self.source {
            Source::Settled(o) => Some(o),
            Source::Edge(rx) => channel::recv(rx),
        }
    }

    /// Looks at the handle once, without blocking.
    pub fn poll(self) -> (seen: Poll<T, E>)
        ensures
            sights(self, seen),
    {
        match self.source {
            Source::Settled(o) => Poll::Settled(o),
            Source::Edge(rx) => match channel::try_recv(&rx) {
                channel::Attempt::Message(o) => Poll::Settled(o),
                channel::Attempt::Empty => Poll::Pending(Promise { source: Source::Edge(rx) }),
                channel::Attempt::Disconnected => Poll::Dead,
            },
        }
    }
}

} // verus!
