//! The bodies of the workers. Each takes all it needs by value, so a caller
//! can run it on a thread of its own.

use crate::{Promise, Resolver};
use vstd::prelude::*;

verus! {

/// What a chained handle settles with, given what was read upstream: the
/// callback's result on a success, the errback's on a failure, and nothing on
/// a dead upstream, in which case neither is called.
pub fn chain<T, E, T2, E2, F1, F2>(
    read: Option<Result<T, E>>,
    callback: F1,
    errback: F2,
) -> (out: Option<Result<T2, E2>>)
    where
        F1: FnOnce(T) -> Result<T2, E2>,
        F2: FnOnce(E) -> Result<T2, E2>,
    requires
        forall|v: T| read == Some(Ok::<T, E>(v)) ==> callback.requires((v,)),
        forall|e: E| read == Some(Err::<T, E>(e)) ==> errback.requires((e,)),
    ensures
        match read {
            Some(Ok(v)) => out matches Some(o) && callback.ensures((v,), o),
            Some(Err(e)) => out matches Some(o) && errback.ensures((e,), o),
            None => out is None,
        },
{
    match read {
        Some(Ok(v)) => Some(callback(v)),
        Some(Err(e)) => Some(errback(e)),
        None => None,
    }
}

/// As [`chain`], with one callback for both kinds of outcome.
pub fn chain_result<T, E, T2, E2, F>(read: Option<Result<T, E>>, callback: F) -> (out: Option<
    Result<T2, E2>,
>)
    where
        F: FnOnce(Result<T, E>) -> Result<T2, E2>,
    requires
        forall|r: Result<T, E>| read == Some(r) ==> callback.requires((r,)),
    ensures
        match read {
            Some(r) => out matches Some(o) && callback.ensures((r,), o),
            None => out is None,
        },
{
    match read {
        Some(r) => Some(callback(r)),
        None => None,
    }
}

/// Runs the producer and delivers its outcome.
pub fn new<T, E, F>(resolver: Resolver<T, E>, func: F)
    where
        F: FnOnce() -> Result<T, E>,
    requires
        func.requires(()),
{
    let result = func();
    resolver.settle(result);
}

/// Waits for `upstream`, then delivers what [`chain`] gives. On a dead
/// upstream nothing is delivered, and the resolver is dropped.
pub fn then<T, E, T2, E2, F1, F2>(
    resolver: Resolver<T2, E2>,
    upstream: Promise<T, E>,
    callback: F1,
    errback: F2,
)
    where
        F1: FnOnce(T) -> Result<T2, E2>,
        F2: FnOnce(E) -> Result<T2, E2>,
    requires
        forall|v: T|
            upstream.outcome() is None || upstream.outcome() == Some(Ok::<T, E>(v))
                ==> callback.requires((v,)),
        forall|e: E|
            upstream.outcome() is None || upstream.outcome() == Some(Err::<T, E>(e))
                ==> errback.requires((e,)),
{
    let read = upstream.wait();
    match chain(read, callback, errback) {
        Some(o) => resolver.settle(o),
        None => {},
    }
}

/// Waits for `upstream`, then delivers what [`chain_result`] gives.
pub fn then_result<T, E, T2, E2, F>(
    upstream: Promise<T, E>,
    resolver: Resolver<T2, E2>,
    callback: F,
)
    where
        F: FnOnce(Result<T, E>) -> Result<T2, E2>,
    requires
        forall|r: Result<T, E>|
            upstream.outcome() is None || upstream.outcome() == Some(r) ==> callback.requires(
                (r,),
            ),
{
    let read = upstream.wait();
    match chain_result(read, callback) {
        Some(o) => resolver.settle(o),
        None => {},
    }
}

} // verus!
