//! What the two chainers share: how a nested computation begins and ends, and
//! the histories of a chainer, which are the answers that its two
//! collaborators gave it, in the order in which it took them.

use futures::Async;
use futures::Poll;
use vstd::prelude::*;

verus! {

/// Whether the computation in flight stays in flight after it answered
/// `nested`: it does when it was not ready.
pub open spec fn stays_in_flight<T, E>(nested: Poll<T, E>) -> bool {
    nested == Ok::<Async<T>, E>(Async::NotReady)
}

/// `fut` is a nested computation that `f` and then `into_future` can make of
/// the payload `x`.
pub open spec fn begun<X, U, Fut, F: FnMut(X) -> U, C: FnOnce(U) -> Fut>(
    f: F,
    into_future: C,
    x: X,
    fut: Fut,
) -> bool {
    exists|u: U| call_ensures(f, (x,), u) && call_ensures(into_future, (u,), fut)
}

/// One answer that a collaborator gave to a chainer.
#[verifier::reject_recursive_types(I)]
#[verifier::reject_recursive_types(T)]
pub enum Report<I, T, E> {
    /// What the upstream sequence answered to a poll.
    Upstream(Poll<Option<I>, E>),
    /// What the nested computation in flight answered to a poll.
    Nested(Poll<T, E>),
}

/// The elements that the upstream sequence yielded in `h`, in order.
pub open spec fn pulled<I, T, E>(h: Seq<Report<I, T, E>>) -> Seq<I>
    decreases h.len(),
{
    if h.len() == 0 {
        Seq::empty()
    } else {
        match h.last() {
            Report::Upstream(Ok(Async::Ready(Some(item)))) => pulled(h.drop_last()).push(item),
            _ => pulled(h.drop_last()),
        }
    }
}

/// The values that nested computations resolved to in `h`, in order.
pub open spec fn resolved<I, T, E>(h: Seq<Report<I, T, E>>) -> Seq<T>
    decreases h.len(),
{
    if h.len() == 0 {
        Seq::empty()
    } else {
        match h.last() {
            Report::Nested(Ok(Async::Ready(v))) => resolved(h.drop_last()).push(v),
            _ => resolved(h.drop_last()),
        }
    }
}

/// The number of nested computations that came to their end in `h`, with a
/// value or with an error.
pub open spec fn settled<I, T, E>(h: Seq<Report<I, T, E>>) -> nat
    decreases h.len(),
{
    if h.len() == 0 {
        0
    } else {
        match h.last() {
            Report::Nested(Ok(Async::Ready(_))) | Report::Nested(Err(_)) => settled(
                h.drop_last(),
            ) + 1,
            _ => settled(h.drop_last()),
        }
    }
}

/// No nested computation failed in `h`.
pub open spec fn no_nested_failure<I, T, E>(h: Seq<Report<I, T, E>>) -> bool {
    forall|i: int| 0 <= i < h.len() ==> !(#[trigger] h[i] matches Report::Nested(Err(_)))
}

} // verus!
