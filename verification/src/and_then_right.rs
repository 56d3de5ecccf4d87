//! The right chainer: runs a nested computation for every right-tagged element of
//! the upstream sequence and passes left-tagged elements through.
//!
//! The chainer is a machine with two states. While *idle* it wants the next
//! answer of the upstream sequence; while *chaining* it holds one nested
//! computation in flight and wants the next answer of that computation.
//! [`AndThenRight::on_upstream`] and [`AndThenRight::on_nested`] are the two
//! transitions: each takes the answer of a collaborator and says what the
//! chainer answers. [`AndThenRight::poll`] is one whole poll: it is handed the
//! functions that poll the collaborators, and calls the one that the state
//! asks for.
//!
//! A *history* is the sequence of the answers that a chainer took, oldest
//! first. The second half of this module says what a chainer emits over a
//! history, and proves the laws of the chainer for every history.

use crate::history::begun;
use crate::history::no_nested_failure;
use crate::history::pulled;
use crate::history::resolved;
use crate::history::settled;
use crate::history::stays_in_flight;
use crate::history::Report;
use crate::polling::can_answer;
use crate::polling::gather;
use crate::polling::lemma_gather_pending;
use crate::polling::lemma_gather_stopped;
use crate::polling::lemma_yielded_push;
use crate::polling::pollable;
use crate::polling::yielded;
use crate::polling::Gathered;
use crate::tagged::lefts;
use crate::tagged::lemma_sides_push;
use crate::tagged::right_rewritten;
use crate::tagged::rights;
use futures::future::Either;
use futures::Async;
use futures::Poll;
use vstd::prelude::*;

verus! {

/// A stream combinator which chains a computation onto values produced by the
/// right variant of a stream.
///
/// `S` is the upstream sequence, `F` the function that is applied to a right
/// payload, and `Fut` the nested computation that is made of what `F` returns.
#[derive(Debug)]
#[must_use]
pub struct AndThenRight<S, F, Fut> {
    stream: S,
    future: Option<Fut>,
    f: F,
}

/// Makes a right chainer that owns the upstream sequence `s` and the function
/// `f`, with no nested computation in flight.
pub fn new<S, F, R, U, Fut>(s: S, f: F) -> (chainer: AndThenRight<S, F, Fut>) where F: FnMut(R) -> U
    ensures
        chainer.upstream() == s,
        chainer.transform() == f,
        chainer.in_flight() is None,
{
    AndThenRight { stream: s, future: None, f }
}

/// What an idle right chainer answers to `upstream`, or `None` where `upstream`
/// is a right-tagged element: then the chainer answers nothing yet and begins a
/// nested computation.
pub open spec fn idle_step<L, R, T, E>(upstream: Poll<Option<Either<L, R>>, E>) -> Option<
    Poll<Option<Either<L, T>>, E>,
> {
    match upstream {
        Ok(Async::Ready(Some(Either::B(_)))) => None,
        Ok(Async::Ready(Some(Either::A(y)))) => Some(Ok(Async::Ready(Some(Either::A(y))))),
        Ok(Async::Ready(None)) => Some(Ok(Async::Ready(None))),
        Ok(Async::NotReady) => Some(Ok(Async::NotReady)),
        Err(e) => Some(Err(e)),
    }
}

/// What a chaining right chainer answers to `nested`, the answer of the
/// computation in flight.
pub open spec fn chaining_step<L, T, E>(nested: Poll<T, E>) -> Poll<Option<Either<L, T>>, E> {
    match nested {
        Ok(Async::Ready(v)) => Ok(Async::Ready(Some(Either::B(v)))),
        Ok(Async::NotReady) => Ok(Async::NotReady),
        Err(e) => Err(e),
    }
}

impl<S, F, Fut> AndThenRight<S, F, Fut> {
    /// The upstream sequence that the chainer owns.
    pub closed spec fn upstream(&self) -> S {
        self.stream
    }

    /// The function that is applied to a right payload.
    pub closed spec fn transform(&self) -> F {
        self.f
    }

    /// The nested computation in flight, if there is one.
    pub closed spec fn in_flight(&self) -> Option<Fut> {
        self.future
    }

    /// Acquires a reference to the underlying stream that this combinator is
    /// pulling from.
    pub fn get_ref(&self) -> (stream: &S)
        ensures
            *stream == self.upstream(),
    {
        &self.stream
    }

    /// Acquires a mutable reference to the underlying stream that this
    /// combinator is pulling from.
    ///
    /// Note that care must be taken to avoid tampering with the state of the
    /// stream which may otherwise confuse this combinator.
    pub fn get_mut(&mut self) -> (stream: &mut S)
        ensures
            *stream == old(self).upstream(),
            final(self).upstream() == *final(stream),
            final(self).transform() == old(self).transform(),
            final(self).in_flight() == old(self).in_flight(),
    {
        &mut self.stream
    }

    /// Consumes this combinator, returning the underlying stream.
    ///
    /// Note that this may discard intermediate state of this combinator, so
    /// care should be taken to avoid losing resources when this is called.
    pub fn into_inner(self) -> (stream: S)
        ensures
            stream == self.upstream(),
    {
        self.stream
    }

    /// Whether a nested computation is in flight. The chainer then wants that
    /// computation polled, and else the upstream sequence.
    pub fn is_chaining(&self) -> (chaining: bool)
        ensures
            chaining == (self.in_flight() is Some),
    {
        self.future.is_some()
    }

    /// Lends the nested computation in flight, if there is one, to be polled.
    pub fn in_flight_mut(&mut self) -> (slot: Option<&mut Fut>)
        ensures
            final(self).upstream() == old(self).upstream(),
            final(self).transform() == old(self).transform(),
            match slot {
                Some(fut) => old(self).in_flight() == Some(*fut) && final(self).in_flight()
                    == Some(*final(fut)),
                None => old(self).in_flight() is None && final(self).in_flight() is None,
            },
    {
        self.future.as_mut()
    }

    /// Polls the chainer once.
    ///
    /// While idle the chainer polls the upstream sequence, with
    /// `poll_upstream`, and takes the answer as [`Self::on_upstream`] does. If
    /// that begins a nested computation, or if one was in flight already, it
    /// polls that computation, with `poll_nested`, and takes the answer as
    /// [`Self::on_nested`] does. While a nested computation is in flight the
    /// upstream sequence is not polled and stays as it is.
    pub fn poll<L, R, U, T, E, PU, C, PN>(
        &mut self,
        poll_upstream: PU,
        into_future: C,
        poll_nested: PN,
    ) -> (out: Poll<Option<Either<L, T>>, E>) where
        F: FnMut(R) -> U,
        PU: FnOnce(&mut S) -> Poll<Option<Either<L, R>>, E>,
        C: FnOnce(U) -> Fut,
        PN: FnOnce(&mut Fut) -> Poll<T, E>,

        requires
            match old(self).in_flight() {
                Some(fut) => pollable(poll_nested, fut),
                None => {
                    &&& pollable(poll_upstream, old(self).upstream())
                    &&& forall|x: R| #[trigger]
                        can_answer(
                            poll_upstream,
                            old(self).upstream(),
                            Ok::<_, E>(Async::Ready(Some(Either::<L, R>::B(x)))),
                        ) ==> {
                            &&& call_requires(old(self).transform(), (x,))
                            &&& forall|u: U|
                                call_ensures(old(self).transform(), (x,), u) ==> call_requires(
                                    into_future,
                                    (u,),
                                )
                            &&& forall|fut: Fut| #[trigger]
                                begun(old(self).transform(), into_future, x, fut) ==> pollable(
                                    poll_nested,
                                    fut,
                                )
                        }
                },
            },
        ensures
            final(self).transform() == old(self).transform(),
            match old(self).in_flight() {
                // Chaining: only the computation in flight is polled.
                Some(_) => {
                    &&& final(self).upstream() == old(self).upstream()
                    &&& exists|fut: &mut Fut, nested: Poll<T, E>|
                        {
                            &&& old(self).in_flight() == Some(*fut)
                            &&& #[trigger] call_ensures(poll_nested, (fut,), nested)
                            &&& out == chaining_step::<L, T, E>(nested)
                            &&& final(self).in_flight() == if stays_in_flight(nested) {
                                Some(*final(fut))
                            } else {
                                None
                            }
                        }
                },
                // Idle: the upstream sequence is polled, and a computation
                // that its answer begins is polled at once.
                None => exists|s: &mut S, upstream: Poll<Option<Either<L, R>>, E>|
                    {
                        &&& *s == old(self).upstream()
                        &&& *final(s) == final(self).upstream()
                        &&& #[trigger] call_ensures(poll_upstream, (s,), upstream)
                        &&& match upstream {
                            Ok(Async::Ready(Some(Either::B(x)))) => exists|
                                fut: &mut Fut,
                                nested: Poll<T, E>,
                            |
                                {
                                    &&& begun(old(self).transform(), into_future, x, *fut)
                                    &&& #[trigger] call_ensures(poll_nested, (fut,), nested)
                                    &&& out == chaining_step::<L, T, E>(nested)
                                    &&& final(self).in_flight() == if stays_in_flight(nested) {
                                        Some(*final(fut))
                                    } else {
                                        None
                                    }
                                },
                            _ => {
                                &&& Some(out) == idle_step::<L, R, T, E>(upstream)
                                &&& final(self).in_flight() is None
                            },
                        }
                    },
            },
    {
        if self.future.is_none() {
            let upstream = poll_upstream(&mut self.stream);
            assert(can_answer(poll_upstream, old(self).upstream(), upstream));
            match self.on_upstream(upstream, into_future) {
                Some(answer) => {
                    return answer;
                },
                None => {},
            }
        }
        let nested = match self.future.as_mut() {
            Some(fut) => poll_nested(fut),
            None => vstd::pervasive::unreached(),
        };
        self.on_nested(nested)
    }

    /// Takes what the upstream sequence answered to a poll made while the
    /// chainer was idle.
    ///
    /// A left-tagged element, the end, "not ready" and an error are answered
    /// at once and unchanged, and the chainer stays idle. For a right-tagged
    /// element the result is `None`: the chainer has made a nested computation
    /// of its payload, holds it in flight, and wants it polled next.
    pub fn on_upstream<L, R, U, T, E, C>(
        &mut self,
        upstream: Poll<Option<Either<L, R>>, E>,
        into_future: C,
    ) -> (out: Option<Poll<Option<Either<L, T>>, E>>) where F: FnMut(R) -> U, C: FnOnce(U) -> Fut
        requires
            old(self).in_flight() is None,
            upstream matches Ok(Async::Ready(Some(Either::B(x)))) ==> {
                &&& call_requires(old(self).transform(), (x,))
                &&& forall|u: U|
                    call_ensures(old(self).transform(), (x,), u) ==> call_requires(
                        into_future,
                        (u,),
                    )
            },
        ensures
            out == idle_step::<L, R, T, E>(upstream),
            final(self).upstream() == old(self).upstream(),
            final(self).transform() == old(self).transform(),
            match upstream {
                Ok(Async::Ready(Some(Either::B(x)))) => {
                    &&& final(self).in_flight() matches Some(fut)
                    &&& begun(old(self).transform(), into_future, x, fut)
                },
                _ => final(self).in_flight() is None,
            },
    {
        match upstream {
            Ok(Async::Ready(Some(Either::B(x)))) => {
                let nested = (self.f)(x);
                self.future = Some(into_future(nested));
                None
            },
            Ok(Async::Ready(Some(Either::A(y)))) => Some(Ok(Async::Ready(Some(Either::A(y))))),
            Ok(Async::Ready(None)) => Some(Ok(Async::Ready(None))),
            Ok(Async::NotReady) => Some(Ok(Async::NotReady)),
            Err(e) => Some(Err(e)),
        }
    }

    /// Takes what the nested computation in flight answered to a poll.
    ///
    /// "Not ready" is passed on and the computation stays in flight. A value is
    /// answered as a right-tagged element and an error as that error; either
    /// way the slot is cleared and the chainer is idle again.
    pub fn on_nested<L, T, E>(&mut self, nested: Poll<T, E>) -> (out: Poll<
        Option<Either<L, T>>,
        E,
    >)
        requires
            old(self).in_flight() is Some,
        ensures
            out == chaining_step::<L, T, E>(nested),
            final(self).upstream() == old(self).upstream(),
            final(self).transform() == old(self).transform(),
            final(self).in_flight() == if stays_in_flight(nested) {
                old(self).in_flight()
            } else {
                None
            },
    {
        match nested {
            Ok(Async::NotReady) => Ok(Async::NotReady),
            Err(e) => {
                self.future = None;
                Err(e)
            },
            Ok(Async::Ready(v)) => {
                self.future = None;
                Ok(Async::Ready(Some(Either::B(v))))
            },
        }
    }
}

/// Whether a right chainer that took the reports `h` holds a nested computation
/// in flight: it does when the last report was a right-tagged element from
/// upstream, or "not ready" from the computation in flight.
pub open spec fn in_flight_after<L, R, T, E>(h: Seq<Report<Either<L, R>, T, E>>) -> bool {
    h.len() > 0 && match h.last() {
        Report::Upstream(upstream) => idle_step::<L, R, T, E>(upstream) is None,
        Report::Nested(nested) => stays_in_flight(nested),
    }
}

/// Every report of `h` is one that the chainer asked for: an answer of the
/// upstream sequence while it was idle, an answer of the nested computation
/// while one was in flight. These are the histories that the `requires` of
/// [`AndThenRight::on_upstream`] and [`AndThenRight::on_nested`] admit, and the
/// only ones that [`AndThenRight::poll`] makes.
pub open spec fn coherent<L, R, T, E>(h: Seq<Report<Either<L, R>, T, E>>) -> bool
    decreases h.len(),
{
    h.len() > 0 ==> {
        &&& coherent(h.drop_last())
        &&& h.last() is Nested <==> in_flight_after(h.drop_last())
    }
}

/// The answers that a right chainer gave while it took the reports `h`, in
/// order. A right-tagged element from upstream is answered only when its nested
/// computation reports.
pub open spec fn outputs<L, R, T, E>(h: Seq<Report<Either<L, R>, T, E>>) -> Seq<
    Poll<Option<Either<L, T>>, E>,
>
    decreases h.len(),
{
    if h.len() == 0 {
        Seq::empty()
    } else {
        match h.last() {
            Report::Upstream(upstream) => match idle_step::<L, R, T, E>(upstream) {
                Some(answer) => outputs(h.drop_last()).push(answer),
                None => outputs(h.drop_last()),
            },
            Report::Nested(nested) => outputs(h.drop_last()).push(chaining_step(nested)),
        }
    }
}

/// The elements that a right chainer emitted while it took the reports `h`.
pub open spec fn emitted<L, R, T, E>(h: Seq<Report<Either<L, R>, T, E>>) -> Seq<Either<L, T>> {
    yielded(outputs(h))
}

/// The elements pulled in `h` that are not waiting for a nested computation:
/// all of them, but for the last one while a computation is in flight.
pub open spec fn served<L, R, T, E>(h: Seq<Report<Either<L, R>, T, E>>) -> Seq<Either<L, R>> {
    if in_flight_after(h) {
        pulled(h).drop_last()
    } else {
        pulled(h)
    }
}

/// The number of nested computations that a right chainer began in `h`: one
/// for each right-tagged element that it pulled.
pub open spec fn begun_count<L, R, T, E>(h: Seq<Report<Either<L, R>, T, E>>) -> nat {
    rights(pulled(h)).len()
}

proof fn lemma_emitted_sides<L, R, T, E>(h: Seq<Report<Either<L, R>, T, E>>)
    ensures
        rights(emitted(h)) == resolved(h),
        lefts(emitted(h)) == lefts(pulled(h)),
    decreases h.len(),
{
    if h.len() > 0 {
        let before = h.drop_last();
        lemma_emitted_sides(before);
        match h.last() {
            Report::Upstream(upstream) => {
                if let Some(answer) = idle_step::<L, R, T, E>(upstream) {
                    lemma_yielded_push(outputs(before), answer);
                }
                if let Ok(Async::Ready(Some(item))) = upstream {
                    lemma_sides_push(pulled(before), item);
                    if let Either::A(y) = item {
                        lemma_sides_push(emitted(before), Either::<L, T>::A(y));
                    }
                }
            },
            Report::Nested(nested) => {
                lemma_yielded_push(outputs(before), chaining_step::<L, T, E>(nested));
                if let Ok(Async::Ready(v)) = nested {
                    lemma_sides_push(emitted(before), Either::<L, T>::B(v));
                }
            },
        }
    }
}

proof fn lemma_history<L, R, T, E>(h: Seq<Report<Either<L, R>, T, E>>)
    requires
        coherent(h),
        no_nested_failure(h),
    ensures
        in_flight_after(h) ==> pulled(h).len() > 0 && pulled(h).last() is B,
        right_rewritten(served(h), emitted(h)),
    decreases h.len(),
{
    if h.len() > 0 {
        let before = h.drop_last();
        lemma_history(before);
        match h.last() {
            Report::Upstream(upstream) => {
                if let Some(answer) = idle_step::<L, R, T, E>(upstream) {
                    lemma_yielded_push(outputs(before), answer);
                }
            },
            Report::Nested(nested) => {
                lemma_yielded_push(outputs(before), chaining_step::<L, T, E>(nested));
                assert(pulled(before).drop_last().push(pulled(before).last()) =~= pulled(before));
            },
        }
    }
}

proof fn lemma_coherent_prefix<L, R, T, E>(h: Seq<Report<Either<L, R>, T, E>>, k: int)
    requires
        coherent(h),
        0 <= k <= h.len(),
    ensures
        coherent(h.take(k)),
    decreases h.len(),
{
    if k == h.len() {
        assert(h.take(k) =~= h);
    } else {
        lemma_coherent_prefix(h.drop_last(), k);
        assert(h.drop_last().take(k) =~= h.take(k));
    }
}

proof fn lemma_flights<L, R, T, E>(h: Seq<Report<Either<L, R>, T, E>>)
    requires
        coherent(h),
    ensures
        begun_count(h) == settled(h) + if in_flight_after(h) {
            1nat
        } else {
            0nat
        },
    decreases h.len(),
{
    if h.len() > 0 {
        lemma_flights(h.drop_last());
        if let Report::Upstream(Ok(Async::Ready(Some(item)))) = h.last() {
            lemma_sides_push(pulled(h.drop_last()), item);
        }
    }
}

proof fn lemma_outputs_add<L, R, T, E>(
    h: Seq<Report<Either<L, R>, T, E>>,
    later: Seq<Report<Either<L, R>, T, E>>,
)
    ensures
        outputs(h + later) == outputs(h) + outputs(later),
    decreases later.len(),
{
    if later.len() > 0 {
        lemma_outputs_add(h, later.drop_last());
        assert((h + later).drop_last() =~= h + later.drop_last());
    }
}

/// Order preservation. Take any history that the chainer admits and in which
/// no nested computation failed. The elements emitted are then the elements
/// pulled, but for one that still waits for its nested computation: as many,
/// with the same tags in the same order, every left-tagged one unchanged; and
/// the right payloads emitted are, in order, the values that the nested
/// computations resolved to.
pub proof fn law_order_preserved<L, R, T, E>(h: Seq<Report<Either<L, R>, T, E>>)
    requires
        coherent(h),
        no_nested_failure(h),
    ensures
        right_rewritten(served(h), emitted(h)),
        rights(emitted(h)) == resolved(h),
        in_flight_after(h) ==> pulled(h).len() > 0 && pulled(h).last() is B,
{
    lemma_history(h);
    lemma_emitted_sides(h);
}

/// Side independence. Whatever the collaborators report, the left payloads
/// emitted are the left payloads pulled, in the same order: the chainer
/// alters none, drops none and adds none.
pub proof fn law_left_side_untouched<L, R, T, E>(h: Seq<Report<Either<L, R>, T, E>>)
    ensures
        lefts(emitted(h)) == lefts(pulled(h)),
{
    lemma_emitted_sides(h);
}

/// At most one in flight. At every point `k` of a history that the chainer
/// admits, the nested computations begun so far have all come to their end,
/// but for one if one is in flight; and where the report at `k` is an answer
/// of the upstream sequence, all of them have: no element is pulled while a
/// nested computation is outstanding.
pub proof fn law_single_flight<L, R, T, E>(h: Seq<Report<Either<L, R>, T, E>>, k: int)
    requires
        coherent(h),
        0 <= k <= h.len(),
    ensures
        begun_count(h.take(k)) == settled(h.take(k)) + if in_flight_after(h.take(k)) {
            1nat
        } else {
            0nat
        },
        k < h.len() && h[k] is Upstream ==> begun_count(h.take(k)) == settled(h.take(k)),
{
    lemma_coherent_prefix(h, k);
    lemma_flights(h.take(k));
    if k < h.len() {
        lemma_coherent_prefix(h, k + 1);
    }
}

/// Error short-circuit. Let a consumer gather what the chainer emits and stop
/// at the first error, and let it still be gathering after the history `h`. If
/// the next report is an error, of the upstream sequence or of the nested
/// computation, the chainer answers with that error on the same poll and holds
/// nothing in flight afterwards; and whatever is reported later, the consumer
/// has failed with that error, holding the elements emitted before it and no
/// other.
pub proof fn law_error_short_circuit<L, R, T, E>(
    h: Seq<Report<Either<L, R>, T, E>>,
    failure: Report<Either<L, R>, T, E>,
    e: E,
    later: Seq<Report<Either<L, R>, T, E>>,
)
    requires
        failure == Report::<Either<L, R>, T, E>::Upstream(Err(e)) || failure == Report::<
            Either<L, R>,
            T,
            E,
        >::Nested(Err(e)),
        gather(outputs(h)) is Pending,
    ensures
        outputs(h.push(failure)) == outputs(h).push(Err(e)),
        !in_flight_after(h.push(failure)),
        gather(outputs(h.push(failure) + later)) == Gathered::Failed(emitted(h), e),
{
    assert(h.push(failure).drop_last() =~= h);
    assert(outputs(h).push(Err(e)).drop_last() =~= outputs(h));
    lemma_gather_pending(outputs(h));
    lemma_outputs_add(h.push(failure), later);
    lemma_gather_stopped(outputs(h.push(failure)), outputs(later));
}

} // verus!
