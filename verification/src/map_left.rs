//! The left mapper: rewrites the payload of every left-tagged element of the
//! upstream sequence and passes right-tagged elements through.
//!
//! A mapper keeps no state between polls. [`MapLeft::on_upstream`] takes the
//! answer of the upstream sequence and says what the mapper answers;
//! [`MapLeft::poll`] is one whole poll: it is handed the function that polls
//! the upstream sequence, and calls it once.
//!
//! The second half of this module proves the laws of the mapper for every run
//! of polls.

use crate::polling::can_answer;
use crate::polling::gather;
use crate::polling::pollable;
use crate::polling::yielded;
use crate::polling::Gathered;
use crate::tagged::left_rewritten;
use crate::tagged::lemma_left_rewritten;
use crate::tagged::rights;
use crate::tagged::same_tags;
use futures::future::Either;
use futures::Async;
use futures::Poll;
use vstd::prelude::*;

verus! {

/// A stream combinator which will change the type of the left variant of a
/// stream from one type to another.
///
/// `S` is the upstream sequence and `F` the function that is applied to a
/// left payload.
#[derive(Debug)]
#[must_use]
pub struct MapLeft<S, F> {
    stream: S,
    f: F,
}

/// Makes a left mapper that owns the upstream sequence `s` and the function `f`.
pub fn new<S, F, L, U>(s: S, f: F) -> (mapper: MapLeft<S, F>) where F: FnMut(L) -> U
    ensures
        mapper.upstream() == s,
        mapper.transform() == f,
{
    MapLeft { stream: s, f }
}

/// `out` is an element that a left mapper with the function `f` can make of
/// `item`: a right-tagged `item` itself, or a left-tagged element whose payload
/// `f` returns for the payload of `item`.
pub open spec fn left_image<L, R, U, F: FnMut(L) -> U>(
    f: F,
    item: Either<L, R>,
    out: Either<U, R>,
) -> bool {
    match item {
        Either::A(x) => out matches Either::A(y) && call_ensures(f, (x,), y),
        Either::B(y) => out == Either::<U, R>::B(y),
    }
}

/// `out` is an answer that a left mapper with the function `f` can give when
/// the upstream sequence answered `upstream`: the image of an element, and
/// the end, "not ready" or an error unchanged.
pub open spec fn answers<L, R, U, E, F: FnMut(L) -> U>(
    f: F,
    upstream: Poll<Option<Either<L, R>>, E>,
    out: Poll<Option<Either<U, R>>, E>,
) -> bool {
    match upstream {
        Ok(Async::Ready(Some(item))) => out matches Ok(Async::Ready(Some(o))) && left_image(
            f,
            item,
            o,
        ),
        Ok(Async::Ready(None)) => out == Ok::<_, E>(Async::Ready(None::<Either<U, R>>)),
        Ok(Async::NotReady) => out == Ok::<Async<Option<Either<U, R>>>, E>(Async::NotReady),
        Err(e) => out == Err::<Async<Option<Either<U, R>>>, E>(e),
    }
}

impl<S, F> MapLeft<S, F> {
    /// The upstream sequence that the mapper owns.
    pub closed spec fn upstream(&self) -> S {
        self.stream
    }

    /// The function that is applied to a left payload.
    pub closed spec fn transform(&self) -> F {
        self.f
    }

    /// Acquires a reference to the underlying stream that this combinator is
    /// pulling from.
    pub fn get_ref(&self) -> (stream: &S)
        ensures
            *stream == self.upstream(),
    {
        &self.stream
    }

    /// Acquires a mutable reference to the underlying stream that this
    /// combinator is pulling from.
    ///
    /// Note that care must be taken to avoid tampering with the state of the
    /// stream which may otherwise confuse this combinator.
    pub fn get_mut(&mut self) -> (stream: &mut S)
        ensures
            *stream == old(self).upstream(),
            final(self).upstream() == *final(stream),
            final(self).transform() == old(self).transform(),
    {
        &mut self.stream
    }

    /// Consumes this combinator, returning the underlying stream.
    ///
    /// Note that this may discard intermediate state of this combinator, so
    /// care should be taken to avoid losing resources when this is called.
    pub fn into_inner(self) -> (stream: S)
        ensures
            stream == self.upstream(),
    {
        self.stream
    }

    /// Polls the mapper once: polls the upstream sequence once, with
    /// `poll_upstream`, and answers as [`Self::on_upstream`] does.
    pub fn poll<L, R, U, E, P>(&mut self, poll_upstream: P) -> (out: Poll<
        Option<Either<U, R>>,
        E,
    >) where F: FnMut(L) -> U, P: FnOnce(&mut S) -> Poll<Option<Either<L, R>>, E>
        requires
            pollable(poll_upstream, old(self).upstream()),
            forall|x: L| #[trigger]
                can_answer(
                    poll_upstream,
                    old(self).upstream(),
                    Ok::<_, E>(Async::Ready(Some(Either::<L, R>::A(x)))),
                ) ==> call_requires(old(self).transform(), (x,)),
        ensures
            final(self).transform() == old(self).transform(),
            exists|s: &mut S, upstream: Poll<Option<Either<L, R>>, E>|
                {
                    &&& *s == old(self).upstream()
                    &&& *final(s) == final(self).upstream()
                    &&& #[trigger] call_ensures(poll_upstream, (s,), upstream)
                    &&& answers(old(self).transform(), upstream, out)
                },
    {
        let upstream = poll_upstream(&mut self.stream);
        assert(can_answer(poll_upstream, old(self).upstream(), upstream));
        self.on_upstream(upstream)
    }

    /// Takes what the upstream sequence answered to one poll and gives the
    /// mapper's answer to it: a left-tagged element with its payload
    /// rewritten, and everything else unchanged.
    pub fn on_upstream<L, R, U, E>(&mut self, upstream: Poll<Option<Either<L, R>>, E>) -> (out:
        Poll<Option<Either<U, R>>, E>) where F: FnMut(L) -> U
        requires
            upstream matches Ok(Async::Ready(Some(Either::A(x)))) ==> call_requires(
                old(self).transform(),
                (x,),
            ),
        ensures
            answers(old(self).transform(), upstream, out),
            final(self).upstream() == old(self).upstream(),
            final(self).transform() == old(self).transform(),
    {
        match upstream {
            Ok(Async::Ready(Some(Either::A(x)))) => Ok(Async::Ready(Some(Either::A((self.f)(x))))),
            Ok(Async::Ready(Some(Either::B(y)))) => Ok(Async::Ready(Some(Either::B(y)))),
            Ok(Async::Ready(None)) => Ok(Async::Ready(None)),
            Ok(Async::NotReady) => Ok(Async::NotReady),
            Err(e) => Err(e),
        }
    }
}

/// `out` holds, position for position, an element that a left mapper with the
/// function `f` can make of the element of `src`.
pub open spec fn left_images<L, R, U, F: FnMut(L) -> U>(
    f: F,
    src: Seq<Either<L, R>>,
    out: Seq<Either<U, R>>,
) -> bool {
    &&& out.len() == src.len()
    &&& forall|i: int| 0 <= i < src.len() ==> left_image(f, src[i], #[trigger] out[i])
}

/// `outs` is a run of answers that a left mapper with the function `f` can
/// give, poll for poll, to the run `ups` of answers of its upstream sequence.
pub open spec fn answers_run<L, R, U, E, F: FnMut(L) -> U>(
    f: F,
    ups: Seq<Poll<Option<Either<L, R>>, E>>,
    outs: Seq<Poll<Option<Either<U, R>>, E>>,
) -> bool {
    &&& outs.len() == ups.len()
    &&& forall|i: int| 0 <= i < ups.len() ==> answers(f, ups[i], #[trigger] outs[i])
}

/// The gathering consumer of the mapper is in the state `after` where that of
/// the upstream sequence is in the state `before`: both pending, both
/// complete, or both failed with the same error, and `after` holds the images
/// of what `before` holds.
pub open spec fn gathered_images<L, R, U, E, F: FnMut(L) -> U>(
    f: F,
    before: Gathered<Either<L, R>, E>,
    after: Gathered<Either<U, R>, E>,
) -> bool {
    match before {
        Gathered::Pending(got) => after matches Gathered::Pending(g) && left_images(f, got, g),
        Gathered::Complete(got) => after matches Gathered::Complete(g) && left_images(f, got, g),
        Gathered::Failed(got, e) => after matches Gathered::Failed(g, e2) && e2 == e
            && left_images(f, got, g),
    }
}

proof fn lemma_run<L, R, U, E, F: FnMut(L) -> U>(
    f: F,
    ups: Seq<Poll<Option<Either<L, R>>, E>>,
    outs: Seq<Poll<Option<Either<U, R>>, E>>,
)
    requires
        answers_run(f, ups, outs),
    ensures
        left_images(f, yielded(ups), yielded(outs)),
        gathered_images(f, gather(ups), gather(outs)),
    decreases ups.len(),
{
    if ups.len() > 0 {
        lemma_run(f, ups.drop_last(), outs.drop_last());
    }
}

/// Order preservation. Over any run of polls, the elements that the mapper
/// emits are as many as the upstream sequence yielded and stand in the same
/// order: each is the image of the element at its position, with the same tag.
pub proof fn law_order_preserved<L, R, U, E, F: FnMut(L) -> U>(
    f: F,
    ups: Seq<Poll<Option<Either<L, R>>, E>>,
    outs: Seq<Poll<Option<Either<U, R>>, E>>,
)
    requires
        answers_run(f, ups, outs),
    ensures
        left_images(f, yielded(ups), yielded(outs)),
        same_tags(yielded(ups), yielded(outs)),
{
    lemma_run(f, ups, outs);
}

/// Side independence. Over any run of polls, every right-tagged element that
/// the upstream sequence yielded is emitted as it is, at its position; so the
/// right payloads emitted are those yielded, in the same order.
pub proof fn law_right_side_untouched<L, R, U, E, F: FnMut(L) -> U>(
    f: F,
    ups: Seq<Poll<Option<Either<L, R>>, E>>,
    outs: Seq<Poll<Option<Either<U, R>>, E>>,
)
    requires
        answers_run(f, ups, outs),
    ensures
        left_rewritten(yielded(ups), yielded(outs)),
        rights(yielded(outs)) == rights(yielded(ups)),
{
    lemma_run(f, ups, outs);
    lemma_left_rewritten(yielded(ups), yielded(outs));
}

/// Error short-circuit. Let one consumer gather what the upstream sequence
/// yields and another what the mapper emits, each stopping at the end or at
/// the first error. Over any run of polls the two are in the same state, and
/// the second holds the images of what the first holds. So where the upstream
/// sequence fails, the mapper's consumer fails with the same error, and has
/// gathered nothing of what the upstream sequence yields after the error.
pub proof fn law_error_short_circuit<L, R, U, E, F: FnMut(L) -> U>(
    f: F,
    ups: Seq<Poll<Option<Either<L, R>>, E>>,
    outs: Seq<Poll<Option<Either<U, R>>, E>>,
)
    requires
        answers_run(f, ups, outs),
    ensures
        gathered_images(f, gather(ups), gather(outs)),
{
    lemma_run(f, ups, outs);
}

} // verus!
