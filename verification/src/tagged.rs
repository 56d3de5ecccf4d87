//! Tagged elements and finite sequences of them.
//!
//! An element is a `futures::future::Either`: its variant `A` is the left tag and
//! its variant `B` the right tag. The spec functions here describe a sequence of
//! elements by the three things that determine it: the tag at each position, the
//! left payloads in order, and the right payloads in order.

use futures::future::Either;
use vstd::prelude::*;

verus! {

/// `futures::future::Either`, declared with its two variants in view, so that
/// code and contracts can match on the tag of an element. The declaration
/// claims nothing of the type: Verus takes the variants `A` and `B` from the
/// definition in the `futures` crate.
#[verifier::external_type_specification]
#[verifier::reject_recursive_types(A)]
#[verifier::reject_recursive_types(B)]
pub struct ExEither<A, B>(Either<A, B>);

/// The payloads of the left-tagged elements of `s`, in the order of `s`.
pub open spec fn lefts<L, R>(s: Seq<Either<L, R>>) -> Seq<L>
    decreases s.len(),
{
    if s.len() == 0 {
        Seq::empty()
    } else {
        match s.last() {
            Either::A(x) => lefts(s.drop_last()).push(x),
            Either::B(_) => lefts(s.drop_last()),
        }
    }
}

/// The payloads of the right-tagged elements of `s`, in the order of `s`.
pub open spec fn rights<L, R>(s: Seq<Either<L, R>>) -> Seq<R>
    decreases s.len(),
{
    if s.len() == 0 {
        Seq::empty()
    } else {
        match s.last() {
            Either::A(_) => rights(s.drop_last()),
            Either::B(y) => rights(s.drop_last()).push(y),
        }
    }
}

/// `a` and `b` carry the same tag.
pub open spec fn same_tag<L, R, M, N>(a: Either<L, R>, b: Either<M, N>) -> bool {
    a is A <==> b is A
}

/// `s` and `t` have the same length and carry the same tag at every position.
pub open spec fn same_tags<L, R, M, N>(s: Seq<Either<L, R>>, t: Seq<Either<M, N>>) -> bool {
    &&& s.len() == t.len()
    &&& forall|i: int| 0 <= i < s.len() ==> same_tag(#[trigger] s[i], t[i])
}

/// `out` is `item` with at most its left payload replaced: a right-tagged
/// `item` itself, or else some left-tagged element.
pub open spec fn left_rewrite<L, R, M>(item: Either<L, R>, out: Either<M, R>) -> bool {
    match item {
        Either::A(_) => out is A,
        Either::B(y) => out == Either::<M, R>::B(y),
    }
}

/// `out` is `item` with at most its right payload replaced: a left-tagged
/// `item` itself, or else some right-tagged element.
pub open spec fn right_rewrite<L, R, N>(item: Either<L, R>, out: Either<L, N>) -> bool {
    match item {
        Either::A(x) => out == Either::<L, N>::A(x),
        Either::B(_) => out is B,
    }
}

/// `out` is `src` with nothing but left payloads replaced: the tags stand where
/// they stood, and every right-tagged element is the one of `src`.
pub open spec fn left_rewritten<L, R, M>(src: Seq<Either<L, R>>, out: Seq<Either<M, R>>) -> bool {
    &&& src.len() == out.len()
    &&& forall|i: int| 0 <= i < src.len() ==> left_rewrite(#[trigger] src[i], out[i])
}

/// `out` is `src` with nothing but right payloads replaced: the tags stand where
/// they stood, and every left-tagged element is the one of `src`.
pub open spec fn right_rewritten<L, R, N>(src: Seq<Either<L, R>>, out: Seq<Either<L, N>>) -> bool {
    &&& src.len() == out.len()
    &&& forall|i: int| 0 <= i < src.len() ==> right_rewrite(#[trigger] src[i], out[i])
}

/// Appending one element appends its payload to the payloads of its side and
/// leaves those of the other side alone.
pub proof fn lemma_sides_push<L, R>(s: Seq<Either<L, R>>, e: Either<L, R>)
    ensures
        e matches Either::A(x) ==> lefts(s.push(e)) == lefts(s).push(x) && rights(s.push(e))
            == rights(s),
        e matches Either::B(y) ==> rights(s.push(e)) == rights(s).push(y) && lefts(s.push(e))
            == lefts(s),
{
    assert(s.push(e).drop_last() =~= s);
}

/// A sequence rewritten on its left side has the tags and the right payloads
/// it had.
pub proof fn lemma_left_rewritten<L, R, M>(src: Seq<Either<L, R>>, out: Seq<Either<M, R>>)
    requires
        left_rewritten(src, out),
    ensures
        same_tags(src, out),
        rights(out) == rights(src),
    decreases src.len(),
{
    if src.len() > 0 {
        lemma_left_rewritten(src.drop_last(), out.drop_last());
    }
}

/// A sequence rewritten on its right side has the tags and the left payloads
/// it had.
pub proof fn lemma_right_rewritten<L, R, N>(src: Seq<Either<L, R>>, out: Seq<Either<L, N>>)
    requires
        right_rewritten(src, out),
    ensures
        same_tags(src, out),
        lefts(out) == lefts(src),
    decreases src.len(),
{
    if src.len() > 0 {
        lemma_right_rewritten(src.drop_last(), out.drop_last());
    }
}

/// A sequence of tagged elements is determined by its tags, its left payloads
/// and its right payloads.
pub proof fn lemma_determined_by_parts<L, R>(s: Seq<Either<L, R>>, t: Seq<Either<L, R>>)
    requires
        same_tags(s, t),
        lefts(s) == lefts(t),
        rights(s) == rights(t),
    ensures
        s == t,
    decreases s.len(),
{
    if s.len() > 0 {
        let s0 = s.drop_last();
        let t0 = t.drop_last();
        match s.last() {
            Either::A(x) => {
                assert(lefts(s0) == lefts(s).drop_last());
                assert(lefts(t0) == lefts(t).drop_last());
                assert(x == lefts(s).last());
            },
            Either::B(y) => {
                assert(rights(s0) == rights(s).drop_last());
                assert(rights(t0) == rights(t).drop_last());
                assert(y == rights(s).last());
            },
        }
        lemma_determined_by_parts(s0, t0);
        assert(t =~= t0.push(t.last()));
    } else {
    }
}

/// Composability. Let one combinator rewrite the left side of `src` and a
/// second one the right side of what the first made, giving `left_then_right`;
/// and let the two work on `src` in the other order, giving `right_then_left`.
/// If each side came to the same payloads in both orders, then the two results
/// are one and the same sequence: it has the tags of `src`, the left payloads
/// that the left combinator made and the right payloads that the right one
/// made.
pub proof fn law_composition_order<L, R, M, N>(
    src: Seq<Either<L, R>>,
    left_only: Seq<Either<M, R>>,
    left_then_right: Seq<Either<M, N>>,
    right_only: Seq<Either<L, N>>,
    right_then_left: Seq<Either<M, N>>,
)
    requires
        left_rewritten(src, left_only),
        right_rewritten(left_only, left_then_right),
        right_rewritten(src, right_only),
        left_rewritten(right_only, right_then_left),
        lefts(right_then_left) == lefts(left_only),
        rights(left_then_right) == rights(right_only),
    ensures
        left_then_right == right_then_left,
        same_tags(src, left_then_right),
        lefts(left_then_right) == lefts(left_only),
        rights(left_then_right) == rights(right_only),
{
    lemma_right_rewritten(left_only, left_then_right);
    lemma_left_rewritten(right_only, right_then_left);
    assert forall|i: int| 0 <= i < src.len() implies same_tag(
        #[trigger] left_then_right[i],
        right_then_left[i],
    ) && same_tag(src[i], left_then_right[i]) by {
        assert(same_tag(src[i], right_only[i]));
    }
    lemma_determined_by_parts(left_then_right, right_then_left);
}

} // verus!
