//! Laws of composition: a left-targeted and a right-targeted combinator, one
//! fed by the other, come to the same result in either order.

use crate::and_then_left;
use crate::and_then_right;
use crate::history::no_nested_failure;
use crate::history::resolved;
use crate::history::Report;
use crate::map_left::left_images;
use crate::map_right::right_images;
use crate::tagged::law_composition_order;
use crate::tagged::lefts;
use crate::tagged::rights;
use crate::tagged::same_tags;
use futures::future::Either;
use vstd::prelude::*;

verus! {

/// `f` has one result for each argument.
pub open spec fn single_valued<X, Y, F: FnMut(X) -> Y>(f: F) -> bool {
    forall|x: X, y1: Y, y2: Y|
        #![trigger call_ensures(f, (x,), y1), call_ensures(f, (x,), y2)]
        call_ensures(f, (x,), y1) && call_ensures(f, (x,), y2) ==> y1 == y2
}

/// `out` is `item` with its payload rewritten by the function of its side:
/// by `f` if it is left-tagged, by `g` if it is right-tagged.
pub open spec fn both_image<L, R, M, N, F: FnMut(L) -> M, G: FnMut(R) -> N>(
    f: F,
    g: G,
    item: Either<L, R>,
    out: Either<M, N>,
) -> bool {
    match item {
        Either::A(x) => out matches Either::A(y) && call_ensures(f, (x,), y),
        Either::B(x) => out matches Either::B(y) && call_ensures(g, (x,), y),
    }
}

/// `out` holds, position for position, the element of `src` with its payload
/// rewritten by the function of its side.
pub open spec fn both_images<L, R, M, N, F: FnMut(L) -> M, G: FnMut(R) -> N>(
    f: F,
    g: G,
    src: Seq<Either<L, R>>,
    out: Seq<Either<M, N>>,
) -> bool {
    &&& out.len() == src.len()
    &&& forall|i: int| 0 <= i < src.len() ==> both_image(f, g, src[i], #[trigger] out[i])
}

/// Composability of the mappers. Let a left mapper with `f` and a right mapper
/// with `g` work on the elements `src`, one on what the other emits. In either
/// order the result is `src` with each payload rewritten by the function of its
/// side; and where `f` and `g` have one result for each argument, the two
/// orders give the same sequence.
pub proof fn law_mappers_commute<L, R, M, N, F: FnMut(L) -> M, G: FnMut(R) -> N>(
    f: F,
    g: G,
    src: Seq<Either<L, R>>,
    left_only: Seq<Either<M, R>>,
    left_then_right: Seq<Either<M, N>>,
    right_only: Seq<Either<L, N>>,
    right_then_left: Seq<Either<M, N>>,
)
    requires
        left_images(f, src, left_only),
        right_images(g, left_only, left_then_right),
        right_images(g, src, right_only),
        left_images(f, right_only, right_then_left),
    ensures
        both_images(f, g, src, left_then_right),
        both_images(f, g, src, right_then_left),
        single_valued(f) && single_valued(g) ==> left_then_right == right_then_left,
{
}

/// Composability of the chainers. Let a left chainer and a right chainer work
/// on the same elements, one fed with what the other emits, in both orders,
/// and let no nested computation fail. If the nested computations of each side
/// resolved to the same values in both orders, then both orders emitted the
/// same sequence: it has the tags of the elements served, the left payloads
/// that the left chainer's computations resolved to and the right payloads
/// that the right chainer's computations resolved to.
pub proof fn law_chainers_commute<L, R, M, N, E>(
    left_first: Seq<Report<Either<L, R>, M, E>>,
    then_right: Seq<Report<Either<M, R>, N, E>>,
    right_first: Seq<Report<Either<L, R>, N, E>>,
    then_left: Seq<Report<Either<L, N>, M, E>>,
)
    requires
        and_then_left::coherent(left_first),
        and_then_right::coherent(then_right),
        and_then_right::coherent(right_first),
        and_then_left::coherent(then_left),
        no_nested_failure(left_first),
        no_nested_failure(then_right),
        no_nested_failure(right_first),
        no_nested_failure(then_left),
        and_then_left::served(left_first) == and_then_right::served(right_first),
        and_then_right::served(then_right) == and_then_left::emitted(left_first),
        and_then_left::served(then_left) == and_then_right::emitted(right_first),
        resolved(then_left) == resolved(left_first),
        resolved(then_right) == resolved(right_first),
    ensures
        and_then_right::emitted(then_right) == and_then_left::emitted(then_left),
        same_tags(and_then_left::served(left_first), and_then_right::emitted(then_right)),
        lefts(and_then_right::emitted(then_right)) == resolved(left_first),
        rights(and_then_right::emitted(then_right)) == resolved(right_first),
{
    and_then_left::law_order_preserved(left_first);
    and_then_right::law_order_preserved(then_right);
    and_then_right::law_order_preserved(right_first);
    and_then_left::law_order_preserved(then_left);
    law_composition_order(
        and_then_left::served(left_first),
        and_then_left::emitted(left_first),
        and_then_right::emitted(then_right),
        and_then_right::emitted(right_first),
        and_then_left::emitted(then_left),
    );
}

} // verus!
