//! Poll outcomes and finite runs of them.
//!
//! A sequence answers each poll with one of four outcomes: an item, its end,
//! "not ready", or an error. A run of polls is the `Seq` of the outcomes, oldest
//! first.

use futures::Async;
use futures::Poll;
use vstd::prelude::*;

verus! {

/// `futures::Async`, declared with its two variants in view, so that code and
/// contracts can tell a ready value from "not ready". The declaration claims
/// nothing of the type: Verus takes the variants `Ready` and `NotReady` from
/// the definition in the `futures` crate.
#[verifier::external_type_specification]
#[verifier::reject_recursive_types(T)]
pub struct ExAsync<T>(Async<T>);

/// The function `poll` can be called on a collaborator that is in the state
/// `state`.
pub open spec fn pollable<X, A, P: FnOnce(&mut X) -> A>(poll: P, state: X) -> bool {
    forall|x: &mut X| *x == state ==> #[trigger] call_requires(poll, (x,))
}

/// `answer` is something that the function `poll` can return when it is called
/// on a collaborator that is in the state `state`.
pub open spec fn can_answer<X, A, P: FnOnce(&mut X) -> A>(poll: P, state: X, answer: A) -> bool {
    exists|x: &mut X| *x == state && #[trigger] call_ensures(poll, (x,), answer)
}

/// The items that a run of polls produced, in the order of the run.
pub open spec fn yielded<V, E>(polls: Seq<Poll<Option<V>, E>>) -> Seq<V>
    decreases polls.len(),
{
    if polls.len() == 0 {
        Seq::empty()
    } else {
        match polls.last() {
            Ok(Async::Ready(Some(v))) => yielded(polls.drop_last()).push(v),
            _ => yielded(polls.drop_last()),
        }
    }
}

/// Appending one outcome to a run appends its item, if it has one, to the items.
pub proof fn lemma_yielded_push<V, E>(polls: Seq<Poll<Option<V>, E>>, outcome: Poll<Option<V>, E>)
    ensures
        yielded(polls.push(outcome)) == match outcome {
            Ok(Async::Ready(Some(v))) => yielded(polls).push(v),
            _ => yielded(polls),
        },
{
    assert(polls.push(outcome).drop_last() =~= polls);
}

/// What a consumer holds that gathers the items of a sequence and stops at the
/// end of the sequence or at the first error.
pub enum Gathered<V, E> {
    /// Neither the end nor an error was reported so far.
    Pending(Seq<V>),
    /// The end was reported; these are all the items.
    Complete(Seq<V>),
    /// An error was reported; the items gathered before it, and the error.
    Failed(Seq<V>, E),
}

/// The state of the gathering consumer after the run `polls`.
pub open spec fn gather<V, E>(polls: Seq<Poll<Option<V>, E>>) -> Gathered<V, E>
    decreases polls.len(),
{
    if polls.len() == 0 {
        Gathered::Pending(Seq::empty())
    } else {
        match gather(polls.drop_last()) {
            Gathered::Pending(got) => match polls.last() {
                Ok(Async::Ready(Some(v))) => Gathered::Pending(got.push(v)),
                Ok(Async::Ready(None)) => Gathered::Complete(got),
                Ok(Async::NotReady) => Gathered::Pending(got),
                Err(e) => Gathered::Failed(got, e),
            },
            stopped => stopped,
        }
    }
}

/// While the gathering consumer is pending it holds every item of the run.
pub proof fn lemma_gather_pending<V, E>(polls: Seq<Poll<Option<V>, E>>)
    ensures
        gather(polls) matches Gathered::Pending(got) ==> got == yielded(polls),
    decreases polls.len(),
{
    if polls.len() > 0 {
        lemma_gather_pending(polls.drop_last());
    }
}

/// Once the gathering consumer has stopped, later outcomes change nothing.
pub proof fn lemma_gather_stopped<V, E>(
    polls: Seq<Poll<Option<V>, E>>,
    later: Seq<Poll<Option<V>, E>>,
)
    requires
        !(gather(polls) is Pending),
    ensures
        gather(polls + later) == gather(polls),
    decreases later.len(),
{
    if later.len() > 0 {
        lemma_gather_stopped(polls, later.drop_last());
        assert((polls + later).drop_last() =~= polls + later.drop_last());
    }
}

} // verus!
