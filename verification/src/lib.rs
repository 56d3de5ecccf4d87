//! Combinators for a sequence whose elements are `futures::future::Either`
//! values: rewrite the payloads of one side, or chain a nested computation
//! onto them, and pass the other side through unchanged and in order.
//!
//! There are two mappers, [`map_left::MapLeft`] and [`map_right::MapRight`],
//! and two chainers, [`and_then_left::AndThenLeft`] and
//! [`and_then_right::AndThenRight`]. Each owns its upstream sequence and the
//! function it applies. A combinator does not say how its collaborators are
//! polled: `poll` is handed the functions that poll them, for a
//! `futures::Stream` and a `futures::Future` their `poll` methods, and
//! decides which to call and what to answer.
//!
//! The answers are those of the `futures` crate: a `Poll<Option<Item>, E>` is
//! `Ok(Async::Ready(Some(item)))` for an element, `Ok(Async::Ready(None))` for
//! the end of the sequence, `Ok(Async::NotReady)` for "try again later" and
//! `Err(e)` for an error.
//!
//! [`tagged`] and [`polling`] hold the vocabulary of the contracts, [`history`]
//! that of the chainers' histories, and [`composition`] the laws that relate
//! a left-targeted and a right-targeted combinator.

pub mod and_then_left;
pub mod and_then_right;
pub mod composition;
pub mod history;
pub mod map_left;
pub mod map_right;
pub mod polling;
pub mod tagged;
