use either_stream::and_then_left;
use either_stream::and_then_left::AndThenLeft;
use either_stream::and_then_right;
use either_stream::and_then_right::AndThenRight;
use futures::future::Either;
use futures::future::IntoFuture;
use futures::stream;
use futures::stream::Stream;
use futures::Async;
use futures::Future;
use futures::Poll;

/// A left chainer as a stream: it polls its upstream stream as streams are
/// polled and its nested computations as futures are.
struct LeftChained<S, F, U: IntoFuture>(AndThenLeft<S, F, U::Future>);

impl<S, F, L, R, U> Stream for LeftChained<S, F, U>
where
    S: Stream<Item = Either<L, R>>,
    F: FnMut(L) -> U,
    U: IntoFuture<Error = S::Error>,
{
    type Item = Either<U::Item, R>;
    type Error = S::Error;

    fn poll(&mut self) -> Poll<Option<Either<U::Item, R>>, S::Error> {
        self.0.poll(Stream::poll, IntoFuture::into_future, Future::poll)
    }
}

/// A right chainer as a stream.
struct RightChained<S, F, U: IntoFuture>(AndThenRight<S, F, U::Future>);

impl<S, F, L, R, U> Stream for RightChained<S, F, U>
where
    S: Stream<Item = Either<L, R>>,
    F: FnMut(R) -> U,
    U: IntoFuture<Error = S::Error>,
{
    type Item = Either<L, U::Item>;
    type Error = S::Error;

    fn poll(&mut self) -> Poll<Option<Either<L, U::Item>>, S::Error> {
        self.0.poll(Stream::poll, IntoFuture::into_future, Future::poll)
    }
}

/// The chainers as methods of every stream of `Either` values.
trait EitherStreamExt<L, R>: Stream<Item = Either<L, R>> + Sized {
    fn and_then_left<U, F>(self, f: F) -> LeftChained<Self, F, U>
    where
        F: FnMut(L) -> U,
        U: IntoFuture<Error = Self::Error>,
    {
        LeftChained(and_then_left::new(self, f))
    }

    fn and_then_right<U, F>(self, f: F) -> RightChained<Self, F, U>
    where
        F: FnMut(R) -> U,
        U: IntoFuture<Error = Self::Error>,
    {
        RightChained(and_then_right::new(self, f))
    }
}

impl<L, R, T: Stream<Item = Either<L, R>>> EitherStreamExt<L, R> for T {}

/// A right mapper as a stream.
struct RightMappedUpstream<S, F>(either_stream::map_right::MapRight<S, F>);

impl<S, F, L, R, U> Stream for RightMappedUpstream<S, F>
where
    S: Stream<Item = Either<L, R>>,
    F: FnMut(R) -> U,
{
    type Item = Either<L, U>;
    type Error = S::Error;

    fn poll(&mut self) -> Poll<Option<Either<L, U>>, S::Error> {
        self.0.poll(Stream::poll)
    }
}

/// An upstream sequence that gives the answers written in it, one for each
/// poll, and counts the polls.
struct Scripted {
    answers: std::vec::IntoIter<Poll<Option<Either<i32, i32>>, i32>>,
    polls: usize,
}

fn scripted(answers: Vec<Poll<Option<Either<i32, i32>>, i32>>) -> Scripted {
    Scripted { answers: answers.into_iter(), polls: 0 }
}

impl Stream for Scripted {
    type Item = Either<i32, i32>;
    type Error = i32;

    fn poll(&mut self) -> Poll<Option<Either<i32, i32>>, i32> {
        self.polls += 1;
        self.answers.next().unwrap_or(Ok(Async::Ready(None)))
    }
}

/// A nested computation that is not ready for a number of polls and then comes
/// to its end.
struct Delayed {
    waits: u32,
    end: Result<i32, i32>,
}

impl Future for Delayed {
    type Item = i32;
    type Error = i32;

    fn poll(&mut self) -> Poll<i32, i32> {
        if self.waits > 0 {
            self.waits -= 1;
            return Ok(Async::NotReady);
        }
        match self.end {
            Ok(value) => Ok(Async::Ready(value)),
            Err(e) => Err(e),
        }
    }
}

fn create_either_stream() -> stream::IterOk<std::vec::IntoIter<Either<i32, i32>>, i32> {
    let a: Either<i32, i32> = Either::A(1);
    let b: Either<i32, i32> = Either::B(2);
    let c: Either<i32, i32> = Either::A(3);
    let d: Either<i32, i32> = Either::B(4);
    stream::iter_ok::<_, i32>(vec![a, b, c, d])
}

/// What a poll answered, with the tag of an element as a letter.
#[derive(Debug, PartialEq)]
enum Answer {
    Element(char, i32),
    End,
    NotReady,
    Failed(i32),
}

fn answer_of(answer: Poll<Option<Either<i32, i32>>, i32>) -> Answer {
    match answer {
        Ok(Async::Ready(Some(Either::A(n)))) => Answer::Element('L', n),
        Ok(Async::Ready(Some(Either::B(n)))) => Answer::Element('R', n),
        Ok(Async::Ready(None)) => Answer::End,
        Ok(Async::NotReady) => Answer::NotReady,
        Err(e) => Answer::Failed(e),
    }
}

fn tagged(element: Either<i32, i32>) -> (char, i32) {
    match element {
        Either::A(n) => ('L', n),
        Either::B(n) => ('R', n),
    }
}

#[test]
fn and_then_left_integers() {
    let stream = create_either_stream();
    let result = stream
        .and_then_left(|x| Ok(2 * x))
        .map(|either| match either {
            Either::A(x) => x,
            Either::B(x) => x,
        })
        .collect()
        .wait()
        .unwrap();
    assert_eq!(result, vec![2, 2, 6, 4]);
}

#[test]
fn and_then_left_shutdown_on_error() {
    let stream = create_either_stream();
    let result = stream
        .and_then_left(|x| Err(2 * x))
        .map(|either| match either {
            Either::A(x) => x,
            Either::B(x) => x,
        })
        .collect()
        .wait();
    assert_eq!(result, Err(2));
}

#[test]
fn and_then_right_integers() {
    let stream = create_either_stream();
    let result = stream
        .and_then_right(|x| Ok(2 * x))
        .map(|either| match either {
            Either::A(x) => x,
            Either::B(x) => x,
        })
        .collect()
        .wait()
        .unwrap();
    assert_eq!(result, vec![1, 4, 3, 8]);
}

#[test]
fn and_then_right_shutdown_on_error() {
    let stream = create_either_stream();
    let result = stream
        .and_then_right(|x| Err(2 * x))
        .map(|either| match either {
            Either::A(x) => x,
            Either::B(x) => x,
        })
        .collect()
        .wait();
    assert_eq!(result, Err(4));
}

#[test]
fn and_then_left_right_joint_integers() {
    let stream = create_either_stream();
    let result = stream
        .and_then_left(|x| Ok(2 * x))
        .and_then_right(|x| Ok(2 * x))
        .map(|either| match either {
            Either::A(x) => x,
            Either::B(x) => x
        })
        .collect()
        .wait()
        .unwrap();
    assert_eq!(result, vec![2, 4, 6, 8]);
}

#[test]
fn and_then_right_left_joint_integers() {
    let stream = create_either_stream();
    let result = stream
        .and_then_right(|x| Ok(2 * x))
        .and_then_left(|x| Ok(2 * x))
        .map(|either| match either {
            Either::A(x) => x,
            Either::B(x) => x,
        })
        .collect()
        .wait()
        .unwrap();
    assert_eq!(result, vec![2, 4, 6, 8]);
}

#[test]
fn and_then_left_keeps_tags_and_order() {
    let stream = create_either_stream();
    let result: Vec<(char, i32)> =
        LeftChained(and_then_left::new(stream, |x: i32| Ok(x + 10))).map(tagged).collect().wait().unwrap();
    assert_eq!(result, vec![('L', 11), ('R', 2), ('L', 13), ('R', 4)]);
}

#[test]
fn and_then_right_keeps_tags_and_order() {
    let stream = create_either_stream();
    let result: Vec<(char, i32)> =
        RightChained(and_then_right::new(stream, |x: i32| Ok(x + 10))).map(tagged).collect().wait().unwrap();
    assert_eq!(result, vec![('L', 1), ('R', 12), ('L', 3), ('R', 14)]);
}

#[test]
fn and_then_left_failure_hides_what_follows() {
    let stream = create_either_stream();
    let mut seen = Vec::new();
    let result = LeftChained(and_then_left::new(stream, |x: i32| if x == 3 { Err(-3) } else { Ok(2 * x) }))
        .map(tagged)
        .inspect(|element| seen.push(*element))
        .collect()
        .wait();
    assert_eq!(result, Err(-3));
    assert_eq!(seen, vec![('L', 2), ('R', 2)]);
}

#[test]
fn and_then_right_failure_hides_what_follows() {
    let stream = create_either_stream();
    let mut seen = Vec::new();
    let result = RightChained(and_then_right::new(stream, |x: i32| if x == 4 { Err(-4) } else { Ok(2 * x) }))
        .map(tagged)
        .inspect(|element| seen.push(*element))
        .collect()
        .wait();
    assert_eq!(result, Err(-4));
    assert_eq!(seen, vec![('L', 1), ('R', 4), ('L', 3)]);
}

#[test]
fn and_then_left_waits_for_the_computation_in_flight() {
    let upstream = scripted(vec![
        Ok(Async::Ready(Some(Either::A(1)))),
        Ok(Async::Ready(Some(Either::A(2)))),
        Ok(Async::Ready(Some(Either::B(3)))),
    ]);
    let mut chained =
        LeftChained(and_then_left::new(upstream, |x: i32| Delayed { waits: 2, end: Ok(10 * x) }));
    assert!(!chained.0.is_chaining());

    // The first poll pulls the element and polls its computation at once.
    assert_eq!(answer_of(chained.poll()), Answer::NotReady);
    assert!(chained.0.is_chaining());
    assert_eq!(chained.0.get_ref().polls, 1);

    // While the computation is in flight nothing is pulled.
    assert_eq!(answer_of(chained.poll()), Answer::NotReady);
    assert!(chained.0.is_chaining());
    assert_eq!(chained.0.get_ref().polls, 1);

    assert_eq!(answer_of(chained.poll()), Answer::Element('L', 10));
    assert!(!chained.0.is_chaining());
    assert_eq!(chained.0.get_ref().polls, 1);

    assert_eq!(answer_of(chained.poll()), Answer::NotReady);
    assert_eq!(answer_of(chained.poll()), Answer::NotReady);
    assert_eq!(chained.0.get_ref().polls, 2);
    assert_eq!(answer_of(chained.poll()), Answer::Element('L', 20));
    assert_eq!(answer_of(chained.poll()), Answer::Element('R', 3));
    assert_eq!(answer_of(chained.poll()), Answer::End);
    assert_eq!(chained.0.get_ref().polls, 4);
}

#[test]
fn and_then_right_waits_for_the_computation_in_flight() {
    let upstream = scripted(vec![
        Ok(Async::Ready(Some(Either::B(1)))),
        Ok(Async::Ready(Some(Either::B(2)))),
        Ok(Async::Ready(Some(Either::A(3)))),
    ]);
    let mut chained =
        RightChained(and_then_right::new(upstream, |x: i32| Delayed { waits: 1, end: Ok(10 * x) }));
    assert_eq!(answer_of(chained.poll()), Answer::NotReady);
    assert!(chained.0.is_chaining());
    assert_eq!(chained.0.get_ref().polls, 1);
    assert_eq!(answer_of(chained.poll()), Answer::Element('R', 10));
    assert!(!chained.0.is_chaining());
    assert_eq!(answer_of(chained.poll()), Answer::NotReady);
    assert_eq!(chained.0.get_ref().polls, 2);
    assert_eq!(answer_of(chained.poll()), Answer::Element('R', 20));
    assert_eq!(answer_of(chained.poll()), Answer::Element('L', 3));
    assert_eq!(answer_of(chained.poll()), Answer::End);
    assert_eq!(chained.0.get_ref().polls, 4);
}

#[test]
fn and_then_left_passes_upstream_suspension_and_error() {
    let upstream = scripted(vec![
        Ok(Async::NotReady),
        Err(5),
        Ok(Async::Ready(Some(Either::B(7)))),
        Ok(Async::Ready(None)),
    ]);
    let mut chained = LeftChained(and_then_left::new(upstream, |x: i32| Ok(x)));
    assert_eq!(answer_of(chained.poll()), Answer::NotReady);
    assert!(!chained.0.is_chaining());
    assert_eq!(answer_of(chained.poll()), Answer::Failed(5));
    assert!(!chained.0.is_chaining());
    assert_eq!(answer_of(chained.poll()), Answer::Element('R', 7));
    assert_eq!(answer_of(chained.poll()), Answer::End);
}

#[test]
fn and_then_right_passes_upstream_suspension_and_error() {
    let upstream = scripted(vec![
        Ok(Async::NotReady),
        Err(5),
        Ok(Async::Ready(Some(Either::A(7)))),
        Ok(Async::Ready(None)),
    ]);
    let mut chained = RightChained(and_then_right::new(upstream, |x: i32| Ok(x)));
    assert_eq!(answer_of(chained.poll()), Answer::NotReady);
    assert!(!chained.0.is_chaining());
    assert_eq!(answer_of(chained.poll()), Answer::Failed(5));
    assert!(!chained.0.is_chaining());
    assert_eq!(answer_of(chained.poll()), Answer::Element('L', 7));
    assert_eq!(answer_of(chained.poll()), Answer::End);
}

#[test]
fn and_then_left_is_idle_after_a_failed_computation() {
    let upstream = scripted(vec![
        Ok(Async::Ready(Some(Either::A(1)))),
        Ok(Async::Ready(Some(Either::A(2)))),
    ]);
    let mut chained = LeftChained(and_then_left::new(upstream, |x: i32| Delayed {
        waits: 1,
        end: if x == 1 { Err(-1) } else { Ok(x) },
    }));
    assert_eq!(answer_of(chained.poll()), Answer::NotReady);
    assert!(chained.0.is_chaining());
    assert_eq!(answer_of(chained.poll()), Answer::Failed(-1));
    assert!(!chained.0.is_chaining());
    assert!(chained.0.in_flight_mut().is_none());
    // A consumer that polls on starts from a clean slot.
    assert_eq!(answer_of(chained.poll()), Answer::NotReady);
    assert_eq!(answer_of(chained.poll()), Answer::Element('L', 2));
    assert_eq!(answer_of(chained.poll()), Answer::End);
}

#[test]
fn and_then_right_is_idle_after_a_failed_computation() {
    let upstream = scripted(vec![
        Ok(Async::Ready(Some(Either::B(1)))),
        Ok(Async::Ready(Some(Either::B(2)))),
    ]);
    let mut chained = RightChained(and_then_right::new(upstream, |x: i32| Delayed {
        waits: 1,
        end: if x == 1 { Err(-1) } else { Ok(x) },
    }));
    assert_eq!(answer_of(chained.poll()), Answer::NotReady);
    assert!(chained.0.is_chaining());
    assert_eq!(answer_of(chained.poll()), Answer::Failed(-1));
    assert!(!chained.0.is_chaining());
    assert!(chained.0.in_flight_mut().is_none());
    assert_eq!(answer_of(chained.poll()), Answer::NotReady);
    assert_eq!(answer_of(chained.poll()), Answer::Element('R', 2));
    assert_eq!(answer_of(chained.poll()), Answer::End);
}

#[test]
fn and_then_left_lends_and_returns_its_upstream() {
    let mut chainer: AndThenLeft<Vec<i32>, _, Delayed> =
        and_then_left::new(vec![1, 2], |x: i32| Delayed { waits: 0, end: Ok(x) });
    assert_eq!(chainer.get_ref(), &vec![1, 2]);
    chainer.get_mut().push(3);
    assert_eq!(chainer.get_ref(), &vec![1, 2, 3]);
    assert!(!chainer.is_chaining());
    assert!(chainer.in_flight_mut().is_none());
    assert_eq!(chainer.into_inner(), vec![1, 2, 3]);
}

#[test]
fn and_then_right_lends_and_returns_its_upstream() {
    let mut chainer: AndThenRight<Vec<i32>, _, Delayed> =
        and_then_right::new(vec![1, 2], |x: i32| Delayed { waits: 0, end: Ok(x) });
    assert_eq!(chainer.get_ref(), &vec![1, 2]);
    chainer.get_mut().push(3);
    assert_eq!(chainer.get_ref(), &vec![1, 2, 3]);
    assert!(!chainer.is_chaining());
    assert!(chainer.in_flight_mut().is_none());
    assert_eq!(chainer.into_inner(), vec![1, 2, 3]);
}

#[test]
fn and_then_left_drops_the_computation_in_flight_with_the_chainer() {
    let upstream = scripted(vec![Ok(Async::Ready(Some(Either::A(1))))]);
    let mut chained =
        LeftChained(and_then_left::new(upstream, |x: i32| Delayed { waits: 5, end: Ok(x) }));
    assert_eq!(answer_of(chained.poll()), Answer::NotReady);
    assert_eq!(chained.0.in_flight_mut().map(|nested| nested.waits), Some(4));
    let upstream = chained.0.into_inner();
    assert_eq!(upstream.polls, 1);
}

#[test]
fn and_then_left_can_be_polled_with_any_functions() {
    // The upstream "sequence" is a counter and a nested "computation" a
    // countdown that resolves to the number of polls it took.
    let mut chainer = and_then_left::new(1, |x: i32| (x, 0));
    let next = |counter: &mut i32| -> Poll<Option<Either<i32, i32>>, i32> {
        *counter += 1;
        Ok(Async::Ready(Some(Either::A(*counter - 1))))
    };
    let keep = |start: (i32, i32)| start;
    let tick = |countdown: &mut (i32, i32)| -> Poll<i32, i32> {
        countdown.1 += 1;
        if countdown.0 == 0 {
            Ok(Async::Ready(countdown.1))
        } else {
            countdown.0 -= 1;
            Ok(Async::NotReady)
        }
    };
    assert_eq!(answer_of(chainer.poll(next, keep, tick)), Answer::NotReady);
    assert_eq!(chainer.in_flight_mut(), Some(&mut (0, 1)));
    assert_eq!(*chainer.get_ref(), 2);
    assert_eq!(answer_of(chainer.poll(next, keep, tick)), Answer::Element('L', 2));
    assert!(!chainer.is_chaining());
    assert_eq!(*chainer.get_ref(), 2);
    assert_eq!(answer_of(chainer.poll(next, keep, tick)), Answer::NotReady);
    assert_eq!(*chainer.get_ref(), 3);
    assert_eq!(answer_of(chainer.poll(next, keep, tick)), Answer::NotReady);
    assert_eq!(answer_of(chainer.poll(next, keep, tick)), Answer::Element('L', 3));
    assert_eq!(chainer.into_inner(), 3);
}

#[test]
fn and_then_right_can_be_polled_with_any_functions() {
    let mut chainer = and_then_right::new(1, |x: i32| (x, 0));
    let next = |counter: &mut i32| -> Poll<Option<Either<i32, i32>>, i32> {
        *counter += 1;
        Ok(Async::Ready(Some(Either::B(*counter - 1))))
    };
    let keep = |start: (i32, i32)| start;
    let tick = |countdown: &mut (i32, i32)| -> Poll<i32, i32> {
        countdown.1 += 1;
        if countdown.0 == 0 {
            Ok(Async::Ready(countdown.1))
        } else {
            countdown.0 -= 1;
            Ok(Async::NotReady)
        }
    };
    assert_eq!(answer_of(chainer.poll(next, keep, tick)), Answer::NotReady);
    assert_eq!(chainer.in_flight_mut(), Some(&mut (0, 1)));
    assert_eq!(*chainer.get_ref(), 2);
    assert_eq!(answer_of(chainer.poll(next, keep, tick)), Answer::Element('R', 2));
    assert!(!chainer.is_chaining());
    assert_eq!(chainer.into_inner(), 2);
}

#[test]
fn a_left_chainer_over_a_right_mapper_rewrites_both_sides() {
    let stream = create_either_stream();
    let mapped = either_stream::map_right::new(stream, |x: i32| x * 100);
    let chained = LeftChained(and_then_left::new(RightMappedUpstream(mapped), |x: i32| Ok(x + 1)));
    let result: Vec<(char, i32)> = chained.map(tagged).collect().wait().unwrap();
    assert_eq!(result, vec![('L', 2), ('R', 200), ('L', 4), ('R', 400)]);
}

/// Polls `stream` until it ends, and gathers the elements; a poll that is not
/// ready is made again.
fn drain<S: Stream<Item = Either<i32, i32>, Error = i32>>(mut stream: S) -> Vec<(char, i32)> {
    let mut gathered = Vec::new();
    for _ in 0..100 {
        match answer_of(stream.poll()) {
            Answer::Element(tag, n) => gathered.push((tag, n)),
            Answer::End => return gathered,
            Answer::NotReady => {}
            Answer::Failed(e) => panic!("failed with {}", e),
        }
    }
    panic!("the stream did not end");
}

#[test]
fn chainers_that_suspend_commute() {
    let double_late = |x: i32| Delayed { waits: 2, end: Ok(2 * x) };
    let triple_later = |x: i32| Delayed { waits: 3, end: Ok(3 * x) };
    let left_then_right =
        drain(create_either_stream().and_then_left(double_late).and_then_right(triple_later));
    let right_then_left =
        drain(create_either_stream().and_then_right(triple_later).and_then_left(double_late));
    assert_eq!(left_then_right, vec![('L', 2), ('R', 6), ('L', 6), ('R', 12)]);
    assert_eq!(right_then_left, left_then_right);
}
