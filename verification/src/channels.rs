//! Channels an actor can poll besides its own mailbox: a message delivered once, a
//! message delivered once after a delay, and a message repeated on an interval.
use crate::actor::ActorError;
use std::time::Duration;
use vstd::prelude::*;

verus! {

/// tokio's clock reading.
#[verifier::external_type_specification]
#[verifier::external_body]
pub struct ExInstant(tokio::time::Instant);

/// `tokio::time::Instant::now`: the current time. Nothing is stated of it; it is the
/// clock's reading.
#[verifier::external_body]
fn clock_now() -> (t: tokio::time::Instant) {
    tokio::time::Instant::now()
}

/// The outcome of polling a channel: a received value or the channel's end, or nothing yet.
#[derive(Debug)]
pub enum RecvPoll<T> {
    Ready(Result<T, ActorError>),
    Pending,
}

/// What taking the value out of a one-message channel gives: the value while it is
/// there, `ActorClosed` once it is gone.
pub open spec fn take_result<T>(value: Option<T>) -> Result<T, ActorError> {
    match value {
        Some(v) => Ok(v),
        None => Err(ActorError::ActorClosed),
    }
}

/// A channel that delivers one value, at once, and is closed afterwards.
pub struct Singleshot<T> {
    pub value: Option<T>,
}

impl<T> Singleshot<T> {
    pub fn new(value: T) -> (s: Self)
        ensures
            s.value == Some(value),
    {
        Singleshot { value: Some(value) }
    }

    /// Receives the value: the first call gets it, every later call `ActorClosed`.
    pub fn recv(&mut self) -> (r: Result<T, ActorError>)
        ensures
            r == take_result(old(self).value),
            final(self).value is None,
    {
        match self.value.take() {
            Some(res) => Ok(res),
            None => Err(ActorError::ActorClosed),
        }
    }
}

/// A channel that delivers one value once `delay` has elapsed since `start`, and is
/// closed afterwards.
pub struct DelayedMessage<T> {
    pub value: Option<T>,
    pub delay: Duration,
    pub start: tokio::time::Instant,
}

impl<T> DelayedMessage<T> {
    /// A delayed message whose delay starts now: `start` is the clock's reading at
    /// this call.
    pub fn new(value: T, delay: Duration) -> (d: Self)
        ensures
            d.value == Some(value),
            d.delay == delay,
    {
        Self::starting_at(value, delay, clock_now())
    }

    /// A delayed message whose delay starts at `start`.
    pub fn starting_at(value: T, delay: Duration, start: tokio::time::Instant) -> (d: Self)
        ensures
            d.value == Some(value),
            d.delay == delay,
            d.start == start,
    {
        DelayedMessage { value: Some(value), delay, start }
    }

    /// Polls the channel, given whether its delay, counted from `start`, has elapsed:
    /// before that nothing
    /// happens; after it the value comes out once, and `ActorClosed` on every later poll.
    pub fn poll(&mut self, delay_elapsed: bool) -> (r: RecvPoll<T>)
        ensures
            delay_elapsed ==> r == RecvPoll::Ready(take_result(old(self).value))
                && final(self).value is None,
            !delay_elapsed ==> r is Pending && *final(self) == *old(self),
    {
        if delay_elapsed {
            match self.value.take() {
                Some(value) => RecvPoll::Ready(Ok(value)),
                None => RecvPoll::Ready(Err(ActorError::ActorClosed)),
            }
        } else {
            RecvPoll::Pending
        }
    }
}

/// A message handed out on every tick of an interval, with the number of ticks before it.
#[derive(Debug, Clone)]
pub struct IntervalMessage<T> {
    pub msg: T,
    pub counter: u32,
}

impl<T> IntervalMessage<T> {
    pub fn new(msg: T) -> (m: Self)
        ensures
            m.msg == msg,
            m.counter == 0,
    {
        Self { msg, counter: 0 }
    }
}

/// A channel that hands out `variant` applied to an `IntervalMessage` of `msg` on every
/// tick of an interval of length `period` that starts at `start` (its first tick is
/// at `start`), counting the ticks; `tick_limit` is kept as given.
#[verifier::reject_recursive_types(Variant)]
#[verifier::reject_recursive_types(Message)]
pub struct Intervaller<Variant, Message, F> where F: Fn(IntervalMessage<Message>) -> Variant {
    variant: F,
    msg: Message,
    counter: u32,
    period: Duration,
    start: tokio::time::Instant,
    tick_limit: Option<u32>,
}

impl<Variant, Message: Clone, F> Intervaller<Variant, Message, F> where
    F: Fn(IntervalMessage<Message>) -> Variant,
 {
    /// The function that wraps each `IntervalMessage` into the channel's item type.
    pub closed spec fn variant_fn(&self) -> F {
        self.variant
    }

    /// The message that every tick repeats.
    pub closed spec fn message(&self) -> Message {
        self.msg
    }

    /// The number of ticks handed out so far.
    pub closed spec fn ticks(&self) -> u32 {
        self.counter
    }

    /// The interval between ticks.
    pub closed spec fn interval_period(&self) -> Duration {
        self.period
    }

    /// The time of the first tick: when the channel was made.
    pub closed spec fn first_tick(&self) -> tokio::time::Instant {
        self.start
    }

    /// The time of the first tick, for the one who drives the ticks.
    pub fn start(&self) -> (t: tokio::time::Instant)
        ensures
            t == self.first_tick(),
    {
        self.start
    }

    /// The tick limit given at construction.
    pub closed spec fn limit(&self) -> Option<u32> {
        self.tick_limit
    }

    /// The number of ticks handed out so far.
    pub fn counter(&self) -> (c: u32)
        ensures
            c == self.ticks(),
    {
        self.counter
    }

    /// The interval's period, for the one who drives its ticks.
    pub fn period(&self) -> (p: Duration)
        ensures
            p == self.interval_period(),
    {
        self.period
    }

    pub fn new(interval: Duration, variant: F, msg: Message) -> (s: Self)
        ensures
            s.variant_fn() == variant,
            s.message() == msg,
            s.ticks() == 0,
            s.interval_period() == interval,
            s.limit() is None,
    {
        Self::new_with_limit(interval, variant, msg, None)
    }

    /// An interval channel whose first tick is at `start`.
    pub fn new_with_limit_at(
        interval: Duration,
        variant: F,
        msg: Message,
        tick_limit: Option<u32>,
        start: tokio::time::Instant,
    ) -> (s: Self)
        ensures
            s.variant_fn() == variant,
            s.message() == msg,
            s.ticks() == 0,
            s.interval_period() == interval,
            s.first_tick() == start,
            s.limit() == tick_limit,
    {
        Self { variant, msg, counter: 0, period: interval, start, tick_limit }
    }

    /// An interval channel whose first tick is now: `start` is the clock's reading at
    /// this call.
    pub fn new_with_limit(
        interval: Duration,
        variant: F,
        msg: Message,
        tick_limit: Option<u32>,
    ) -> (s: Self)
        ensures
            s.variant_fn() == variant,
            s.message() == msg,
            s.ticks() == 0,
            s.interval_period() == interval,
            s.limit() == tick_limit,
    {
        Self::new_with_limit_at(interval, variant, msg, tick_limit, clock_now())
    }

    /// Wraps a clone of the message, with the current tick count, into the item type.
    pub fn construct(&self) -> (v: Variant)
        requires
            forall|m: IntervalMessage<Message>| #[trigger] self.variant_fn().requires((m,)),
        ensures
            exists|m: Message|
                cloned(self.message(), m) && #[trigger] self.variant_fn().ensures(
                    (IntervalMessage { msg: m, counter: self.ticks() },),
                    v,
                ),
    {
        let m = self.msg.clone();
        let msg = IntervalMessage { msg: m, counter: self.counter };
        assert(self.variant_fn().requires((msg,)));
        let v = (self.variant)(msg);
        assert(cloned(self.message(), m));
        assert(self.variant_fn().ensures((IntervalMessage { msg: m, counter: self.ticks() },), v));
        v
    }

    /// Whether the channel is closed: a channel made with a tick limit is closed from
    /// the start, whatever the limit and the count.
    pub open spec fn is_closed(&self) -> bool {
        self.limit() is Some
    }

    /// Polls the channel, given whether the interval has ticked since the last
    /// delivery: a closed channel answers `ActorClosed`; an open one waits for the tick,
    /// then hands out the constructed item and counts the tick.
    pub fn recv(&mut self, ticked: bool) -> (r: RecvPoll<Variant>)
        requires
            forall|m: IntervalMessage<Message>| #[trigger] old(self).variant_fn().requires((m,)),
            !old(self).is_closed() && ticked ==> old(self).ticks() < u32::MAX,
        ensures
            final(self).variant_fn() == old(self).variant_fn(),
            final(self).message() == old(self).message(),
            final(self).interval_period() == old(self).interval_period(),
            final(self).first_tick() == old(self).first_tick(),
            final(self).limit() == old(self).limit(),
            !old(self).is_closed() ==> !(r matches RecvPoll::Ready(Err(_))),
            old(self).is_closed() ==> r == RecvPoll::<Variant>::Ready(
                Err(ActorError::ActorClosed),
            ) && final(self).ticks() == old(self).ticks(),
            !old(self).is_closed() && !ticked ==> r is Pending && final(self).ticks()
                == old(self).ticks(),
            !old(self).is_closed() && ticked ==> final(self).ticks() == old(self).ticks() + 1
                && exists|m: Message, v: Variant|
                r == RecvPoll::Ready(Ok::<Variant, ActorError>(v)) && cloned(old(self).message(), m)
                    && #[trigger] old(self).variant_fn().ensures(
                    (IntervalMessage { msg: m, counter: old(self).ticks() },),
                    v,
                ),
    {
        if self.tick_limit.is_some() {
            return RecvPoll::Ready(Err(ActorError::ActorClosed));
        }
        if !ticked {
            return RecvPoll::Pending;
        }
        let msg = self.construct();
        self.counter = self.counter + 1;
        RecvPoll::Ready(Ok(msg))
    }
}

/// A one-message channel delivers its value once: taking it yields the value, and
/// every take after that yields `ActorClosed`.
pub proof fn lemma_singleshot_delivers_once<T>(msg: T)
    ensures
        take_result(Some(msg)) == Ok::<T, ActorError>(msg),
        take_result(None::<T>) == Err::<T, ActorError>(ActorError::ActorClosed),
{
}

} // verus!
