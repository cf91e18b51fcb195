//! Messages, errors, the actor context and the decisions of an actor's receive loop.
use crate::channels::{take_result, DelayedMessage, Singleshot};
use std::time::Duration;
use vstd::prelude::*;

verus! {

/// A message to an actor: an `Ask` carries its own reply channel, a `Tell` is answered
/// by nothing.
#[derive(Debug)]
pub enum Message<Ask, Tell> {
    Ask(Ask),
    Tell(Tell),
}

/// Error of every operation on an actor whose channel is gone.
#[derive(Debug, Clone, Copy, PartialEq, Eq, Structural)]
pub enum ActorError {
    ActorClosed,
}

/// The text that describes an `ActorError`.
pub open spec fn actor_error_text(e: ActorError) -> Seq<char> {
    match e {
        ActorError::ActorClosed => "Actor is closed"@,
    }
}

impl ActorError {
    /// The error's description, `"Actor is closed"`.
    pub fn to_string(&self) -> (s: String)
        ensures
            s@ == actor_error_text(*self),
    {
        match self {
            ActorError::ActorClosed => String::from_str("Actor is closed"),
        }
    }
}

/// tokio's error of a send on a channel whose receiver is gone.
#[verifier::external_type_specification]
#[verifier::external_body]
#[verifier::reject_recursive_types(T)]
pub struct ExSendError<T>(tokio::sync::mpsc::error::SendError<T>);

/// tokio's error of awaiting a reply whose sender was dropped.
#[verifier::external_type_specification]
#[verifier::external_body]
pub struct ExRecvError(tokio::sync::oneshot::error::RecvError);

/// A send that failed means that the actor is gone.
impl<T> From<tokio::sync::mpsc::error::SendError<T>> for ActorError {
    fn from(err: tokio::sync::mpsc::error::SendError<T>) -> (e: Self)
        ensures
            e == ActorError::ActorClosed,
    {
        ActorError::ActorClosed
    }
}

impl<T> vstd::std_specs::convert::FromSpecImpl<tokio::sync::mpsc::error::SendError<T>> for ActorError {
    open spec fn obeys_from_spec() -> bool {
        true
    }

    open spec fn from_spec(v: tokio::sync::mpsc::error::SendError<T>) -> Self {
        ActorError::ActorClosed
    }
}

/// A reply that never came means that the actor is gone.
impl From<tokio::sync::oneshot::error::RecvError> for ActorError {
    fn from(err: tokio::sync::oneshot::error::RecvError) -> (e: Self)
        ensures
            e == ActorError::ActorClosed,
    {
        ActorError::ActorClosed
    }
}

impl vstd::std_specs::convert::FromSpecImpl<tokio::sync::oneshot::error::RecvError> for ActorError {
    open spec fn obeys_from_spec() -> bool {
        true
    }

    open spec fn from_spec(v: tokio::sync::oneshot::error::RecvError) -> Self {
        ActorError::ActorClosed
    }
}

/// Any failure of a channel's send or receive means that the actor is gone.
pub open spec fn closed_on_error<T, E>(r: Result<T, E>) -> Result<T, ActorError> {
    match r {
        Ok(v) => Ok(v),
        Err(_) => Err(ActorError::ActorClosed),
    }
}

/// Maps the outcome of a channel operation to the actor's: success stays, and any error
/// (a send to a dropped receiver, a reply sender dropped unanswered) is `ActorClosed`.
pub fn close_on_error<T, E>(r: Result<T, E>) -> (res: Result<T, ActorError>)
    ensures
        res == closed_on_error(r),
{
    match r {
        Ok(v) => Ok(v),
        Err(_) => Err(ActorError::ActorClosed),
    }
}

/// Maps what a receiver hands out (a value, or `None` once every sender is gone) to
/// the actor's receive outcome.
pub fn recv_outcome<T>(v: Option<T>) -> (res: Result<T, ActorError>)
    ensures
        res == take_result(v),
{
    match v {
        Some(value) => Ok(value),
        None => Err(ActorError::ActorClosed),
    }
}

/// Why a broadcast receiver gave no value: every sender is gone, or it fell behind
/// and this many values were skipped.
#[derive(Debug, Clone, Copy, PartialEq, Eq, Structural)]
pub enum BroadcastRecvError {
    Closed,
    Lagged(u64),
}

/// Maps a broadcast receive to the actor's receive outcome: a value stays; a closed
/// channel and a lag both end the channel.
pub fn broadcast_recv_outcome<T>(r: Result<T, BroadcastRecvError>) -> (res: Result<T, ActorError>)
    ensures
        res == closed_on_error(r),
{
    match r {
        Ok(value) => Ok(value),
        Err(err) => match err {
            BroadcastRecvError::Closed => Err(ActorError::ActorClosed),
            BroadcastRecvError::Lagged(_) => Err(ActorError::ActorClosed),
        },
    }
}

/// What a message handler sees of its actor: the mailbox `rx`, the channels it added
/// during this message (polled from the next round on) and whether it asked the actor
/// to stop. `C` is the type of the extra channels.
pub struct ActorContext<R, C> {
    pub rx: R,
    pub extra_rxs: Vec<C>,
    pub kill_flag: bool,
}

impl<R, C> ActorContext<R, C> {
    pub fn new(rx: R) -> (ctx: Self)
        ensures
            ctx.rx == rx,
            ctx.extra_rxs@ == Seq::<C>::empty(),
            !ctx.kill_flag,
    {
        Self { rx, extra_rxs: Vec::new(), kill_flag: false }
    }

    /// Asks the actor to stop once the current message is handled.
    pub fn shut_down_actor(&mut self)
        ensures
            final(self).kill_flag,
            final(self).rx == old(self).rx,
            final(self).extra_rxs@ == old(self).extra_rxs@,
    {
        self.kill_flag = true;
    }

    /// Sends `msg` to the actor itself: a one-message channel with `msg` is added,
    /// as a channel of type `C`; it is polled from the next round on.
    pub fn tell<T>(&mut self, msg: T) where C: From<Singleshot<T>>
        ensures
            final(self).extra_rxs@.len() == old(self).extra_rxs@.len() + 1,
            final(self).extra_rxs@.drop_last() == old(self).extra_rxs@,
            call_ensures(
                C::from,
                (Singleshot { value: Some(msg) },),
                final(self).extra_rxs@.last(),
            ),
            final(self).rx == old(self).rx,
            final(self).kill_flag == old(self).kill_flag,
    {
        let msg = Singleshot::new(msg);
        let channel = C::from(msg);
        self.extra_rxs.push(channel);
    }

    /// Sends `msg` to the actor itself after `delay`, counted from now: a delayed
    /// message is added, as a channel of type `C`.
    pub fn delayed_tell<T>(&mut self, msg: T, delay: Duration) where C: From<DelayedMessage<T>>
        ensures
            final(self).extra_rxs@.len() == old(self).extra_rxs@.len() + 1,
            final(self).extra_rxs@.drop_last() == old(self).extra_rxs@,
            exists|d: DelayedMessage<T>|
                d.value == Some(msg) && d.delay == delay && #[trigger] call_ensures(
                    C::from,
                    (d,),
                    final(self).extra_rxs@.last(),
                ),
            final(self).rx == old(self).rx,
            final(self).kill_flag == old(self).kill_flag,
    {
        let delayed = DelayedMessage::new(msg, delay);
        let ghost made = delayed;
        let channel = C::from(delayed);
        assert(call_ensures(C::from, (made,), channel));
        self.extra_rxs.push(channel);
        assert(self.extra_rxs@.last() == channel);
    }

    /// Adds a channel whose messages the actor receives as tells.
    pub fn add_channel(&mut self, channel: C)
        ensures
            final(self).extra_rxs@ == old(self).extra_rxs@.push(channel),
            final(self).rx == old(self).rx,
            final(self).kill_flag == old(self).kill_flag,
    {
        self.extra_rxs.push(channel);
    }
}

/// What the receive loop was woken by: the mailbox, or the extra channel at an index.
pub enum LoopEvent<Ask, Tell> {
    Mailbox(Result<Message<Ask, Tell>, ActorError>),
    Extra(usize, Result<Tell, ActorError>),
}

/// What the receive loop does next: hand a mailbox message to the actor's message
/// handler, hand a value of an extra channel to its tell handler, go on polling, or stop.
#[derive(Debug)]
pub enum LoopAction<Ask, Tell> {
    HandleMessage(Message<Ask, Tell>),
    HandleTell(Tell),
    Continue,
    Stop,
}

/// `s` without its element at `i`, as `Vec::swap_remove` leaves it: the last element
/// takes the place of the removed one.
pub open spec fn swap_removed<A>(s: Seq<A>, i: int) -> Seq<A> {
    s.update(i, s.last()).drop_last()
}

/// What the loop does on `event`, given the extra channels it polls: a mailbox message
/// goes to the message handler and a closed mailbox stops the actor; a value from an
/// extra channel is a tell, and an extra channel that ends is dropped.
pub open spec fn loop_step<Ask, Tell, C>(
    channels: Seq<C>,
    event: LoopEvent<Ask, Tell>,
) -> (Seq<C>, LoopAction<Ask, Tell>) {
    match event {
        LoopEvent::Mailbox(Ok(msg)) => (channels, LoopAction::HandleMessage(msg)),
        LoopEvent::Mailbox(Err(_)) => (channels, LoopAction::Stop),
        LoopEvent::Extra(_, Ok(t)) => (channels, LoopAction::HandleTell(t)),
        LoopEvent::Extra(i, Err(_)) => (swap_removed(channels, i as int), LoopAction::Continue),
    }
}

/// The event is one that the loop can be woken by: an extra channel's index is in range.
pub open spec fn event_in_range<Ask, Tell, C>(
    channels: Seq<C>,
    event: LoopEvent<Ask, Tell>,
) -> bool {
    match event {
        LoopEvent::Extra(i, _) => i < channels.len(),
        _ => true,
    }
}

/// The state of an actor's receive loop: the extra channels that it polls besides
/// its mailbox.
pub struct ActorLoop<C> {
    pub channels: Vec<C>,
}

impl<C> ActorLoop<C> {
    /// A loop that polls the given channels besides the mailbox.
    pub fn new(channels: Vec<C>) -> (l: Self)
        ensures
            l.channels@ == channels@,
    {
        ActorLoop { channels }
    }

    /// Starts a round: the channels that the last handler added are polled from now on.
    /// Returns whether there is any extra channel to poll besides the mailbox.
    pub fn begin_round<R>(&mut self, ctx: &mut ActorContext<R, C>) -> (poll_extra: bool)
        ensures
            final(self).channels@ == old(self).channels@ + old(ctx).extra_rxs@,
            final(ctx).extra_rxs@ == Seq::<C>::empty(),
            final(ctx).rx == old(ctx).rx,
            final(ctx).kill_flag == old(ctx).kill_flag,
            poll_extra == (final(self).channels@.len() > 0),
    {
        if !ctx.extra_rxs.is_empty() {
            self.channels.append(&mut ctx.extra_rxs);
        }
        !self.channels.is_empty()
    }

    /// Decides what to do on `event`, and drops an extra channel that has ended.
    pub fn on_event<Ask, Tell>(&mut self, event: LoopEvent<Ask, Tell>) -> (action: LoopAction<
        Ask,
        Tell,
    >)
        requires
            event_in_range(old(self).channels@, event),
        ensures
            (final(self).channels@, action) == loop_step(old(self).channels@, event),
    {
        match event {
            LoopEvent::Mailbox(msg) => match msg {
                Ok(msg) => LoopAction::HandleMessage(msg),
                Err(_) => LoopAction::Stop,
            },
            LoopEvent::Extra(index, result) => match result {
                Ok(msg) => LoopAction::HandleTell(msg),
                Err(_) => {
                    self.channels.swap_remove(index);
                    LoopAction::Continue
                },
            },
        }
    }

    /// Ends a round: the loop goes on unless the handler asked the actor to stop.
    pub fn end_round<R>(ctx: &ActorContext<R, C>) -> (go_on: bool)
        ensures
            go_on == !ctx.kill_flag,
    {
        !ctx.kill_flag
    }
}

/// The loop stops on an event exactly when the mailbox has closed.
pub proof fn lemma_loop_stops_only_on_closed_mailbox<Ask, Tell, C>(
    channels: Seq<C>,
    event: LoopEvent<Ask, Tell>,
)
    ensures
        loop_step(channels, event).1 is Stop <==> (event matches LoopEvent::Mailbox(Err(_))),
{
}

/// An extra channel is dropped only when it ends, and then it alone: the other channels
/// stay, as a multiset.
pub proof fn lemma_only_ended_channel_dropped<Ask, Tell, C>(
    channels: Seq<C>,
    event: LoopEvent<Ask, Tell>,
)
    requires
        event_in_range(channels, event),
    ensures
        match event {
            LoopEvent::Extra(i, Err(_)) => {
                &&& loop_step(channels, event).0.to_multiset() == channels.to_multiset().remove(
                    channels[i as int],
                )
                &&& loop_step(channels, event).0.len() == channels.len() - 1
            },
            _ => loop_step(channels, event).0 == channels,
        },
{
    broadcast use {
        vstd::seq_lib::to_multiset_update,
        vstd::seq_lib::to_multiset_remove,
        vstd::multiset::group_multiset_axioms,
        vstd::multiset::group_multiset_properties,
    };

    match event {
        LoopEvent::Extra(i, Err(_)) => {
            let i = i as int;
            let last = channels.last();
            let t = channels.update(i, last);
            assert(t.to_multiset() == channels.to_multiset().insert(last).remove(channels[i]));
            assert(t.last() == last);
            assert(t.drop_last() == t.remove(t.len() - 1));
            assert(t.drop_last().to_multiset() == t.to_multiset().remove(t[t.len() - 1]));
            assert(t.drop_last().to_multiset() =~= channels.to_multiset().remove(channels[i]));
        },
        _ => {},
    }
}

/// A value that arrives on an extra channel is never lost: whatever the channel's index,
/// the loop hands that very value to the tell handler and keeps every channel.
pub proof fn lemma_extra_value_handed_as_tell<Ask, Tell, C>(channels: Seq<C>, i: usize, t: Tell)
    requires
        i < channels.len(),
    ensures
        loop_step(channels, LoopEvent::<Ask, Tell>::Extra(i, Ok(t))).0 == channels,
        loop_step(channels, LoopEvent::<Ask, Tell>::Extra(i, Ok(t))).1 == LoopAction::<
            Ask,
            Tell,
        >::HandleTell(t),
{
}

/// The actions of the loop on a run of events, starting from `channels`: one action per
/// event, up to and including the first `Stop`.
pub open spec fn loop_run<Ask, Tell, C>(
    channels: Seq<C>,
    events: Seq<LoopEvent<Ask, Tell>>,
) -> Seq<LoopAction<Ask, Tell>>
    decreases events.len(),
{
    if events.len() == 0 {
        Seq::empty()
    } else {
        let (next, action) = loop_step(channels, events[0]);
        if action is Stop {
            seq![action]
        } else {
            seq![action] + loop_run(next, events.drop_first())
        }
    }
}

/// The messages that a run of events brings from the mailbox, in order.
pub open spec fn mailbox_messages<Ask, Tell>(events: Seq<LoopEvent<Ask, Tell>>) -> Seq<
    Message<Ask, Tell>,
>
    decreases events.len(),
{
    if events.len() == 0 {
        Seq::empty()
    } else {
        let here = match events[0] {
            LoopEvent::Mailbox(Ok(m)) => seq![m],
            _ => Seq::empty(),
        };
        here + mailbox_messages(events.drop_first())
    }
}

/// The messages that a run of actions hands to the message handler, in order.
pub open spec fn handed_messages<Ask, Tell>(actions: Seq<LoopAction<Ask, Tell>>) -> Seq<
    Message<Ask, Tell>,
>
    decreases actions.len(),
{
    if actions.len() == 0 {
        Seq::empty()
    } else {
        let here = match actions[0] {
            LoopAction::HandleMessage(m) => seq![m],
            _ => Seq::empty(),
        };
        here + handed_messages(actions.drop_first())
    }
}

/// Whether an event says that the mailbox has closed.
pub open spec fn is_mailbox_closed<Ask, Tell>(event: LoopEvent<Ask, Tell>) -> bool {
    event matches LoopEvent::Mailbox(Err(_))
}

/// While the mailbox stays open, the loop acts on every event, never stops, and hands
/// every mailbox message to the message handler exactly once, in the order received.
pub proof fn lemma_run_hands_over_mailbox_in_order<Ask, Tell, C>(
    channels: Seq<C>,
    events: Seq<LoopEvent<Ask, Tell>>,
)
    requires
        forall|i: int| 0 <= i < events.len() ==> !is_mailbox_closed(#[trigger] events[i]),
    ensures
        loop_run(channels, events).len() == events.len(),
        handed_messages(loop_run(channels, events)) == mailbox_messages(events),
        forall|i: int|
            0 <= i < loop_run(channels, events).len() ==> !(#[trigger] loop_run(
                channels,
                events,
            )[i] is Stop),
    decreases events.len(),
{
    if events.len() > 0 {
        let (next, action) = loop_step(channels, events[0]);
        assert(!is_mailbox_closed(events[0]));
        let rest = events.drop_first();
        assert forall|i: int| 0 <= i < rest.len() implies !is_mailbox_closed(#[trigger] rest[i]) by {
            assert(rest[i] == events[i + 1]);
        }
        lemma_run_hands_over_mailbox_in_order(next, rest);
        let run = loop_run(channels, events);
        assert(run == seq![action] + loop_run(next, rest));
        assert(run.drop_first() == loop_run(next, rest));
        assert(run[0] == action);
        assert forall|i: int| 0 <= i < run.len() implies !(#[trigger] run[i] is Stop) by {
            if i > 0 {
                assert(run[i] == loop_run(next, rest)[i - 1]);
            }
        }
    }
}

/// When the mailbox closes, the loop stops right there: it acts on every event up to
/// that one, ends with `Stop`, and has handed over exactly the mailbox messages that
/// came before, in order.
pub proof fn lemma_run_stops_when_mailbox_closes<Ask, Tell, C>(
    channels: Seq<C>,
    events: Seq<LoopEvent<Ask, Tell>>,
    k: int,
)
    requires
        0 <= k < events.len(),
        is_mailbox_closed(events[k]),
        forall|i: int| 0 <= i < k ==> !is_mailbox_closed(#[trigger] events[i]),
    ensures
        loop_run(channels, events).len() == k + 1,
        loop_run(channels, events)[k] is Stop,
        handed_messages(loop_run(channels, events)) == mailbox_messages(events.take(k)),
    decreases k,
{
    let (next, action) = loop_step(channels, events[0]);
    let run = loop_run(channels, events);
    let rest = events.drop_first();
    if k == 0 {
        assert(action is Stop);
        assert(run == seq![action]);
        assert(events.take(0) == Seq::<LoopEvent<Ask, Tell>>::empty());
        assert(run.drop_first() == Seq::<LoopAction<Ask, Tell>>::empty());
        assert(handed_messages(Seq::<LoopAction<Ask, Tell>>::empty()) == Seq::<Message<Ask, Tell>>::empty());
        assert(mailbox_messages(Seq::<LoopEvent<Ask, Tell>>::empty()) == Seq::<Message<Ask, Tell>>::empty());
        assert(handed_messages(run) =~= Seq::<Message<Ask, Tell>>::empty());
    } else {
        assert(!is_mailbox_closed(events[0]));
        assert(rest[k - 1] == events[k]);
        assert forall|i: int| 0 <= i < k - 1 implies !is_mailbox_closed(#[trigger] rest[i]) by {
            assert(rest[i] == events[i + 1]);
        }
        lemma_run_stops_when_mailbox_closes(next, rest, k - 1);
        assert(run == seq![action] + loop_run(next, rest));
        assert(run.drop_first() == loop_run(next, rest));
        assert(run[0] == action);
        assert(run[k] == loop_run(next, rest)[k - 1]);
        assert(events.take(k)[0] == events[0]);
        assert(events.take(k).drop_first() == rest.take(k - 1));
        assert(events.take(k).len() > 0);
        assert(handed_messages(run) == (match action {
            LoopAction::HandleMessage(m) => seq![m],
            _ => Seq::empty(),
        }) + handed_messages(loop_run(next, rest)));
        assert(mailbox_messages(events.take(k)) == (match events[0] {
            LoopEvent::Mailbox(Ok(m)) => seq![m],
            _ => Seq::empty(),
        }) + mailbox_messages(rest.take(k - 1)));
    }
}

/// The values that a run of events brings from the extra channels, in order.
pub open spec fn extra_values<Ask, Tell>(events: Seq<LoopEvent<Ask, Tell>>) -> Seq<Tell>
    decreases events.len(),
{
    if events.len() == 0 {
        Seq::empty()
    } else {
        let here = match events[0] {
            LoopEvent::Extra(_, Ok(t)) => seq![t],
            _ => Seq::empty(),
        };
        here + extra_values(events.drop_first())
    }
}

/// The values that a run of actions hands to the tell handler, in order.
pub open spec fn handed_tells<Ask, Tell>(actions: Seq<LoopAction<Ask, Tell>>) -> Seq<Tell>
    decreases actions.len(),
{
    if actions.len() == 0 {
        Seq::empty()
    } else {
        let here = match actions[0] {
            LoopAction::HandleTell(t) => seq![t],
            _ => Seq::empty(),
        };
        here + handed_tells(actions.drop_first())
    }
}

/// While the mailbox stays open, every value that arrives on any extra channel is handed
/// to the tell handler exactly once, in the order received.
pub proof fn lemma_run_hands_over_every_tell<Ask, Tell, C>(
    channels: Seq<C>,
    events: Seq<LoopEvent<Ask, Tell>>,
)
    requires
        forall|i: int| 0 <= i < events.len() ==> !is_mailbox_closed(#[trigger] events[i]),
    ensures
        handed_tells(loop_run(channels, events)) == extra_values(events),
    decreases events.len(),
{
    if events.len() > 0 {
        let (next, action) = loop_step(channels, events[0]);
        assert(!is_mailbox_closed(events[0]));
        let rest = events.drop_first();
        assert forall|i: int| 0 <= i < rest.len() implies !is_mailbox_closed(#[trigger] rest[i]) by {
            assert(rest[i] == events[i + 1]);
        }
        lemma_run_hands_over_every_tell(next, rest);
        let run = loop_run(channels, events);
        assert(run == seq![action] + loop_run(next, rest));
        assert(run.drop_first() == loop_run(next, rest));
        assert(run[0] == action);
    }
}

} // verus!
