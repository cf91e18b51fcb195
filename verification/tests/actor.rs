use lakka::actor::{
    broadcast_recv_outcome, close_on_error, recv_outcome, ActorContext, ActorLoop,
    BroadcastRecvError, LoopAction, LoopEvent,
};
use lakka::{ActorError, DelayedMessage, Message, Singleshot};
use std::time::Duration;

/// The extra channels of these tests: the library's own, or a user's (named by a char).
enum TestChannel {
    Once(Singleshot<u8>),
    Delayed(DelayedMessage<u8>),
    Custom(char),
}

impl From<Singleshot<u8>> for TestChannel {
    fn from(s: Singleshot<u8>) -> Self {
        TestChannel::Once(s)
    }
}

impl From<DelayedMessage<u8>> for TestChannel {
    fn from(d: DelayedMessage<u8>) -> Self {
        TestChannel::Delayed(d)
    }
}

#[test]
fn actor_error_text() {
    assert_eq!(ActorError::ActorClosed.to_string(), "Actor is closed");
}

#[test]
fn send_error_means_closed() {
    let (tx, rx) = tokio::sync::mpsc::channel::<u8>(1);
    drop(rx);
    let err = tx.try_send(1).err().unwrap();
    let send_err = match err {
        tokio::sync::mpsc::error::TrySendError::Closed(v) => tokio::sync::mpsc::error::SendError(v),
        _ => unreachable!(),
    };
    assert_eq!(ActorError::from(send_err), ActorError::ActorClosed);
}

#[test]
fn dropped_reply_means_closed() {
    let (tx, rx) = tokio::sync::oneshot::channel::<u8>();
    drop(tx);
    let err = rx.blocking_recv().unwrap_err();
    assert_eq!(ActorError::from(err), ActorError::ActorClosed);
}

#[test]
fn outcome_mappings() {
    assert_eq!(close_on_error::<u8, &str>(Ok(3)), Ok(3));
    assert_eq!(close_on_error::<u8, &str>(Err("gone")), Err(ActorError::ActorClosed));
    assert_eq!(recv_outcome(Some(4u8)), Ok(4));
    assert_eq!(recv_outcome::<u8>(None), Err(ActorError::ActorClosed));
    assert_eq!(broadcast_recv_outcome::<u8>(Ok(5)), Ok(5));
    assert_eq!(broadcast_recv_outcome::<u8>(Err(BroadcastRecvError::Closed)), Err(ActorError::ActorClosed));
    assert_eq!(broadcast_recv_outcome::<u8>(Err(BroadcastRecvError::Lagged(3))), Err(ActorError::ActorClosed));
}

#[test]
fn message_kinds() {
    let m: Message<u8, char> = Message::Ask(1);
    assert!(matches!(m, Message::Ask(1)));
    let m: Message<u8, char> = Message::Tell('t');
    assert!(matches!(m, Message::Tell('t')));
}

#[test]
fn context_registers_channels() {
    let mut ctx: ActorContext<&str, TestChannel> = ActorContext::new("mailbox");
    assert_eq!(ctx.rx, "mailbox");
    assert!(ctx.extra_rxs.is_empty());
    assert!(!ctx.kill_flag);
    ctx.tell(1u8);
    let before = tokio::time::Instant::now();
    ctx.delayed_tell(2u8, Duration::from_millis(3));
    ctx.add_channel(TestChannel::Custom('c'));
    assert_eq!(ctx.extra_rxs.len(), 3);
    assert!(matches!(&ctx.extra_rxs[0], TestChannel::Once(s) if s.value == Some(1)));
    assert!(matches!(&ctx.extra_rxs[1], TestChannel::Delayed(d)
        if d.value == Some(2) && d.delay == Duration::from_millis(3) && d.start >= before));
    assert!(matches!(&ctx.extra_rxs[2], TestChannel::Custom('c')));
    assert!(!ctx.kill_flag);
    ctx.shut_down_actor();
    assert!(ctx.kill_flag);
    assert_eq!(ctx.extra_rxs.len(), 3);
}

#[test]
fn loop_adopts_registered_channels() {
    let mut ctx: ActorContext<(), char> = ActorContext::new(());
    let mut lp: ActorLoop<char> = ActorLoop::new(vec!['a', 'b']);
    assert_eq!(lp.channels, vec!['a', 'b']);
    ctx.add_channel('c');
    assert!(lp.begin_round(&mut ctx));
    assert!(ctx.extra_rxs.is_empty());
    assert_eq!(lp.channels, vec!['a', 'b', 'c']);
}

#[test]
fn loop_without_extra_channels_polls_only_the_mailbox() {
    let mut ctx: ActorContext<(), char> = ActorContext::new(());
    let mut lp: ActorLoop<char> = ActorLoop::new(vec![]);
    assert!(!lp.begin_round(&mut ctx));
}

#[test]
fn loop_routes_events() {
    let mut lp: ActorLoop<char> = ActorLoop::new(vec!['a', 'b', 'c']);
    let a = lp.on_event::<i32, u8>(LoopEvent::Mailbox(Ok(Message::Ask(10))));
    assert!(matches!(a, LoopAction::HandleMessage(Message::Ask(10))));
    let a = lp.on_event::<i32, u8>(LoopEvent::Mailbox(Ok(Message::Tell(11))));
    assert!(matches!(a, LoopAction::HandleMessage(Message::Tell(11))));
    let a = lp.on_event::<i32, u8>(LoopEvent::Extra(1, Ok(12)));
    assert!(matches!(a, LoopAction::HandleTell(12)));
    assert_eq!(lp.channels.len(), 3);
    let a = lp.on_event::<i32, u8>(LoopEvent::Extra(0, Err(ActorError::ActorClosed)));
    assert!(matches!(a, LoopAction::Continue));
    assert_eq!(lp.channels, vec!['c', 'b']);
    let a = lp.on_event::<i32, u8>(LoopEvent::Mailbox(Err(ActorError::ActorClosed)));
    assert!(matches!(a, LoopAction::Stop));
    assert_eq!(lp.channels, vec!['c', 'b']);
}

#[test]
fn loop_ends_after_shut_down() {
    let mut ctx: ActorContext<(), char> = ActorContext::new(());
    assert!(ActorLoop::<char>::end_round(&ctx));
    ctx.shut_down_actor();
    assert!(!ActorLoop::<char>::end_round(&ctx));
}

#[test]
fn told_message_is_handled_once_then_dropped() {
    let mut ctx: ActorContext<(), TestChannel> = ActorContext::new(());
    let mut lp: ActorLoop<TestChannel> = ActorLoop::new(vec![]);
    ctx.tell(9u8);
    assert!(lp.begin_round(&mut ctx));
    let first = match &mut lp.channels[0] {
        TestChannel::Once(s) => s.recv(),
        _ => unreachable!(),
    };
    assert!(matches!(lp.on_event::<(), u8>(LoopEvent::Extra(0, first)), LoopAction::HandleTell(9)));
    let second = match &mut lp.channels[0] {
        TestChannel::Once(s) => s.recv(),
        _ => unreachable!(),
    };
    assert!(matches!(lp.on_event::<(), u8>(LoopEvent::Extra(0, second)), LoopAction::Continue));
    assert!(lp.channels.is_empty());
}

#[test]
fn run_hands_over_mailbox_messages_in_order_until_closed() {
    let mut lp: ActorLoop<char> = ActorLoop::new(vec!['x']);
    let events: Vec<LoopEvent<u8, u8>> = vec![
        LoopEvent::Mailbox(Ok(Message::Tell(1))),
        LoopEvent::Extra(0, Ok(7)),
        LoopEvent::Mailbox(Ok(Message::Ask(2))),
        LoopEvent::Mailbox(Ok(Message::Tell(3))),
        LoopEvent::Mailbox(Err(ActorError::ActorClosed)),
        LoopEvent::Mailbox(Ok(Message::Tell(4))),
    ];
    let mut handed = Vec::new();
    let mut stopped = false;
    for event in events {
        match lp.on_event(event) {
            LoopAction::HandleMessage(Message::Tell(t)) => handed.push(('t', t)),
            LoopAction::HandleMessage(Message::Ask(a)) => handed.push(('a', a)),
            LoopAction::HandleTell(_) | LoopAction::Continue => {}
            LoopAction::Stop => {
                stopped = true;
                break;
            }
        }
    }
    assert!(stopped);
    assert_eq!(handed, vec![('t', 1), ('a', 2), ('t', 3)]);
}
