use lakka::{ActorError, DelayedMessage, IntervalMessage, Intervaller, RecvPoll, Singleshot};
use std::time::Duration;

#[test]
fn test() {
    #[derive(Debug, Clone, PartialEq)]
    pub struct Keke(u32);

    pub enum Test {
        Asd(IntervalMessage<Keke>),
    }

    let asd = Intervaller::new(Duration::from_secs(1), Test::Asd, Keke(15));
    let enummi = asd.construct();
    let Test::Asd(IntervalMessage { msg, .. }) = enummi;
    assert_eq!(msg, Keke(15))
}

#[test]
fn singleshot_delivers_once() {
    let mut s = Singleshot::new(7u8);
    assert_eq!(s.value, Some(7));
    assert_eq!(s.recv(), Ok(7));
    assert_eq!(s.value, None);
    assert_eq!(s.recv(), Err(ActorError::ActorClosed));
    assert_eq!(s.recv(), Err(ActorError::ActorClosed));
}

#[test]
fn delayed_message_waits_then_delivers_once() {
    let before = tokio::time::Instant::now();
    let mut d = DelayedMessage::new("hi", Duration::from_millis(5));
    assert_eq!(d.delay, Duration::from_millis(5));
    assert!(d.start >= before && d.start <= tokio::time::Instant::now());
    assert!(matches!(d.poll(false), RecvPoll::Pending));
    assert_eq!(d.value, Some("hi"));
    assert!(matches!(d.poll(true), RecvPoll::Ready(Ok("hi"))));
    assert!(matches!(d.poll(true), RecvPoll::Ready(Err(ActorError::ActorClosed))));
    assert!(matches!(d.poll(false), RecvPoll::Pending));
}

#[test]
fn interval_message_starts_at_zero() {
    let m = IntervalMessage::new('x');
    assert_eq!(m.msg, 'x');
    assert_eq!(m.counter, 0);
}

#[test]
fn intervaller_counts_ticks() {
    let before = tokio::time::Instant::now();
    let mut iv = Intervaller::new(Duration::from_millis(10), |m: IntervalMessage<&str>| (m.msg, m.counter), "tick");
    assert_eq!(iv.period(), Duration::from_millis(10));
    assert!(iv.start() >= before);
    assert_eq!(iv.counter(), 0);
    assert!(matches!(iv.recv(false), RecvPoll::Pending));
    assert!(matches!(iv.recv(true), RecvPoll::Ready(Ok(("tick", 0)))));
    assert!(matches!(iv.recv(true), RecvPoll::Ready(Ok(("tick", 1)))));
    assert_eq!(iv.construct(), ("tick", 2));
    assert!(matches!(iv.recv(true), RecvPoll::Ready(Ok(("tick", 2)))));
}

#[test]
fn intervaller_with_a_limit_is_closed() {
    let mut iv = Intervaller::new_with_limit(
        Duration::from_millis(10),
        |m: IntervalMessage<u8>| m.counter,
        1u8,
        Some(5),
    );
    assert!(matches!(iv.recv(true), RecvPoll::Ready(Err(ActorError::ActorClosed))));
    assert!(matches!(iv.recv(false), RecvPoll::Ready(Err(ActorError::ActorClosed))));
    assert_eq!(iv.construct(), 0);
}

#[test]
fn delays_and_intervals_start_where_told() {
    let start = tokio::time::Instant::now() + Duration::from_secs(2);
    let d = DelayedMessage::starting_at(5u8, Duration::from_millis(7), start);
    assert_eq!(d.value, Some(5));
    assert_eq!(d.delay, Duration::from_millis(7));
    assert_eq!(d.start, start);
    let iv = Intervaller::new_with_limit_at(
        Duration::from_millis(3),
        |m: IntervalMessage<u8>| m.counter,
        0u8,
        None,
        start,
    );
    assert_eq!(iv.start(), start);
    assert_eq!(iv.period(), Duration::from_millis(3));
    assert_eq!(iv.counter(), 0);
}
