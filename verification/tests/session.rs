use std::time::Duration;

use binky::bridge::message::{SessionMessage, WriterMessage};
use binky::queue::Queue;
use binky::router::session::{Expiration, Session, SessionAction, SessionNegotiation};
use binky::storage::agents::{Key, KeyKind};

fn request(callback: u64) -> WriterMessage {
    WriterMessage::AddressRequest { callback, address: vec![1u8].into_boxed_slice() }
}

#[test]
fn session_forwards_while_writing() {
    let writer = Key::new(1, KeyKind::Writer);
    let mut session = Session::new(Expiration::never(), writer, 100);
    match session.step(SessionMessage::Writer(request(1))) {
        SessionAction::Forward { writer: w, msg: WriterMessage::AddressRequest { callback: 1, .. } } => {
            assert_eq!(w, writer)
        }
        _ => panic!(),
    }
    assert!(matches!(session.step(SessionMessage::SessionPing), SessionAction::Continue));
    assert!(matches!(session.step(SessionMessage::CloseWriter), SessionAction::RemoveWriter(k) if k == writer));
}

#[test]
fn session_backlogs_until_writer_returns() {
    let writer = Key::new(1, KeyKind::Writer);
    let mut session = Session::new(Expiration::after(Duration::from_secs(300)), writer, 100);
    // another agent's removal changes nothing
    assert!(matches!(session.step(SessionMessage::AgentRemoved(Key::new(2, KeyKind::Writer))), SessionAction::Continue));
    assert!(matches!(session.step(SessionMessage::Writer(request(1))), SessionAction::Forward { .. }));
    assert!(matches!(session.step(SessionMessage::AgentRemoved(writer)), SessionAction::Continue));
    assert!(matches!(session.step(SessionMessage::Writer(request(2))), SessionAction::Continue));
    assert!(matches!(session.step(SessionMessage::Writer(request(3))), SessionAction::Continue));
    // not expired yet
    assert!(matches!(session.step(SessionMessage::SessionPing), SessionAction::Continue));
    let new_writer = Key::new(3, KeyKind::Writer);
    match session.step(SessionMessage::WriterReturned(new_writer)) {
        SessionAction::Flush { writer: w, msgs } => {
            assert_eq!(w, new_writer);
            let callbacks: Vec<u64> = msgs
                .iter()
                .map(|m| match m {
                    WriterMessage::AddressRequest { callback, .. } => *callback,
                    _ => panic!(),
                })
                .collect();
            assert_eq!(callbacks, vec![2, 3]);
        }
        _ => panic!(),
    }
    match session.step(SessionMessage::WriterReturned(new_writer)) {
        SessionAction::Flush { msgs, .. } => assert!(msgs.is_empty()),
        _ => panic!(),
    }
}

#[test]
fn session_expires_while_logging() {
    let writer = Key::new(1, KeyKind::Writer);
    let mut session = Session::new(Expiration::after(Duration::from_millis(0)), writer, 10);
    assert!(matches!(session.step(SessionMessage::AgentRemoved(writer)), SessionAction::Continue));
    let start = std::time::Instant::now();
    while start.elapsed() < Duration::from_millis(2) {}
    assert!(matches!(session.step(SessionMessage::SessionPing), SessionAction::Expire));
}

#[test]
fn expiration_never_and_after() {
    let never = Expiration::never();
    assert!(!never.has_expired());
    assert!(!never.expired_after(&Duration::from_secs(1_000_000)));
    let mut after = Expiration::after(Duration::from_secs(60));
    assert!(!after.has_expired());
    assert!(after.expired_after(&Duration::from_secs(61)));
    assert!(!after.expired_after(&Duration::from_secs(60)));
    after.renew();
    assert!(!after.has_expired());
}

#[test]
fn negotiation_bytes() {
    assert_eq!(SessionNegotiation::from(1), SessionNegotiation::HasExistingSession);
    assert_eq!(SessionNegotiation::from(2), SessionNegotiation::RequestNewSession);
    assert_eq!(SessionNegotiation::from(3), SessionNegotiation::ValidSession);
    assert_eq!(SessionNegotiation::from(4), SessionNegotiation::InvalidSession);
    assert_eq!(SessionNegotiation::from(9), SessionNegotiation::InvalidSessionNegotiation);
    assert_eq!(SessionNegotiation::default(), SessionNegotiation::InvalidSessionNegotiation);
    assert_eq!(SessionNegotiation::ValidSession.code(), 3);
}

#[test]
fn queue_push_pop() {
    let mut queue = Queue::with_capacity(4);
    queue.push(1);
    queue.push(2);
    assert_eq!(queue.pop(), Some(1));
    assert_eq!(queue.pop(), Some(2));
    assert_eq!(queue.pop(), None);
}

#[test]
fn queue_drops_oldest_when_buffer_fills() {
    let mut queue = Queue::with_capacity(3);
    queue.push_with_capacity(1, 4);
    queue.push_with_capacity(2, 4);
    queue.push_with_capacity(3, 4);
    // one more would fill a buffer of four: the oldest goes first
    queue.push_with_capacity(4, 4);
    assert_eq!(queue.pop(), Some(2));
    assert_eq!(queue.pop(), Some(3));
    assert_eq!(queue.pop(), Some(4));
    assert_eq!(queue.pop(), None);
}

#[test]
fn ping_expires_by_elapsed_time() {
    let writer = Key::new(1, KeyKind::Writer);
    let mut session = Session::new(Expiration::after(Duration::from_secs(60)), writer, 10);
    // writing: a ping never expires the session
    assert!(matches!(session.step_with(SessionMessage::SessionPing, 10, &Duration::from_secs(61)), SessionAction::Continue));
    assert!(matches!(session.step(SessionMessage::AgentRemoved(writer)), SessionAction::Continue));
    assert!(matches!(session.step_with(SessionMessage::SessionPing, 10, &Duration::from_secs(60)), SessionAction::Continue));
    assert!(matches!(session.step_with(SessionMessage::SessionPing, 10, &Duration::from_secs(61)), SessionAction::Expire));
    let mut never = Session::new(Expiration::never(), writer, 10);
    assert!(matches!(never.step(SessionMessage::AgentRemoved(writer)), SessionAction::Continue));
    assert!(matches!(never.step_with(SessionMessage::SessionPing, 10, &Duration::MAX), SessionAction::Continue));
    assert!(matches!(never.step(SessionMessage::SessionPing), SessionAction::Continue));
}

#[test]
fn backlog_with_room_replays_every_message_in_order() {
    let writer = Key::new(1, KeyKind::Writer);
    let mut session = Session::new(Expiration::never(), writer, 100);
    assert!(matches!(session.step(SessionMessage::AgentRemoved(writer)), SessionAction::Continue));
    for callback in 0..50 {
        assert!(matches!(session.step(SessionMessage::Writer(request(callback))), SessionAction::Continue));
    }
    assert_eq!(session.backlog_len(), 50);
    match session.step(SessionMessage::WriterReturned(Key::new(2, KeyKind::Writer))) {
        SessionAction::Flush { msgs, .. } => {
            let callbacks: Vec<u64> = msgs
                .iter()
                .map(|m| match m {
                    WriterMessage::AddressRequest { callback, .. } => *callback,
                    _ => panic!(),
                })
                .collect();
            assert_eq!(callbacks, (0..50).collect::<Vec<u64>>());
        }
        _ => panic!(),
    }
}

#[test]
fn queue_keeps_everything_below_capacity() {
    let mut queue = Queue::with_capacity(8);
    for v in 0..6 {
        queue.push(v);
    }
    for v in 0..6 {
        assert_eq!(queue.pop(), Some(v));
    }
    assert_eq!(queue.pop(), None);
}

#[test]
fn two_messages_reach_the_returning_writer() {
    let writer = Key::new(1, KeyKind::Writer);
    let mut session = Session::new(Expiration::never(), writer, 3);
    assert!(matches!(session.step(SessionMessage::AgentRemoved(writer)), SessionAction::Continue));
    assert!(matches!(session.step(SessionMessage::Writer(request(1))), SessionAction::Continue));
    assert!(matches!(session.step(SessionMessage::Writer(request(2))), SessionAction::Continue));
    match session.step(SessionMessage::WriterReturned(Key::new(5, KeyKind::Writer))) {
        SessionAction::Flush { msgs, .. } => {
            let callbacks: Vec<u64> = msgs
                .iter()
                .map(|m| match m {
                    WriterMessage::AddressRequest { callback, .. } => *callback,
                    _ => panic!(),
                })
                .collect();
            assert_eq!(callbacks, vec![1, 2]);
        }
        _ => panic!(),
    }
}
