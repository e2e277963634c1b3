use std::time::Duration;

use binky::address::{Address, InternalAddress};
use binky::agent::{local_only, resolve_step, ResolveStep};
use binky::bridge::message::{writer_output, ReaderMessage, WriterMessage};
use binky::bridge::{
    client_on_answer, client_opening, incoming_value, read_timeout, reader_step, server_on_existing,
    server_on_negotiation, session_key_from_raw, ClientAnswer, ReaderAction, ReaderEvent, ServerStep,
};
use binky::error::BinkyError;
use binky::request::{resolve_answer, CallbackValue, Processed};
use binky::retry::{timeout, RetryCount, Sleep};
use binky::serializer::Serializer;
use binky::storage::agents::{Key, KeyKind, RemoteKey};
use binky::value::{Outgoing, RemoteVal};

#[test]
fn serializer_bytes() {
    assert_eq!(Serializer::try_from(0u8).unwrap(), Serializer::Json);
    assert_eq!(Serializer::try_from(1u8).unwrap(), Serializer::Postcard);
    assert!(matches!(Serializer::try_from(7u8), Err(BinkyError::InvalidSerializer(7))));
    assert_eq!(Serializer::Postcard.code(), 1);
}

#[test]
fn key_encodings() {
    assert_eq!(&*Serializer::Json.serialize_key(1234).unwrap(), b"1234");
    assert_eq!(&*Serializer::Postcard.serialize_key(300).unwrap(), &[0xac, 0x02]);
    assert_eq!(Serializer::Json.deserialize_key(b"77").unwrap(), 77);
    assert_eq!(Serializer::Postcard.deserialize_key(&[0x7f]).unwrap(), 127);
    assert!(matches!(Serializer::Json.deserialize_key(b"x"), Err(BinkyError::SerdeJson(_))));
    assert!(matches!(Serializer::Postcard.deserialize_key(&[0x80]), Err(BinkyError::Postcard(_))));
}

#[test]
fn remote_value_next_serializes_sender() {
    let sender = Key::from_raw(12);
    let recipient = RemoteKey::new(b"9".to_vec().into_boxed_slice());
    let initial = RemoteVal::new(
        b"payload".to_vec().into_boxed_slice(),
        sender,
        Key::new(0, KeyKind::Session),
        recipient.clone(),
    );
    let out = initial.next(Serializer::Postcard);
    assert_eq!(&*out.value, b"payload");
    assert_eq!(out.recipient, recipient);
    assert_eq!(out.sender.as_bytes(), &[12]);
    assert_eq!(out.reply_serializer, 1);
}

#[test]
fn writer_output_per_message() {
    assert!(writer_output(WriterMessage::Shutdown, Serializer::Json).is_none());
    let msg = WriterMessage::AddressResponse { callback: 3, address: None };
    assert!(matches!(writer_output(msg, Serializer::Json), Some(ReaderMessage::AddressResponse { callback: 3, address: None })));
    let value = RemoteVal::new(vec![1].into_boxed_slice(), Key::from_raw(4), Key::from_raw(0), RemoteKey::new(vec![2].into_boxed_slice()));
    match writer_output(WriterMessage::Value(value), Serializer::Json) {
        Some(ReaderMessage::Value(out)) => assert_eq!(out.sender.as_bytes(), b"4"),
        _ => panic!(),
    }
}

#[test]
fn negotiation_steps() {
    let session = session_key_from_raw(5);
    assert_eq!(session, Key::new(5, KeyKind::Session));
    assert_eq!(client_opening(Some(session)), (1, Some(session.raw())));
    assert_eq!(client_opening(None), (2, None));
    assert_eq!(client_on_answer(3), ClientAnswer::Keep);
    assert_eq!(client_on_answer(4), ClientAnswer::ReadNewKey);
    assert_eq!(client_on_answer(1), ClientAnswer::Invalid);
    assert_eq!(server_on_negotiation(1), ServerStep::ReadExistingKey);
    assert_eq!(server_on_negotiation(2), ServerStep::CreateSession);
    assert_eq!(server_on_negotiation(0), ServerStep::Invalid);
    assert_eq!(server_on_existing(true), (3, false));
    assert_eq!(server_on_existing(false), (4, true));
    // a session key survives the trip through its raw value
    assert_eq!(session_key_from_raw(session.raw()), session);
}

#[test]
fn incoming_values_name_their_remote_sender() {
    let session = Key::new(1, KeyKind::Session);
    let out = Outgoing {
        value: vec![9].into_boxed_slice(),
        recipient: RemoteKey::new(b"0".to_vec().into_boxed_slice()),
        sender: RemoteKey::new(b"6".to_vec().into_boxed_slice()),
        reply_serializer: 0,
    };
    let inc = incoming_value(out, session).unwrap();
    assert_eq!(
        inc.sender,
        Address(InternalAddress::Remote {
            local_session_key: session,
            remote_address: RemoteKey::new(b"6".to_vec().into_boxed_slice()),
            remote_serializer: Serializer::Json,
        })
    );
    let bad = Outgoing {
        value: vec![].into_boxed_slice(),
        recipient: RemoteKey::new(vec![].into_boxed_slice()),
        sender: RemoteKey::new(vec![].into_boxed_slice()),
        reply_serializer: 9,
    };
    assert!(matches!(incoming_value(bad, session), Err(BinkyError::InvalidSerializer(9))));
}

#[test]
fn retry_counts_down_then_stops() {
    let mut t = timeout().duration_ms(10).retries(2);
    assert_eq!(t.next_delay().unwrap(), Duration::from_millis(10));
    assert_eq!(t.next_delay().unwrap(), Duration::from_millis(10));
    assert!(matches!(t.next_delay(), Err(BinkyError::NoRetry)));
    // the default strategy does not sleep: its one retry still succeeds, at once
    let mut t = timeout();
    assert_eq!(t.next_delay().unwrap(), Duration::ZERO);
    assert!(matches!(t.next_delay(), Err(BinkyError::NoRetry)));
    assert!(matches!(t.next_delay(), Err(BinkyError::NoRetry)));
}

#[test]
fn retries_without_sleep_are_spent_one_by_one() {
    let mut t = timeout().retries(3);
    for _ in 0..3 {
        assert_eq!(t.next_delay().unwrap(), Duration::ZERO);
    }
    assert!(matches!(t.next_delay(), Err(BinkyError::NoRetry)));
    // no jitter is drawn for a strategy that does not sleep, even from an empty range
    let mut t = timeout().jitter_ms(5..5).retries(1);
    assert!(t.sleep_defined());
    assert_eq!(t.next_delay().unwrap(), Duration::ZERO);
    let mut t = timeout().retries(0).jitter_ms(5..5).duration_ms(1);
    assert!(t.sleep_defined());
    assert!(matches!(t.next_delay(), Err(BinkyError::NoRetry)));
}

#[test]
fn forever_without_sleep_never_runs_out() {
    let mut t = timeout().forever();
    for _ in 0..100 {
        assert_eq!(t.next_delay().unwrap(), Duration::ZERO);
    }
}

#[test]
fn retry_linear_exponential_and_jitter() {
    let mut t = timeout().linear(Duration::from_millis(10), Duration::from_millis(5)).forever();
    assert_eq!(t.next_delay().unwrap(), Duration::from_millis(10));
    assert_eq!(t.next_delay().unwrap(), Duration::from_millis(15));
    assert_eq!(t.next_delay().unwrap(), Duration::from_millis(20));
    let mut t = timeout().exponential(Duration::from_millis(3)).retries(3);
    assert_eq!(t.next_delay().unwrap(), Duration::from_millis(3));
    assert_eq!(t.next_delay().unwrap(), Duration::from_millis(6));
    assert_eq!(t.next_delay().unwrap(), Duration::from_millis(12));
    let mut t = timeout().duration_ms(100).jitter_ms(5..6);
    assert_eq!(t.next_delay_with_jitter(5).unwrap(), Duration::from_millis(105));
    let mut t = timeout().duration_ms(100).jitter_ms(1..3).retries(50);
    for _ in 0..50 {
        let d = t.next_delay().unwrap();
        assert!(d >= Duration::from_millis(101) && d < Duration::from_millis(103));
    }
    let _ = (RetryCount::Never, Sleep::NoSleep);
}

#[test]
fn resolve_with_retry_steps() {
    let mut t = timeout().duration_ms(1).retries(1);
    let k = Key::new(2, KeyKind::Agent);
    assert!(matches!(resolve_step(Ok(k), &mut t), ResolveStep::Resolved(x) if x == k));
    assert!(matches!(resolve_step(Err(BinkyError::AddressNotFound), &mut t), ResolveStep::Wait(d) if d == Duration::from_millis(1)));
    assert!(matches!(resolve_step(Err(BinkyError::AddressNotFound), &mut t), ResolveStep::Fail(BinkyError::NoRetry)));
    assert!(matches!(resolve_step(Err(BinkyError::Flume), &mut t), ResolveStep::Fail(BinkyError::Flume)));
    // a strategy that cannot sleep is never consulted while lookups succeed or fail otherwise
    let mut bad = timeout().duration(Duration::MAX).jitter_ms(1..2);
    assert!(!bad.sleep_defined());
    assert!(matches!(resolve_step(Ok(k), &mut bad), ResolveStep::Resolved(x) if x == k));
    assert!(matches!(resolve_step(Err(BinkyError::Flume), &mut bad), ResolveStep::Fail(BinkyError::Flume)));
}

#[test]
fn resolve_with_retry_resolves_after_misses() {
    let k = Key::new(4, KeyKind::Agent);
    let mut t = timeout().duration_ms(7).retries(3);
    let lookups = [Err(BinkyError::AddressNotFound), Err(BinkyError::AddressNotFound), Ok(k)];
    let mut waits = 0;
    let mut resolved = None;
    for lookup in lookups {
        match resolve_step(lookup, &mut t) {
            ResolveStep::Wait(d) => {
                assert_eq!(d, Duration::from_millis(7));
                waits += 1;
            }
            ResolveStep::Resolved(x) => resolved = Some(x),
            ResolveStep::Fail(_) => panic!("gave up too early"),
        }
    }
    assert_eq!(waits, 2);
    assert_eq!(resolved, Some(k));
    let mut t = timeout().duration_ms(7).retries(1);
    assert!(matches!(resolve_step(Err(BinkyError::AddressNotFound), &mut t), ResolveStep::Wait(_)));
    assert!(matches!(resolve_step(Err(BinkyError::AddressNotFound), &mut t), ResolveStep::Fail(BinkyError::NoRetry)));
}

#[test]
fn addresses_and_requests() {
    let k = Key::new(1, KeyKind::Agent);
    let local = Address::local(k);
    assert_eq!(local.local_key(), Some(k));
    assert_eq!(local.track_target(), k);
    let session = Key::new(2, KeyKind::Session);
    let remote = Address(InternalAddress::Remote {
        local_session_key: session,
        remote_address: RemoteKey::new(vec![1].into_boxed_slice()),
        remote_serializer: Serializer::Json,
    });
    assert_eq!(remote.track_target(), session);
    assert!(matches!(local_only(&remote, BinkyError::LocalOnly), Err(BinkyError::LocalOnly)));
    assert_eq!(local_only(&local, BinkyError::LocalOnly).unwrap(), k);
    assert_eq!(InternalAddress::from(7u64), InternalAddress::Local(Key::from_raw(7)));
    assert!(matches!(resolve_answer(None), CallbackValue::Resolve(Err(BinkyError::AddressNotFound))));
    let rk = RemoteKey::new(vec![3].into_boxed_slice());
    assert!(matches!(resolve_answer(Some(rk.clone())), CallbackValue::Resolve(Ok(x)) if x == rk));
    let (v, rest) = Processed((1u8, 2u8)).take();
    assert_eq!(v, (1, 2));
    assert_eq!(rest.0, ());
    assert_eq!(*Processed(5).value(), 5);
}

#[test]
fn sleep_defined_catches_overflow_and_empty_jitter() {
    assert!(timeout().duration_ms(5).sleep_defined());
    #[allow(clippy::reversed_empty_ranges)]
    let empty = timeout().duration_ms(5).jitter_ms(3..3);
    assert!(!empty.sleep_defined());
    assert!(!timeout().exponential(Duration::MAX).sleep_defined());
    assert!(!timeout().linear(Duration::MAX, Duration::from_nanos(1)).sleep_defined());
    assert!(timeout().linear(Duration::from_secs(1), Duration::from_secs(1)).sleep_defined());
    assert!(!timeout().duration(Duration::MAX).jitter_ms(1..2).sleep_defined());
    assert!(timeout().duration(Duration::MAX).jitter_ms(0..1).sleep_defined());
}

#[test]
fn frames_carry_their_length() {
    let frame = binky::bridge::frame::frame_message(&[7, 8, 9]);
    assert_eq!(frame, vec![0, 0, 0, 3, 7, 8, 9]);
    assert_eq!(binky::bridge::frame::frame_header(0x0102_0304), [1, 2, 3, 4]);
    assert_eq!(binky::bridge::frame::frame_length([1, 2, 3, 4]), 0x0102_0304);
    assert_eq!(binky::bridge::frame::frame_length([0, 0, 0, 0]), 0);
    let big = vec![1u8; 300];
    let frame = binky::bridge::frame::frame_message(&big);
    assert_eq!(&frame[..4], &[0, 0, 1, 44]);
    assert_eq!(frame.len(), 304);
}

#[test]
fn reader_steps() {
    let session = Key::new(3, KeyKind::Session);
    let writer = Key::new(4, KeyKind::Writer);
    for event in [ReaderEvent::TimedOut, ReaderEvent::Closed, ReaderEvent::ReadFailed] {
        assert!(matches!(reader_step(event, session, writer), Ok(ReaderAction::Stop { remove_writer }) if remove_writer == writer));
    }
    assert!(matches!(reader_step(ReaderEvent::Heartbeat, session, writer), Ok(ReaderAction::Continue)));
    assert!(matches!(reader_step(ReaderEvent::Undecodable, session, writer), Ok(ReaderAction::Continue)));
    assert!(matches!(reader_step(ReaderEvent::MalformedHeader, session, writer), Ok(ReaderAction::ResetFrame)));
    let request = ReaderMessage::AddressRequest { callback: 9, address: vec![1u8].into_boxed_slice() };
    assert!(matches!(reader_step(ReaderEvent::Message(request), session, writer),
        Ok(ReaderAction::ResolveFor { callback: 9, ref address }) if address.as_ref() == [1u8]));
    let response = ReaderMessage::AddressResponse { callback: 2, address: None };
    assert!(matches!(reader_step(ReaderEvent::Message(response), session, writer),
        Ok(ReaderAction::Complete { callback: 2, value: CallbackValue::Resolve(Err(BinkyError::AddressNotFound)) })));
    let value = Outgoing {
        value: vec![5u8].into_boxed_slice(),
        recipient: RemoteKey::new(vec![1u8].into_boxed_slice()),
        sender: RemoteKey::new(vec![2u8].into_boxed_slice()),
        reply_serializer: 1,
    };
    match reader_step(ReaderEvent::Message(ReaderMessage::Value(value)), session, writer) {
        Ok(ReaderAction::Forward(incoming)) => {
            assert_eq!(incoming.value.as_ref(), [5u8]);
            assert_eq!(incoming.recipient.as_bytes(), [1u8]);
        }
        _ => panic!(),
    }
    let bad = Outgoing {
        value: vec![].into_boxed_slice(),
        recipient: RemoteKey::new(vec![].into_boxed_slice()),
        sender: RemoteKey::new(vec![].into_boxed_slice()),
        reply_serializer: 7,
    };
    assert!(matches!(reader_step(ReaderEvent::Message(ReaderMessage::Value(bad)), session, writer), Err(BinkyError::InvalidSerializer(7))));
    assert_eq!(read_timeout(Some(Duration::from_secs(3))), Duration::from_secs(3));
    assert_eq!(read_timeout(None), Duration::MAX);
}
