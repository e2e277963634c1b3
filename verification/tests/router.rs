use binky::error::BinkyError;
use binky::router::{Router, RouterAction, RouterEvent};
use binky::serializer::Serializer;
use binky::storage::agents::{Key, KeyKind, RemoteKey};

fn bytes(s: &str) -> Box<[u8]> {
    s.as_bytes().to_vec().into_boxed_slice()
}

#[test]
fn new_router() {
    let router: Router<(), ()> = Router::new();
    assert_eq!(router.agent_count(), 0);
}

#[test]
fn new_agent() {
    let mut router: Router<u32, ()> = Router::new();
    let key = router.new_agent(1, Some(bytes("\"A\"")), Serializer::Json, KeyKind::Agent);
    assert_eq!(key, Key::new(0, KeyKind::Agent));
    assert_eq!(router.agent_count(), 1);
}

#[test]
fn resolve_registered_address() {
    let mut router: Router<u32, ()> = Router::new();
    let a = router.new_agent(1, Some(bytes("\"A\"")), Serializer::Json, KeyKind::Agent);
    let b = router.new_agent(2, Some(bytes("\"B\"")), Serializer::Json, KeyKind::Agent);
    assert_eq!(router.resolve(b"\"B\"").unwrap(), b);
    assert_eq!(router.resolve(b"\"A\"").unwrap(), a);
    assert!(matches!(router.resolve(b"\"C\""), Err(BinkyError::AddressNotFound)));
    assert_eq!(*router.handle(b).unwrap(), 2);
}

#[test]
fn remove_agent_drops_address_and_notifies_trackers() {
    let mut router: Router<u32, ()> = Router::new();
    let a = router.new_agent(1, Some(bytes("\"A\"")), Serializer::Json, KeyKind::Agent);
    let b = router.new_agent(2, Some(bytes("\"B\"")), Serializer::Json, KeyKind::Agent);
    let c = router.new_agent(3, None, Serializer::Json, KeyKind::Agent);
    router.track(a, b);
    router.track(c, b);
    router.remove_agent(c);
    let notified = router.remove_agent(b);
    assert_eq!(notified, vec![a]);
    assert!(router.handle(b).is_none());
    assert!(matches!(router.resolve(b"\"B\""), Err(BinkyError::AddressNotFound)));
    assert_eq!(router.agent_count(), 1);
    // removing a key past the end changes nothing
    assert!(router.remove_agent(Key::new(40, KeyKind::Agent)).is_empty());
    let a_removed = router.remove_agent(a);
    assert!(a_removed.is_empty());
    assert_eq!(router.agent_count(), 0);
}

#[test]
fn re_registering_an_address_moves_it() {
    let mut router: Router<u32, ()> = Router::new();
    let _a = router.new_agent(1, Some(bytes("x")), Serializer::Json, KeyKind::Agent);
    let b = router.new_agent(2, Some(bytes("x")), Serializer::Json, KeyKind::Agent);
    assert_eq!(router.resolve(b"x").unwrap(), b);
}

#[test]
fn callbacks_roundtrip() {
    let mut router: Router<u32, &str> = Router::new();
    let session = router.new_agent(1, None, Serializer::Postcard, KeyKind::Session);
    assert_eq!(router.register_callback(Key::new(9, KeyKind::Session), "lost"), Err("lost"));
    let id = router.register_callback(session, "reply").unwrap();
    assert_eq!(id, 0);
    assert!(router.callback_pending(id));
    assert_eq!(router.take_callback(id), Some("reply"));
    assert!(!router.callback_pending(id));
    assert_eq!(router.take_callback(7), None);
}

#[test]
fn address_response_uses_writers_format() {
    let mut router: Router<u32, ()> = Router::new();
    let json_writer = router.new_agent(1, None, Serializer::Json, KeyKind::Writer);
    let post_writer = router.new_agent(2, None, Serializer::Postcard, KeyKind::Writer);
    let found = Key::from_raw(5);
    assert_eq!(router.address_response(json_writer, Some(found)).unwrap().as_bytes(), b"5");
    assert_eq!(router.address_response(json_writer, None).unwrap().as_bytes(), b"null");
    assert_eq!(router.address_response(post_writer, Some(found)).unwrap().as_bytes(), &[1, 5]);
    assert_eq!(router.address_response(post_writer, None).unwrap().as_bytes(), &[0]);
    assert!(router.address_response(Key::new(8, KeyKind::Writer), None).is_none());
}

#[test]
fn step_routes_values_and_requests() {
    let mut router: Router<u32, u8> = Router::new();
    let RouterAction::Created(a) = router.step(RouterEvent::NewAgent {
        tx: 1,
        address: Some(bytes("\"A\"")),
        serializer: Serializer::Json,
        kind: KeyKind::Agent,
    }) else {
        panic!()
    };
    let missing = Key::new(3, KeyKind::Agent);
    assert!(matches!(router.step(RouterEvent::Value { sender: a, recipient: a }), RouterAction::Deliver(k) if k == a));
    assert!(matches!(router.step(RouterEvent::Value { sender: a, recipient: missing }), RouterAction::Drop));
    assert!(matches!(router.step(RouterEvent::LocalRequest { sender: a, recipient: missing }), RouterAction::ReplyNotFound));
    assert!(matches!(router.step(RouterEvent::ResolveLocal { address: bytes("\"A\"") }), RouterAction::ReplyKey(Ok(k)) if k == a));
    assert!(matches!(router.step(RouterEvent::GetSerializer { key: a }), RouterAction::ReplySerializer(Ok(Serializer::Json))));
    assert!(matches!(router.step(RouterEvent::SessionExists(missing)), RouterAction::ReplyExists(false)));
    assert!(matches!(router.step(RouterEvent::ResolveRemote { session: missing, reply: 4 }), RouterAction::RejectResolve(4)));
    assert!(matches!(router.step(RouterEvent::ResolveRemote { session: a, reply: 5 }), RouterAction::SendAddressRequest { session, callback: 0 } if session == a));
    assert!(matches!(router.step(RouterEvent::Callback { callback_id: 0 }), RouterAction::Complete(5)));
    let remote = RemoteKey::from_key(a, Serializer::Json);
    assert!(matches!(router.step(RouterEvent::IncomingRemoteValue { recipient: remote }), RouterAction::Deliver(k) if k == a));
    let bad = RemoteKey::new(bytes("?"));
    assert!(matches!(router.step(RouterEvent::IncomingRemoteValue { recipient: bad }), RouterAction::Malformed));
    assert!(matches!(router.step(RouterEvent::Shutdown), RouterAction::Stop));
}

#[test]
fn step_tracks_and_removes() {
    let mut router: Router<u32, u8> = Router::new();
    let a = router.new_agent(1, None, Serializer::Json, KeyKind::Agent);
    let b = router.new_agent(2, None, Serializer::Json, KeyKind::Agent);
    assert!(matches!(router.step(RouterEvent::Track { tracker: a, target: b }), RouterAction::Drop));
    assert!(router.can_remove(b));
    match router.step(RouterEvent::ValueUndelivered(b)) {
        RouterAction::Notify { removed, agents } => {
            assert_eq!(removed, b);
            assert_eq!(agents, vec![a]);
        }
        _ => panic!(),
    }
    assert!(!router.can_remove(b));
}

#[test]
fn tracker_is_notified_once_per_track() {
    let mut router: Router<u32, ()> = Router::new();
    let a = router.new_agent(1, None, Serializer::Json, KeyKind::Agent);
    let b = router.new_agent(2, None, Serializer::Json, KeyKind::Agent);
    let c = router.new_agent(3, None, Serializer::Json, KeyKind::Agent);
    router.track(a, b);
    router.track(c, b);
    router.track(a, b);
    let notified = router.remove_agent(b);
    assert_eq!(notified, vec![a, c, a]);
    // the watch list goes with the agent
    let d = router.new_agent(4, None, Serializer::Json, KeyKind::Agent);
    assert!(router.remove_agent(d).is_empty());
}

#[test]
fn run_stops_at_the_first_shutdown() {
    let mut router: Router<u32, ()> = Router::new();
    let RouterAction::Created(a) = router.step(RouterEvent::NewAgent {
        tx: 1,
        address: Some(bytes("\"A\"")),
        serializer: Serializer::Json,
        kind: KeyKind::Agent,
    }) else {
        panic!()
    };
    let events = vec![
        RouterEvent::Value { sender: a, recipient: a },
        RouterEvent::Track { tracker: a, target: a },
        RouterEvent::SessionExists(a),
        RouterEvent::Shutdown,
        RouterEvent::Value { sender: a, recipient: a },
    ];
    let mut processed = 0;
    for event in events {
        processed += 1;
        if matches!(router.step(event), RouterAction::Stop) {
            break;
        }
    }
    assert_eq!(processed, 4);
    assert_eq!(router.agent_count(), 1);
}

#[test]
fn request_to_missing_agent_is_not_found() {
    let mut router: Router<u32, ()> = Router::new();
    let a = router.new_agent(1, Some(bytes("\"A\"")), Serializer::Json, KeyKind::Agent);
    let b = router.new_agent(2, None, Serializer::Json, KeyKind::Agent);
    router.remove_agent(b);
    assert!(matches!(router.step(RouterEvent::LocalRequest { sender: a, recipient: b }), RouterAction::ReplyNotFound));
    let never = Key::new(30, KeyKind::Agent);
    assert!(matches!(router.step(RouterEvent::LocalRequest { sender: a, recipient: never }), RouterAction::ReplyNotFound));
    assert_eq!(router.agent_count(), 1);
    assert_eq!(router.resolve(b"\"A\"").unwrap(), a);
}

#[test]
fn address_resolves_until_replaced() {
    let mut router: Router<u32, ()> = Router::new();
    let a = router.new_agent(1, Some(bytes("\"A\"")), Serializer::Json, KeyKind::Agent);
    let b = router.new_agent(2, Some(bytes("\"B\"")), Serializer::Json, KeyKind::Agent);
    router.track(b, a);
    router.remove_agent(b);
    let _c = router.new_agent(3, None, Serializer::Json, KeyKind::Agent);
    assert_eq!(router.resolve(b"\"A\"").unwrap(), a);
    let d = router.new_agent(4, Some(bytes("\"A\"")), Serializer::Json, KeyKind::Agent);
    assert_eq!(router.resolve(b"\"A\"").unwrap(), d);
}
