use binky::slab::keys::{AgentKey, BaseKey, Key, RemoteKey, SessionKey, WriterKey};
use binky::slab::Slab;
use binky::serializer::Serializer;

#[test]
fn mod_index() {
    let mut key = BaseKey::new(0);
    key.set_gen(u16::MAX);
    key.set_index(123);

    assert_eq!(key.index(), 123);
    assert_eq!(key.gen(), u16::MAX);
}

#[test]
fn mod_insert() {
    let mut slab = Slab::new();
    let k1 = slab.insert(1);
    let k2 = slab.insert(2);

    assert_eq!(k1, BaseKey::new(0));
    assert_eq!(k2, BaseKey::new(1));
}

#[test]
fn mod_get() {
    let mut slab = Slab::new();
    let k1 = slab.insert(1);

    assert_eq!(*slab.get(k1).unwrap(), 1);
}

#[test]
fn mod_remove() {
    let mut slab = Slab::new();
    let k1 = slab.insert(1);
    assert_eq!(slab.remove(k1).unwrap(), 1);
    assert_eq!(slab.next_key().unwrap(), k1.bump());
}

#[test]
fn mod_remove_many() {
    let mut slab = Slab::new();
    let k1 = slab.insert(1);
    let k2 = slab.insert(2);
    let k3 = slab.insert(3);

    slab.remove(k1);
    slab.remove(k2);
    slab.remove(k3);

    assert_eq!(slab.next_key().unwrap(), k3.bump());
}

#[test]
fn slab_key_reused_after_remove_is_stale() {
    let mut slab = Slab::new();
    let k1 = slab.insert("a");
    assert_eq!(slab.remove(k1), Some("a"));
    let k2 = slab.insert("b");
    assert_eq!(k2.index(), k1.index());
    assert_eq!(k2.gen(), 1);
    assert!(slab.get(k1).is_none());
    assert_eq!(*slab.get(k2).unwrap(), "b");
    assert_eq!(slab.count(), 1);
}

#[test]
fn slab_remove_past_end_is_none() {
    let mut slab: Slab<u8> = Slab::new();
    assert!(slab.remove(BaseKey::new(5)).is_none());
    assert!(slab.next_key().is_none());
}

#[test]
fn typed_key_bump_merges_generation() {
    // the generation is merged with OR: 1 | 2 == 3
    let k = BaseKey::new(1u64 << 48);
    assert_eq!(k.gen(), 1);
    assert_eq!(k.bump().gen(), 3);
    // an even generation is incremented
    let k = BaseKey::new(2u64 << 48 | 7);
    assert_eq!(k.bump().gen(), 3);
    assert_eq!(k.bump().index(), 7);
}

#[test]
fn typed_key_conversions_keep_raw() {
    let a: AgentKey = AgentKey::from(42u64);
    let b: BaseKey = a.into();
    let w: WriterKey = a.into();
    let s: SessionKey = w.into();
    assert_eq!(b.consume(), 42);
    assert_eq!(u64::from(s), 42);
    let back: AgentKey = s.into();
    assert_eq!(back, a);
}

#[test]
fn session_key_to_bytes_is_big_endian() {
    let s = SessionKey::from(0x0102_0304_0506_0708u64);
    assert_eq!(s.to_bytes(), [1, 2, 3, 4, 5, 6, 7, 8]);
}

#[test]
fn typed_remote_key_roundtrip() {
    let a = AgentKey::from(300u64);
    let json = RemoteKey::from_key(a, Serializer::Json);
    assert_eq!(json.as_bytes(), b"300");
    assert_eq!(json.try_to_key(Serializer::Json), Some(a));
    assert_eq!(json.to_key(Serializer::Json), a);
    let post = RemoteKey::from_key(a, Serializer::Postcard);
    assert_eq!(post.as_bytes(), &[0xac, 0x02]);
    assert_eq!(post.try_to_key(Serializer::Postcard), Some(a));
    let bad = RemoteKey::new(b"nope".to_vec().into_boxed_slice());
    assert_eq!(bad.try_to_key(Serializer::Json), None);
}

#[allow(dead_code)]
fn key_type_is_generic(_k: Key<binky::slab::keys::Base>) {}
