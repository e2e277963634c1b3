use binky::serializer::Serializer;
use binky::storage::agents::{Agents, Key, KeyKind, RemoteKey};
use binky::storage::slab::Slab;

#[test]
fn agents_index() {
    let mut key = Key::new(0, KeyKind::Agent);
    key.set_gen(2);
    key.set_index(123);

    assert_eq!(key.index(), 123);
    assert_eq!(key.gen(), 2);
}

#[test]
fn agents_insert() {
    let mut slab = Agents::new();
    let k1 = slab.insert(1, KeyKind::Agent);
    let k2 = slab.insert(2, KeyKind::Agent);

    assert_eq!(k1, Key::new(0, KeyKind::Agent));
    assert_eq!(k2, Key::new(1, KeyKind::Agent));
}

#[test]
fn agents_get() {
    let mut slab = Agents::new();
    let k1 = slab.insert(1, KeyKind::Agent);

    assert_eq!(*slab.get(k1).unwrap(), 1);
}

#[test]
fn agents_remove() {
    let mut slab = Agents::new();
    let mut k1 = slab.insert(1, KeyKind::Agent);
    assert_eq!(slab.remove(k1).unwrap(), 1);
    k1.bump();
    assert_eq!(slab.next_key().unwrap(), k1);
}

#[test]
fn agents_remove_many() {
    let mut slab = Agents::new();
    let k1 = slab.insert(1, KeyKind::Agent);
    let k2 = slab.insert(2, KeyKind::Agent);
    let mut k3 = slab.insert(3, KeyKind::Agent);

    slab.remove(k1);
    slab.remove(k2);
    slab.remove(k3);

    k3.bump();
    assert_eq!(slab.next_key().unwrap(), k3);
}

#[test]
fn key_kind() {
    let mut key = Key::new(0, KeyKind::Session);
    assert_eq!(key.kind(), KeyKind::Session);

    key.set_kind(KeyKind::Writer);
    assert_eq!(key.kind(), KeyKind::Writer);

    key.set_kind(KeyKind::Session);
    assert_eq!(key.kind(), KeyKind::Session);
}

#[test]
fn bump_gen() {
    let mut key = Key::new(123, KeyKind::Session);
    key.set_gen(2);
    key.bump();
    assert_eq!(key.kind(), KeyKind::Session);
    assert_eq!(key.gen(), 3);
    assert_eq!(key.index(), 123);
}

#[test]
fn slab_insert() {
    let mut slab = Slab::new();
    let k1 = slab.insert(1);
    let k2 = slab.insert(2);

    assert_eq!(k1, 0);
    assert_eq!(k2, 1);
}

#[test]
fn slab_get() {
    let mut slab = Slab::new();
    let k1 = slab.insert(1);

    assert_eq!(*slab.get(k1).unwrap(), 1);
}

#[test]
fn slab_remove() {
    let mut slab = Slab::new();
    let k1 = slab.insert(1);
    assert_eq!(slab.remove(k1).unwrap(), 1);
    assert_eq!(slab.next_key().unwrap(), k1);
}

#[test]
fn slab_remove_many() {
    let mut slab = Slab::new();
    let k1 = slab.insert(1);
    let k2 = slab.insert(2);
    let k3 = slab.insert(3);

    slab.remove(k1);
    slab.remove(k2);
    slab.remove(k3);

    assert_eq!(slab.next_key().unwrap(), k3);
}

#[test]
fn key_layout_exact_values() {
    let key = Key::new(5, KeyKind::Writer);
    assert_eq!(key.raw(), (2u64 << 62) | 5);
    assert_eq!(key.gen(), 0);
    assert_eq!(key.index(), 5);
    let mut key = Key::new(5, KeyKind::Agent);
    key.set_gen(0x3FFF);
    assert_eq!(key.gen(), 0x3FFF);
    assert_eq!(key.kind(), KeyKind::Agent);
}

#[test]
fn agents_reuse_slot_with_new_kind_and_generation() {
    let mut agents = Agents::new();
    let a = agents.insert("a", KeyKind::Agent);
    let _b = agents.insert("b", KeyKind::Agent);
    assert_eq!(agents.remove(a), Some("a"));
    let c = agents.insert("c", KeyKind::Session);
    assert_eq!(c.index(), a.index());
    assert_eq!(c.kind(), KeyKind::Session);
    assert_eq!(c.gen(), 1);
    assert!(agents.get(a).is_none());
    assert_eq!(*agents.get(c).unwrap(), "c");
    assert_eq!(agents.count(), 2);
    assert!(agents.next_key().is_none());
}

#[test]
fn agents_stale_generation_gets_nothing() {
    let mut agents = Agents::new();
    let a = agents.insert(7u8, KeyKind::Agent);
    let mut stale = a;
    stale.set_gen(2);
    assert!(agents.get(stale).is_none());
    assert!(agents.remove(Key::new(9, KeyKind::Agent)).is_none());
    assert_eq!(agents.count(), 1);
}

#[test]
fn plain_slab_reuses_most_recently_freed() {
    let mut slab = Slab::new();
    let a = slab.insert('a');
    let b = slab.insert('b');
    slab.remove(a);
    slab.remove(b);
    assert_eq!(slab.insert('c'), b);
    assert_eq!(slab.insert('d'), a);
    assert_eq!(slab.insert('e'), 2);
    assert_eq!(slab.count(), 3);
    assert!(slab.remove(10).is_none());
}

#[test]
fn remote_key_roundtrip_in_both_formats() {
    let key = Key::new(7, KeyKind::Agent);
    for s in [Serializer::Json, Serializer::Postcard] {
        let remote = RemoteKey::from_key(key, s);
        assert_eq!(remote.to_key(s), key);
        assert_eq!(remote.try_to_key(s), Some(key));
    }
    let remote = RemoteKey::from_key(key, Serializer::Json);
    assert_eq!(remote.as_bytes(), (key.raw()).to_string().as_bytes());
}

#[test]
fn agents_reuse_freed_slots_last_first() {
    let mut slab = Agents::new();
    let k1 = slab.insert(1, KeyKind::Agent);
    let k2 = slab.insert(2, KeyKind::Agent);
    assert_eq!(slab.remove(k1), Some(1));
    assert_eq!(slab.remove(k2), Some(2));
    let x = slab.insert(10, KeyKind::Writer);
    assert_eq!(x.index(), k2.index());
    assert_eq!(x.kind(), KeyKind::Writer);
    assert_ne!(x.gen(), k2.gen());
    let y = slab.insert(20, KeyKind::Session);
    assert_eq!(y.index(), k1.index());
    assert_ne!(y.gen(), k1.gen());
    let z = slab.insert(30, KeyKind::Agent);
    assert_eq!(z.index(), 2);
    assert_eq!(z.gen(), 0);
    assert_eq!(slab.get(x), Some(&10));
    assert_eq!(slab.get(y), Some(&20));
    assert_eq!(slab.get(k1), None);
    assert_eq!(slab.get(k2), None);
}

#[test]
fn removed_key_never_reads_new_occupant() {
    let mut slab = Agents::new();
    let k = slab.insert(5, KeyKind::Agent);
    assert_eq!(slab.remove(k), Some(5));
    let k2 = slab.insert(6, KeyKind::Agent);
    assert_eq!(k2.index(), k.index());
    assert_ne!(k2, k);
    assert_eq!(slab.get(k), None);
    assert_eq!(slab.get(k2), Some(&6));
}
