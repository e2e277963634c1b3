use vstd::prelude::*;
use vstd::std_specs::convert::FromSpec;
use vstd::std_specs::convert::FromSpecImpl;

use crate::serializer::{decoded_u64, encoded_u64, Serializer};

verus! {

/// The index part of a raw key (its low 48 bits).
pub open spec fn index_of(raw: u64) -> u64 {
    (raw << 16u64) >> 16u64
}

/// The generation part of a raw key (its top 16 bits).
pub open spec fn gen_of(raw: u64) -> u16 {
    (raw >> 48u64) as u16
}

/// A raw key with a generation merged into its top bits.
pub open spec fn with_gen(raw: u64, gen: u16) -> u64 {
    raw | ((gen as u64) << 48u64)
}

/// A raw key with its generation bumped by one (wrapping) and merged in.
pub open spec fn bumped(raw: u64) -> u64 {
    with_gen(raw, (gen_of(raw) + 1) as u16)
}

/// A key for accessing a value in a `Slab<T>`, tagged with what it refers to.
#[derive(Debug, Copy, Clone, PartialEq, Eq, Structural, Hash)]
pub struct Key<T>(u64, T);

/// The tag of keys that refer to any slab entry.
#[derive(Debug, Default, Copy, Clone, PartialEq, Eq, Structural, Hash)]
pub struct Base;

/// A key that refers to any slab entry.
pub type BaseKey = Key<Base>;

/// The tag of keys that refer to agents.
#[derive(Debug, Default, Copy, Clone, PartialEq, Eq, Structural, Hash)]
pub struct Agent;

/// A key for an agent in a slab.
pub type AgentKey = Key<Agent>;

/// The tag of keys that refer to a bridged connection (reader / writer pair).
#[derive(Debug, Default, Copy, Clone, PartialEq, Eq, Structural, Hash)]
pub struct Writer;

/// A key for a bridged connection in a slab.
pub type WriterKey = Key<Writer>;

/// The tag of keys that refer to sessions.
#[derive(Debug, Default, Copy, Clone, PartialEq, Eq, Structural, Hash)]
pub struct Session;

/// A key to a session in the router.
pub type SessionKey = Key<Session>;

impl<T> View for Key<T> {
    type V = u64;

    closed spec fn view(&self) -> u64 {
        self.0
    }
}

impl Key<Base> {
    /// A key from its raw representation.
    pub fn new(inner: u64) -> (r: Self)
        ensures
            r@ == inner,
    {
        Key(inner, Base)
    }
}

impl<T> Key<T> {
    /// The key with its generation bumped by one (wrapping) and merged in.
    pub fn bump(self) -> (r: Self)
        ensures
            r@ == bumped(self@),
    {
        let mut key = self;
        let old_gen = key.gen();
        let gen = old_gen.wrapping_add(1);
        assert(gen == (old_gen + 1) as u16) by (bit_vector)
            requires
                gen == if old_gen == 0xffffu16 { 0u16 } else { (old_gen + 1) as u16 },
        ;
        key.set_gen(gen);
        key
    }

    /// The index of the key.
    pub fn index(&self) -> (r: usize)
        ensures
            r == index_of(self@) as usize,
    {
        ((self.0 << 16u64) >> 16u64) as usize
    }

    /// The generation of the key.
    pub fn gen(&self) -> (r: u16)
        ensures
            r == gen_of(self@),
    {
        (self.0 >> 48u64) as u16
    }

    /// Merge an index into the key.
    pub fn set_index(&mut self, new_index: u64)
        ensures
            final(self)@ == old(self)@ | new_index,
    {
        self.0 = self.0 | new_index;
    }

    /// Merge a generation into the key.
    pub fn set_gen(&mut self, new_gen: u16)
        ensures
            final(self)@ == with_gen(old(self)@, new_gen),
    {
        self.0 = self.0 | ((new_gen as u64) << 48u64);
    }

    /// The raw representation of the key.
    pub fn consume(self) -> (r: u64)
        ensures
            r == self@,
    {
        self.0
    }
}

impl Key<Session> {
    /// The raw key as eight big-endian bytes.
    pub fn to_bytes(self) -> (r: [u8; 8])
        ensures
            r@ == seq![
                (self@ >> 56u64) as u8,
                (self@ >> 48u64) as u8,
                (self@ >> 40u64) as u8,
                (self@ >> 32u64) as u8,
                (self@ >> 24u64) as u8,
                (self@ >> 16u64) as u8,
                (self@ >> 8u64) as u8,
                self@ as u8,
            ],
    {
        let v = self.0;
        let r = [
            (v >> 56u64) as u8,
            (v >> 48u64) as u8,
            (v >> 40u64) as u8,
            (v >> 32u64) as u8,
            (v >> 24u64) as u8,
            (v >> 16u64) as u8,
            (v >> 8u64) as u8,
            v as u8,
        ];
        assert(r@ =~= seq![
            (v >> 56u64) as u8,
            (v >> 48u64) as u8,
            (v >> 40u64) as u8,
            (v >> 32u64) as u8,
            (v >> 24u64) as u8,
            (v >> 16u64) as u8,
            (v >> 8u64) as u8,
            v as u8,
        ]);
        r
    }
}

impl From<AgentKey> for BaseKey {
    fn from(value: AgentKey) -> (r: Self) {
        Key(value.0, Base)
    }
}

impl FromSpecImpl<AgentKey> for BaseKey {
    open spec fn obeys_from_spec() -> bool {
        true
    }

    closed spec fn from_spec(v: AgentKey) -> Self {
        Key(v.0, Base)
    }
}

impl From<WriterKey> for BaseKey {
    fn from(value: WriterKey) -> (r: Self) {
        Key(value.0, Base)
    }
}

impl FromSpecImpl<WriterKey> for BaseKey {
    open spec fn obeys_from_spec() -> bool {
        true
    }

    closed spec fn from_spec(v: WriterKey) -> Self {
        Key(v.0, Base)
    }
}

impl From<SessionKey> for BaseKey {
    fn from(value: SessionKey) -> (r: Self) {
        Key(value.0, Base)
    }
}

impl FromSpecImpl<SessionKey> for BaseKey {
    open spec fn obeys_from_spec() -> bool {
        true
    }

    closed spec fn from_spec(v: SessionKey) -> Self {
        Key(v.0, Base)
    }
}

impl From<BaseKey> for AgentKey {
    fn from(value: BaseKey) -> (r: Self) {
        Key(value.0, Agent)
    }
}

impl FromSpecImpl<BaseKey> for AgentKey {
    open spec fn obeys_from_spec() -> bool {
        true
    }

    closed spec fn from_spec(v: BaseKey) -> Self {
        Key(v.0, Agent)
    }
}

impl From<WriterKey> for AgentKey {
    fn from(value: WriterKey) -> (r: Self) {
        Key(value.0, Agent)
    }
}

impl FromSpecImpl<WriterKey> for AgentKey {
    open spec fn obeys_from_spec() -> bool {
        true
    }

    closed spec fn from_spec(v: WriterKey) -> Self {
        Key(v.0, Agent)
    }
}

impl From<SessionKey> for AgentKey {
    fn from(value: SessionKey) -> (r: Self) {
        Key(value.0, Agent)
    }
}

impl FromSpecImpl<SessionKey> for AgentKey {
    open spec fn obeys_from_spec() -> bool {
        true
    }

    closed spec fn from_spec(v: SessionKey) -> Self {
        Key(v.0, Agent)
    }
}

impl From<AgentKey> for WriterKey {
    fn from(value: AgentKey) -> (r: Self) {
        Key(value.0, Writer)
    }
}

impl FromSpecImpl<AgentKey> for WriterKey {
    open spec fn obeys_from_spec() -> bool {
        true
    }

    closed spec fn from_spec(v: AgentKey) -> Self {
        Key(v.0, Writer)
    }
}

impl From<WriterKey> for SessionKey {
    fn from(value: WriterKey) -> (r: Self) {
        Key(value.0, Session)
    }
}

impl FromSpecImpl<WriterKey> for SessionKey {
    open spec fn obeys_from_spec() -> bool {
        true
    }

    closed spec fn from_spec(v: WriterKey) -> Self {
        Key(v.0, Session)
    }
}

impl From<AgentKey> for SessionKey {
    fn from(value: AgentKey) -> (r: Self) {
        Key(value.0, Session)
    }
}

impl FromSpecImpl<AgentKey> for SessionKey {
    open spec fn obeys_from_spec() -> bool {
        true
    }

    closed spec fn from_spec(v: AgentKey) -> Self {
        Key(v.0, Session)
    }
}

impl From<u64> for BaseKey {
    fn from(value: u64) -> (r: Self) {
        Key(value, Base)
    }
}

impl FromSpecImpl<u64> for BaseKey {
    open spec fn obeys_from_spec() -> bool {
        true
    }

    closed spec fn from_spec(v: u64) -> Self {
        Key(v, Base)
    }
}

impl From<u64> for AgentKey {
    fn from(value: u64) -> (r: Self) {
        Key(value, Agent)
    }
}

impl FromSpecImpl<u64> for AgentKey {
    open spec fn obeys_from_spec() -> bool {
        true
    }

    closed spec fn from_spec(v: u64) -> Self {
        Key(v, Agent)
    }
}

impl From<u64> for WriterKey {
    fn from(value: u64) -> (r: Self) {
        Key(value, Writer)
    }
}

impl FromSpecImpl<u64> for WriterKey {
    open spec fn obeys_from_spec() -> bool {
        true
    }

    closed spec fn from_spec(v: u64) -> Self {
        Key(v, Writer)
    }
}

impl From<u64> for SessionKey {
    fn from(value: u64) -> (r: Self) {
        Key(value, Session)
    }
}

impl FromSpecImpl<u64> for SessionKey {
    open spec fn obeys_from_spec() -> bool {
        true
    }

    closed spec fn from_spec(v: u64) -> Self {
        Key(v, Session)
    }
}

impl<T> From<Key<T>> for u64 {
    fn from(key: Key<T>) -> (r: Self) {
        key.0
    }
}

impl<T> FromSpecImpl<Key<T>> for u64 {
    open spec fn obeys_from_spec() -> bool {
        true
    }

    closed spec fn from_spec(v: Key<T>) -> Self {
        v.0
    }
}

/// Converting a key to another tag keeps its raw value.
pub proof fn lemma_conversions_keep_raw(a: AgentKey, b: BaseKey, w: WriterKey, s: SessionKey, raw: u64)
    ensures
        <BaseKey as FromSpec<AgentKey>>::from_spec(a)@ == a@,
        <BaseKey as FromSpec<WriterKey>>::from_spec(w)@ == w@,
        <BaseKey as FromSpec<SessionKey>>::from_spec(s)@ == s@,
        <AgentKey as FromSpec<BaseKey>>::from_spec(b)@ == b@,
        <AgentKey as FromSpec<WriterKey>>::from_spec(w)@ == w@,
        <AgentKey as FromSpec<SessionKey>>::from_spec(s)@ == s@,
        <WriterKey as FromSpec<AgentKey>>::from_spec(a)@ == a@,
        <SessionKey as FromSpec<WriterKey>>::from_spec(w)@ == w@,
        <SessionKey as FromSpec<AgentKey>>::from_spec(a)@ == a@,
        <BaseKey as FromSpec<u64>>::from_spec(raw)@ == raw,
        <AgentKey as FromSpec<u64>>::from_spec(raw)@ == raw,
        <WriterKey as FromSpec<u64>>::from_spec(raw)@ == raw,
        <SessionKey as FromSpec<u64>>::from_spec(raw)@ == raw,
        <u64 as FromSpec<AgentKey>>::from_spec(a) == a@,
{
}

} // verus!

verus! {

/// Merging a generation into a key leaves its index alone; a raw value
/// below 2^48 is a key with that index and generation 0.
pub proof fn lemma_key_fields(raw: u64, g: u16)
    ensures
        index_of(with_gen(raw, g)) == index_of(raw),
        index_of(bumped(raw)) == index_of(raw),
        raw < 0x1_0000_0000_0000 ==> index_of(raw) == raw && gen_of(raw) == 0,
{
    let ng = (gen_of(raw) + 1) as u16;
    assert(index_of(with_gen(raw, g)) == index_of(raw)) by (bit_vector);
    assert(index_of(with_gen(raw, ng)) == index_of(raw)) by (bit_vector);
    assert(raw < 0x1_0000_0000_0000u64 ==> ((raw << 16u64) >> 16u64) == raw && (raw >> 48u64) as u16
        == 0u16) by (bit_vector);
}

/// Bumping a key changes its generation unless the generation is at its top
/// value; an even generation is incremented by one.
pub proof fn lemma_bump_gen(raw: u64)
    ensures
        gen_of(raw) != 0xFFFF ==> gen_of(bumped(raw)) != gen_of(raw),
        gen_of(raw) % 2 == 0 ==> gen_of(bumped(raw)) == gen_of(raw) + 1,
{
    let g = gen_of(raw);
    let ng = (g + 1) as u16;
    assert(g != 0xFFFFu16 ==> gen_of(with_gen(raw, ng)) != g) by (bit_vector)
        requires
            g == (raw >> 48u64) as u16,
            ng == (g + 1) as u16,
    ;
    assert(g % 2 == 0 ==> gen_of(with_gen(raw, ng)) == g + 1) by (bit_vector)
        requires
            g == (raw >> 48u64) as u16,
            ng == (g + 1) as u16,
    ;
}

} // verus!

verus! {

/// A serialized instance of an `AgentKey`.
/// Only `AgentKey`s are serialized and deserialized.
#[derive(Debug, PartialEq)]
pub struct RemoteKey(Box<[u8]>);

impl Clone for RemoteKey {
    fn clone(&self) -> (r: Self)
        ensures
            r.bytes() == self.bytes(),
    {
        let bytes: &[u8] = &self.0;
        RemoteKey(crate::serializer::into_boxed_bytes(vstd::slice::slice_to_vec(bytes)))
    }
}

impl RemoteKey {
    /// The serialized bytes.
    pub closed spec fn bytes(&self) -> Seq<u8> {
        self.0@
    }

    /// A remote key holding some serialized bytes.
    pub fn new(bytes: Box<[u8]>) -> (r: Self)
        ensures
            r.bytes() == bytes@,
    {
        RemoteKey(bytes)
    }

    /// The serialized bytes.
    pub fn as_bytes(&self) -> (r: &[u8])
        ensures
            r@ == self.bytes(),
    {
        &self.0
    }

    /// Serialize an agent key in the given format.
    pub fn from_key(key: AgentKey, serializer: Serializer) -> (r: Self)
        ensures
            r.bytes() == encoded_u64(serializer, key@),
    {
        match serializer.serialize_key(key.consume()) {
            Ok(bytes) => RemoteKey(bytes),
            Err(_) => {
                proof {
                    assert(false);
                }
                RemoteKey(crate::serializer::into_boxed_bytes(Vec::new()))
            },
        }
    }

    /// Deserialize the agent key, which the format must read.
    pub fn to_key(&self, serializer: Serializer) -> (r: AgentKey)
        requires
            decoded_u64(serializer, self.bytes()) is Some,
        ensures
            Some(r@) == decoded_u64(serializer, self.bytes()),
    {
        match serializer.deserialize_key(&self.0) {
            Ok(raw) => Key(raw, Agent),
            Err(_) => {
                proof {
                    assert(false);
                }
                Key(0, Agent)
            },
        }
    }

    /// Deserialize the agent key if the format reads one; a remote key made
    /// from a key in the same format reads back as that key.
    pub fn try_to_key(&self, serializer: Serializer) -> (r: Option<AgentKey>)
        ensures
            r is Some <==> decoded_u64(serializer, self.bytes()) is Some,
            r matches Some(k) ==> Some(k@) == decoded_u64(serializer, self.bytes()),
            forall|v: u64| self.bytes() == #[trigger] encoded_u64(serializer, v) ==> (r matches Some(k) && k@ == v),
    {
        match serializer.deserialize_key(&self.0) {
            Ok(_) => Some(self.to_key(serializer)),
            Err(_) => None,
        }
    }
}

} // verus!
