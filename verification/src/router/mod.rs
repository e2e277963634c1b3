//! The message router: it owns the agents and decides where messages go.
use std::collections::HashMap;

use vstd::prelude::*;

use crate::error::{BinkyError, Result};
use crate::serializer::{decoded_u64, encoded_opt_u64, into_boxed_bytes, Serializer};
use crate::storage::agents::{
    inserted, law_insert_then_get, law_remove_then_get, occupied_count, removed, Agents, Key,
    KeyKind, RemoteKey,
};
use crate::storage::slab::Slab;

pub mod session;

verus! {

/// Whether two byte slices hold the same bytes.
pub fn bytes_eq(a: &[u8], b: &[u8]) -> (r: bool)
    ensures
        r == (a@ == b@),
{
    if a.len() != b.len() {
        return false;
    }
    let mut i: usize = 0;
    while i < a.len()
        invariant
            a@.len() == b@.len(),
            i <= a@.len(),
            forall|j: int| 0 <= j < i ==> a@[j] == b@[j],
        decreases a@.len() - i,
    {
        if a[i] != b[i] {
            return false;
        }
        i = i + 1;
    }
    assert(a@ =~= b@);
    true
}

/// A copy of some bytes.
pub fn copy_bytes(bytes: &[u8]) -> (r: Box<[u8]>)
    ensures
        r@ == bytes@,
{
    into_boxed_bytes(vstd::slice::slice_to_vec(bytes))
}

/// What the router keeps of an agent: the sending half of its channel, its
/// serialized address (if it has one) and the format it serializes with.
#[derive(Debug)]
pub struct AgentEntry<T> {
    pub tx: T,
    pub address: Option<Box<[u8]>>,
    pub serializer: Serializer,
}

/// The router's state: its agents, the addresses they registered, which agents
/// track which, the format it serializes with, and the callbacks of pending remote
/// resolutions. `T` is the sending half of an agent's channel, `C` the sending half
/// of a callback's channel.
pub struct Router<T, C> {
    agents: Agents<AgentEntry<T>>,
    addresses: Vec<(Box<[u8]>, Key)>,
    address_map: Ghost<Map<Seq<u8>, Key>>,
    tracked_by: HashMap<u64, Vec<Key>>,
    serializer: Serializer,
    callbacks: Slab<C>,
}

/// The agents of `trackers` that the router can still reach in `agents`.
pub open spec fn reachable<T>(agents: Agents<AgentEntry<T>>, trackers: Seq<Key>) -> Seq<Key> {
    trackers.filter(|k: Key| agents.lookup(k) is Some)
}

/// `after` is `before` with a new agent registered under `key`.
pub open spec fn agent_added<T, C>(
    before: Router<T, C>,
    after: Router<T, C>,
    tx: T,
    address: Option<Box<[u8]>>,
    serializer: Serializer,
    kind: KeyKind,
    key: Key,
) -> bool {
    &&& inserted(before.agents(), after.agents(), AgentEntry { tx, address, serializer }, kind, key)
    &&& after.addresses() == match address {
        Some(a) => before.addresses().insert(a@, key),
        None => before.addresses(),
    }
    &&& after.watchers() == before.watchers()
    &&& after.callbacks() == before.callbacks()
    &&& after.spec_serializer() == before.spec_serializer()
}

/// `after` is `before` with the agent that `key` reaches removed, and `notify`
/// the agents to tell about it.
pub open spec fn agent_removed<T, C>(before: Router<T, C>, after: Router<T, C>, key: Key, notify: Seq<Key>) -> bool {
    &&& removed(before.agents(), after.agents(), key, before.agents().lookup(key))
    &&& after.callbacks() == before.callbacks()
    &&& after.spec_serializer() == before.spec_serializer()
    &&& match before.agents().lookup(key) {
        None => {
            &&& notify == Seq::<Key>::empty()
            &&& after.addresses() == before.addresses()
            &&& after.watchers() == before.watchers()
        },
        Some(e) => {
            &&& notify == reachable(after.agents(), before.trackers(key))
            &&& after.addresses() == match e.address {
                Some(a) => before.addresses().remove(a@),
                None => before.addresses(),
            }
            &&& after.watchers() == before.watchers().remove(key@)
        },
    }
}

/// `after` is `before` with `tracker` added to the agents that watch `target`.
pub open spec fn tracker_added<T, C>(before: Router<T, C>, after: Router<T, C>, tracker: Key, target: Key) -> bool {
    &&& after.watchers() == before.watchers().insert(target@, before.trackers(target).push(tracker))
    &&& after.agents() == before.agents()
    &&& after.addresses() == before.addresses()
    &&& after.callbacks() == before.callbacks()
    &&& after.spec_serializer() == before.spec_serializer()
}

/// A table of keyed entries holds each key once and agrees with the map `m`.
pub open spec fn table_wf<K, V>(v: Seq<(K, V)>, m: Map<K, V>) -> bool {
    &&& forall|i: int| 0 <= i < v.len() ==> m.contains_key((#[trigger] v[i]).0) && m[v[i].0] == v[i].1
    &&& forall|k: K| #[trigger] m.contains_key(k) ==> exists|i: int| 0 <= i < v.len() && (#[trigger] v[i]).0 == k
    &&& forall|i: int, j: int|
        0 <= i < v.len() && 0 <= j < v.len() && i != j ==> (#[trigger] v[i]).0 != (#[trigger] v[j]).0
}

/// The registered addresses as a table from address bytes to keys.
pub open spec fn address_table(v: Seq<(Box<[u8]>, Key)>) -> Seq<(Seq<u8>, Key)> {
    v.map_values(|e: (Box<[u8]>, Key)| (e.0@, e.1))
}

/// Replacing the value of an entry keeps a table well formed and updates its map.
proof fn lemma_table_replace<K, V>(o: Seq<(K, V)>, m: Map<K, V>, i: int, val: V)
    requires
        table_wf(o, m),
        0 <= i < o.len(),
    ensures
        table_wf(o.update(i, (o[i].0, val)), m.insert(o[i].0, val)),
{
    let k = o[i].0;
    let v = o.update(i, (k, val));
    let m2 = m.insert(k, val);
    assert forall|b: K| #[trigger] m2.contains_key(b) implies exists|j: int| 0 <= j < v.len() && (#[trigger] v[j]).0 == b by {
        if b == k {
            assert(v[i].0 == k);
        } else {
            let j = choose|j: int| 0 <= j < o.len() && (#[trigger] o[j]).0 == b;
            assert(v[j].0 == b);
        }
    }
}

/// Appending an entry under a new key keeps a table well formed and extends its map.
proof fn lemma_table_append<K, V>(o: Seq<(K, V)>, m: Map<K, V>, k: K, val: V)
    requires
        table_wf(o, m),
        !m.contains_key(k),
    ensures
        table_wf(o.push((k, val)), m.insert(k, val)),
{
    let v = o.push((k, val));
    let m2 = m.insert(k, val);
    assert forall|b: K| #[trigger] m2.contains_key(b) implies exists|j: int| 0 <= j < v.len() && (#[trigger] v[j]).0 == b by {
        if b == k {
            assert(v[o.len() as int].0 == k);
        } else {
            let j = choose|j: int| 0 <= j < o.len() && (#[trigger] o[j]).0 == b;
            assert(v[j].0 == b);
        }
    }
}

/// Moving the last entry into the place of a removed one keeps a table well formed
/// and drops the removed key from its map.
proof fn lemma_table_swap_remove<K, V>(o: Seq<(K, V)>, m: Map<K, V>, i: int)
    requires
        table_wf(o, m),
        0 <= i < o.len(),
    ensures
        table_wf(o.update(i, o.last()).drop_last(), m.remove(o[i].0)),
{
    let k = o[i].0;
    let v = o.update(i, o.last()).drop_last();
    let m2 = m.remove(k);
    let last = o.len() - 1;
    assert forall|j: int| 0 <= j < v.len() implies m2.contains_key((#[trigger] v[j]).0) && m2[v[j].0] == v[j].1 by {
        if j == i {
            assert(v[j] == o[last]);
        } else {
            assert(v[j] == o[j]);
        }
    }
    assert forall|b: K| #[trigger] m2.contains_key(b) implies exists|j: int| 0 <= j < v.len() && (#[trigger] v[j]).0 == b by {
        let j = choose|j: int| 0 <= j < o.len() && (#[trigger] o[j]).0 == b;
        if j == last {
            assert(v[i].0 == b);
        } else {
            assert(v[j].0 == b);
        }
    }
    assert forall|a: int, b: int| 0 <= a < v.len() && 0 <= b < v.len() && a != b implies (#[trigger] v[a]).0 != (
    #[trigger] v[b]).0 by {
        let oa = if a == i { last } else { a };
        let ob = if b == i { last } else { b };
        assert(v[a] == o[oa]);
        assert(v[b] == o[ob]);
    }
}

impl<T, C> Router<T, C> {
    /// The agents of the router.
    pub closed spec fn agents(&self) -> Agents<AgentEntry<T>> {
        self.agents
    }

    /// Which agent each registered address resolves to.
    pub closed spec fn addresses(&self) -> Map<Seq<u8>, Key> {
        self.address_map@
    }

    /// The agents that watch each agent for its removal, in the order they asked,
    /// by the raw bits of the watched agent's key.
    pub closed spec fn watchers(&self) -> Map<u64, Seq<Key>> {
        self.tracked_by@.map_values(|list: Vec<Key>| list@)
    }

    /// The callbacks of pending remote resolutions.
    pub closed spec fn callbacks(&self) -> Slab<C> {
        self.callbacks
    }

    /// The format the router serializes with.
    pub closed spec fn spec_serializer(&self) -> Serializer {
        self.serializer
    }

    /// The agents that track `target`.
    pub open spec fn trackers(&self, target: Key) -> Seq<Key> {
        if self.watchers().contains_key(target@) {
            self.watchers()[target@]
        } else {
            Seq::empty()
        }
    }

    /// The router's internal tables agree with each other.
    pub closed spec fn wf(&self) -> bool {
        &&& self.agents.wf()
        &&& self.callbacks.wf()
        &&& table_wf(address_table(self.addresses@), self.address_map@)
    }

    /// A well-formed router's storages are well formed.
    pub proof fn lemma_wf_storages(&self)
        requires
            self.wf(),
        ensures
            self.agents().wf(),
            self.callbacks().wf(),
    {
    }

    /// A router without agents, addresses, trackers or callbacks, serializing as JSON.
    pub fn new() -> (r: Self)
        ensures
            r.wf(),
            r.agents().slots().len() == 0,
            r.agents().free_head() is None,
            r.addresses() == Map::<Seq<u8>, Key>::empty(),
            r.watchers() == Map::<u64, Seq<Key>>::empty(),
            r.callbacks().slots().len() == 0,
            r.callbacks().free_head() is None,
            r.spec_serializer() == Serializer::Json,
    {
        Router {
            agents: Agents::new(),
            addresses: Vec::new(),
            address_map: Ghost(Map::empty()),
            tracked_by: HashMap::new(),
            serializer: Serializer::Json,
            callbacks: Slab::new(),
        }
    }

    /// The format the router serializes with.
    pub fn serializer(&self) -> (r: Serializer)
        ensures
            r == self.spec_serializer(),
    {
        self.serializer
    }

    /// The sending half of the channel of the agent that `key` reaches.
    pub fn handle(&self, key: Key) -> (r: Option<&T>)
        ensures
            match r {
                Some(t) => self.agents().lookup(key) matches Some(e) && e.tx == *t,
                None => self.agents().lookup(key) is None,
            },
    {
        match self.agents.get(key) {
            Some(entry) => Some(&entry.tx),
            None => None,
        }
    }

    /// The format of the agent that `key` reaches (`GetSerializer`).
    pub fn serializer_of(&self, key: Key) -> (r: Result<Serializer>)
        ensures
            match self.agents().lookup(key) {
                Some(e) => r matches Ok(s) && s == e.serializer,
                None => r matches Err(e) && e is AddressNotFound,
            },
    {
        match self.agents.get(key) {
            Some(entry) => Ok(entry.serializer),
            None => Err(BinkyError::AddressNotFound),
        }
    }

    /// Whether a session (or any agent) is reachable under `key`.
    pub fn session_exists(&self, key: Key) -> (r: bool)
        ensures
            r == self.agents().lookup(key) is Some,
    {
        self.agents.get(key).is_some()
    }

    /// The number of agents.
    pub fn agent_count(&self) -> (r: usize)
        ensures
            r == occupied_count(self.agents().slots()),
    {
        self.agents.count()
    }

    /// The index of the registered address `address`, if it is registered.
    fn find_address(&self, address: &[u8]) -> (r: Option<usize>)
        requires
            self.wf(),
        ensures
            match r {
                Some(i) => i < self.addresses@.len() && self.addresses@[i as int].0@ == address@,
                None => !self.addresses().contains_key(address@),
            },
    {
        let mut i: usize = 0;
        while i < self.addresses.len()
            invariant
                i <= self.addresses@.len(),
                forall|j: int| 0 <= j < i ==> (#[trigger] self.addresses@[j]).0@ != address@,
            decreases self.addresses@.len() - i,
        {
            if bytes_eq(&self.addresses[i].0, address) {
                return Some(i);
            }
            i = i + 1;
        }
        None
    }

    /// The agent registered under `address` (`ResolveLocal`).
    pub fn resolve(&self, address: &[u8]) -> (r: Result<Key>)
        requires
            self.wf(),
        ensures
            match self.addresses().get(address@) {
                Some(k) => r matches Ok(k2) && k2 == k,
                None => r matches Err(e) && e is AddressNotFound,
            },
    {
        match self.find_address(address) {
            Some(i) => {
                assert(address_table(self.addresses@)[i as int].0 == address@);
                Ok(self.addresses[i].1)
            },
            None => Err(BinkyError::AddressNotFound),
        }
    }

    /// Register `address` for `key`, replacing any agent registered under it.
    fn register_address(&mut self, address: Box<[u8]>, key: Key)
        requires
            old(self).wf(),
        ensures
            final(self).wf(),
            final(self).addresses() == old(self).addresses().insert(address@, key),
            final(self).agents() == old(self).agents(),
            final(self).watchers() == old(self).watchers(),
            final(self).callbacks() == old(self).callbacks(),
            final(self).spec_serializer() == old(self).spec_serializer(),
    {
        let ghost a = address@;
        let ghost o = address_table(self.addresses@);
        match self.find_address(&address) {
            Some(i) => {
                let mut entry = (address, key);
                std::mem::swap(&mut self.addresses[i], &mut entry);
                proof {
                    lemma_table_replace(o, self.address_map@, i as int, key);
                    assert(address_table(self.addresses@) =~= o.update(i as int, (a, key)));
                }
            },
            None => {
                self.addresses.push((address, key));
                proof {
                    lemma_table_append(o, self.address_map@, a, key);
                    assert(address_table(self.addresses@) =~= o.push((a, key)));
                }
            },
        }
        self.address_map = Ghost(self.address_map@.insert(a, key));
    }

    /// Forget `address`.
    fn unregister_address(&mut self, address: &[u8])
        requires
            old(self).wf(),
        ensures
            final(self).wf(),
            final(self).addresses() == old(self).addresses().remove(address@),
            final(self).agents() == old(self).agents(),
            final(self).watchers() == old(self).watchers(),
            final(self).callbacks() == old(self).callbacks(),
            final(self).spec_serializer() == old(self).spec_serializer(),
    {
        let ghost o = address_table(self.addresses@);
        match self.find_address(address) {
            Some(i) => {
                let _ = self.addresses.swap_remove(i);
                proof {
                    lemma_table_swap_remove(o, self.address_map@, i as int);
                    assert(address_table(self.addresses@) =~= o.update(i as int, o.last()).drop_last());
                }
            },
            None => {
                assert(self.address_map@.remove(address@) =~= self.address_map@);
            },
        }
        self.address_map = Ghost(self.address_map@.remove(address@));
    }

    /// Let `tracker` be notified when `target` is removed (`Track`).
    pub fn track(&mut self, tracker: Key, target: Key)
        requires
            old(self).wf(),
        ensures
            final(self).wf(),
            tracker_added(*old(self), *final(self), tracker, target),
    {
        broadcast use vstd::std_specs::hash::group_hash_axioms;
        let mut list = match self.tracked_by.remove(&target.raw()) {
            Some(list) => list,
            None => Vec::new(),
        };
        list.push(tracker);
        self.tracked_by.insert(target.raw(), list);
        proof {
            assert(self.watchers() =~= old(self).watchers().insert(target@, old(self).trackers(target).push(tracker)));
        }
    }

    /// Take the watch list of `target` out of the router.
    fn take_watchers(&mut self, target: Key) -> (r: Vec<Key>)
        requires
            old(self).wf(),
        ensures
            final(self).wf(),
            r@ == old(self).trackers(target),
            final(self).watchers() == old(self).watchers().remove(target@),
            final(self).agents() == old(self).agents(),
            final(self).addresses() == old(self).addresses(),
            final(self).callbacks() == old(self).callbacks(),
            final(self).spec_serializer() == old(self).spec_serializer(),
    {
        broadcast use vstd::std_specs::hash::group_hash_axioms;
        let r = match self.tracked_by.remove(&target.raw()) {
            Some(list) => list,
            None => Vec::new(),
        };
        proof {
            assert(self.watchers() =~= old(self).watchers().remove(target@));
        }
        r
    }

    /// Register a new agent (`NewAgent`): its entry is stored, and its address,
    /// if it has one, resolves to it from now on.
    pub fn new_agent(&mut self, tx: T, address: Option<Box<[u8]>>, serializer: Serializer, kind: KeyKind) -> (key: Key)
        requires
            old(self).wf(),
        ensures
            final(self).wf(),
            agent_added(*old(self), *final(self), tx, address, serializer, kind, key),
    {
        let registered = match &address {
            Some(a) => Some(copy_bytes(a)),
            None => None,
        };
        let key = self.agents.insert(AgentEntry { tx, address, serializer }, kind);
        match registered {
            Some(a) => self.register_address(a, key),
            None => {},
        }
        key
    }

    /// Remove the agent that `key` reaches (`RemoveAgent`): its entry and its address
    /// are dropped, and the agents that tracked it and are still reachable are returned,
    /// in the order they asked, to be told of the removal. A key past the end of the
    /// storage changes nothing.
    pub fn remove_agent(&mut self, key: Key) -> (r: Vec<Key>)
        requires
            old(self).wf(),
            crate::storage::agents::slot_of(key) < old(self).agents().slots().len() ==> old(self).agents().lookup(key) is Some,
        ensures
            final(self).wf(),
            agent_removed(*old(self), *final(self), key, r@),
    {
        let entry = match self.agents.remove(key) {
            Some(entry) => entry,
            None => {
                return Vec::new();
            },
        };
        match &entry.address {
            Some(bytes) => self.unregister_address(bytes),
            None => {},
        }
        let watchers = self.take_watchers(key);
        let mut notify: Vec<Key> = Vec::new();
        let mut i: usize = 0;
        let ghost pred = |k: Key| self.agents.lookup(k) is Some;
        while i < watchers.len()
            invariant
                i <= watchers@.len(),
                notify@ == watchers@.take(i as int).filter(pred),
                pred == (|k: Key| self.agents.lookup(k) is Some),
            decreases watchers@.len() - i,
        {
            proof {
                reveal(Seq::filter);
                assert(watchers@.take(i as int + 1).drop_last() == watchers@.take(i as int));
            }
            if self.agents.get(watchers[i]).is_some() {
                notify.push(watchers[i]);
            }
            i = i + 1;
        }
        proof {
            assert(watchers@.take(i as int) == watchers@);
        }
        notify
    }

    /// Store the reply channel of a remote resolution through `session`
    /// (`ResolveRemote`): the id of the stored callback, or the reply channel back
    /// when `session` reaches no agent.
    pub fn register_callback(&mut self, session: Key, reply: C) -> (r: std::result::Result<u64, C>)
        requires
            old(self).wf(),
        ensures
            final(self).wf(),
            final(self).agents() == old(self).agents(),
            final(self).addresses() == old(self).addresses(),
            final(self).watchers() == old(self).watchers(),
            final(self).spec_serializer() == old(self).spec_serializer(),
            match old(self).agents().lookup(session) {
                None => r == std::result::Result::<u64, C>::Err(reply) && final(self).callbacks()
                    == old(self).callbacks(),
                Some(_) => r is Ok && crate::storage::slab::inserted(
                    old(self).callbacks(),
                    final(self).callbacks(),
                    reply,
                    r->Ok_0,
                ),
            },
    {
        if self.agents.get(session).is_none() {
            return Err(reply);
        }
        let id = self.callbacks.insert(reply);
        Ok(id)
    }

    /// Whether `id` names a pending callback.
    pub fn callback_pending(&self, id: u64) -> (r: bool)
        ensures
            r == self.callbacks().lookup(id) is Some,
    {
        self.callbacks.get(id).is_some()
    }

    /// Take the pending callback `id` out of the router (`Callback`).
    pub fn take_callback(&mut self, id: u64) -> (r: Option<C>)
        requires
            old(self).wf(),
            id < old(self).callbacks().slots().len() ==> old(self).callbacks().lookup(id) is Some,
        ensures
            final(self).wf(),
            crate::storage::slab::removed(old(self).callbacks(), final(self).callbacks(), id, r),
            final(self).agents() == old(self).agents(),
            final(self).addresses() == old(self).addresses(),
            final(self).watchers() == old(self).watchers(),
            final(self).spec_serializer() == old(self).spec_serializer(),
    {
        self.callbacks.remove(id)
    }

    /// The answer to a remote resolution that reaches the writer `writer`
    /// (`RespondResolveRemote`): the resolved key, or its absence, serialized in the
    /// writer's format; `None` when `writer` reaches no agent.
    pub fn address_response(&self, writer: Key, address: Option<Key>) -> (r: Option<RemoteKey>)
        ensures
            match self.agents().lookup(writer) {
                None => r is None,
                Some(e) => r matches Some(rk) && rk.bytes() == encoded_opt_u64(
                    e.serializer,
                    match address {
                        Some(k) => Some(k@),
                        None => None,
                    },
                ),
            },
    {
        let entry = match self.agents.get(writer) {
            Some(entry) => entry,
            None => return None,
        };
        let raw = match address {
            Some(k) => Some(k.raw()),
            None => None,
        };
        match entry.serializer.serialize_opt_key(raw) {
            Ok(bytes) => Some(RemoteKey::new(bytes)),
            Err(_) => None,
        }
    }

    /// The local agent a value from a remote router is for (`IncomingRemoteValue`):
    /// the recipient key is read in the router's format, which must read it.
    pub fn incoming_recipient(&self, recipient: &RemoteKey) -> (r: Option<Key>)
        requires
            decoded_u64(self.spec_serializer(), recipient.bytes()) is Some,
        ensures
            exists|k: Key|
                Some(k@) == decoded_u64(self.spec_serializer(), recipient.bytes()) && (if self.agents().lookup(
                    k,
                ) is Some {
                    r == Some(k)
                } else {
                    r is None
                }),
    {
        let key = recipient.to_key(self.serializer);
        if self.agents.get(key).is_some() {
            Some(key)
        } else {
            None
        }
    }

    /// Like `incoming_recipient`, but `None` when the router's format does not read
    /// the recipient key at all.
    pub fn try_incoming_recipient(&self, recipient: &RemoteKey) -> (r: Option<Option<Key>>)
        ensures
            r is None <==> decoded_u64(self.spec_serializer(), recipient.bytes()) is None,
            r matches Some(inner) ==> exists|k: Key|
                Some(k@) == decoded_u64(self.spec_serializer(), recipient.bytes()) && (if self.agents().lookup(
                    k,
                ) is Some {
                    inner == Some(k)
                } else {
                    inner is None
                }),
    {
        match recipient.try_to_key(self.serializer) {
            Some(_) => Some(self.incoming_recipient(recipient)),
            None => None,
        }
    }
}

} // verus!

verus! {

/// An agent registered under an address is what the address resolves to, and its
/// key reaches its entry (for a new slot, while the index fits in 48 bits).
pub proof fn law_register_then_resolve<T, C>(
    before: Router<T, C>,
    after: Router<T, C>,
    tx: T,
    address: Box<[u8]>,
    serializer: Serializer,
    kind: KeyKind,
    key: Key,
)
    requires
        before.wf(),
        agent_added(before, after, tx, Some(address), serializer, kind, key),
        before.agents().free_head() is None ==> before.agents().slots().len() < 0x1_0000_0000_0000,
    ensures
        after.addresses().get(address@) == Some(key),
        after.agents().lookup(key) == Some(AgentEntry { tx, address: Some(address), serializer }),
{
    before.lemma_wf_storages();
    law_insert_then_get(
        before.agents(),
        after.agents(),
        AgentEntry { tx, address: Some(address), serializer },
        kind,
        key,
    );
}

/// Once an agent is removed, its key reaches nothing and its address no longer resolves.
pub proof fn law_remove_then_resolve<T, C>(
    before: Router<T, C>,
    after: Router<T, C>,
    key: Key,
    notify: Seq<Key>,
    address: Box<[u8]>,
)
    requires
        before.wf(),
        agent_removed(before, after, key, notify),
        before.agents().lookup(key) matches Some(e) && e.address == Some(address),
    ensures
        after.agents().lookup(key) is None,
        after.addresses().get(address@) is None,
{
    before.lemma_wf_storages();
    law_remove_then_get(before.agents(), after.agents(), key, before.agents().lookup(key));
}

/// An agent that tracks another is told when the other is removed, as long as
/// the router still reaches it.
pub proof fn law_track_then_remove_notifies<T, C>(
    s0: Router<T, C>,
    s1: Router<T, C>,
    s2: Router<T, C>,
    tracker: Key,
    target: Key,
    notify: Seq<Key>,
)
    requires
        tracker_added(s0, s1, tracker, target),
        s1.agents().lookup(target) is Some,
        agent_removed(s1, s2, target, notify),
        s2.agents().lookup(tracker) is Some,
    ensures
        notify.contains(tracker),
        !s2.watchers().contains_key(target@),
{
    let trackers = s1.trackers(target);
    assert(trackers.last() == tracker);
    broadcast use vstd::seq_lib::group_filter_ensures;
    assert(trackers[trackers.len() - 1] == tracker);
    trackers.lemma_filter_contains(|k: Key| s2.agents().lookup(k) is Some, trackers.len() - 1);
}

/// How often `a` occurs in `s`.
pub open spec fn occurrences(s: Seq<Key>, a: Key) -> nat
    decreases s.len(),
{
    if s.len() == 0 {
        0
    } else {
        occurrences(s.drop_last(), a) + if s.last() == a {
            1nat
        } else {
            0nat
        }
    }
}

/// Keeping the agents the router reaches keeps every occurrence of one it reaches.
proof fn lemma_reachable_occurrences<T>(agents: Agents<AgentEntry<T>>, s: Seq<Key>, a: Key)
    requires
        agents.lookup(a) is Some,
    ensures
        occurrences(reachable(agents, s), a) == occurrences(s, a),
    decreases s.len(),
{
    reveal(Seq::filter);
    if s.len() > 0 {
        lemma_reachable_occurrences(agents, s.drop_last(), a);
        let sub = reachable(agents, s.drop_last());
        if agents.lookup(s.last()) is Some {
            assert(sub.push(s.last()).drop_last() == sub);
        }
    }
}

/// A removed agent's trackers are told of the removal once for each time they
/// asked to track it, as long as the router still reaches them; the others are
/// not told at all.
pub proof fn law_notified_once_per_track<T, C>(
    s1: Router<T, C>,
    s2: Router<T, C>,
    target: Key,
    notify: Seq<Key>,
    a: Key,
)
    requires
        s1.agents().lookup(target) is Some,
        agent_removed(s1, s2, target, notify),
    ensures
        s2.agents().lookup(a) is Some ==> occurrences(notify, a) == occurrences(s1.trackers(target), a),
        s2.agents().lookup(a) is None ==> !notify.contains(a),
{
    if s2.agents().lookup(a) is Some {
        lemma_reachable_occurrences(s2.agents(), s1.trackers(target), a);
    } else {
        broadcast use vstd::seq_lib::group_filter_ensures;
    }
}

/// Each request to track an agent adds one to how often the tracker is listed.
pub proof fn law_track_adds_one<T, C>(s0: Router<T, C>, s1: Router<T, C>, tracker: Key, target: Key)
    requires
        tracker_added(s0, s1, tracker, target),
    ensures
        occurrences(s1.trackers(target), tracker) == occurrences(s0.trackers(target), tracker) + 1,
{
    assert(s1.trackers(target).drop_last() == s0.trackers(target));
}

/// `states` and `actions` are the router taking `events` one after the other.
pub open spec fn router_run<T, C>(
    states: Seq<Router<T, C>>,
    events: Seq<RouterEvent<T, C>>,
    actions: Seq<RouterAction<C>>,
) -> bool {
    &&& states.len() == events.len() + 1
    &&& actions.len() == events.len()
    &&& forall|i: int|
        0 <= i < events.len() ==> #[trigger] router_stepped(states[i], states[i + 1], events[i], actions[i])
}

/// The router stops at the first `Shutdown` and at nothing before it, and the
/// shutdown leaves it as it was.
pub proof fn law_run_stops_at_shutdown<T, C>(
    states: Seq<Router<T, C>>,
    events: Seq<RouterEvent<T, C>>,
    actions: Seq<RouterAction<C>>,
    k: int,
)
    requires
        router_run(states, events, actions),
        0 <= k < events.len(),
        events[k] is Shutdown,
        forall|i: int| 0 <= i < k ==> !(#[trigger] events[i] is Shutdown),
    ensures
        forall|i: int| 0 <= i < k ==> !(#[trigger] actions[i] is Stop),
        actions[k] is Stop,
        states[k + 1] == states[k],
{
    assert forall|i: int| 0 <= i < k implies !(#[trigger] actions[i] is Stop) by {
        assert(router_stepped(states[i], states[i + 1], events[i], actions[i]));
    }
    assert(router_stepped(states[k], states[k + 1], events[k], actions[k]));
}

/// Whether `event` removes an agent under a key with the raw bits of `b`.
pub open spec fn removes<T, C>(event: RouterEvent<T, C>, b: Key) -> bool {
    match event {
        RouterEvent::RemoveAgent(k) => k@ == b@,
        RouterEvent::RemoveWriter(k) => k@ == b@,
        RouterEvent::ValueUndelivered(k) => k@ == b@,
        _ => false,
    }
}

/// How many of `events` ask for `a` to track the agent under the raw bits of `b`.
pub open spec fn tracks_of<T, C>(events: Seq<RouterEvent<T, C>>, a: Key, b: Key) -> nat
    decreases events.len(),
{
    if events.len() == 0 {
        0
    } else {
        tracks_of(events.drop_last(), a, b) + if events.last() matches RouterEvent::Track { tracker, target }
            && tracker == a && target@ == b@ {
            1nat
        } else {
            0nat
        }
    }
}

/// Along a run in which `b` is not removed, `a` is listed among the trackers of
/// `b` once more for each request to track it.
proof fn lemma_run_trackers<T, C>(
    states: Seq<Router<T, C>>,
    events: Seq<RouterEvent<T, C>>,
    actions: Seq<RouterAction<C>>,
    a: Key,
    b: Key,
    i: int,
)
    requires
        router_run(states, events, actions),
        0 <= i < states.len(),
        forall|j: int| 0 <= j < i ==> !removes(#[trigger] events[j], b),
    ensures
        occurrences(states[i].trackers(b), a) == occurrences(states[0].trackers(b), a) + tracks_of(
            events.take(i),
            a,
            b,
        ),
    decreases i,
{
    if i > 0 {
        let j = i - 1;
        lemma_run_trackers(states, events, actions, a, b, j);
        assert(router_stepped(states[j], states[j + 1], events[j], actions[j]));
        assert(!removes(events[j], b));
        assert(events.take(i).drop_last() == events.take(j));
        assert(events.take(i).last() == events[j]);
        let before = states[j];
        let after = states[j + 1];
        match events[j] {
            RouterEvent::Track { tracker, target } => {
                if target@ == b@ {
                    assert(after.trackers(b) == before.trackers(b).push(tracker));
                    assert(after.trackers(b).drop_last() == before.trackers(b));
                } else {
                    assert(after.trackers(b) == before.trackers(b));
                }
            },
            _ => {
                assert(after.trackers(b) == before.trackers(b));
            },
        }
    }
}

/// Across any run of router messages: when `b` is removed, a tracker `a` that
/// the router still reaches is told once for each time it was listed before the
/// run and each request of the run to track `b`; `b`'s slot is freed and its
/// address no longer resolves.
pub proof fn law_tracking_across_a_run<T, C>(
    states: Seq<Router<T, C>>,
    events: Seq<RouterEvent<T, C>>,
    actions: Seq<RouterAction<C>>,
    a: Key,
    b: Key,
    k: int,
)
    requires
        router_run(states, events, actions),
        0 <= k < events.len(),
        events[k] matches RouterEvent::RemoveAgent(kb) && kb == b,
        forall|j: int| 0 <= j < k ==> !removes(#[trigger] events[j], b),
        states[k].agents().lookup(b) is Some,
        states[k + 1].agents().lookup(a) is Some,
    ensures
        actions[k] matches RouterAction::Notify { removed, agents } && removed == b && occurrences(
            agents@,
            a,
        ) == occurrences(states[0].trackers(b), a) + tracks_of(events.take(k), a, b),
        states[k + 1].agents().lookup(b) is None,
        states[k].agents().lookup(b) matches Some(e) && e.address matches Some(x) ==> states[k
            + 1].addresses().get(x@) is None,
{
    lemma_run_trackers(states, events, actions, a, b, k);
    assert(router_stepped(states[k], states[k + 1], events[k], actions[k]));
    let agents = actions[k]->Notify_agents;
    law_notified_once_per_track(states[k], states[k + 1], b, agents@, a);
}

/// A local request for a key that reaches no agent is answered with
/// `AddressNotFound`, and the router stays as it was.
pub proof fn law_request_to_missing_agent<T, C>(
    before: Router<T, C>,
    after: Router<T, C>,
    sender: Key,
    recipient: Key,
    r: RouterAction<C>,
)
    requires
        router_stepped(before, after, RouterEvent::LocalRequest { sender, recipient }, r),
        before.agents().lookup(recipient) is None,
    ensures
        r is ReplyNotFound,
        after == before,
{
}

/// Whether `event` leaves the registration of `address` alone: it registers no
/// agent under it and removes no agent registered with it.
pub open spec fn keeps_address<T, C>(before: Router<T, C>, event: RouterEvent<T, C>, address: Seq<u8>) -> bool {
    match event {
        RouterEvent::NewAgent { address: registered, .. } => !(registered matches Some(x) && x@ == address),
        RouterEvent::RemoveAgent(k) => !(before.agents().lookup(k) matches Some(e) && e.address matches Some(
            x,
        ) && x@ == address),
        RouterEvent::RemoveWriter(k) => !(before.agents().lookup(k) matches Some(e) && e.address matches Some(
            x,
        ) && x@ == address),
        RouterEvent::ValueUndelivered(k) => !(before.agents().lookup(k) matches Some(e)
            && e.address matches Some(x) && x@ == address),
        _ => true,
    }
}

/// An address keeps resolving to the same agent across any run of router
/// messages until one registers another agent under it or removes an agent
/// registered with it.
pub proof fn law_address_resolves_until_replaced<T, C>(
    states: Seq<Router<T, C>>,
    events: Seq<RouterEvent<T, C>>,
    actions: Seq<RouterAction<C>>,
    address: Seq<u8>,
    g: Key,
    k: int,
)
    requires
        router_run(states, events, actions),
        0 <= k < states.len(),
        states[0].addresses().get(address) == Some(g),
        forall|j: int| 0 <= j < k ==> #[trigger] keeps_address(states[j], events[j], address),
    ensures
        states[k].addresses().get(address) == Some(g),
    decreases k,
{
    if k > 0 {
        let j = k - 1;
        law_address_resolves_until_replaced(states, events, actions, address, g, j);
        assert(router_stepped(states[j], states[j + 1], events[j], actions[j]));
        assert(keeps_address(states[j], events[j], address));
    }
}

/// Messages go where they are addressed: a value or a local request for an agent
/// the router reaches is delivered to that recipient, whoever sent it, and a value
/// for a remote agent is handed to the session it goes through while that session
/// is reached; otherwise the value is dropped and the request answered with
/// `AddressNotFound`. None of these changes the router.
pub proof fn law_routing_goes_to_the_addressee<T, C>(
    before: Router<T, C>,
    after: Router<T, C>,
    event: RouterEvent<T, C>,
    r: RouterAction<C>,
)
    requires
        router_stepped(before, after, event, r),
    ensures
        event matches RouterEvent::Value { sender, recipient } ==> after == before && (if before.agents().lookup(
            recipient,
        ) is Some {
            r == RouterAction::<C>::Deliver(recipient)
        } else {
            r is Drop
        }),
        event matches RouterEvent::LocalRequest { sender, recipient } ==> after == before && (
        if before.agents().lookup(recipient) is Some {
            r == RouterAction::<C>::Deliver(recipient)
        } else {
            r is ReplyNotFound
        }),
        event matches RouterEvent::OutgoingRemoteValue { session } ==> after == before && (if before.agents().lookup(
            session,
        ) is Some {
            r == RouterAction::<C>::Deliver(session)
        } else {
            r is Drop
        }),
        event matches RouterEvent::IncomingRemoteValue { recipient } ==> after == before && (r matches RouterAction::Deliver(
            k,
        ) ==> before.agents().lookup(k) is Some && decoded_u64(before.spec_serializer(), recipient.bytes())
            == Some(k@)),
{
}

/// Removing an agent, the writer of a closed connection, or an agent whose
/// channel is closed all remove the agent the key reaches: afterwards the key
/// reaches nothing, every tracker of it that the router still reaches is told,
/// each as often as it asked, and its address no longer resolves.
pub proof fn law_removals_remove_and_notify<T, C>(
    before: Router<T, C>,
    after: Router<T, C>,
    event: RouterEvent<T, C>,
    key: Key,
    r: RouterAction<C>,
    t: Key,
)
    requires
        router_stepped(before, after, event, r),
        event == RouterEvent::<T, C>::RemoveAgent(key) || event == RouterEvent::<T, C>::RemoveWriter(key)
            || event == RouterEvent::<T, C>::ValueUndelivered(key),
        before.agents().lookup(key) is Some,
    ensures
        r matches RouterAction::Notify { removed, agents } && removed == key && (after.agents().lookup(
            t,
        ) is Some ==> occurrences(agents@, t) == occurrences(before.trackers(key), t)) && (
        after.agents().lookup(t) is None ==> !agents@.contains(t)),
        after.agents().lookup(key) is None,
        before.agents().lookup(key) matches Some(e) && e.address matches Some(x) ==> after.addresses().get(
            x@,
        ) is None,
{
    let agents = r->Notify_agents;
    law_notified_once_per_track(before, after, key, agents@, t);
}

/// Every question to the router is answered from its own tables, and leaves them
/// as they were: an agent's format comes from that agent's entry, a local address
/// resolves to the agent registered under it, a session exists exactly when its
/// key reaches an agent; a remote resolution through a session the router reaches
/// is sent on with a callback that holds the reply channel (otherwise the reply
/// channel is rejected), and its answer goes out through the writer, encoded in
/// the writer's format; a callback is completed with what it held, and then holds
/// nothing.
pub proof fn law_router_answers<T, C>(
    before: Router<T, C>,
    after: Router<T, C>,
    event: RouterEvent<T, C>,
    r: RouterAction<C>,
)
    requires
        before.wf(),
        router_stepped(before, after, event, r),
    ensures
        event matches RouterEvent::GetSerializer { key } ==> after == before && (match before.agents().lookup(key) {
            Some(e) => r matches RouterAction::ReplySerializer(Ok(s)) && s == e.serializer,
            None => r matches RouterAction::ReplySerializer(Err(err)) && err is AddressNotFound,
        }),
        event matches RouterEvent::ResolveLocal { address } ==> after == before && (match before.addresses().get(
            address@,
        ) {
            Some(k) => r matches RouterAction::ReplyKey(Ok(k2)) && k2 == k,
            None => r matches RouterAction::ReplyKey(Err(err)) && err is AddressNotFound,
        }),
        event matches RouterEvent::SessionExists(k) ==> after == before && r == RouterAction::<C>::ReplyExists(
            before.agents().lookup(k) is Some,
        ),
        event matches RouterEvent::ResolveRemote { session, reply } ==> after.agents() == before.agents()
            && after.addresses() == before.addresses() && (if before.agents().lookup(session) is Some {
            r matches RouterAction::SendAddressRequest { session: s, callback } && s == session
                && after.callbacks().pending(callback) == Some(reply)
        } else {
            r == RouterAction::RejectResolve(reply) && after.callbacks() == before.callbacks()
        }),
        event matches RouterEvent::RespondResolveRemote { callback, address, writer } ==> after == before && (
        match before.agents().lookup(writer) {
            Some(e) => r matches RouterAction::SendAddressResponse { writer: w, callback: c, address: a }
                && w == writer && c == callback && a.bytes() == encoded_opt_u64(
                e.serializer,
                match address {
                    Some(k) => Some(k@),
                    None => None,
                },
            ),
            None => r is Drop,
        }),
        event matches RouterEvent::Callback { callback_id } ==> after.agents() == before.agents()
            && after.addresses() == before.addresses() && after.callbacks().pending(callback_id) is None && (
        match before.callbacks().pending(callback_id) {
            Some(c) => r == RouterAction::Complete(c),
            None => r is Drop,
        }),
        event matches RouterEvent::Track { tracker, target } ==> r is Drop && after.agents() == before.agents()
            && after.trackers(target) == before.trackers(target).push(tracker),
{
    before.lemma_wf_storages();
    match event {
        RouterEvent::ResolveRemote { session, reply } => {
            if before.agents().lookup(session) is Some {
                let callback = r->SendAddressRequest_callback;
                crate::storage::slab::law_insert_then_get(before.callbacks(), after.callbacks(), reply, callback, callback);
            }
        },
        _ => {},
    }
}

/// A new agent gets a key that reaches its entry (for a new slot, while the index
/// fits in the 48 index bits); its address, if it has one, resolves to it; every
/// agent the router reached before is still reached, unchanged.
pub proof fn law_new_agent<T, C>(
    before: Router<T, C>,
    after: Router<T, C>,
    tx: T,
    address: Option<Box<[u8]>>,
    serializer: Serializer,
    kind: KeyKind,
    r: RouterAction<C>,
    other: Key,
)
    requires
        before.wf(),
        router_stepped(before, after, RouterEvent::NewAgent { tx, address, serializer, kind }, r),
        before.agents().free_head() is None ==> before.agents().slots().len() < 0x1_0000_0000_0000,
    ensures
        r matches RouterAction::Created(key) && after.agents().lookup(key) == Some(
            AgentEntry { tx, address, serializer },
        ) && (address matches Some(a) ==> after.addresses().get(a@) == Some(key)),
        before.agents().lookup(other) is Some ==> after.agents().lookup(other) == before.agents().lookup(other),
{
    before.lemma_wf_storages();
    let key = r->Created_0;
    law_insert_then_get(before.agents(), after.agents(), AgentEntry { tx, address, serializer }, kind, key);
    if before.agents().lookup(other) is Some {
        crate::storage::agents::law_insert_keeps_others(
            before.agents(),
            after.agents(),
            AgentEntry { tx, address, serializer },
            kind,
            key,
            other,
        );
    }
}

/// The reply channel of a remote resolution is handed back by the callback id
/// that stored it.
pub proof fn law_callback_roundtrip<T, C>(
    s0: Router<T, C>,
    s1: Router<T, C>,
    s2: Router<T, C>,
    reply: C,
    id: u64,
    r: Option<C>,
)
    requires
        s0.callbacks().wf(),
        crate::storage::slab::inserted(s0.callbacks(), s1.callbacks(), reply, id),
        crate::storage::slab::removed(s1.callbacks(), s2.callbacks(), id, r),
    ensures
        r == Some(reply),
        s2.callbacks().lookup(id) is None,
{
    crate::storage::slab::law_insert_then_get(s0.callbacks(), s1.callbacks(), reply, id, id);
}

} // verus!

verus! {

/// What the router is asked to do: the routing part of a router message. The
/// payload of a message (the value, the request) stays with the caller, which
/// hands it on as the action says.
pub enum RouterEvent<T, C> {
    /// A value from `sender` for the local agent `recipient`
    Value { sender: Key, recipient: Key },
    /// A value for a remote agent, to hand to the session bridging to it
    OutgoingRemoteValue { session: Key },
    /// A value from a remote router for the local agent named by `recipient`
    IncomingRemoteValue { recipient: RemoteKey },
    /// Ask for the format of an agent
    GetSerializer { key: Key },
    /// A request from `sender` for the local agent `recipient`
    LocalRequest { sender: Key, recipient: Key },
    /// Resolve a local address
    ResolveLocal { address: Box<[u8]> },
    /// Resolve an address on the remote router behind `session`
    ResolveRemote { session: Key, reply: C },
    /// Answer a remote router's resolution through the writer `writer`
    RespondResolveRemote { callback: u64, address: Option<Key>, writer: Key },
    /// Shut the router down
    Shutdown,
    /// Register a new agent
    NewAgent { tx: T, address: Option<Box<[u8]>>, serializer: Serializer, kind: KeyKind },
    /// Remove an agent
    RemoveAgent(Key),
    /// Complete a pending callback
    Callback { callback_id: u64 },
    /// `tracker` wants to be told when `target` is removed
    Track { tracker: Key, target: Key },
    /// Ask whether a session exists
    SessionExists(Key),
    /// Remove the writer of a closed connection
    RemoveWriter(Key),
    /// A value could not be delivered to `recipient`: its channel is closed
    ValueUndelivered(Key),
}

/// What the caller of `Router::step` does next.
pub enum RouterAction<C> {
    /// Hand the message's payload to this agent
    Deliver(Key),
    /// Drop the message: its recipient is gone
    Drop,
    /// Answer the message's request with `AddressNotFound`
    ReplyNotFound,
    /// Answer with the format of an agent
    ReplySerializer(Result<Serializer>),
    /// Answer a local resolution
    ReplyKey(Result<Key>),
    /// Answer whether a session exists
    ReplyExists(bool),
    /// Ask the remote router behind `session` to resolve the message's address
    SendAddressRequest { session: Key, callback: u64 },
    /// Answer this reply channel with `AddressNotFound`
    RejectResolve(C),
    /// Send a resolution's answer through the writer `writer`
    SendAddressResponse { writer: Key, callback: u64, address: RemoteKey },
    /// The new agent's key
    Created(Key),
    /// Tell these agents that `removed` was removed
    Notify { removed: Key, agents: Vec<Key> },
    /// Complete this callback with the message's value
    Complete(C),
    /// The recipient key of a remote value is not readable in the router's format
    Malformed,
    /// Stop the router
    Stop,
}

/// `after` and `r` are what the router `before` makes of `event`.
pub open spec fn router_stepped<T, C>(before: Router<T, C>, after: Router<T, C>, event: RouterEvent<T, C>, r: RouterAction<C>) -> bool {
    &&& r is Stop <==> event is Shutdown
    &&& match event {
        RouterEvent::Value { recipient, .. } => after == before && if before.agents().lookup(recipient) is Some {
            r == RouterAction::<C>::Deliver(recipient)
        } else {
            r is Drop
        },
        RouterEvent::OutgoingRemoteValue { session } => after == before && if before.agents().lookup(session) is Some {
            r == RouterAction::<C>::Deliver(session)
        } else {
            r is Drop
        },
        RouterEvent::IncomingRemoteValue { recipient } => {
            &&& after == before
            &&& match decoded_u64(before.spec_serializer(), recipient.bytes()) {
                None => r is Malformed,
                Some(raw) => exists|k: Key|
                    k@ == raw && if before.agents().lookup(k) is Some {
                        r == RouterAction::<C>::Deliver(k)
                    } else {
                        r is Drop
                    },
            }
        },
        RouterEvent::GetSerializer { key } => after == before && match before.agents().lookup(key) {
            Some(e) => r matches RouterAction::ReplySerializer(Ok(s)) && s == e.serializer,
            None => r matches RouterAction::ReplySerializer(Err(e)) && e is AddressNotFound,
        },
        RouterEvent::LocalRequest { recipient, .. } => after == before && if before.agents().lookup(recipient) is Some {
            r == RouterAction::<C>::Deliver(recipient)
        } else {
            r is ReplyNotFound
        },
        RouterEvent::ResolveLocal { address } => after == before && match before.addresses().get(address@) {
            Some(k) => r matches RouterAction::ReplyKey(Ok(k2)) && k2 == k,
            None => r matches RouterAction::ReplyKey(Err(e)) && e is AddressNotFound,
        },
        RouterEvent::ResolveRemote { session, reply } => {
            &&& after.agents() == before.agents()
            &&& after.addresses() == before.addresses()
            &&& after.watchers() == before.watchers()
            &&& match before.agents().lookup(session) {
                None => r == RouterAction::RejectResolve(reply) && after.callbacks()
                    == before.callbacks(),
                Some(_) => r matches RouterAction::SendAddressRequest { session: s, callback }
                    && s == session && crate::storage::slab::inserted(
                    before.callbacks(),
                    after.callbacks(),
                    reply,
                    callback,
                ),
            }
        },
        RouterEvent::RespondResolveRemote { callback, address, writer } => {
            &&& after == before
            &&& match before.agents().lookup(writer) {
                None => r is Drop,
                Some(e) => r matches RouterAction::SendAddressResponse {
                    writer: w,
                    callback: c,
                    address: a,
                } && w == writer && c == callback && a.bytes() == encoded_opt_u64(
                    e.serializer,
                    match address {
                        Some(k) => Some(k@),
                        None => None,
                    },
                ),
            }
        },
        RouterEvent::Shutdown => r is Stop && after == before,
        RouterEvent::NewAgent { tx, address, serializer, kind } => r matches RouterAction::Created(
            key,
        ) && agent_added(before, after, tx, address, serializer, kind, key),
        RouterEvent::RemoveAgent(key) => r matches RouterAction::Notify { removed, agents }
            && removed == key && agent_removed(before, after, key, agents@),
        RouterEvent::RemoveWriter(key) => r matches RouterAction::Notify { removed, agents }
            && removed == key && agent_removed(before, after, key, agents@),
        RouterEvent::ValueUndelivered(key) => r matches RouterAction::Notify {
            removed,
            agents,
        } && removed == key && agent_removed(before, after, key, agents@),
        RouterEvent::Callback { callback_id } => {
            &&& after.agents() == before.agents()
            &&& after.addresses() == before.addresses()
            &&& after.watchers() == before.watchers()
            &&& match before.callbacks().pending(callback_id) {
                Some(c) => r == RouterAction::Complete(c),
                None => r is Drop,
            }
            &&& crate::storage::slab::removed(
                before.callbacks(),
                after.callbacks(),
                callback_id,
                before.callbacks().pending(callback_id),
            )
        },
        RouterEvent::Track { tracker, target } => r is Drop && tracker_added(
            before,
            after,
            tracker,
            target,
        ),
        RouterEvent::SessionExists(key) => after == before && r
            == RouterAction::<C>::ReplyExists(before.agents().lookup(key) is Some),
    }
}

impl<T, C> Router<T, C> {
    /// Whether removing `key` is defined: it reaches an agent or lies past the end
    /// of the storage (a stale key inside the storage is not removable).
    pub open spec fn removable(&self, key: Key) -> bool {
        crate::storage::agents::slot_of(key) < self.agents().slots().len() ==> self.agents().lookup(
            key,
        ) is Some
    }

    /// Whether removing `key` is defined.
    pub fn can_remove(&self, key: Key) -> (r: bool)
        ensures
            r == self.removable(key),
    {
        let idx = key.index();
        if idx >= self.agents.slot_count() {
            true
        } else {
            self.agents.get(key).is_some()
        }
    }

    /// Whether completing callback `id` is defined: it is pending or lies past
    /// the end of the callbacks.
    pub open spec fn completable(&self, id: u64) -> bool {
        id < self.callbacks().slots().len() ==> self.callbacks().lookup(id) is Some
    }

    /// Whether completing callback `id` is defined.
    pub fn can_complete(&self, id: u64) -> (r: bool)
        ensures
            r == self.completable(id),
    {
        if id >= self.callbacks.slot_count() {
            true
        } else {
            self.callbacks.get(id).is_some()
        }
    }

    /// Decide what a router message does to the router and what to do next.
    pub fn step(&mut self, event: RouterEvent<T, C>) -> (r: RouterAction<C>)
        requires
            old(self).wf(),
            event matches RouterEvent::RemoveAgent(k) ==> old(self).removable(k),
            event matches RouterEvent::RemoveWriter(k) ==> old(self).removable(k),
            event matches RouterEvent::ValueUndelivered(k) ==> old(self).removable(k),
            event matches RouterEvent::Callback { callback_id } ==> old(self).completable(callback_id),
        ensures
            final(self).wf(),
            router_stepped(*old(self), *final(self), event, r),
    {
        match event {
            RouterEvent::Value { recipient, .. } => {
                if self.agents.get(recipient).is_some() {
                    RouterAction::Deliver(recipient)
                } else {
                    RouterAction::Drop
                }
            },
            RouterEvent::OutgoingRemoteValue { session } => {
                if self.agents.get(session).is_some() {
                    RouterAction::Deliver(session)
                } else {
                    RouterAction::Drop
                }
            },
            RouterEvent::IncomingRemoteValue { recipient } => match self.try_incoming_recipient(
                &recipient,
            ) {
                None => RouterAction::Malformed,
                Some(Some(k)) => RouterAction::Deliver(k),
                Some(None) => RouterAction::Drop,
            },
            RouterEvent::GetSerializer { key } => RouterAction::ReplySerializer(self.serializer_of(key)),
            RouterEvent::LocalRequest { recipient, .. } => {
                if self.agents.get(recipient).is_some() {
                    RouterAction::Deliver(recipient)
                } else {
                    RouterAction::ReplyNotFound
                }
            },
            RouterEvent::ResolveLocal { address } => RouterAction::ReplyKey(self.resolve(&address)),
            RouterEvent::ResolveRemote { session, reply } => match self.register_callback(
                session,
                reply,
            ) {
                Ok(callback) => RouterAction::SendAddressRequest { session, callback },
                Err(reply) => RouterAction::RejectResolve(reply),
            },
            RouterEvent::RespondResolveRemote { callback, address, writer } => match self.address_response(
                writer,
                address,
            ) {
                Some(address) => RouterAction::SendAddressResponse { writer, callback, address },
                None => RouterAction::Drop,
            },
            RouterEvent::Shutdown => RouterAction::Stop,
            RouterEvent::NewAgent { tx, address, serializer, kind } => RouterAction::Created(
                self.new_agent(tx, address, serializer, kind),
            ),
            RouterEvent::RemoveAgent(key) => {
                let agents = self.remove_agent(key);
                RouterAction::Notify { removed: key, agents }
            },
            RouterEvent::RemoveWriter(key) => {
                let agents = self.remove_agent(key);
                RouterAction::Notify { removed: key, agents }
            },
            RouterEvent::ValueUndelivered(key) => {
                let agents = self.remove_agent(key);
                RouterAction::Notify { removed: key, agents }
            },
            RouterEvent::Callback { callback_id } => match self.take_callback(callback_id) {
                Some(c) => RouterAction::Complete(c),
                None => RouterAction::Drop,
            },
            RouterEvent::Track { tracker, target } => {
                self.track(tracker, target);
                RouterAction::Drop
            },
            RouterEvent::SessionExists(key) => RouterAction::ReplyExists(self.session_exists(key)),
        }
    }
}

} // verus!
