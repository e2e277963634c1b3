//! Addresses of agents, local or behind a bridge to a remote router.
use vstd::prelude::*;
use vstd::std_specs::convert::FromSpecImpl;

use crate::serializer::Serializer;
use crate::storage::agents::{Key, RemoteKey};

verus! {

/// Where an agent lives.
#[derive(Debug, PartialEq, Clone)]
pub enum InternalAddress {
    /// A local address
    Local(Key),
    /// A remote address: the local session bridging to the remote router,
    /// the key of the agent on the remote router, and the remote's serializer
    Remote {
        /// The local session connecting the local router to the remote router
        local_session_key: Key,
        /// The remote key of the agent on the remote router
        remote_address: RemoteKey,
        /// The serializer used by the remote
        remote_serializer: Serializer,
    },
}

impl From<u64> for InternalAddress {
    fn from(value: u64) -> (r: Self) {
        InternalAddress::Local(Key::from_raw(value))
    }
}

impl FromSpecImpl<u64> for InternalAddress {
    open spec fn obeys_from_spec() -> bool {
        true
    }

    open spec fn from_spec(v: u64) -> Self {
        InternalAddress::Local(Key::spec_from_raw(v))
    }
}

/// An address to an agent
#[derive(Debug, PartialEq, Clone)]
pub struct Address(pub InternalAddress);

impl Address {
    /// Where the agent lives.
    pub fn inner(&self) -> (r: &InternalAddress)
        ensures
            *r == self.0,
    {
        &self.0
    }

    /// The key of a local address; a remote address has none.
    pub fn local_key(&self) -> (r: Option<Key>)
        ensures
            match self.0 {
                InternalAddress::Local(k) => r == Some(k),
                InternalAddress::Remote { .. } => r is None,
            },
    {
        match &self.0 {
            InternalAddress::Local(k) => Some(*k),
            InternalAddress::Remote { .. } => None,
        }
    }

    /// The agent to track for this address: the agent itself when it is local,
    /// the session bridging to it when it is remote.
    pub fn track_target(&self) -> (r: Key)
        ensures
            match self.0 {
                InternalAddress::Local(k) => r == k,
                InternalAddress::Remote { local_session_key, .. } => r == local_session_key,
            },
    {
        match &self.0 {
            InternalAddress::Local(k) => *k,
            InternalAddress::Remote { local_session_key, .. } => *local_session_key,
        }
    }

    /// The local address of the agent with the given key.
    pub fn local(key: Key) -> (r: Self)
        ensures
            r.0 == InternalAddress::Local(key),
    {
        Address(InternalAddress::Local(key))
    }
}

impl From<InternalAddress> for Address {
    fn from(value: InternalAddress) -> (r: Self) {
        Address(value)
    }
}

impl FromSpecImpl<InternalAddress> for Address {
    open spec fn obeys_from_spec() -> bool {
        true
    }

    open spec fn from_spec(v: InternalAddress) -> Self {
        Address(v)
    }
}

} // verus!
