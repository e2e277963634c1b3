//! Values on their way to or from a remote router.
use vstd::prelude::*;

use crate::address::Address;
use crate::serializer::{encoded_u64, Serializer};
use crate::storage::agents::{Key, RemoteKey};

verus! {

/// A value on its way between routers, in one of its stages.
#[derive(Debug)]
pub struct RemoteVal<T>(pub T);

impl<T> std::ops::Deref for RemoteVal<T> {
    type Target = T;

    fn deref(&self) -> (r: &Self::Target)
        ensures
            *r == self.0,
    {
        &self.0
    }
}

/// A value an agent hands to a bridge: the serialized payload, the sending
/// agent, the local bridge (session) and the recipient on the remote router.
#[derive(Debug)]
pub struct Initial {
    pub payload: Box<[u8]>,
    pub sender: Key,
    pub local_bridge_key: Key,
    pub recipient: RemoteKey,
}

/// A value as it is written to the remote router.
#[derive(Debug)]
pub struct Outgoing {
    pub value: Box<[u8]>,
    pub recipient: RemoteKey,
    pub sender: RemoteKey,
    /// The format to use if a reply is sent
    pub reply_serializer: u8,
}

/// A value read from a remote router, on its way to a local agent.
#[derive(Debug)]
pub struct Incoming {
    pub value: Box<[u8]>,
    pub sender: Address,
    /// Despite the key being a `RemoteKey`, this is a local key
    pub recipient: RemoteKey,
}

impl RemoteVal<Initial> {
    /// A value an agent hands to a bridge.
    pub fn new(payload: Box<[u8]>, sender: Key, local_bridge_key: Key, recipient: RemoteKey) -> (r: Self)
        ensures
            r.0 == (Initial { payload, sender, local_bridge_key, recipient }),
    {
        RemoteVal(Initial { payload, sender, local_bridge_key, recipient })
    }

    /// The value as it is written to the remote router: the sender's key is
    /// serialized in the format that replies use, and that format travels along.
    pub fn next(self, reply_serializer: Serializer) -> (r: RemoteVal<Outgoing>)
        ensures
            r.0.value == self.0.payload,
            r.0.recipient == self.0.recipient,
            r.0.sender.bytes() == encoded_u64(reply_serializer, self.0.sender@),
            r.0.reply_serializer == reply_serializer.spec_code(),
    {
        let initial = self.0;
        let sender = RemoteKey::from_key(initial.sender, reply_serializer);
        RemoteVal(
            Outgoing {
                value: initial.payload,
                recipient: initial.recipient,
                sender,
                reply_serializer: reply_serializer.code(),
            },
        )
    }
}

} // verus!
