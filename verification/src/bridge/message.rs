//! Messages exchanged between the halves of a bridged connection.
use vstd::prelude::*;

use crate::storage::agents::{Key, RemoteKey};
use crate::value::{Initial, Outgoing, RemoteVal};

verus! {

/// A message read by the reading half of a socket.
#[derive(Debug)]
pub enum ReaderMessage {
    Value(Outgoing),
    AddressRequest { callback: u64, address: Box<[u8]> },
    AddressResponse { callback: u64, address: Option<RemoteKey> },
}

/// A message for the writing half of a socket.
#[derive(Debug)]
pub enum WriterMessage {
    Value(RemoteVal<Initial>),
    AddressRequest { callback: u64, address: Box<[u8]> },
    AddressResponse { callback: u64, address: Option<RemoteKey> },
    Shutdown,
}

/// A message for a session.
#[derive(Debug)]
pub enum SessionMessage {
    /// A message to forward to the session's writer
    Writer(WriterMessage),
    /// An agent the session tracks was removed
    AgentRemoved(Key),
    /// The writer came back under a new key
    WriterReturned(Key),
    /// The router asks whether the session is still alive
    SessionPing,
    /// Close the session's writer
    CloseWriter,
}

/// What the writing half of a socket writes for a message it receives, or
/// `None` for `Shutdown`, which stops it.
pub fn writer_output(msg: WriterMessage, reply_serializer: crate::serializer::Serializer) -> (r: Option<ReaderMessage>)
    ensures
        match msg {
            WriterMessage::Value(v) => r matches Some(ReaderMessage::Value(o)) && o.value
                == v.0.payload && o.recipient == v.0.recipient && o.sender.bytes()
                == crate::serializer::encoded_u64(reply_serializer, v.0.sender@)
                && o.reply_serializer == reply_serializer.spec_code(),
            WriterMessage::AddressRequest { callback, address } => r == Some(
                ReaderMessage::AddressRequest { callback, address },
            ),
            WriterMessage::AddressResponse { callback, address } => r == Some(
                ReaderMessage::AddressResponse { callback, address },
            ),
            WriterMessage::Shutdown => r is None,
        },
{
    match msg {
        WriterMessage::Value(value) => Some(ReaderMessage::Value(value.next(reply_serializer).0)),
        WriterMessage::AddressRequest { callback, address } => Some(
            ReaderMessage::AddressRequest { callback, address },
        ),
        WriterMessage::AddressResponse { callback, address } => Some(
            ReaderMessage::AddressResponse { callback, address },
        ),
        WriterMessage::Shutdown => None,
    }
}

} // verus!
