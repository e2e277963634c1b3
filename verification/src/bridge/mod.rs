//! Bridges between routers: the negotiation of a connection's session, and what
//! the reading half of a connection makes of the messages it reads.
use vstd::prelude::*;

use std::time::Duration;

use crate::address::{Address, InternalAddress};
use crate::bridge::message::ReaderMessage;
use crate::clock::{as_nanos_of, duration_max, max_duration_nanos};
use crate::request::{answer_of, resolve_answer, CallbackValue};
use crate::error::{BinkyError, Result};
use crate::router::session::SessionNegotiation;
use crate::serializer::{serializer_from_byte, Serializer};
use crate::storage::agents::{kind_code_of, new_raw, Key, KeyKind};
use crate::value::{Incoming, Outgoing};

pub mod frame;
pub mod message;

verus! {

/// The session key a raw value read from a connection stands for.
pub fn session_key_from_raw(raw: u64) -> (r: Key)
    ensures
        r@ == new_raw(raw, KeyKind::Session),
{
    Key::new(raw, KeyKind::Session)
}

/// What a connecting router writes first: the negotiation byte, followed by the
/// raw session key when it has a session from an earlier connection.
pub fn client_opening(session: Option<Key>) -> (r: (u8, Option<u64>))
    ensures
        match session {
            Some(k) => r == (SessionNegotiation::HasExistingSession.spec_code(), Some(k@)),
            None => r == (SessionNegotiation::RequestNewSession.spec_code(), None::<u64>),
        },
{
    match session {
        Some(k) => (SessionNegotiation::HasExistingSession.code(), Some(k.raw())),
        None => (SessionNegotiation::RequestNewSession.code(), None),
    }
}

/// What a connecting router does with the listening router's answer about its
/// existing session.
#[derive(Debug, PartialEq, Eq, Structural)]
pub enum ClientAnswer {
    /// The session is still valid: keep it
    Keep,
    /// The session is gone: read the key of the new one
    ReadNewKey,
    /// The answer is not part of the negotiation
    Invalid,
}

/// Classify the listening router's answer about an existing session.
pub fn client_on_answer(byte: u8) -> (r: ClientAnswer)
    ensures
        byte == SessionNegotiation::ValidSession.spec_code() ==> r == ClientAnswer::Keep,
        byte == SessionNegotiation::InvalidSession.spec_code() ==> r == ClientAnswer::ReadNewKey,
        byte != SessionNegotiation::ValidSession.spec_code() && byte
            != SessionNegotiation::InvalidSession.spec_code() ==> r == ClientAnswer::Invalid,
{
    match SessionNegotiation::from(byte) {
        SessionNegotiation::ValidSession => ClientAnswer::Keep,
        SessionNegotiation::InvalidSession => ClientAnswer::ReadNewKey,
        _ => ClientAnswer::Invalid,
    }
}

/// What a listening router does after reading the negotiation byte.
#[derive(Debug, PartialEq, Eq, Structural)]
pub enum ServerStep {
    /// The connection has a session: read its key and check it
    ReadExistingKey,
    /// The connection asks for a new session
    CreateSession,
    /// The byte is not part of the negotiation
    Invalid,
}

/// Classify the negotiation byte a listening router reads.
pub fn server_on_negotiation(byte: u8) -> (r: ServerStep)
    ensures
        byte == SessionNegotiation::HasExistingSession.spec_code() ==> r == ServerStep::ReadExistingKey,
        byte == SessionNegotiation::RequestNewSession.spec_code() ==> r == ServerStep::CreateSession,
        byte != SessionNegotiation::HasExistingSession.spec_code() && byte
            != SessionNegotiation::RequestNewSession.spec_code() ==> r == ServerStep::Invalid,
{
    match SessionNegotiation::from(byte) {
        SessionNegotiation::HasExistingSession => ServerStep::ReadExistingKey,
        SessionNegotiation::RequestNewSession => ServerStep::CreateSession,
        _ => ServerStep::Invalid,
    }
}

/// The listening router's answer about an existing session: `ValidSession` when
/// it still exists, otherwise `InvalidSession`, after which a new session is
/// created and its key written.
pub fn server_on_existing(exists: bool) -> (r: (u8, bool))
    ensures
        exists ==> r == (SessionNegotiation::ValidSession.spec_code(), false),
        !exists ==> r == (SessionNegotiation::InvalidSession.spec_code(), true),
{
    if exists {
        (SessionNegotiation::ValidSession.code(), false)
    } else {
        (SessionNegotiation::InvalidSession.code(), true)
    }
}

/// Both ends of a connection agree on the session: a session key read back from
/// its raw value is the same key, for the keys of sessions.
pub proof fn law_session_key_roundtrip(k: Key)
    requires
        kind_code_of(k@) == KeyKind::Session.spec_code(),
    ensures
        new_raw(k@, KeyKind::Session) == k@,
{
    let raw = k@;
    assert(raw | (3u64 << 62u64) == raw) by (bit_vector)
        requires
            raw >> 62u64 == 3u64,
    ;
}

/// The negotiation between a connecting and a listening router ends with both
/// holding the same session key: the existing one when the listener still has it,
/// otherwise the new one the listener created.
pub proof fn law_negotiation_agrees(client_session: Option<Key>, exists: bool, new_session: Key)
    requires
        client_session matches Some(k) ==> kind_code_of(k@) == KeyKind::Session.spec_code(),
        kind_code_of(new_session@) == KeyKind::Session.spec_code(),
    ensures
        ({
            let opening = if client_session is Some {
                (SessionNegotiation::HasExistingSession.spec_code(), Some(client_session->0@))
            } else {
                (SessionNegotiation::RequestNewSession.spec_code(), None::<u64>)
            };
            let server_key = if opening.0 == SessionNegotiation::HasExistingSession.spec_code() && exists {
                new_raw(opening.1->0, KeyKind::Session)
            } else {
                new_session@
            };
            let client_key = if client_session is Some && exists {
                client_session->0@
            } else {
                new_raw(new_session@, KeyKind::Session)
            };
            server_key == client_key
        }),
{
    law_session_key_roundtrip(new_session);
    if client_session is Some {
        law_session_key_roundtrip(client_session->0);
    }
}

/// The message a value read from a remote router becomes: the sender is the
/// remote agent behind this connection's session, answered in the format the
/// value names. A format byte that names no format gives `InvalidSerializer`.
pub open spec fn incoming_of(value: Outgoing, session_key: Key) -> Result<Incoming> {
    match serializer_from_byte(value.reply_serializer) {
        Ok(s) => Ok(
            Incoming {
                value: value.value,
                sender: Address(
                    InternalAddress::Remote {
                        local_session_key: session_key,
                        remote_address: value.sender,
                        remote_serializer: s,
                    },
                ),
                recipient: value.recipient,
            },
        ),
        Err(_) => Err(BinkyError::InvalidSerializer(value.reply_serializer)),
    }
}

/// A value read from a remote router comes from the remote agent that sent it,
/// reached through this connection's session, and replies to it are written in
/// the format its reply byte names; its payload and recipient are kept as read.
pub proof fn law_incoming_value_answers_in_its_format(value: Outgoing, session_key: Key, s: Serializer)
    requires
        value.reply_serializer == s.spec_code(),
    ensures
        incoming_of(value, session_key) is Ok,
        incoming_of(value, session_key)->Ok_0.value == value.value,
        incoming_of(value, session_key)->Ok_0.recipient == value.recipient,
        incoming_of(value, session_key)->Ok_0.sender.0 == (InternalAddress::Remote {
            local_session_key: session_key,
            remote_address: value.sender,
            remote_serializer: s,
        }),
{
    crate::serializer::law_serializer_byte_roundtrip(s);
}

/// The message a value read from a remote router becomes (see `incoming_of`).
pub fn incoming_value(value: Outgoing, session_key: Key) -> (r: Result<Incoming>)
    ensures
        r == incoming_of(value, session_key),
{
    let remote_serializer = match Serializer::try_from(value.reply_serializer) {
        Ok(s) => s,
        Err(e) => return Err(e),
    };
    let sender = Address(
        InternalAddress::Remote {
            local_session_key: session_key,
            remote_address: value.sender,
            remote_serializer,
        },
    );
    Ok(Incoming { value: value.value, sender, recipient: value.recipient })
}

/// What the reading half of a connection observed.
#[derive(Debug)]
pub enum ReaderEvent {
    /// Nothing arrived within the heartbeat timeout
    TimedOut,
    /// The connection was closed
    Closed,
    /// Reading from the connection failed
    ReadFailed,
    /// A heartbeat frame arrived
    Heartbeat,
    /// A frame arrived whose bytes are no message in the router's format
    Undecodable,
    /// The header of a frame is malformed
    MalformedHeader,
    /// A message arrived
    Message(ReaderMessage),
}

/// What the reading half of a connection does next.
#[derive(Debug)]
pub enum ReaderAction {
    /// Stop reading, and have the router remove the connection's writer
    Stop { remove_writer: Key },
    /// Read on
    Continue,
    /// Drop the frame read so far and read on
    ResetFrame,
    /// Hand this value to the router
    Forward(Incoming),
    /// Resolve `address` locally and answer the remote router's callback
    ResolveFor { callback: u64, address: Box<[u8]> },
    /// Complete the pending callback with this value
    Complete { callback: u64, value: CallbackValue },
}

/// What the reading half of a connection does with what it observed:
/// - a timeout, a closed connection or a failed read stops it, and the
///   connection's writer is removed;
/// - a heartbeat or a frame that is no message is passed over;
/// - a malformed header drops the frame read so far;
/// - a value goes to the router as a value from the remote agent behind this
///   connection's session (`incoming_of`; a format byte that names no format is
///   an error);
/// - an address request is resolved locally and answered;
/// - an address response completes its callback (`answer_of`).
pub fn reader_step(event: ReaderEvent, session_key: Key, writer_key: Key) -> (r: Result<ReaderAction>)
    ensures
        match event {
            ReaderEvent::TimedOut | ReaderEvent::Closed | ReaderEvent::ReadFailed => r == Ok::<
                ReaderAction,
                BinkyError,
            >(ReaderAction::Stop { remove_writer: writer_key }),
            ReaderEvent::Heartbeat | ReaderEvent::Undecodable => r == Ok::<ReaderAction, BinkyError>(
                ReaderAction::Continue,
            ),
            ReaderEvent::MalformedHeader => r == Ok::<ReaderAction, BinkyError>(ReaderAction::ResetFrame),
            ReaderEvent::Message(ReaderMessage::Value(v)) => match incoming_of(v, session_key) {
                Ok(inc) => r == Ok::<ReaderAction, BinkyError>(ReaderAction::Forward(inc)),
                Err(e) => r == Err::<ReaderAction, BinkyError>(e),
            },
            ReaderEvent::Message(ReaderMessage::AddressRequest { callback, address }) => r == Ok::<
                ReaderAction,
                BinkyError,
            >(ReaderAction::ResolveFor { callback, address }),
            ReaderEvent::Message(ReaderMessage::AddressResponse { callback, address }) => r == Ok::<
                ReaderAction,
                BinkyError,
            >(ReaderAction::Complete { callback, value: answer_of(address) }),
        },
{
    match event {
        ReaderEvent::TimedOut => Ok(ReaderAction::Stop { remove_writer: writer_key }),
        ReaderEvent::Closed => Ok(ReaderAction::Stop { remove_writer: writer_key }),
        ReaderEvent::ReadFailed => Ok(ReaderAction::Stop { remove_writer: writer_key }),
        ReaderEvent::Heartbeat => Ok(ReaderAction::Continue),
        ReaderEvent::Undecodable => Ok(ReaderAction::Continue),
        ReaderEvent::MalformedHeader => Ok(ReaderAction::ResetFrame),
        ReaderEvent::Message(ReaderMessage::Value(v)) => match incoming_value(v, session_key) {
            Ok(inc) => Ok(ReaderAction::Forward(inc)),
            Err(e) => Err(e),
        },
        ReaderEvent::Message(ReaderMessage::AddressRequest { callback, address }) => Ok(
            ReaderAction::ResolveFor { callback, address },
        ),
        ReaderEvent::Message(ReaderMessage::AddressResponse { callback, address }) => Ok(
            ReaderAction::Complete { callback, value: resolve_answer(address) },
        ),
    }
}

/// How long the reading half of a connection waits for a frame: the heartbeat
/// when there is one, otherwise the longest duration.
pub fn read_timeout(heartbeat: Option<Duration>) -> (r: Duration)
    ensures
        match heartbeat {
            Some(d) => r == d,
            None => as_nanos_of(r) == max_duration_nanos(),
        },
{
    match heartbeat {
        Some(d) => d,
        None => duration_max(),
    }
}

} // verus!
