//! The wire formats that routers use for addresses and keys.
use vstd::prelude::*;
use vstd::std_specs::convert::TryFromSpecImpl;

use crate::error::{BinkyError, Result};

verus! {

/// The format a router serializes with.
#[derive(Debug, Copy, Clone, PartialEq, Eq, Structural)]
pub enum Serializer {
    /// Plain text
    Json,
    /// Binary
    Postcard,
}

impl Serializer {
    /// The byte that stands for the format on the wire.
    pub open spec fn spec_code(self) -> u8 {
        match self {
            Serializer::Json => 0,
            Serializer::Postcard => 1,
        }
    }

    /// The byte that stands for the format on the wire.
    #[verifier::when_used_as_spec(spec_code)]
    pub fn code(self) -> (r: u8)
        ensures
            r == self.spec_code(),
    {
        match self {
            Serializer::Json => 0,
            Serializer::Postcard => 1,
        }
    }
}

/// The format a byte stands for, or `InvalidSerializer` with the byte.
pub open spec fn serializer_from_byte(value: u8) -> Result<Serializer> {
    if value == 0 {
        Ok(Serializer::Json)
    } else if value == 1 {
        Ok(Serializer::Postcard)
    } else {
        Err(BinkyError::InvalidSerializer(value))
    }
}

/// Reading back the byte of a format gives the format.
pub proof fn law_serializer_byte_roundtrip(s: Serializer)
    ensures
        serializer_from_byte(s.spec_code()) == Ok::<Serializer, BinkyError>(s),
{
}

impl TryFrom<u8> for Serializer {
    type Error = BinkyError;

    fn try_from(value: u8) -> (r: std::result::Result<Self, Self::Error>) {
        let ser = match value {
            0 => Serializer::Json,
            1 => Serializer::Postcard,
            byte => return Err(BinkyError::InvalidSerializer(byte)),
        };
        Ok(ser)
    }
}

impl TryFromSpecImpl<u8> for Serializer {
    open spec fn obeys_try_from_spec() -> bool {
        true
    }

    open spec fn try_from_spec(v: u8) -> std::result::Result<Self, Self::Error> {
        serializer_from_byte(v)
    }
}

} // verus!

verus! {

/// The decimal text of a number, as `serde_json` writes an unsigned integer.
pub open spec fn json_u64_text(v: nat) -> Seq<u8>
    decreases v,
{
    if v < 10 {
        seq![(48 + v) as u8]
    } else {
        json_u64_text(v / 10) + seq![(48 + v % 10) as u8]
    }
}

/// The varint (seven bits per byte, low bits first, high bit set on all bytes
/// but the last) that `postcard` writes for an unsigned integer.
pub open spec fn varint_u64(v: nat) -> Seq<u8>
    decreases v,
{
    if v < 128 {
        seq![v as u8]
    } else {
        seq![(v % 128 + 128) as u8] + varint_u64(v / 128)
    }
}

/// What `serde_json::from_slice::<u64>` gives for some bytes (`None` for an error).
pub uninterp spec fn json_parse_u64(bytes: Seq<u8>) -> Option<u64>;

/// What `postcard::from_bytes::<u64>` gives for some bytes (`None` for an error).
pub uninterp spec fn postcard_parse_u64(bytes: Seq<u8>) -> Option<u64>;

/// The bytes a format writes for an unsigned integer (or a key that wraps one).
pub open spec fn encoded_u64(s: Serializer, v: u64) -> Seq<u8> {
    match s {
        Serializer::Json => json_u64_text(v as nat),
        Serializer::Postcard => varint_u64(v as nat),
    }
}

/// The unsigned integer a format reads from some bytes, if it reads one.
pub open spec fn decoded_u64(s: Serializer, bytes: Seq<u8>) -> Option<u64> {
    match s {
        Serializer::Json => json_parse_u64(bytes),
        Serializer::Postcard => postcard_parse_u64(bytes),
    }
}

/// `serde_json::to_vec` on a `u64`: the decimal text of the number. Writing a
/// number into a vector does not fail.
#[verifier::external_body]
fn json_to_vec_u64(v: u64) -> (r: std::result::Result<Vec<u8>, serde_json::Error>)
    ensures
        r is Ok,
        r->Ok_0@ == json_u64_text(v as nat),
{
    serde_json::to_vec(&v)
}

/// `serde_json::from_slice::<u64>`: its result is named `json_parse_u64`; the
/// decimal text of a number reads back as that number.
#[verifier::external_body]
fn json_from_slice_u64(bytes: &[u8]) -> (r: std::result::Result<u64, serde_json::Error>)
    ensures
        r is Ok <==> json_parse_u64(bytes@) is Some,
        r is Ok ==> json_parse_u64(bytes@) == Some(r->Ok_0),
        forall|v: u64| bytes@ == #[trigger] json_u64_text(v as nat) ==> r is Ok && r->Ok_0 == v,
{
    serde_json::from_slice::<u64>(bytes)
}

/// `postcard::to_stdvec` on a `u64`: the varint of the number. Writing into a
/// growable vector does not fail.
#[verifier::external_body]
fn postcard_to_stdvec_u64(v: u64) -> (r: std::result::Result<Vec<u8>, postcard::Error>)
    ensures
        r is Ok,
        r->Ok_0@ == varint_u64(v as nat),
{
    postcard::to_stdvec(&v)
}

/// `postcard::from_bytes::<u64>`: its result is named `postcard_parse_u64`; the
/// varint of a number reads back as that number.
#[verifier::external_body]
fn postcard_from_bytes_u64(bytes: &[u8]) -> (r: std::result::Result<u64, postcard::Error>)
    ensures
        r is Ok <==> postcard_parse_u64(bytes@) is Some,
        r is Ok ==> postcard_parse_u64(bytes@) == Some(r->Ok_0),
        forall|v: u64| bytes@ == #[trigger] varint_u64(v as nat) ==> r is Ok && r->Ok_0 == v,
{
    postcard::from_bytes::<u64>(bytes)
}

/// `Vec::into_boxed_slice`: the same bytes in a boxed slice.
#[verifier::external_body]
pub(crate) fn into_boxed_bytes(v: Vec<u8>) -> (r: Box<[u8]>)
    ensures
        r@ == v@,
{
    v.into_boxed_slice()
}

impl Serializer {
    /// Serialize a key (a newtype around a `u64`) in this format.
    pub fn serialize_key(self, raw: u64) -> (r: Result<Box<[u8]>>)
        ensures
            r matches Ok(bytes) && bytes@ == encoded_u64(self, raw),
    {
        match self {
            Serializer::Json => match json_to_vec_u64(raw) {
                Ok(bytes) => Ok(into_boxed_bytes(bytes)),
                Err(e) => Err(BinkyError::SerdeJson(e)),
            },
            Serializer::Postcard => match postcard_to_stdvec_u64(raw) {
                Ok(bytes) => Ok(into_boxed_bytes(bytes)),
                Err(e) => Err(BinkyError::Postcard(e)),
            },
        }
    }

    /// Deserialize a key (a newtype around a `u64`) in this format. What
    /// `serialize_key` wrote reads back as the same key.
    pub fn deserialize_key(self, bytes: &[u8]) -> (r: Result<u64>)
        ensures
            r is Ok <==> decoded_u64(self, bytes@) is Some,
            r matches Ok(v) ==> decoded_u64(self, bytes@) == Some(v),
            r matches Err(e) ==> (self is Json ==> e is SerdeJson) && (self is Postcard ==> e is Postcard),
            forall|v: u64| bytes@ == #[trigger] encoded_u64(self, v) ==> (r matches Ok(x) && x == v),
    {
        match self {
            Serializer::Json => match json_from_slice_u64(bytes) {
                Ok(v) => Ok(v),
                Err(e) => Err(BinkyError::SerdeJson(e)),
            },
            Serializer::Postcard => match postcard_from_bytes_u64(bytes) {
                Ok(v) => Ok(v),
                Err(e) => Err(BinkyError::Postcard(e)),
            },
        }
    }
}

} // verus!

verus! {

/// The bytes a format writes for an optional unsigned integer: JSON writes
/// `null` or the number, postcard a tag byte (0 or 1) before the number.
pub open spec fn encoded_opt_u64(s: Serializer, v: Option<u64>) -> Seq<u8> {
    match s {
        Serializer::Json => match v {
            None => seq![110u8, 117u8, 108u8, 108u8],
            Some(x) => json_u64_text(x as nat),
        },
        Serializer::Postcard => match v {
            None => seq![0u8],
            Some(x) => seq![1u8] + varint_u64(x as nat),
        },
    }
}

/// `serde_json::to_vec` on an `Option<u64>`: `null` or the decimal text of the
/// number. Writing into a vector does not fail.
#[verifier::external_body]
fn json_to_vec_opt_u64(v: Option<u64>) -> (r: std::result::Result<Vec<u8>, serde_json::Error>)
    ensures
        r is Ok,
        r->Ok_0@ == encoded_opt_u64(Serializer::Json, v),
{
    serde_json::to_vec(&v)
}

/// `postcard::to_stdvec` on an `Option<u64>`: a tag byte, then the varint of
/// the number when there is one. Writing into a growable vector does not fail.
#[verifier::external_body]
fn postcard_to_stdvec_opt_u64(v: Option<u64>) -> (r: std::result::Result<Vec<u8>, postcard::Error>)
    ensures
        r is Ok,
        r->Ok_0@ == encoded_opt_u64(Serializer::Postcard, v),
{
    postcard::to_stdvec(&v)
}

impl Serializer {
    /// Serialize an optional key (a newtype around a `u64`) in this format.
    pub fn serialize_opt_key(self, raw: Option<u64>) -> (r: Result<Box<[u8]>>)
        ensures
            r matches Ok(bytes) && bytes@ == encoded_opt_u64(self, raw),
    {
        match self {
            Serializer::Json => match json_to_vec_opt_u64(raw) {
                Ok(bytes) => Ok(into_boxed_bytes(bytes)),
                Err(e) => Err(BinkyError::SerdeJson(e)),
            },
            Serializer::Postcard => match postcard_to_stdvec_opt_u64(raw) {
                Ok(bytes) => Ok(into_boxed_bytes(bytes)),
                Err(e) => Err(BinkyError::Postcard(e)),
            },
        }
    }
}

} // verus!
