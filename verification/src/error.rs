//! Errors
use vstd::prelude::*;
use vstd::std_specs::convert::FromSpecImpl;

verus! {

/// Binky errors
#[derive(Debug)]
pub enum BinkyError {
    /// A channel was closed
    Flume,
    /// Invalid value type when trying to downcast a value or deserialize an incorrect value
    InvalidValueType,
    /// Serde json error
    SerdeJson(serde_json::Error),
    /// Postcard error
    Postcard(postcard::Error),
    /// Io error
    Io(std::io::Error),
    /// Malformed message header
    MalformedHeader,
    /// Invalid serializer, the serializer was encoded incorrectly
    InvalidSerializer(u8),
    /// Address not found
    AddressNotFound,
    /// Failed to deliver a request
    FailedDelivery,
    /// Tried to send / receive a remote message on a local agent
    RemoteActionOnLocal,
    /// Tried to perform an operation with a remote address
    LocalOnly,
    /// Exhausted all retries
    NoRetry,
}

/// Results of the library
pub type Result<T> = std::result::Result<T, BinkyError>;

impl From<serde_json::Error> for BinkyError {
    fn from(value: serde_json::Error) -> (r: Self) {
        BinkyError::SerdeJson(value)
    }
}

impl FromSpecImpl<serde_json::Error> for BinkyError {
    open spec fn obeys_from_spec() -> bool {
        true
    }

    open spec fn from_spec(v: serde_json::Error) -> Self {
        BinkyError::SerdeJson(v)
    }
}

impl From<postcard::Error> for BinkyError {
    fn from(value: postcard::Error) -> (r: Self) {
        BinkyError::Postcard(value)
    }
}

impl FromSpecImpl<postcard::Error> for BinkyError {
    open spec fn obeys_from_spec() -> bool {
        true
    }

    open spec fn from_spec(v: postcard::Error) -> Self {
        BinkyError::Postcard(v)
    }
}

impl From<std::io::Error> for BinkyError {
    fn from(value: std::io::Error) -> (r: Self) {
        BinkyError::Io(value)
    }
}

impl FromSpecImpl<std::io::Error> for BinkyError {
    open spec fn obeys_from_spec() -> bool {
        true
    }

    open spec fn from_spec(v: std::io::Error) -> Self {
        BinkyError::Io(v)
    }
}

} // verus!
