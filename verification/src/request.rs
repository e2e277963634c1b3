//! Requests between agents and the values of callbacks.
use vstd::prelude::*;
use vstd::std_specs::convert::FromSpecImpl;

use crate::error::{BinkyError, Result};
use crate::storage::agents::RemoteKey;

verus! {

/// The value a pending callback is completed with.
#[derive(Debug)]
pub enum CallbackValue {
    Resolve(Result<RemoteKey>),
}

impl From<Result<RemoteKey>> for CallbackValue {
    fn from(value: Result<RemoteKey>) -> (r: Self) {
        CallbackValue::Resolve(value)
    }
}

impl FromSpecImpl<Result<RemoteKey>> for CallbackValue {
    open spec fn obeys_from_spec() -> bool {
        true
    }

    open spec fn from_spec(v: Result<RemoteKey>) -> Self {
        CallbackValue::Resolve(v)
    }
}

/// The callback value for the answer to a remote resolution: the remote key,
/// or `AddressNotFound` when the remote router did not find the address.
pub open spec fn answer_of(address: Option<RemoteKey>) -> CallbackValue {
    match address {
        Some(k) => CallbackValue::Resolve(Ok(k)),
        None => CallbackValue::Resolve(Err(BinkyError::AddressNotFound)),
    }
}

/// The callback value for the answer to a remote resolution (see `answer_of`).
pub fn resolve_answer(address: Option<RemoteKey>) -> (r: CallbackValue)
    ensures
        r == answer_of(address),
{
    match address {
        Some(k) => CallbackValue::Resolve(Ok(k)),
        None => CallbackValue::Resolve(Err(BinkyError::AddressNotFound)),
    }
}

/// A request that was not read yet: its value, of whatever type `V` carries
/// values of any type.
#[derive(Debug)]
pub enum Pending<V> {
    Local(V),
}

/// A request whose value was read as a `T`.
#[derive(Debug)]
pub struct Processed<T>(pub T);

impl<T> Processed<T> {
    /// The value that was read.
    pub fn value(&self) -> (r: &T)
        ensures
            *r == self.0,
    {
        &self.0
    }

    /// Take the value, leaving an empty processed request.
    pub fn take(self) -> (r: (T, Processed<()>))
        ensures
            r.0 == self.0,
    {
        (self.0, Processed(()))
    }
}

} // verus!
