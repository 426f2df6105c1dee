//! Versioned envelopes for payloads exchanged with the front end.

use vstd::prelude::*;

verus! {

/// A payload with the version of its schema, so that both sides can agree
/// on how to read it.
#[derive(Debug, Clone)]
pub struct VersionedPayload<T> {
    pub version: u32,
    pub payload: T,
}

impl<T> VersionedPayload<T> {
    /// The payload `payload` tagged with `version`.
    pub fn new(version: u32, payload: T) -> (r: Self)
        ensures
            r.version == version,
            r.payload == payload,
    {
        VersionedPayload { version, payload }
    }
}

/// Marks payloads that are stored in typed columns rather than in free-form
/// documents.
pub trait TypedPersistable {}

} // verus!
