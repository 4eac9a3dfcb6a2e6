//! The identifier of an instance.

use crate::queue::QueueError;
use vstd::prelude::*;

verus! {

/// How the host answered the request for a unique identifier.
pub enum IdSource {
    /// The host has no window.
    NoWindow,
    /// The window has no source of identifiers.
    NoCrypto,
    /// The identifier that the host made.
    Uuid(String),
}

/// The identifier of a new instance, from what the host answered when it
/// was asked for one.
pub fn generate_uuid(source: IdSource) -> (out: Result<String, QueueError>)
    ensures
        match source {
            IdSource::NoWindow => out matches Err(e) && e == QueueError::WindowUnavailable,
            IdSource::NoCrypto => out matches Err(e) && e == QueueError::CryptoUnavailable,
            IdSource::Uuid(id) => out == Ok::<String, QueueError>(id),
        },
{
    match source {
        IdSource::NoWindow => Err(QueueError::WindowUnavailable),
        IdSource::NoCrypto => Err(QueueError::CryptoUnavailable),
        IdSource::Uuid(id) => Ok(id),
    }
}

} // verus!
