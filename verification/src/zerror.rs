//! The error kinds surfaced by the protocol layer.
use vstd::prelude::*;

verus! {

/// A typed failure of a session-layer operation.
#[derive(Debug)]
pub enum ZError {
    /// Incompatible peer during session open.
    Handshake,
    /// Operation on a closed or losing session.
    SessionClosed,
    /// Malformed key expression: empty segment or unknown wildcard.
    InvalidSelector,
    /// Outbound frame exceeds the negotiated batch size.
    BufferOverflow,
    /// Operation deadline elapsed.
    Timeout,
    /// Wire decode failure: short read or bad varint.
    Parse,
    /// Any remaining condition, with a human-readable description.
    Other(String),
}

impl ZError {
    /// A short name for the error kind; the description for `Other`.
    pub fn describe(&self) -> (r: String)
        ensures
            self is Other ==> r@ == self->Other_0@,
    {
        match self {
            ZError::Handshake => String::from_str("handshake failure"),
            ZError::SessionClosed => String::from_str("session closed"),
            ZError::InvalidSelector => String::from_str("invalid selector"),
            ZError::BufferOverflow => String::from_str("buffer overflow"),
            ZError::Timeout => String::from_str("timeout"),
            ZError::Parse => String::from_str("parse failure"),
            ZError::Other(descr) => descr.clone(),
        }
    }
}

} // verus!
