//! Protocol core of a publish/subscribe/query middleware: wire-level value
//! types, variable-width integer codec, message framing, resource-name
//! algebra, and the session, routing and congestion rules built on them.
use vstd::prelude::*;

pub mod acknack;
pub mod congestion;
pub mod consolidation;
pub mod encoding;
pub mod hlc;
pub mod io;
pub mod key;
pub mod peer_id;
pub mod query;
pub mod queryable;
pub mod rname;
pub mod routing;
pub mod scouting;
pub mod session;
pub mod sub;
pub mod strfmt;
pub mod whatami;
pub mod zerror;

verus! {

/// A protocol-level unsigned integer, carried on the wire as a
/// variable-width sequence of bytes.
pub type ZInt = u64;

/// The signed counterpart of [`ZInt`].
pub type ZiInt = i64;

/// Greatest number of bytes a [`ZInt`] may occupy on the wire.
pub const ZINT_MAX_BYTES: usize = 10;

/// A numerical id mapped to a resource name within a session.
pub type ResourceId = ZInt;

/// The reserved resource id that stands for "no id".
pub const NO_RESOURCE_ID: ResourceId = 0;

/// An opaque session-metadata tag: a numerical key and a value.
#[derive(Debug, Clone)]
pub struct Property {
    pub key: ZInt,
    pub value: Vec<u8>,
}

} // verus!
