//! Timestamps from the hybrid logical clock: a 64-bit time value and a
//! source identifier, ordered by time and then by source bytes.
use vstd::prelude::*;

use crate::ZInt;
use crate::peer_id::{spec_bytes_lt, PeerId, PEER_ID_MAX_SIZE};

verus! {

/// The id of the clock that generated a timestamp: the same width as a
/// peer id.
pub type TimestampId = PeerId;

/// A hybrid logical clock value and the id of its source.
#[derive(Debug, Clone, Copy)]
pub struct Timestamp {
    pub time: ZInt,
    pub id: TimestampId,
}

impl Timestamp {
    pub open spec fn wf(&self) -> bool {
        self.id.wf()
    }

    /// Strict order: by time, ties by source identifier bytes.
    pub open spec fn spec_lt(&self, other: &Timestamp) -> bool {
        self.time < other.time || (self.time == other.time && spec_bytes_lt(
            self.id.spec_bytes(),
            other.id.spec_bytes(),
        ))
    }

    pub fn new(time: ZInt, id: TimestampId) -> (r: Timestamp)
        requires
            id.wf(),
        ensures
            r.wf(),
            r.time == time,
            r.id == id,
    {
        Timestamp { time, id }
    }

    pub fn lt(&self, other: &Timestamp) -> (r: bool)
        requires
            self.wf(),
            other.wf(),
        ensures
            r == self.spec_lt(other),
    {
        self.time < other.time || (self.time == other.time && self.id.lt(&other.id))
    }
}

#[verifier::external_type_specification]
#[verifier::external_body]
pub struct ExHlc(uhlc::HLC);

/// Relies on `uhlc::HLC::default`: a fresh hybrid logical clock with a
/// random identifier.
#[verifier::external_body]
fn hlc_default() -> uhlc::HLC {
    uhlc::HLC::default()
}

/// Relies on `uhlc::HLC::new_timestamp` and the accessors of
/// `uhlc::Timestamp`: the time as its 64-bit value, and the source id as at
/// most sixteen little-endian bytes.
#[verifier::external_body]
fn hlc_now(h: &uhlc::HLC) -> (r: (u64, usize, [u8; PEER_ID_MAX_SIZE]))
    ensures
        r.1 <= PEER_ID_MAX_SIZE,
{
    let t = h.new_timestamp();
    let id = t.get_id();
    (t.get_time().as_u64(), id.size(), id.to_le_bytes())
}

/// A fresh hybrid logical clock.
pub fn new_hlc() -> uhlc::HLC {
    hlc_default()
}

/// The clock's current timestamp.
pub fn now_timestamp(h: &uhlc::HLC) -> (r: Timestamp)
    ensures
        r.wf(),
{
    let (time, size, bytes) = hlc_now(h);
    Timestamp { time, id: PeerId::new(size, bytes) }
}

} // verus!
