//! The role a process plays in the overlay, as a bitmask: router, peer, or
//! client, with the remaining bits reserved.
use vstd::prelude::*;

use crate::ZInt;
use crate::strfmt::{dec_string, spec_dec};

verus! {

pub type Type = ZInt;

pub const ROUTER: Type = 1;

pub const PEER: Type = 1 << 1;

pub const CLIENT: Type = 1 << 2;

/// The textual form of a role value: the role's name for the three known
/// roles, its decimal rendering otherwise.
pub open spec fn spec_to_string(w: Type) -> Seq<char> {
    if w == ROUTER {
        "Router"@
    } else if w == PEER {
        "Peer"@
    } else if w == CLIENT {
        "Client"@
    } else {
        spec_dec(w as int)
    }
}

pub fn to_string(w: Type) -> (r: String)
    ensures
        r@ == spec_to_string(w),
{
    if w == ROUTER {
        String::from_str("Router")
    } else if w == PEER {
        String::from_str("Peer")
    } else if w == CLIENT {
        String::from_str("Client")
    } else {
        dec_string(w)
    }
}

} // verus!
