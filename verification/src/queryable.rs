//! The classes of queryables a query may address, as a bitmask.
use vstd::prelude::*;

use crate::ZInt;

verus! {

pub const ALL_KINDS: ZInt = 0x01;

pub const STORAGE: ZInt = 0x02;

pub const EVAL: ZInt = 0x04;

} // verus!
