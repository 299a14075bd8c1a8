//! Subscription-side value types: channels, reliability, subscription modes
//! and periods.
use vstd::prelude::*;

use crate::ZInt;

verus! {

/// One of the two logical channels of a link.
#[derive(Debug, Copy, Clone, PartialEq, Eq, Structural)]
pub enum Channel {
    BestEffort,
    Reliable,
}

/// The kind of reliability requested for a subscription.
#[derive(Debug, Copy, Clone, PartialEq, Eq, Structural)]
pub enum Reliability {
    BestEffort,
    Reliable,
}

impl Default for Reliability {
    fn default() -> (r: Self)
        ensures
            r == Reliability::Reliable,
    {
        Reliability::Reliable
    }
}

/// The subscription mode: events pushed as they arrive, or buffered at the
/// origin until the subscriber pulls.
#[derive(Debug, Copy, Clone, PartialEq, Eq, Structural)]
pub enum SubMode {
    Push,
    Pull,
}

impl Default for SubMode {
    fn default() -> (r: Self)
        ensures
            r == SubMode::Push,
    {
        SubMode::Push
    }
}

/// A periodic filter applied to a subscription.
#[derive(Debug, Copy, Clone, PartialEq, Eq, Structural)]
pub struct Period {
    pub origin: ZInt,
    pub period: ZInt,
    pub duration: ZInt,
}

/// The full description of a subscription.
#[derive(Debug, Copy, Clone, PartialEq)]
pub struct SubInfo {
    pub reliability: Reliability,
    pub mode: SubMode,
    pub period: Option<Period>,
}

impl Default for SubInfo {
    fn default() -> (r: SubInfo)
        ensures
            r.reliability == Reliability::Reliable,
            r.mode == SubMode::Push,
            r.period is None,
    {
        SubInfo { reliability: Reliability::default(), mode: SubMode::default(), period: None }
    }
}

} // verus!
