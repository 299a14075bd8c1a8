//! Query-side value types: queryable metadata, reply consolidation, and the
//! choice of target queryables.
use vstd::prelude::*;

use crate::ZInt;
use crate::queryable;

verus! {

/// What a queryable advertises: whether it claims to serve the full
/// selector (`complete > 0`) and its hop distance.
#[derive(Debug, Clone, Copy, PartialEq, Eq, Structural)]
pub struct QueryableInfo {
    pub complete: ZInt,
    pub distance: ZInt,
}

impl Default for QueryableInfo {
    fn default() -> (r: QueryableInfo)
        ensures
            r.complete == 1,
            r.distance == 0,
    {
        QueryableInfo { complete: 1, distance: 0 }
    }
}

/// The kind of duplicate-reply suppression applied at one stage of the
/// reply path.
#[derive(Debug, Clone, Copy, PartialEq, Eq, Structural)]
pub enum ConsolidationMode {
    Off,
    Lazy,
    Full,
}

/// The consolidation modes applied at the three stages of the reply path.
#[derive(Debug, Clone, Copy, PartialEq, Eq, Structural)]
pub struct QueryConsolidation {
    pub first_routers: ConsolidationMode,
    pub last_router: ConsolidationMode,
    pub reception: ConsolidationMode,
}

impl QueryConsolidation {
    /// No consolidation at any stage: every reply is forwarded.
    pub fn none() -> (r: Self)
        ensures
            r.first_routers == ConsolidationMode::Off,
            r.last_router == ConsolidationMode::Off,
            r.reception == ConsolidationMode::Off,
    {
        Self {
            first_routers: ConsolidationMode::Off,
            last_router: ConsolidationMode::Off,
            reception: ConsolidationMode::Off,
        }
    }
}

impl Default for QueryConsolidation {
    fn default() -> (r: Self)
        ensures
            r.first_routers == ConsolidationMode::Lazy,
            r.last_router == ConsolidationMode::Lazy,
            r.reception == ConsolidationMode::Full,
    {
        Self {
            first_routers: ConsolidationMode::Lazy,
            last_router: ConsolidationMode::Lazy,
            reception: ConsolidationMode::Full,
        }
    }
}

/// Which queryables a query addresses.
#[derive(Debug, Clone, Copy, PartialEq, Eq, Structural)]
pub enum Target {
    /// The single completest, nearest queryable.
    BestMatching,
    /// Every matching queryable.
    All,
    /// Every matching queryable that claims completeness.
    AllComplete,
    /// No remote queryable: only local ones reply.
    NoTarget,
    /// The given number of complete queryables, nearest first.
    Complete(ZInt),
}

impl Default for Target {
    fn default() -> (r: Self)
        ensures
            r == Target::BestMatching,
    {
        Target::BestMatching
    }
}

/// The target of a query: a class mask and a target choice.
#[derive(Debug, Clone, Copy, PartialEq, Eq, Structural)]
pub struct QueryTarget {
    pub kind: ZInt,
    pub target: Target,
}

impl Default for QueryTarget {
    fn default() -> (r: Self)
        ensures
            r.kind == queryable::ALL_KINDS,
            r.target == Target::BestMatching,
    {
        QueryTarget { kind: queryable::ALL_KINDS, target: Target::default() }
    }
}

} // verus!
