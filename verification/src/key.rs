//! Resource keys: a full name, a registered numerical id, or an id with a
//! literal suffix appended.
use vstd::prelude::*;

use crate::{ResourceId, NO_RESOURCE_ID};
use crate::strfmt::{dec_string, spec_dec};

verus! {

/// A resource key.
///
/// On the wire a key travels as a numerical id and an optional name or
/// suffix; id `NO_RESOURCE_ID` means the key is a plain name.
#[derive(Debug, Clone)]
pub enum ResKey {
    RName(String),
    RId(ResourceId),
    RIdWithSuffix(ResourceId, String),
}

impl ResKey {
    /// The numerical id carried by this key; `NO_RESOURCE_ID` for a name.
    pub open spec fn spec_rid(&self) -> ResourceId {
        match self {
            ResKey::RName(_) => NO_RESOURCE_ID,
            ResKey::RId(rid) => *rid,
            ResKey::RIdWithSuffix(rid, _) => *rid,
        }
    }

    /// The textual part carried by this key: the name, the suffix, or
    /// nothing for a bare id.
    pub open spec fn spec_suffix(&self) -> Seq<char> {
        match self {
            ResKey::RName(s) => s@,
            ResKey::RId(_) => Seq::<char>::empty(),
            ResKey::RIdWithSuffix(_, s) => s@,
        }
    }

    /// A key in normal form: a bare id is non-zero, and an id with a suffix
    /// has both a non-zero id and a non-empty suffix.
    pub open spec fn is_normalized(&self) -> bool {
        match self {
            ResKey::RName(s) => s@.len() > 0,
            ResKey::RId(rid) => *rid != NO_RESOURCE_ID,
            ResKey::RIdWithSuffix(rid, s) => *rid != NO_RESOURCE_ID && s@.len() > 0,
        }
    }

    pub fn rid(&self) -> (r: ResourceId)
        ensures
            r == self.spec_rid(),
    {
        match self {
            ResKey::RName(_) => NO_RESOURCE_ID,
            ResKey::RId(rid) => *rid,
            ResKey::RIdWithSuffix(rid, _) => *rid,
        }
    }

    pub fn is_numerical(&self) -> (r: bool)
        ensures
            r == (self is RId),
    {
        matches!(self, ResKey::RId(_))
    }

    /// A deep copy of this key.
    pub fn to_owned(&self) -> (r: ResKey)
        ensures
            r is RName <==> self is RName,
            r is RId <==> self is RId,
            r is RIdWithSuffix <==> self is RIdWithSuffix,
            r.spec_rid() == self.spec_rid(),
            r.spec_suffix() == self.spec_suffix(),
    {
        match self {
            ResKey::RId(id) => ResKey::RId(*id),
            ResKey::RName(s) => ResKey::RName(s.clone()),
            ResKey::RIdWithSuffix(id, s) => ResKey::RIdWithSuffix(*id, s.clone()),
        }
    }

    /// The textual form of the key: the name, the decimal id, or the id
    /// and the suffix separated by a comma.
    pub fn to_string(&self) -> (r: String)
        ensures
            self is RName ==> r@ == self->RName_0@,
            self is RId ==> r@ == spec_dec(self->RId_0 as int),
            self is RIdWithSuffix ==> r@ == spec_dec(self->RIdWithSuffix_0 as int) + ", "@
                + self->RIdWithSuffix_1@,
    {
        match self {
            ResKey::RName(name) => name.clone(),
            ResKey::RId(rid) => dec_string(*rid),
            ResKey::RIdWithSuffix(rid, suffix) => {
                let mut s = dec_string(*rid);
                s.append(", ");
                s.append(suffix.as_str());
                s
            },
        }
    }

    /// Builds the normal form of a key from its wire parts, an id and a
    /// suffix. A zero id with an empty suffix names nothing and is rejected.
    pub fn from_parts(rid: ResourceId, suffix: String) -> (r: Option<ResKey>)
        ensures
            r is Some <==> (rid != NO_RESOURCE_ID || suffix@.len() > 0),
            r is Some ==> r->0.is_normalized(),
            r is Some ==> r->0.spec_rid() == rid,
            r is Some ==> r->0.spec_suffix() == suffix@,
    {
        if suffix.as_str().is_empty() {
            if rid == NO_RESOURCE_ID {
                None
            } else {
                Some(ResKey::RId(rid))
            }
        } else if rid == NO_RESOURCE_ID {
            Some(ResKey::RName(suffix))
        } else {
            Some(ResKey::RIdWithSuffix(rid, suffix))
        }
    }
}

} // verus!
