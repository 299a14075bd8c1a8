//! Scouting: discovering members of the overlay whose role matches a
//! requested role mask.
use vstd::prelude::*;

use crate::ZInt;
use crate::peer_id::PeerId;
use crate::whatami;

verus! {

/// What a network member answers to a scout: who it is and its role.
#[derive(Debug)]
pub struct Hello {
    pub pid: Option<PeerId>,
    pub whatami: whatami::Type,
    pub locators: Vec<String>,
}

impl Hello {
    pub fn new(pid: Option<PeerId>, whatami: whatami::Type, locators: Vec<String>) -> (r: Hello)
        ensures
            r.pid == pid,
            r.whatami == whatami,
            r.locators == locators,
    {
        Hello { pid, whatami, locators }
    }
}

impl Clone for Hello {
    fn clone(&self) -> (r: Self)
        ensures
            r.pid == self.pid,
            r.whatami == self.whatami,
            r.locators.deep_view() == self.locators.deep_view(),
    {
        let mut locators: Vec<String> = Vec::new();
        let mut i: usize = 0;
        while i < self.locators.len()
            invariant
                i <= self.locators@.len(),
                locators.deep_view() == self.locators.deep_view().take(i as int),
            decreases self.locators@.len() - i,
        {
            let ghost prev = locators.deep_view();
            locators.push(self.locators[i].clone());
            proof {
                assert(locators.deep_view() =~= prev.push(self.locators.deep_view()[i as int]));
                assert(locators.deep_view() =~= self.locators.deep_view().take(i + 1));
            }
            i += 1;
        }
        proof {
            assert(self.locators.deep_view().take(self.locators.deep_view().len() as int)
                =~= self.locators.deep_view());
        }
        Hello { pid: self.pid, whatami: self.whatami, locators }
    }
}

/// A hello answers a scout for `mask` when the roles share a bit.
pub open spec fn spec_hello_matches(w: ZInt, mask: ZInt) -> bool {
    w & mask != 0
}

/// The roles of the hellos that answer a scout for `mask`, scanning the
/// members from index `i`, in order.
pub open spec fn spec_scout_from(ws: Seq<ZInt>, mask: ZInt, i: int) -> Seq<ZInt>
    decreases ws.len() - i,
{
    if i < 0 || i >= ws.len() {
        Seq::<ZInt>::empty()
    } else if spec_hello_matches(ws[i], mask) {
        seq![ws[i]] + spec_scout_from(ws, mask, i + 1)
    } else {
        spec_scout_from(ws, mask, i + 1)
    }
}

/// The roles carried by a sequence of hellos.
pub open spec fn spec_roles(hs: Seq<Hello>) -> Seq<ZInt> {
    hs.map_values(|h: Hello| h.whatami)
}

/// Collects the hellos whose role matches the scout's mask, in order.
/// Every returned hello matches, and the matching members are all kept.
pub fn scout_filter(mask: ZInt, network: &Vec<Hello>) -> (r: Vec<Hello>)
    ensures
        spec_roles(r@) == spec_scout_from(spec_roles(network@), mask, 0),
        forall|i: int| 0 <= i < r@.len() ==> spec_hello_matches(r@[i].whatami, mask),
        (exists|j: int|
            0 <= j < network@.len() && spec_hello_matches(network@[j].whatami, mask)) ==> r@.len()
            > 0,
{
    let ghost ws = spec_roles(network@);
    let mut r: Vec<Hello> = Vec::new();
    let mut i: usize = 0;
    while i < network.len()
        invariant
            i <= network@.len(),
            ws == spec_roles(network@),
            spec_scout_from(ws, mask, 0) == spec_roles(r@) + spec_scout_from(ws, mask, i as int),
            forall|k: int| 0 <= k < r@.len() ==> spec_hello_matches(r@[k].whatami, mask),
            (exists|j: int| 0 <= j < i && spec_hello_matches(ws[j], mask)) ==> r@.len() > 0,
        decreases network@.len() - i,
    {
        let ghost prev = r@;
        let h = &network[i];
        proof {
            assert(ws[i as int] == network@[i as int].whatami);
        }
        if h.whatami & mask != 0 {
            r.push(h.clone());
            proof {
                assert(spec_roles(r@) =~= spec_roles(prev) + seq![network@[i as int].whatami]);
                assert(spec_roles(prev) + (seq![ws[i as int]] + spec_scout_from(
                    ws,
                    mask,
                    i + 1,
                )) =~= spec_roles(r@) + spec_scout_from(ws, mask, i + 1));
            }
        }
        i += 1;
    }
    proof {
        assert(spec_scout_from(ws, mask, network@.len() as int) =~= Seq::<ZInt>::empty());
        assert(spec_roles(r@) + Seq::<ZInt>::empty() =~= spec_roles(r@));
        if exists|j: int| 0 <= j < network@.len() && spec_hello_matches(network@[j].whatami, mask) {
            let j = choose|j: int|
                0 <= j < network@.len() && spec_hello_matches(network@[j].whatami, mask);
            assert(spec_hello_matches(ws[j], mask));
        }
    }
    r
}

} // verus!
