//! Query routing: choosing, among the queryables a router knows, the ones a
//! query is forwarded to.
use vstd::prelude::*;

use crate::peer_id::{spec_bytes_lt, PeerId};
use crate::query::{QueryableInfo, Target};
use crate::rname;

verus! {

/// One queryable known to the router: the neighbor advertising it, its
/// selector, and its metadata.
#[derive(Debug)]
pub struct QueryableEntry {
    pub peer: PeerId,
    pub selector: String,
    pub info: QueryableInfo,
}

/// The entry's selector intersects the query's selector.
pub open spec fn spec_entry_matches(e: QueryableEntry, selector: Seq<char>) -> bool {
    rname::spec_intersect(rname::spec_split(e.selector@), rname::spec_split(selector))
}

/// Strict preference between two matching entries: complete before
/// incomplete, then smaller distance, then smaller peer id, then the
/// earlier entry.
pub open spec fn spec_better(a: QueryableEntry, ai: int, b: QueryableEntry, bi: int) -> bool {
    if (a.info.complete > 0) != (b.info.complete > 0) {
        a.info.complete > 0
    } else if a.info.distance != b.info.distance {
        a.info.distance < b.info.distance
    } else if a.peer.spec_bytes() != b.peer.spec_bytes() {
        spec_bytes_lt(a.peer.spec_bytes(), b.peer.spec_bytes())
    } else {
        ai < bi
    }
}

fn entry_matches(e: &QueryableEntry, selector: &str) -> (r: bool)
    ensures
        r == spec_entry_matches(*e, selector@),
{
    rname::intersect(e.selector.as_str(), selector)
}

fn better(a: &QueryableEntry, ai: usize, b: &QueryableEntry, bi: usize) -> (r: bool)
    requires
        a.peer.wf(),
        b.peer.wf(),
    ensures
        r == spec_better(*a, ai as int, *b, bi as int),
{
    proof {
        crate::peer_id::lemma_bytes_lt_irrefl(a.peer.spec_bytes());
        crate::peer_id::lemma_bytes_lt_irrefl(b.peer.spec_bytes());
    }
    let ac = a.info.complete > 0;
    let bc = b.info.complete > 0;
    if ac != bc {
        ac
    } else if a.info.distance != b.info.distance {
        a.info.distance < b.info.distance
    } else if a.peer.lt(&b.peer) {
        true
    } else if b.peer.lt(&a.peer) {
        false
    } else {
        proof {
            crate::peer_id::lemma_bytes_trichotomy(a.peer.spec_bytes(), b.peer.spec_bytes());
        }
        ai < bi
    }
}

/// All entries of a list are well formed.
pub open spec fn spec_entries_wf(entries: Seq<QueryableEntry>) -> bool {
    forall|i: int| 0 <= i < entries.len() ==> (#[trigger] entries[i]).peer.wf()
}

/// The indices, in order, of the entries whose selector intersects the
/// query and that satisfy `complete_only` when asked.
pub open spec fn spec_all_matches(
    entries: Seq<QueryableEntry>,
    selector: Seq<char>,
    complete_only: bool,
    j: int,
) -> Seq<int>
    decreases entries.len() - j,
{
    if j < 0 || j >= entries.len() {
        Seq::<int>::empty()
    } else {
        let rest = spec_all_matches(entries, selector, complete_only, j + 1);
        if spec_entry_matches(entries[j], selector) && (!complete_only || entries[j].info.complete
            > 0) {
            seq![j] + rest
        } else {
            rest
        }
    }
}

/// Collects matching entries in order, optionally only complete ones.
fn collect_matches(entries: &Vec<QueryableEntry>, selector: &str, complete_only: bool) -> (r: Vec<
    usize,
>)
    ensures
        r@.map_values(|u: usize| u as int) == spec_all_matches(
            entries@,
            selector@,
            complete_only,
            0,
        ),
        forall|k: int| 0 <= k < r@.len() ==> (#[trigger] r@[k]) < entries@.len(),
{
    let mut r: Vec<usize> = Vec::new();
    let mut j: usize = 0;
    while j < entries.len()
        invariant
            j <= entries@.len(),
            forall|k: int| 0 <= k < r@.len() ==> (#[trigger] r@[k]) < entries@.len(),
            spec_all_matches(entries@, selector@, complete_only, 0) == r@.map_values(
                |u: usize| u as int,
            ) + spec_all_matches(entries@, selector@, complete_only, j as int),
        decreases entries@.len() - j,
    {
        let ghost prev = r@;
        let e = &entries[j];
        if entry_matches(e, selector) && (!complete_only || e.info.complete > 0) {
            r.push(j);
            proof {
                assert(r@.map_values(|u: usize| u as int) =~= prev.map_values(|u: usize| u as int)
                    + seq![j as int]);
                assert(prev.map_values(|u: usize| u as int) + (seq![j as int]
                    + spec_all_matches(entries@, selector@, complete_only, j + 1))
                    =~= r@.map_values(|u: usize| u as int) + spec_all_matches(
                    entries@,
                    selector@,
                    complete_only,
                    j + 1,
                ));
            }
        }
        j += 1;
    }
    proof {
        assert(spec_all_matches(entries@, selector@, complete_only, entries@.len() as int)
            =~= Seq::<int>::empty());
        assert(r@.map_values(|u: usize| u as int) + Seq::<int>::empty() =~= r@.map_values(
            |u: usize| u as int,
        ));
    }
    r
}

/// Chooses the queryables a query is forwarded to, as indices into
/// `entries`, per the query's target.
///
/// `All` keeps every matching entry, `AllComplete` every matching complete
/// one, `NoTarget` none. `BestMatching` keeps the single best matching
/// entry under the preference order: complete first, then nearest, then
/// smallest peer id. `Complete(n)` keeps the first `n` matching complete
/// entries.
pub fn select_targets(entries: &Vec<QueryableEntry>, selector: &str, target: &Target) -> (r: Vec<
    usize,
>)
    requires
        spec_entries_wf(entries@),
    ensures
        forall|k: int| 0 <= k < r@.len() ==> (#[trigger] r@[k]) < entries@.len(),
        target == Target::All ==> r@.map_values(|u: usize| u as int) == spec_all_matches(
            entries@,
            selector@,
            false,
            0,
        ),
        target == Target::AllComplete ==> r@.map_values(|u: usize| u as int) == spec_all_matches(
            entries@,
            selector@,
            true,
            0,
        ),
        target == Target::NoTarget ==> r@.len() == 0,
        target == Target::BestMatching ==> {
            &&& r@.len() <= 1
            &&& (r@.len() == 1 <==> exists|j: int|
                0 <= j < entries@.len() && spec_entry_matches(#[trigger] entries@[j], selector@))
            &&& (forall|j: int|
                0 <= j < entries@.len() && spec_entry_matches(#[trigger] entries@[j], selector@)
                    && r@.len() == 1 && j != r@[0] ==> spec_better(
                    entries@[r@[0] as int],
                    r@[0] as int,
                    entries@[j],
                    j,
                ))
            &&& (r@.len() == 1 ==> spec_entry_matches(entries@[r@[0] as int], selector@))
        },
        target matches Target::Complete(n) ==> r@.map_values(|u: usize| u as int)
            == spec_all_matches(entries@, selector@, true, 0).take(
            vstd::math::min(n as int, spec_all_matches(entries@, selector@, true, 0).len() as int),
        ),
{
    match target {
        Target::NoTarget => Vec::new(),
        Target::All => collect_matches(entries, selector, false),
        Target::AllComplete => collect_matches(entries, selector, true),
        Target::Complete(n) => {
            let all = collect_matches(entries, selector, true);
            let keep: usize = if *n < all.len() as u64 {
                *n as usize
            } else {
                all.len()
            };
            let mut r: Vec<usize> = Vec::new();
            let mut j: usize = 0;
            while j < keep
                invariant
                    keep <= all@.len(),
                    j <= keep,
                    r@ == all@.take(j as int),
                decreases keep - j,
            {
                r.push(all[j]);
                proof {
                    assert(r@ =~= all@.take(j + 1));
                }
                j += 1;
            }
            proof {
                assert(r@.map_values(|u: usize| u as int) =~= all@.map_values(
                    |u: usize| u as int,
                ).take(keep as int));
            }
            r
        },
        Target::BestMatching => {
            let mut best: usize = 0;
            let mut found = false;
            let mut j: usize = 0;
            while j < entries.len()
                invariant
                    spec_entries_wf(entries@),
                    j <= entries@.len(),
                    !found ==> forall|k: int|
                        0 <= k < j ==> !spec_entry_matches(#[trigger] entries@[k], selector@),
                    found ==> best < j && spec_entry_matches(entries@[best as int], selector@),
                    found ==> forall|k: int|
                        0 <= k < j && k != best && spec_entry_matches(
                            #[trigger] entries@[k],
                            selector@,
                        ) ==> spec_better(entries@[best as int], best as int, entries@[k], k),
                decreases entries@.len() - j,
            {
                let e = &entries[j];
                if entry_matches(e, selector) {
                    if !found {
                        best = j;
                        found = true;
                    } else if better(e, j, &entries[best], best) {
                        proof {
                            assert forall|k: int|
                                0 <= k < j + 1 && k != j as int && spec_entry_matches(
                                    #[trigger] entries@[k],
                                    selector@,
                                ) implies spec_better(entries@[j as int], j as int, entries@[k], k) by {
                                if k != best as int {
                                    lemma_better_trans(
                                        entries@[j as int],
                                        j as int,
                                        entries@[best as int],
                                        best as int,
                                        entries@[k],
                                        k,
                                    );
                                }
                            }
                        }
                        best = j;
                    } else {
                        proof {
                            lemma_better_total(
                                entries@[best as int],
                                best as int,
                                entries@[j as int],
                                j as int,
                            );
                        }
                    }
                }
                j += 1;
            }
            let mut r: Vec<usize> = Vec::new();
            if found {
                r.push(best);
            }
            r
        },
    }
}

/// The preference order is transitive.
proof fn lemma_better_trans(
    a: QueryableEntry,
    ai: int,
    b: QueryableEntry,
    bi: int,
    c: QueryableEntry,
    ci: int,
)
    requires
        spec_better(a, ai, b, bi),
        spec_better(b, bi, c, ci),
    ensures
        spec_better(a, ai, c, ci),
{
    if a.peer.spec_bytes() != b.peer.spec_bytes() && b.peer.spec_bytes() != c.peer.spec_bytes()
        && spec_bytes_lt(a.peer.spec_bytes(), b.peer.spec_bytes()) && spec_bytes_lt(
        b.peer.spec_bytes(),
        c.peer.spec_bytes(),
    ) {
        crate::peer_id::lemma_bytes_lt_trans(
            a.peer.spec_bytes(),
            b.peer.spec_bytes(),
            c.peer.spec_bytes(),
        );
    }
    if a.peer.spec_bytes() == c.peer.spec_bytes() && a.peer.spec_bytes() != b.peer.spec_bytes() {
        crate::peer_id::lemma_bytes_asym(a.peer.spec_bytes(), b.peer.spec_bytes());
    }
}

/// Of two distinct entries, one is preferred.
proof fn lemma_better_total(a: QueryableEntry, ai: int, b: QueryableEntry, bi: int)
    requires
        ai != bi,
        !spec_better(b, bi, a, ai),
    ensures
        spec_better(a, ai, b, bi),
{
    if a.peer.spec_bytes() != b.peer.spec_bytes() {
        crate::peer_id::lemma_bytes_trichotomy(a.peer.spec_bytes(), b.peer.spec_bytes());
    }
}

} // verus!
