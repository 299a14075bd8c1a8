//! Duplicate-reply suppression on the reply path of a query: forward all,
//! keep the first per key, or keep the latest per key.
use vstd::prelude::*;

use crate::ZInt;
use crate::hlc::Timestamp;
use crate::peer_id::{spec_bytes_lt, PeerId};
use crate::query::ConsolidationMode;

verus! {

/// One reply travelling back to the querier.
#[derive(Debug)]
pub struct Reply {
    pub key: String,
    pub payload: Vec<u8>,
    pub timestamp: Timestamp,
    pub source: PeerId,
}

impl Reply {
    pub open spec fn wf(&self) -> bool {
        self.timestamp.wf() && self.source.wf()
    }
}

impl Clone for Reply {
    fn clone(&self) -> (r: Self)
        ensures
            spec_same_reply(r, *self),
            r.timestamp == self.timestamp,
            r.source == self.source,
    {
        let mut payload: Vec<u8> = Vec::new();
        let mut i: usize = 0;
        while i < self.payload.len()
            invariant
                i <= self.payload@.len(),
                payload@ == self.payload@.take(i as int),
            decreases self.payload@.len() - i,
        {
            payload.push(self.payload[i]);
            proof {
                assert(payload@ =~= self.payload@.take(i + 1));
            }
            i += 1;
        }
        proof {
            assert(self.payload@.take(self.payload@.len() as int) =~= self.payload@);
        }
        Reply {
            key: self.key.clone(),
            payload,
            timestamp: self.timestamp,
            source: self.source,
        }
    }
}

/// Two replies carry the same content.
pub open spec fn spec_same_reply(a: Reply, b: Reply) -> bool {
    a.key@ == b.key@ && a.payload@ == b.payload@ && a.timestamp.time == b.timestamp.time
        && a.timestamp.id.spec_bytes() == b.timestamp.id.spec_bytes() && a.source.spec_bytes()
        == b.source.spec_bytes()
}

/// Strict order on replies for latest-wins consolidation: by timestamp,
/// remaining ties by source peer id.
pub open spec fn spec_reply_lt(a: Reply, b: Reply) -> bool {
    ||| a.timestamp.spec_lt(&b.timestamp)
    ||| (a.timestamp.time == b.timestamp.time && a.timestamp.id.spec_bytes()
        == b.timestamp.id.spec_bytes() && spec_bytes_lt(a.source.spec_bytes(), b.source.spec_bytes()))
}

fn reply_lt(a: &Reply, b: &Reply) -> (r: bool)
    requires
        a.wf(),
        b.wf(),
    ensures
        r == spec_reply_lt(*a, *b),
{
    if a.timestamp.time != b.timestamp.time {
        a.timestamp.time < b.timestamp.time
    } else if a.timestamp.id == b.timestamp.id {
        proof {
            crate::peer_id::lemma_bytes_lt_irrefl(a.timestamp.id.spec_bytes());
        }
        a.source.lt(&b.source)
    } else {
        proof {
            crate::peer_id::lemma_peer_bytes_len(&a.timestamp.id);
            crate::peer_id::lemma_peer_bytes_len(&b.timestamp.id);
        }
        a.timestamp.id.lt(&b.timestamp.id)
    }
}

/// The reply order is transitive: a stored maximum beats every earlier
/// reply a newcomer beat.
proof fn lemma_reply_lt_trans(a: Reply, b: Reply, c: Reply)
    requires
        spec_reply_lt(a, b),
        spec_reply_lt(b, c),
    ensures
        spec_reply_lt(a, c),
{
    if a.timestamp.time == c.timestamp.time {
        let aid = a.timestamp.id.spec_bytes();
        let bid = b.timestamp.id.spec_bytes();
        let cid = c.timestamp.id.spec_bytes();
        if spec_bytes_lt(aid, bid) && spec_bytes_lt(bid, cid) {
            crate::peer_id::lemma_bytes_lt_trans(aid, bid, cid);
        }
        if aid == cid && spec_bytes_lt(a.source.spec_bytes(), b.source.spec_bytes())
            && spec_bytes_lt(b.source.spec_bytes(), c.source.spec_bytes()) {
            crate::peer_id::lemma_bytes_lt_trans(
                a.source.spec_bytes(),
                b.source.spec_bytes(),
                c.source.spec_bytes(),
            );
        }
    }
}

/// The index of the first reply with the given key, or -1.
pub open spec fn spec_first_with_key(s: Seq<Reply>, key: Seq<char>) -> int
    decreases s.len(),
{
    if s.len() == 0 {
        -1
    } else if s[0].key@ == key {
        0
    } else {
        let r = spec_first_with_key(s.drop_first(), key);
        if r < 0 {
            -1
        } else {
            r + 1
        }
    }
}

proof fn lemma_first_with_key(s: Seq<Reply>, key: Seq<char>, i: int)
    requires
        0 <= i <= s.len(),
        forall|k: int| 0 <= k < i ==> s[k].key@ != key,
        i < s.len() ==> s[i].key@ == key,
    ensures
        i == s.len() ==> spec_first_with_key(s, key) == -1,
        i < s.len() ==> spec_first_with_key(s, key) == i,
    decreases s.len(),
{
    if s.len() == 0 {
    } else if s[0].key@ == key {
    } else {
        let d = s.drop_first();
        assert(forall|k: int| 0 <= k < i - 1 ==> d[k] == s[k + 1] && d[k].key@ != key);
        lemma_first_with_key(d, key, i - 1);
    }
}

/// Looks a key up among the consolidated replies.
fn find_key(out: &Vec<Reply>, key: &String) -> (r: Option<usize>)
    ensures
        match r {
            Some(k) => k < out@.len() && out@[k as int].key@ == key@,
            Option::None => forall|k: int| 0 <= k < out@.len() ==> out@[k].key@ != key@,
        },
{
    let mut k: usize = 0;
    while k < out.len()
        invariant
            k <= out@.len(),
            forall|j: int| 0 <= j < k ==> out@[j].key@ != key@,
        decreases out@.len() - k,
    {
        if crate::strfmt::str_eq(out[k].key.as_str(), key.as_str()) {
            return Some(k);
        }
        k += 1;
    }
    None
}
/// The state of first-wins consolidation after the first `j` replies: one
/// entry per key, each the first reply seen with its key, every seen key
/// present.
pub open spec fn spec_lazy_inv(out: Seq<Reply>, replies: Seq<Reply>, j: int) -> bool {
    &&& (forall|a: int, b: int|
        0 <= a < b < out.len() ==> (#[trigger] out[a]).key@ != (#[trigger] out[b]).key@)
    &&& (forall|i: int|
        #![trigger out[i]]
        0 <= i < out.len() ==> {
            let f = spec_first_with_key(replies, out[i].key@);
            0 <= f < replies.len() && spec_same_reply(out[i], replies[f])
        })
    &&& (forall|k: int|
        #![trigger replies[k]]
        0 <= k < j ==> exists|i: int|
            #![trigger out[i]]
            0 <= i < out.len() && replies[k].key@ == out[i].key@)
}

/// Folds one more reply into a first-wins batch.
#[verifier::rlimit(100)]
fn lazy_step(out: &mut Vec<Reply>, replies: &Vec<Reply>, j: usize)
    requires
        j < replies@.len(),
        spec_lazy_inv(old(out)@, replies@, j as int),
    ensures
        spec_lazy_inv(final(out)@, replies@, j + 1),
{
    let cur = &replies[j];
    match find_key(out, &cur.key) {
        Some(k) => {
            proof {
                assert(out@[k as int].key@ == replies@[j as int].key@);
            }
        },
        Option::None => {
            let ghost prev_out = out@;
            proof {
                assert forall|k: int| 0 <= k < j implies replies@[k].key@ != cur.key@ by {
                    if replies@[k].key@ == cur.key@ {
                        let i = choose|i: int|
                            0 <= i < out@.len() && replies@[k].key@ == out@[i].key@;
                        assert(out@[i].key@ == cur.key@);
                    }
                }
                lemma_first_with_key(replies@, cur.key@, j as int);
            }
            out.push(cur.clone());
            proof {
                assert forall|kk: int| #![trigger replies@[kk]] 0 <= kk < j + 1 implies exists|
                    i: int,
                |
                    #![trigger out@[i]]
                    0 <= i < out@.len() && replies@[kk].key@ == out@[i].key@ by {
                    if kk == j {
                        assert(out@[out@.len() - 1].key@ == replies@[kk].key@);
                    } else {
                        let i = choose|i: int|
                            0 <= i < prev_out.len() && replies@[kk].key@ == prev_out[i].key@;
                        assert(out@[i].key@ == prev_out[i].key@);
                    }
                }
            }
        },
    }
}

/// Keeps, per key, the first reply of the batch, in order of first
/// appearance.
fn consolidate_lazy(replies: &Vec<Reply>) -> (r: Vec<Reply>)
    ensures
        spec_lazy_inv(r@, replies@, replies@.len() as int),
{
    let mut out: Vec<Reply> = Vec::new();
    let mut j: usize = 0;
    while j < replies.len()
        invariant
            j <= replies@.len(),
            spec_lazy_inv(out@, replies@, j as int),
        decreases replies@.len() - j,
    {
        lazy_step(&mut out, replies, j);
        j += 1;
    }
    out
}
/// The state of latest-wins consolidation after the first `j` replies:
/// one entry per key, each an unbeaten reply already seen, every seen key
/// present.
pub open spec fn spec_full_inv(out: Seq<Reply>, replies: Seq<Reply>, j: int) -> bool {
    &&& (forall|a: int, b: int|
        0 <= a < b < out.len() ==> (#[trigger] out[a]).key@ != (#[trigger] out[b]).key@)
    &&& (forall|i: int|
        #![trigger out[i]]
        0 <= i < out.len() ==> exists|k: int|
            #![trigger replies[k]]
            0 <= k < replies.len() && spec_same_reply(out[i], replies[k]))
    &&& (forall|k: int|
        #![trigger replies[k]]
        0 <= k < j ==> exists|i: int|
            #![trigger out[i]]
            0 <= i < out.len() && replies[k].key@ == out[i].key@)
    &&& (forall|i: int, k: int|
        0 <= i < out.len() && 0 <= k < j && (#[trigger] out[i]).key@ == (
        #[trigger] replies[k]).key@ ==> !spec_reply_lt(out[i], replies[k]))
    &&& (forall|i: int| 0 <= i < out.len() ==> (#[trigger] out[i]).wf())
}

/// Folds one more reply into a latest-wins batch.
#[verifier::rlimit(100)]
fn full_step(out: &mut Vec<Reply>, replies: &Vec<Reply>, j: usize)
    requires
        j < replies@.len(),
        replies@[j as int].wf(),
        spec_full_inv(old(out)@, replies@, j as int),
    ensures
        spec_full_inv(final(out)@, replies@, j + 1),
{
    let cur = &replies[j];
    match find_key(out, &cur.key) {
        Some(k) => {
            let ghost prev_out = out@;
            let ghost beaten = out@[k as int];
            if reply_lt(&out[k], cur) {
                out[k] = cur.clone();
                proof {
                    let newr = out@[k as int];
                    assert(out@ == prev_out.update(k as int, newr));
                    assert(spec_same_reply(newr, replies@[j as int]));
                    assert(newr.key@ == beaten.key@);
                    crate::peer_id::lemma_bytes_lt_irrefl(newr.timestamp.id.spec_bytes());
                    crate::peer_id::lemma_bytes_lt_irrefl(newr.source.spec_bytes());
                    assert(!spec_reply_lt(newr, replies@[j as int]));
                    assert(spec_reply_lt(beaten, newr));
                    assert forall|kk: int|
                        0 <= kk < j && newr.key@ == replies@[kk].key@ implies !spec_reply_lt(
                        newr,
                        replies@[kk],
                    ) by {
                        if spec_reply_lt(newr, replies@[kk]) {
                            lemma_reply_lt_trans(beaten, newr, replies@[kk]);
                        }
                    }
                    assert forall|kk: int| #![trigger replies@[kk]] 0 <= kk < j + 1 implies exists|
                        i: int,
                    |
                        #![trigger out@[i]]
                        0 <= i < out@.len() && replies@[kk].key@ == out@[i].key@ by {
                        if kk == j {
                            assert(out@[k as int].key@ == replies@[kk].key@);
                        } else {
                            let i = choose|i: int|
                                0 <= i < prev_out.len() && replies@[kk].key@ == prev_out[i].key@;
                            assert(out@[i].key@ == prev_out[i].key@);
                        }
                    }
                    assert forall|i: int, kk: int|
                        0 <= i < out@.len() && 0 <= kk < j + 1 && (#[trigger] out@[i]).key@ == (
                        #[trigger] replies@[kk]).key@ implies !spec_reply_lt(
                        out@[i],
                        replies@[kk],
                    ) by {
                        if i != k as int {
                            assert(out@[i] == prev_out[i]);
                            if kk == j {
                                assert(prev_out[i].key@ != prev_out[k as int].key@);
                            }
                        }
                    }
                }
            } else {
                proof {
                    assert(out@[k as int].key@ == replies@[j as int].key@);
                    assert forall|i: int, kk: int|
                        0 <= i < out@.len() && 0 <= kk < j + 1 && (#[trigger] out@[i]).key@ == (
                        #[trigger] replies@[kk]).key@ implies !spec_reply_lt(
                        out@[i],
                        replies@[kk],
                    ) by {
                        if kk == j && i != k as int {
                            assert(out@[i].key@ != out@[k as int].key@);
                        }
                    }
                }
            }
        },
        Option::None => {
            let ghost prev_out = out@;
            proof {
                assert forall|kk: int| 0 <= kk < j implies replies@[kk].key@ != cur.key@ by {
                    if replies@[kk].key@ == cur.key@ {
                        let i = choose|i: int|
                            0 <= i < out@.len() && replies@[kk].key@ == out@[i].key@;
                        assert(out@[i].key@ == cur.key@);
                    }
                }
            }
            out.push(cur.clone());
            proof {
                let newr = out@[out@.len() - 1];
                assert(spec_same_reply(newr, replies@[j as int]));
                crate::peer_id::lemma_bytes_lt_irrefl(newr.timestamp.id.spec_bytes());
                crate::peer_id::lemma_bytes_lt_irrefl(newr.source.spec_bytes());
                assert(!spec_reply_lt(newr, replies@[j as int]));
                assert forall|kk: int| #![trigger replies@[kk]] 0 <= kk < j + 1 implies exists|
                    i: int,
                |
                    #![trigger out@[i]]
                    0 <= i < out@.len() && replies@[kk].key@ == out@[i].key@ by {
                    if kk == j {
                        assert(out@[out@.len() - 1].key@ == replies@[kk].key@);
                    } else {
                        let i = choose|i: int|
                            0 <= i < prev_out.len() && replies@[kk].key@ == prev_out[i].key@;
                        assert(out@[i].key@ == prev_out[i].key@);
                    }
                }
            }
        },
    }
}

/// Keeps, per key, the greatest reply of the batch under the reply order.
fn consolidate_full(replies: &Vec<Reply>) -> (r: Vec<Reply>)
    requires
        forall|j: int| 0 <= j < replies@.len() ==> (#[trigger] replies@[j]).wf(),
    ensures
        spec_full_inv(r@, replies@, replies@.len() as int),
{
    let mut out: Vec<Reply> = Vec::new();
    let mut j: usize = 0;
    while j < replies.len()
        invariant
            j <= replies@.len(),
            spec_full_inv(out@, replies@, j as int),
            forall|k: int| 0 <= k < replies@.len() ==> (#[trigger] replies@[k]).wf(),
        decreases replies@.len() - j,
    {
        full_step(&mut out, replies, j);
        j += 1;
    }
    out
}

/// Applies one stage of consolidation to a batch of replies.
///
/// `Off` forwards every reply unchanged. `Lazy` keeps, per key, the first
/// reply of the batch, as `spec_lazy_inv` states. `Full` keeps, per key,
/// the latest reply — the one with the greatest timestamp, ties broken by
/// source peer id — as `spec_full_inv` states; both also say that no key
/// received is lost and no reply is invented.
pub fn consolidate(mode: ConsolidationMode, replies: Vec<Reply>) -> (r: Vec<Reply>)
    requires
        forall|j: int| 0 <= j < replies@.len() ==> (#[trigger] replies@[j]).wf(),
    ensures
        mode == ConsolidationMode::Off ==> r == replies,
        mode == ConsolidationMode::Lazy ==> spec_lazy_inv(r@, replies@, replies@.len() as int),
        mode == ConsolidationMode::Full ==> spec_full_inv(r@, replies@, replies@.len() as int),
{
    match mode {
        ConsolidationMode::Off => replies,
        ConsolidationMode::Lazy => consolidate_lazy(&replies),
        ConsolidationMode::Full => consolidate_full(&replies),
    }
}

} // verus!
