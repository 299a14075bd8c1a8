//! The session state machine: opening and closing, lease and keep-alive
//! accounting, declarations, and the push/pull delivery of publications to
//! the session's subscribers.
use vstd::prelude::*;

use crate::{ResourceId, ZInt, NO_RESOURCE_ID};
use crate::encoding::Encoding;
use crate::query::QueryableInfo;
use crate::rname;
use crate::sub::{SubInfo, SubMode};
use crate::zerror::ZError;

verus! {

/// The lifecycle of a session with one remote endpoint.
#[derive(Debug, Clone, Copy, PartialEq, Eq, Structural)]
pub enum SessionState {
    Idle,
    Opening,
    Established,
    KeepAliveLost,
    Closing,
    Closed,
}

/// One data sample delivered to a subscriber.
#[derive(Debug)]
pub struct Sample {
    pub key: String,
    pub payload: Vec<u8>,
    pub encoding: Encoding,
}

/// A sample carries the given key, payload and encoding.
pub open spec fn spec_sample_is(s: Sample, key: Seq<char>, payload: Seq<u8>, enc: Encoding) -> bool {
    s.key@ == key && s.payload@ == payload && s.encoding.prefix == enc.prefix
        && s.encoding.suffix@ == enc.suffix@
}

/// A local subscription: pushed samples land in `delivered`; in pull mode
/// they wait in `buffer` until the subscriber pulls.
#[derive(Debug)]
pub struct Subscriber {
    pub id: ZInt,
    pub selector: String,
    pub info: SubInfo,
    pub buffer: Vec<Sample>,
    pub delivered: Vec<Sample>,
}

/// How one subscriber changes when a publication on `key` is routed.
pub open spec fn spec_route_step(
    s0: Subscriber,
    s1: Subscriber,
    key: Seq<char>,
    payload: Seq<u8>,
    enc: Encoding,
) -> bool {
    &&& s1.id == s0.id
    &&& s1.selector@ == s0.selector@
    &&& s1.info == s0.info
    &&& if rname::spec_matches(s0.selector@, key) {
        if s0.info.mode == SubMode::Push {
            &&& s1.delivered@.len() == s0.delivered@.len() + 1
            &&& s1.delivered@.take(s0.delivered@.len() as int) == s0.delivered@
            &&& spec_sample_is(s1.delivered@.last(), key, payload, enc)
            &&& s1.buffer@ == s0.buffer@
        } else {
            &&& s1.buffer@.len() == s0.buffer@.len() + 1
            &&& s1.buffer@.take(s0.buffer@.len() as int) == s0.buffer@
            &&& spec_sample_is(s1.buffer@.last(), key, payload, enc)
            &&& s1.delivered@ == s0.delivered@
        }
    } else {
        s1.delivered@ == s0.delivered@ && s1.buffer@ == s0.buffer@
    }
}

/// The index of the first subscriber with the given id, or -1.
pub open spec fn spec_find_sub(subs: Seq<Subscriber>, id: ZInt) -> int
    decreases subs.len(),
{
    if subs.len() == 0 {
        -1
    } else if subs[0].id == id {
        0
    } else {
        let r = spec_find_sub(subs.drop_first(), id);
        if r < 0 {
            -1
        } else {
            r + 1
        }
    }
}

proof fn lemma_find_sub(subs: Seq<Subscriber>, id: ZInt, i: int)
    requires
        0 <= i <= subs.len(),
        forall|k: int| 0 <= k < i ==> subs[k].id != id,
        i < subs.len() ==> subs[i].id == id,
    ensures
        i == subs.len() ==> spec_find_sub(subs, id) == -1,
        i < subs.len() ==> spec_find_sub(subs, id) == i,
    decreases subs.len(),
{
    if subs.len() == 0 {
    } else if subs[0].id == id {
    } else {
        let d = subs.drop_first();
        assert(forall|k: int| 0 <= k < i - 1 ==> d[k] == subs[k + 1] && d[k].id != id);
        lemma_find_sub(d, id, i - 1);
    }
}

fn clone_bytes(v: &Vec<u8>) -> (r: Vec<u8>)
    ensures
        r@ == v@,
{
    let mut r: Vec<u8> = Vec::new();
    let mut i: usize = 0;
    while i < v.len()
        invariant
            i <= v@.len(),
            r@ == v@.take(i as int),
        decreases v@.len() - i,
    {
        r.push(v[i]);
        proof {
            assert(r@ =~= v@.take(i + 1));
        }
        i += 1;
    }
    proof {
        assert(v@.take(v@.len() as int) =~= v@);
    }
    r
}

/// A bidirectional conversation with one remote endpoint.
#[derive(Debug)]
pub struct Session {
    pub state: SessionState,
    /// The lease, in milliseconds: absent any inbound frame for 3.5 times
    /// this interval, the link is considered dead.
    pub lease: ZInt,
    /// When the last inbound frame arrived, in milliseconds.
    pub last_inbound: ZInt,
    pub next_rid: ZInt,
    pub resources: Vec<(ResourceId, String)>,
    pub subscribers: Vec<Subscriber>,
    pub queryables: Vec<(String, QueryableInfo)>,
    pub next_sub_id: ZInt,
}

impl Session {
    /// Fresh ids stay non-zero: the zero resource id is reserved.
    pub open spec fn wf(&self) -> bool {
        self.next_rid >= 1 && self.next_sub_id >= 1
    }

    /// Silence has outlasted 3.5 times the keep-alive lease.
    pub open spec fn spec_silence_expired(&self, now: ZInt) -> bool {
        now >= self.last_inbound && 2 * (now - self.last_inbound) > 7 * self.lease
    }

    /// Starts opening a session.
    pub fn open(lease: ZInt, now: ZInt) -> (s: Session)
        ensures
            s.wf(),
            s.state == SessionState::Opening,
            s.lease == lease,
            s.last_inbound == now,
            s.next_rid == 1,
            s.next_sub_id == 1,
            s.resources@.len() == 0,
            s.subscribers@.len() == 0,
            s.queryables@.len() == 0,
    {
        Session {
            state: SessionState::Opening,
            lease,
            last_inbound: now,
            next_rid: 1,
            resources: Vec::new(),
            subscribers: Vec::new(),
            queryables: Vec::new(),
            next_sub_id: 1,
        }
    }

    /// Finishes the handshake. Fails with `Handshake` unless the session
    /// was opening.
    pub fn establish(&mut self) -> (r: Result<(), ZError>)
        ensures
            (r is Ok) == (old(self).state == SessionState::Opening),
            r is Ok ==> final(self).state == SessionState::Established,
            r is Err ==> r->Err_0 is Handshake && final(self).state == old(self).state,
            final(self).lease == old(self).lease,
            final(self).last_inbound == old(self).last_inbound,
            final(self).next_rid == old(self).next_rid,
            final(self).resources == old(self).resources,
            final(self).subscribers == old(self).subscribers,
            final(self).queryables == old(self).queryables,
            final(self).next_sub_id == old(self).next_sub_id,
    {
        match self.state {
            SessionState::Opening => {
                self.state = SessionState::Established;
                Ok(())
            },
            _ => Err(ZError::Handshake),
        }
    }

    /// Notes an inbound frame: the lease countdown restarts.
    pub fn on_inbound(&mut self, now: ZInt)
        ensures
            old(self).state == SessionState::Established ==> *final(self) == (Session {
                last_inbound: now,
                ..*old(self)
            }),
            old(self).state != SessionState::Established ==> *final(self) == *old(self),
    {
        if matches!(self.state, SessionState::Established) {
            self.last_inbound = now;
        }
    }

    /// The interval at which keep-alives should be emitted: a quarter of
    /// the lease.
    pub fn keep_alive_interval(&self) -> (r: ZInt)
        ensures
            r == self.lease / 4,
    {
        self.lease / 4
    }

    /// A keep-alive is due when the interval has passed since the last
    /// outbound frame.
    pub fn keep_alive_due(&self, now: ZInt, last_outbound: ZInt) -> (r: bool)
        ensures
            r == (now as int >= last_outbound as int + self.lease as int / 4),
    {
        now as u128 >= last_outbound as u128 + (self.lease / 4) as u128
    }

    /// Checks the lease: an established session that has heard nothing for
    /// 3.5 times the lease loses its keep-alive.
    pub fn check_lease(&mut self, now: ZInt) -> (r: bool)
        ensures
            r == (old(self).state == SessionState::Established && old(self).spec_silence_expired(
                now,
            )),
            r ==> *final(self) == (Session { state: SessionState::KeepAliveLost, ..*old(self) }),
            !r ==> *final(self) == *old(self),
    {
        if matches!(self.state, SessionState::Established) && now >= self.last_inbound && 2
            * ((now - self.last_inbound) as u128) > 7 * (self.lease as u128) {
            self.state = SessionState::KeepAliveLost;
            true
        } else {
            false
        }
    }

    /// A session that lost its keep-alive starts closing.
    pub fn start_closing(&mut self)
        ensures
            *final(self) == (Session { state: SessionState::Closing, ..*old(self) }),
    {
        self.state = SessionState::Closing;
    }

    /// Finishes closing: local resource ids are invalidated.
    pub fn finish_close(&mut self)
        ensures
            final(self).state == SessionState::Closed,
            final(self).resources@.len() == 0,
            final(self).subscribers@.len() == 0,
            final(self).queryables@.len() == 0,
    {
        self.state = SessionState::Closed;
        self.resources = Vec::new();
        self.subscribers = Vec::new();
        self.queryables = Vec::new();
        proof {
            assert(self.resources@ =~= Seq::<(ResourceId, String)>::empty());
        }
    }

    /// Allocates a fresh non-zero resource id for a name and installs the
    /// mapping. Fails with `SessionClosed` off an established session,
    /// with `InvalidSelector` on a malformed name, and with `Other` when
    /// the id space is exhausted.
    pub fn declare_resource(&mut self, name: String) -> (r: Result<ResourceId, ZError>)
        requires
            old(self).wf(),
        ensures
            final(self).wf(),
            (r is Ok) == (old(self).state == SessionState::Established
                && rname::spec_valid_name(name@) && old(self).next_rid < ZInt::MAX),
            old(self).state != SessionState::Established ==> r is Err && r->Err_0
                is SessionClosed,
            old(self).state == SessionState::Established && !rname::spec_valid_name(name@) ==> r
                is Err && r->Err_0 is InvalidSelector,
            r is Ok ==> r->Ok_0 == old(self).next_rid && r->Ok_0 != NO_RESOURCE_ID,
            r is Ok ==> final(self).resources@.len() == old(self).resources@.len() + 1 && final(self).resources@.take(old(self).resources@.len() as int) == old(self).resources@ && final(self).resources@.last().0 == old(self).next_rid && final(self).resources@.last().1@
                == name@ && final(self).next_rid == old(self).next_rid + 1,
            r is Err ==> final(self).resources == old(self).resources && final(self).next_rid
                == old(self).next_rid,
            final(self).state == old(self).state,
            final(self).subscribers == old(self).subscribers,
            final(self).queryables == old(self).queryables,
            final(self).next_sub_id == old(self).next_sub_id,
            final(self).lease == old(self).lease,
            final(self).last_inbound == old(self).last_inbound,
    {
        if !matches!(self.state, SessionState::Established) {
            return Err(ZError::SessionClosed);
        }
        if !rname::is_valid_name(name.as_str()) {
            return Err(ZError::InvalidSelector);
        }
        if self.next_rid == ZInt::MAX {
            return Err(ZError::Other(String::from_str("resource id space exhausted")));
        }
        let rid = self.next_rid;
        let ghost prev = self.resources@;
        self.resources.push((rid, name));
        self.next_rid = rid + 1;
        proof {
            assert(self.resources@.take(prev.len() as int) =~= prev);
        }
        Ok(rid)
    }

    /// Looks a registered resource id up.
    pub fn resolve(&self, rid: ResourceId) -> (r: Option<&String>)
        ensures
            (r is Some) == (exists|i: int|
                0 <= i < self.resources@.len() && (#[trigger] self.resources@[i]).0 == rid),
            r is Some ==> exists|i: int|
                0 <= i < self.resources@.len() && (#[trigger] self.resources@[i]).0 == rid
                    && r->0@ == self.resources@[i].1@,
    {
        let mut i: usize = 0;
        while i < self.resources.len()
            invariant
                i <= self.resources@.len(),
                forall|k: int| 0 <= k < i ==> (#[trigger] self.resources@[k]).0 != rid,
            decreases self.resources@.len() - i,
        {
            if self.resources[i].0 == rid {
                return Some(&self.resources[i].1);
            }
            i += 1;
        }
        None
    }

    /// Installs a local subscription under a fresh handle. Fails like
    /// `declare_resource`.
    pub fn declare_subscriber(&mut self, selector: String, info: SubInfo) -> (r: Result<
        ZInt,
        ZError,
    >)
        requires
            old(self).wf(),
        ensures
            final(self).wf(),
            (r is Ok) == (old(self).state == SessionState::Established
                && rname::spec_valid_name(selector@) && old(self).next_sub_id < ZInt::MAX),
            old(self).state != SessionState::Established ==> r is Err && r->Err_0
                is SessionClosed,
            old(self).state == SessionState::Established && !rname::spec_valid_name(selector@)
                ==> r is Err && r->Err_0 is InvalidSelector,
            r is Ok ==> r->Ok_0 == old(self).next_sub_id,
            r is Ok ==> final(self).subscribers@.len() == old(self).subscribers@.len() + 1
                && final(self).subscribers@.take(old(self).subscribers@.len() as int) == old(self).subscribers@ && final(self).subscribers@.last().id == old(self).next_sub_id && final(self).subscribers@.last().selector@ == selector@ && final(self).subscribers@.last().info
                == info && final(self).subscribers@.last().buffer@.len() == 0 && final(self).subscribers@.last().delivered@.len() == 0 && final(self).next_sub_id == old(self).next_sub_id + 1,
            r is Err ==> final(self).subscribers == old(self).subscribers && final(self).next_sub_id == old(self).next_sub_id,
            final(self).state == old(self).state,
            final(self).resources == old(self).resources,
            final(self).queryables == old(self).queryables,
            final(self).next_rid == old(self).next_rid,
            final(self).lease == old(self).lease,
            final(self).last_inbound == old(self).last_inbound,
    {
        if !matches!(self.state, SessionState::Established) {
            return Err(ZError::SessionClosed);
        }
        if !rname::is_valid_name(selector.as_str()) {
            return Err(ZError::InvalidSelector);
        }
        if self.next_sub_id == ZInt::MAX {
            return Err(ZError::Other(String::from_str("subscriber id space exhausted")));
        }
        let id = self.next_sub_id;
        let ghost prev = self.subscribers@;
        self.subscribers.push(
            Subscriber { id, selector, info, buffer: Vec::new(), delivered: Vec::new() },
        );
        self.next_sub_id = id + 1;
        proof {
            assert(self.subscribers@.take(prev.len() as int) =~= prev);
        }
        Ok(id)
    }

    /// Installs a local reply source. Fails like `declare_resource`.
    pub fn declare_queryable(&mut self, selector: String, info: QueryableInfo) -> (r: Result<
        (),
        ZError,
    >)
        ensures
            (r is Ok) == (old(self).state == SessionState::Established
                && rname::spec_valid_name(selector@)),
            old(self).state != SessionState::Established ==> r is Err && r->Err_0
                is SessionClosed,
            old(self).state == SessionState::Established && !rname::spec_valid_name(selector@)
                ==> r is Err && r->Err_0 is InvalidSelector,
            r is Ok ==> final(self).queryables@.len() == old(self).queryables@.len() + 1 && final(self).queryables@.take(old(self).queryables@.len() as int) == old(self).queryables@
                && final(self).queryables@.last().0@ == selector@ && final(self).queryables@.last().1 == info,
            r is Err ==> final(self).queryables == old(self).queryables,
            final(self).state == old(self).state,
            final(self).resources == old(self).resources,
            final(self).subscribers == old(self).subscribers,
            final(self).next_rid == old(self).next_rid,
            final(self).next_sub_id == old(self).next_sub_id,
            final(self).lease == old(self).lease,
            final(self).last_inbound == old(self).last_inbound,
    {
        if !matches!(self.state, SessionState::Established) {
            return Err(ZError::SessionClosed);
        }
        if !rname::is_valid_name(selector.as_str()) {
            return Err(ZError::InvalidSelector);
        }
        let ghost prev = self.queryables@;
        self.queryables.push((selector, info));
        proof {
            assert(self.queryables@.take(prev.len() as int) =~= prev);
        }
        Ok(())
    }

    /// Removes the subscription with the given handle; says whether one
    /// was installed.
    pub fn undeclare_subscriber(&mut self, id: ZInt) -> (r: bool)
        ensures
            r == (spec_find_sub(old(self).subscribers@, id) >= 0),
            r ==> final(self).subscribers@ == old(self).subscribers@.remove(
                spec_find_sub(old(self).subscribers@, id),
            ),
            !r ==> final(self).subscribers == old(self).subscribers,
            final(self).state == old(self).state,
            final(self).resources == old(self).resources,
            final(self).queryables == old(self).queryables,
    {
        let mut i: usize = 0;
        while i < self.subscribers.len()
            invariant
                i <= self.subscribers@.len(),
                self.subscribers == old(self).subscribers,
                self.state == old(self).state,
                self.resources == old(self).resources,
                self.queryables == old(self).queryables,
                forall|k: int| 0 <= k < i ==> (#[trigger] self.subscribers@[k]).id != id,
            decreases self.subscribers@.len() - i,
        {
            if self.subscribers[i].id == id {
                proof {
                    lemma_find_sub(self.subscribers@, id, i as int);
                }
                self.subscribers.remove(i);
                return true;
            }
            i += 1;
        }
        proof {
            lemma_find_sub(self.subscribers@, id, self.subscribers@.len() as int);
        }
        false
    }

    /// Routes a publication on a concrete name to every matching local
    /// subscriber: pushed to its sink, or buffered until it pulls.
    pub fn route_publication(&mut self, name: &String, payload: &Vec<u8>, encoding: &Encoding) -> (r:
        Result<(), ZError>)
        ensures
            (r is Ok) == (old(self).state == SessionState::Established),
            r is Err ==> r->Err_0 is SessionClosed && *final(self) == *old(self),
            final(self).state == old(self).state,
            final(self).resources == old(self).resources,
            final(self).queryables == old(self).queryables,
            final(self).lease == old(self).lease,
            final(self).last_inbound == old(self).last_inbound,
            final(self).next_rid == old(self).next_rid,
            final(self).next_sub_id == old(self).next_sub_id,
            r is Ok ==> final(self).subscribers@.len() == old(self).subscribers@.len() && (forall|
                i: int,
            |
                0 <= i < old(self).subscribers@.len() ==> spec_route_step(
                    old(self).subscribers@[i],
                    #[trigger] final(self).subscribers@[i],
                    name@,
                    payload@,
                    *encoding,
                )),
    {
        if !matches!(self.state, SessionState::Established) {
            return Err(ZError::SessionClosed);
        }
        let n = self.subscribers.len();
        let mut k: usize = 0;
        while k < n
            invariant
                n == self.subscribers@.len(),
                n == old(self).subscribers@.len(),
                k <= n,
                self.state == old(self).state,
                self.lease == old(self).lease,
                self.last_inbound == old(self).last_inbound,
                self.next_rid == old(self).next_rid,
                self.next_sub_id == old(self).next_sub_id,
                self.resources == old(self).resources,
                self.queryables == old(self).queryables,
                forall|i: int|
                    k <= i < n ==> #[trigger] self.subscribers@[i] == old(self).subscribers@[i],
                forall|i: int|
                    0 <= i < k ==> spec_route_step(
                        old(self).subscribers@[i],
                        #[trigger] self.subscribers@[i],
                        name@,
                        payload@,
                        *encoding,
                    ),
            decreases n - k,
        {
            let ghost before = self.subscribers@;
            let mut sub = self.subscribers.remove(k);
            let ghost s0 = sub;
            if rname::intersect(sub.selector.as_str(), name.as_str()) {
                let sample = Sample {
                    key: name.clone(),
                    payload: clone_bytes(payload),
                    encoding: encoding.clone(),
                };
                match sub.info.mode {
                    SubMode::Push => {
                        let ghost d0 = sub.delivered@;
                        sub.delivered.push(sample);
                        proof {
                            assert(sub.delivered@.take(d0.len() as int) =~= d0);
                        }
                    },
                    SubMode::Pull => {
                        let ghost b0 = sub.buffer@;
                        sub.buffer.push(sample);
                        proof {
                            assert(sub.buffer@.take(b0.len() as int) =~= b0);
                        }
                    },
                }
            }
            self.subscribers.insert(k, sub);
            proof {
                assert(spec_route_step(s0, sub, name@, payload@, *encoding));
                assert(self.subscribers@ =~= before.update(k as int, sub));
            }
            k += 1;
        }
        Ok(())
    }

    /// Releases the samples buffered for a pull-mode subscriber, in
    /// publication order; its buffer is then empty. Fails with
    /// `SessionClosed` off an established session and with `Other` on an
    /// unknown handle.
    pub fn pull(&mut self, id: ZInt) -> (r: Result<Vec<Sample>, ZError>)
        ensures
            (r is Ok) == (old(self).state == SessionState::Established && spec_find_sub(
                old(self).subscribers@,
                id,
            ) >= 0),
            old(self).state != SessionState::Established ==> r is Err && r->Err_0
                is SessionClosed,
            r is Err ==> *final(self) == *old(self),
            final(self).state == old(self).state,
            final(self).resources == old(self).resources,
            final(self).queryables == old(self).queryables,
            r is Ok ==> {
                let f = spec_find_sub(old(self).subscribers@, id);
                &&& r->Ok_0@ == old(self).subscribers@[f].buffer@
                &&& final(self).subscribers@.len() == old(self).subscribers@.len()
                &&& final(self).subscribers@[f].buffer@.len() == 0
                &&& final(self).subscribers@[f].id == old(self).subscribers@[f].id
                &&& final(self).subscribers@[f].delivered@ == old(self).subscribers@[f].delivered@
                &&& (forall|i: int|
                    0 <= i < old(self).subscribers@.len() && i != f
                        ==> #[trigger] final(self).subscribers@[i] == old(self).subscribers@[i])
            },
    {
        if !matches!(self.state, SessionState::Established) {
            return Err(ZError::SessionClosed);
        }
        let mut i: usize = 0;
        let n = self.subscribers.len();
        while i < n
            invariant
                n == self.subscribers@.len(),
                i <= n,
                self.subscribers == old(self).subscribers,
                self.state == old(self).state,
                self.state == SessionState::Established,
                self.resources == old(self).resources,
                self.queryables == old(self).queryables,
                self.lease == old(self).lease,
                self.last_inbound == old(self).last_inbound,
                self.next_rid == old(self).next_rid,
                self.next_sub_id == old(self).next_sub_id,
                forall|k: int| 0 <= k < i ==> (#[trigger] self.subscribers@[k]).id != id,
            decreases n - i,
        {
            if self.subscribers[i].id == id {
                proof {
                    lemma_find_sub(self.subscribers@, id, i as int);
                }
                let ghost before = self.subscribers@;
                let sub = self.subscribers.remove(i);
                let Subscriber { id: sid, selector, info, buffer: samples, delivered } = sub;
                let sub = Subscriber {
                    id: sid,
                    selector,
                    info,
                    buffer: Vec::new(),
                    delivered,
                };
                self.subscribers.insert(i, sub);
                proof {
                    assert(self.subscribers@ =~= before.update(i as int, sub));
                }
                return Ok(samples);
            }
            i += 1;
        }
        proof {
            lemma_find_sub(self.subscribers@, id, n as int);
        }
        Err(ZError::Other(String::from_str("unknown subscriber handle")))
    }
}

} // verus!
