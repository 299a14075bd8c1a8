//! Congestion control: back-pressure versus drop, and the outbound link
//! queue with its dropped-frames counter.
use vstd::prelude::*;

use crate::ZInt;
use crate::strfmt::{spec_str_eq_ci, str_eq_ci};
use crate::zerror::ZError;

verus! {

/// What a publication does when the outbound queue is full: apply
/// back-pressure, or discard the payload.
#[derive(Debug, Copy, Clone, PartialEq, Eq, Structural)]
pub enum CongestionControl {
    Block,
    Drop,
}

impl Default for CongestionControl {
    /// The process-wide default is to drop on a full buffer.
    fn default() -> (r: CongestionControl)
        ensures
            r == CongestionControl::Drop,
    {
        CongestionControl::Drop
    }
}

impl CongestionControl {
    /// Parses a configuration value, case-insensitively: `block` or `drop`.
    pub fn from_str(s: &str) -> (r: Result<CongestionControl, ZError>)
        ensures
            spec_str_eq_ci(s@, "block"@) ==> r == Ok::<CongestionControl, ZError>(
                CongestionControl::Block,
            ),
            spec_str_eq_ci(s@, "drop"@) ==> r == Ok::<CongestionControl, ZError>(
                CongestionControl::Drop,
            ),
            (r is Ok) == (spec_str_eq_ci(s@, "block"@) || spec_str_eq_ci(s@, "drop"@)),
            r is Err ==> r->Err_0 is Other,
    {
        proof {
            reveal_strlit("block");
            reveal_strlit("drop");
        }
        if str_eq_ci(s, "block") {
            Ok(CongestionControl::Block)
        } else if str_eq_ci(s, "drop") {
            Ok(CongestionControl::Drop)
        } else {
            let mut descr = String::from_str("invalid congestion control: '");
            descr.append(s);
            descr.append("'; valid values are: 'block' | 'drop'");
            Err(ZError::Other(descr))
        }
    }
}

/// What became of a frame handed to an outbound queue.
#[derive(Debug, Copy, Clone, PartialEq, Eq, Structural)]
pub enum PushResult {
    /// The frame was queued.
    Enqueued,
    /// The queue was full and the frame was discarded.
    Dropped,
    /// The queue was full and the caller must wait for space.
    WouldBlock,
}

/// The backing queue of one logical channel of an outbound link, with the
/// monotonic dropped-frames counter exposed to the session layer.
#[derive(Debug)]
pub struct LinkQueue {
    capacity: usize,
    frames: Vec<Vec<u8>>,
    dropped: ZInt,
}

impl LinkQueue {
    /// The queued frames, oldest first.
    pub closed spec fn spec_frames(&self) -> Seq<Seq<u8>> {
        self.frames.deep_view()
    }

    pub closed spec fn spec_dropped(&self) -> ZInt {
        self.dropped
    }

    pub closed spec fn spec_capacity(&self) -> usize {
        self.capacity
    }

    pub fn new(capacity: usize) -> (r: LinkQueue)
        ensures
            r.spec_capacity() == capacity,
            r.spec_frames() == Seq::<Seq<u8>>::empty(),
            r.spec_dropped() == 0,
    {
        let r = LinkQueue { capacity, frames: Vec::new(), dropped: 0 };
        proof {
            assert(r.spec_frames() =~= Seq::<Seq<u8>>::empty());
        }
        r
    }

    pub fn len(&self) -> (r: usize)
        ensures
            r == self.spec_frames().len(),
    {
        self.frames.len()
    }

    pub fn dropped(&self) -> (r: ZInt)
        ensures
            r == self.spec_dropped(),
    {
        self.dropped
    }

    /// Hands a frame to the queue. A full queue drops the frame under
    /// `Drop` — counting it, never blocking — and asks the caller to wait
    /// under `Block`. The dropped-frames counter never decreases.
    pub fn push(&mut self, payload: Vec<u8>, cc: CongestionControl) -> (r: PushResult)
        ensures
            final(self).spec_capacity() == old(self).spec_capacity(),
            cc == CongestionControl::Drop ==> r != PushResult::WouldBlock,
            old(self).spec_frames().len() < old(self).spec_capacity() ==> r
                == PushResult::Enqueued && final(self).spec_frames() == old(self).spec_frames().push(payload@) && final(self).spec_dropped() == old(self).spec_dropped(),
            old(self).spec_frames().len() >= old(self).spec_capacity() && cc
                == CongestionControl::Drop ==> r == PushResult::Dropped && final(self).spec_frames() == old(self).spec_frames() && final(self).spec_dropped() == (
            if old(self).spec_dropped() < ZInt::MAX {
                old(self).spec_dropped() + 1
            } else {
                old(self).spec_dropped() as int
            }),
            old(self).spec_frames().len() >= old(self).spec_capacity() && cc
                == CongestionControl::Block ==> r == PushResult::WouldBlock && final(self).spec_frames() == old(self).spec_frames() && final(self).spec_dropped() == old(self).spec_dropped(),
            final(self).spec_dropped() >= old(self).spec_dropped(),
    {
        if self.frames.len() < self.capacity {
            let ghost prev = self.frames.deep_view();
            self.frames.push(payload);
            proof {
                assert(self.frames.deep_view() =~~= prev.push(payload@));
            }
            PushResult::Enqueued
        } else {
            match cc {
                CongestionControl::Drop => {
                    if self.dropped < ZInt::MAX {
                        self.dropped = self.dropped + 1;
                    }
                    PushResult::Dropped
                },
                CongestionControl::Block => PushResult::WouldBlock,
            }
        }
    }

    /// Takes the oldest frame for flushing to the link.
    pub fn pop(&mut self) -> (r: Option<Vec<u8>>)
        ensures
            final(self).spec_capacity() == old(self).spec_capacity(),
            final(self).spec_dropped() == old(self).spec_dropped(),
            (r is Some) == (old(self).spec_frames().len() > 0),
            r is Some ==> r->0@ == old(self).spec_frames()[0] && final(self).spec_frames() == old(self).spec_frames().drop_first(),
            r is None ==> final(self).spec_frames() == old(self).spec_frames(),
    {
        if self.frames.len() > 0 {
            let f = self.frames.remove(0);
            proof {
                assert(f@ =~~= old(self).spec_frames()[0]);
                assert(self.frames.deep_view() =~~= old(self).spec_frames().drop_first());
            }
            Some(f)
        } else {
            None
        }
    }
}

/// The sender side of the reliable channel: frames carry a sequence number
/// and stay in the window until acknowledged.
#[derive(Debug)]
pub struct ReliableWindow {
    next_sn: ZInt,
    window: Vec<(ZInt, Vec<u8>)>,
}

impl ReliableWindow {
    /// Sequence numbers in the window are strictly increasing and below the
    /// next one to be assigned.
    pub closed spec fn wf(&self) -> bool {
        (forall|i: int, j: int|
            0 <= i < j < self.window@.len() ==> #[trigger] self.window@[i].0
                < #[trigger] self.window@[j].0) && (forall|i: int|
            0 <= i < self.window@.len() ==> #[trigger] self.window@[i].0 < self.next_sn)
    }

    pub closed spec fn spec_window(&self) -> Seq<(ZInt, Seq<u8>)> {
        Seq::new(self.window@.len(), |i: int| (self.window@[i].0, self.window@[i].1@))
    }

    pub closed spec fn spec_next_sn(&self) -> ZInt {
        self.next_sn
    }

    pub fn new() -> (r: ReliableWindow)
        ensures
            r.wf(),
            r.spec_next_sn() == 0,
            r.spec_window() == Seq::<(ZInt, Seq<u8>)>::empty(),
    {
        let r = ReliableWindow { next_sn: 0, window: Vec::new() };
        proof {
            assert(r.spec_window() =~= Seq::<(ZInt, Seq<u8>)>::empty());
        }
        r
    }

    /// Assigns the next sequence number to a frame and keeps it for
    /// retransmission; fails only when the sequence space is exhausted.
    pub fn send(&mut self, payload: Vec<u8>) -> (r: Option<ZInt>)
        requires
            old(self).wf(),
        ensures
            final(self).wf(),
            (r is Some) == (old(self).spec_next_sn() < ZInt::MAX),
            r is Some ==> r->0 == old(self).spec_next_sn() && final(self).spec_next_sn() == old(self).spec_next_sn() + 1 && final(self).spec_window() == old(self).spec_window().push(
                (old(self).spec_next_sn(), payload@),
            ),
            r is None ==> final(self).spec_window() == old(self).spec_window() && final(self).spec_next_sn() == old(self).spec_next_sn(),
    {
        if self.next_sn == ZInt::MAX {
            return None;
        }
        let sn = self.next_sn;
        self.window.push((sn, payload));
        self.next_sn = sn + 1;
        proof {
            assert(self.spec_window() =~= old(self).spec_window().push((sn, payload@)));
        }
        Some(sn)
    }
}

} // verus!
