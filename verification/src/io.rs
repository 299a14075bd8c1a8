//! Write and read buffers and the variable-width integer codec: 7 data bits
//! per byte with a continuation bit, at most ten bytes for a 64-bit value.
use vstd::prelude::*;
use vstd::arithmetic::div_mod::lemma_fundamental_div_mod;
use vstd::string::StringSliceAdditionalSpecFns;

use crate::{ZInt, ZINT_MAX_BYTES};

verus! {

/// The encoding of a non-negative integer as a variable-width byte
/// sequence, least significant group first.
pub open spec fn spec_zint_bytes(v: nat) -> Seq<u8>
    decreases v,
{
    if v < 0x80 {
        seq![v as u8]
    } else {
        seq![(v % 0x80 + 0x80) as u8] + spec_zint_bytes(v / 0x80)
    }
}

/// Decodes a variable-width integer from the front of `s`, reading at most
/// `max` bytes: the value and the number of bytes consumed.
pub open spec fn spec_zint_decode(s: Seq<u8>, max: nat) -> Option<(nat, nat)>
    decreases max,
{
    if s.len() == 0 || max == 0 {
        None
    } else if s[0] < 0x80 {
        Some((s[0] as nat, 1))
    } else {
        match spec_zint_decode(s.drop_first(), (max - 1) as nat) {
            Option::None => None,
            Some((v, n)) => Some(((s[0] - 0x80) as nat + 0x80 * v, (n + 1) as nat)),
        }
    }
}

/// Reading an integer from the front of `s`: at most ten bytes, and the
/// value must fit 64 bits.
pub open spec fn spec_read_zint(s: Seq<u8>) -> Option<(nat, nat)> {
    match spec_zint_decode(s, ZINT_MAX_BYTES as nat) {
        Option::None => None,
        Some((v, n)) => if v <= u64::MAX as nat {
            Some((v, n))
        } else {
            None
        },
    }
}

pub open spec fn pow128(k: nat) -> nat
    decreases k,
{
    if k == 0 {
        1nat
    } else {
        128 * pow128((k - 1) as nat)
    }
}

/// A value below the `k`-th power of 128 encodes in at most `k` bytes.
pub proof fn lemma_zint_bytes_len(v: nat, k: nat)
    requires
        k >= 1,
        v < pow128(k),
    ensures
        spec_zint_bytes(v).len() <= k,
    decreases k,
{
    if v >= 0x80 {
        assert(v / 0x80 < pow128((k - 1) as nat)) by (nonlinear_arith)
            requires
                v < pow128(k),
                pow128(k) == 128 * pow128((k - 1) as nat),
        ;
        lemma_zint_bytes_len(v / 0x80, (k - 1) as nat);
    }
}

/// Every 64-bit value encodes in at most ten bytes.
pub proof fn lemma_zint_bytes_len_u64(v: u64)
    ensures
        spec_zint_bytes(v as nat).len() <= ZINT_MAX_BYTES,
{
    assert(pow128(10) > u64::MAX as nat) by {
        reveal_with_fuel(pow128, 11);
    }
    lemma_zint_bytes_len(v as nat, 10);
}

/// Round trip: decoding the encoding of `v`, whatever follows it, yields
/// `v` and consumes exactly the encoding.
pub proof fn lemma_zint_decode_encode(v: nat, rest: Seq<u8>, max: nat)
    requires
        spec_zint_bytes(v).len() <= max,
    ensures
        spec_zint_decode(spec_zint_bytes(v) + rest, max) == Some((v, spec_zint_bytes(v).len())),
    decreases v,
{
    let s = spec_zint_bytes(v) + rest;
    if v < 0x80 {
        assert(s[0] == v as u8);
    } else {
        assert(s[0] == (v % 0x80 + 0x80) as u8);
        assert(s.drop_first() =~= spec_zint_bytes(v / 0x80) + rest);
        lemma_zint_decode_encode(v / 0x80, rest, (max - 1) as nat);
        lemma_fundamental_div_mod(v as int, 0x80);
    }
}

/// Round trip at the reader: the encoding of any 64-bit value reads back as
/// that value, in at most ten bytes.
pub proof fn lemma_zint_round_trip(v: u64, rest: Seq<u8>)
    ensures
        spec_zint_bytes(v as nat).len() <= ZINT_MAX_BYTES,
        spec_read_zint(spec_zint_bytes(v as nat) + rest) == Some(
            (v as nat, spec_zint_bytes(v as nat).len()),
        ),
{
    lemma_zint_bytes_len_u64(v);
    lemma_zint_decode_encode(v as nat, rest, ZINT_MAX_BYTES as nat);
}

/// A bounded write buffer: bytes appended up to a capacity, the negotiated
/// batch size.
#[derive(Debug)]
pub struct WBuf {
    buf: Vec<u8>,
    capacity: usize,
}

impl WBuf {
    /// The buffer is within its capacity.
    pub closed spec fn wf(&self) -> bool {
        self.buf@.len() <= self.capacity
    }

    /// The bytes written so far.
    pub closed spec fn spec_bytes(&self) -> Seq<u8> {
        self.buf@
    }

    pub closed spec fn spec_capacity(&self) -> usize {
        self.capacity
    }

    pub fn new(capacity: usize) -> (r: WBuf)
        ensures
            r.wf(),
            r.spec_bytes() == Seq::<u8>::empty(),
            r.spec_capacity() == capacity,
    {
        WBuf { buf: Vec::new(), capacity }
    }

    pub fn len(&self) -> (r: usize)
        ensures
            r == self.spec_bytes().len(),
    {
        self.buf.len()
    }

    /// The written bytes, for handing the frame to a link.
    pub fn as_slice(&self) -> (r: &[u8])
        ensures
            r@ == self.spec_bytes(),
    {
        self.buf.as_slice()
    }

    /// Appends one byte; fails, leaving the buffer unchanged, when the
    /// buffer is at capacity.
    pub fn write(&mut self, b: u8) -> (r: bool)
        requires
            old(self).wf(),
        ensures
            final(self).wf(),
            final(self).spec_capacity() == old(self).spec_capacity(),
            r == (old(self).spec_bytes().len() < old(self).spec_capacity()),
            r ==> final(self).spec_bytes() == old(self).spec_bytes().push(b),
            !r ==> final(self).spec_bytes() == old(self).spec_bytes(),
    {
        if self.buf.len() < self.capacity {
            self.buf.push(b);
            true
        } else {
            false
        }
    }

    /// Appends the variable-width encoding of `v`; fails when the encoding
    /// does not fit, leaving a prefix of it written.
    pub fn write_zint(&mut self, v: ZInt) -> (r: bool)
        requires
            old(self).wf(),
        ensures
            final(self).wf(),
            final(self).spec_capacity() == old(self).spec_capacity(),
            r ==> final(self).spec_bytes() == old(self).spec_bytes() + spec_zint_bytes(v as nat),
            r == (old(self).spec_bytes().len() + spec_zint_bytes(v as nat).len() <= old(self).spec_capacity()),
            !r ==> final(self).spec_bytes().len() >= old(self).spec_capacity(),
    {
        let ghost orig = old(self).spec_bytes();
        let mut cur = v;
        loop
            invariant
                self.wf(),
                orig == old(self).spec_bytes(),
                self.spec_capacity() == old(self).spec_capacity(),
                orig + spec_zint_bytes(v as nat) == self.spec_bytes() + spec_zint_bytes(
                    cur as nat,
                ),
                orig.len() <= self.spec_bytes().len(),
            decreases cur,
        {
            let ghost prev = self.spec_bytes();
            if cur < 0x80 {
                let ok = self.write(cur as u8);
                proof {
                    if ok {
                        assert(prev + spec_zint_bytes(cur as nat) =~= self.spec_bytes());
                    } else {
                        assert((orig + spec_zint_bytes(v as nat)).len() == orig.len()
                            + spec_zint_bytes(v as nat).len());
                        assert((prev + spec_zint_bytes(cur as nat)).len() == prev.len()
                            + spec_zint_bytes(cur as nat).len());
                    }
                }
                return ok;
            } else {
                let b: u8 = (cur % 0x80 + 0x80) as u8;
                let ok = self.write(b);
                if !ok {
                    proof {
                        assert(spec_zint_bytes(cur as nat).len() >= 1);
                        assert((orig + spec_zint_bytes(v as nat)).len() == orig.len()
                            + spec_zint_bytes(v as nat).len());
                        assert((prev + spec_zint_bytes(cur as nat)).len() == prev.len()
                            + spec_zint_bytes(cur as nat).len());
                    }
                    return false;
                }
                proof {
                    assert(prev + spec_zint_bytes(cur as nat) =~= self.spec_bytes()
                        + spec_zint_bytes((cur / 0x80) as nat));
                }
                cur = cur / 0x80;
            }
        }
    }

    /// Appends raw bytes; fails when they do not fit, leaving the buffer
    /// filled to capacity.
    pub fn write_bytes_raw(&mut self, b: &[u8]) -> (r: bool)
        requires
            old(self).wf(),
        ensures
            final(self).wf(),
            final(self).spec_capacity() == old(self).spec_capacity(),
            r == (old(self).spec_bytes().len() + b@.len() <= old(self).spec_capacity()),
            r ==> final(self).spec_bytes() == old(self).spec_bytes() + b@,
            !r ==> final(self).spec_bytes().len() >= old(self).spec_capacity(),
    {
        let ghost orig = old(self).spec_bytes();
        let mut i: usize = 0;
        while i < b.len()
            invariant
                self.wf(),
                orig == old(self).spec_bytes(),
                self.spec_capacity() == old(self).spec_capacity(),
                i <= b@.len(),
                self.spec_bytes() == orig + b@.take(i as int),
            decreases b@.len() - i,
        {
            let ghost prev = self.spec_bytes();
            let ok = self.write(*vstd::slice::slice_index_get(b, i));
            if !ok {
                return false;
            }
            proof {
                assert(prev.push(b@[i as int]) =~= orig + b@.take(i + 1));
            }
            i += 1;
        }
        proof {
            assert(orig + b@.take(b@.len() as int) =~= orig + b@);
        }
        true
    }

    /// Appends a length-prefixed byte block: the length as a variable-width
    /// integer, then the bytes.
    pub fn write_bytes(&mut self, b: &[u8]) -> (r: bool)
        requires
            old(self).wf(),
        ensures
            final(self).wf(),
            final(self).spec_capacity() == old(self).spec_capacity(),
            r ==> final(self).spec_bytes() == old(self).spec_bytes() + spec_zint_bytes(
                b@.len() as nat,
            ) + b@,
            !r ==> final(self).spec_bytes().len() >= old(self).spec_capacity(),
    {
        let n = b.len();
        if !self.write_zint(n as u64) {
            return false;
        }
        self.write_bytes_raw(b)
    }

    /// Appends a length-prefixed string: the wire form is its UTF-8 bytes.
    pub fn write_string(&mut self, s: &str) -> (r: bool)
        requires
            old(self).wf(),
        ensures
            final(self).wf(),
            final(self).spec_capacity() == old(self).spec_capacity(),
            r ==> final(self).spec_bytes() == old(self).spec_bytes() + spec_zint_bytes(
                s.spec_bytes().len() as nat,
            ) + s.spec_bytes(),
            !r ==> final(self).spec_bytes().len() >= old(self).spec_capacity(),
    {
        self.write_bytes(s.as_bytes())
    }
}

/// Reading a length-prefixed byte block from the front of `s`: the payload
/// and the total number of bytes consumed.
pub open spec fn spec_read_buf(s: Seq<u8>) -> Option<(Seq<u8>, nat)> {
    match spec_read_zint(s) {
        Option::None => None,
        Some((v, n)) => if v + n <= s.len() {
            Some((s.subrange(n as int, (n + v) as int), (n + v) as nat))
        } else {
            None
        },
    }
}

/// Round trip at the reader: a length-prefixed block reads back as its
/// payload.
pub proof fn lemma_buf_round_trip(payload: Seq<u8>, rest: Seq<u8>)
    requires
        payload.len() <= u64::MAX,
    ensures
        ({
            let enc = spec_zint_bytes(payload.len() as nat) + payload;
            spec_read_buf(enc + rest) == Some::<(Seq<u8>, nat)>(
                (payload, enc.len() as nat),
            )
        }),
{
    let n = spec_zint_bytes(payload.len() as nat).len();
    lemma_zint_round_trip(payload.len() as u64, payload + rest);
    assert(spec_zint_bytes(payload.len() as nat) + payload + rest =~= spec_zint_bytes(
        payload.len() as nat,
    ) + (payload + rest));
    let s = spec_zint_bytes(payload.len() as nat) + payload + rest;
    assert(s.subrange(n as int, (n + payload.len()) as int) =~= payload);
}

/// A read cursor over a received frame.
#[derive(Debug)]
pub struct ZBuf {
    buf: Vec<u8>,
    pos: usize,
}

impl ZBuf {
    /// The cursor is within bounds.
    pub closed spec fn wf(&self) -> bool {
        self.pos <= self.buf@.len()
    }

    /// The bytes not yet consumed.
    pub closed spec fn spec_remaining(&self) -> Seq<u8> {
        self.buf@.skip(self.pos as int)
    }

    pub fn new(bytes: Vec<u8>) -> (r: ZBuf)
        ensures
            r.wf(),
            r.spec_remaining() == bytes@,
    {
        let r = ZBuf { buf: bytes, pos: 0 };
        proof {
            assert(r.spec_remaining() =~= r.buf@);
        }
        r
    }

    pub fn remaining_len(&self) -> (r: usize)
        requires
            self.wf(),
        ensures
            r == self.spec_remaining().len(),
    {
        self.buf.len() - self.pos
    }

    /// Consumes one byte; fails at the end of the frame.
    pub fn read(&mut self) -> (r: Option<u8>)
        requires
            old(self).wf(),
        ensures
            final(self).wf(),
            (r is Some) == (old(self).spec_remaining().len() > 0),
            r is Some ==> r->0 == old(self).spec_remaining()[0] && final(self).spec_remaining()
                == old(self).spec_remaining().drop_first(),
            r is None ==> final(self).spec_remaining() == old(self).spec_remaining(),
    {
        if self.pos < self.buf.len() {
            let b = self.buf[self.pos];
            self.pos += 1;
            proof {
                assert(old(self).spec_remaining()[0] == b);
                assert(final(self).spec_remaining() =~= old(self).spec_remaining().drop_first());
            }
            Some(b)
        } else {
            None
        }
    }

    /// Decodes a variable-width integer at `pos` without consuming it: the
    /// value and the byte count, within the given byte budget.
    fn zint_from(&self, pos: usize, max: usize) -> (r: Option<(ZInt, usize)>)
        requires
            pos <= self.buf@.len(),
        ensures
            match spec_zint_decode(self.buf@.skip(pos as int), max as nat) {
                Option::None => r is None,
                Some((v, n)) => if v <= u64::MAX as nat {
                    r == Some((v as u64, n as usize)) && pos + n <= self.buf@.len()
                } else {
                    r is None
                },
            },
            r is Some ==> 1 <= (r->0).1 && pos + (r->0).1 <= self.buf@.len(),
        decreases max,
    {
        let ghost s = self.buf@.skip(pos as int);
        if pos == self.buf.len() || max == 0 {
            return None;
        }
        let b = self.buf[pos];
        proof {
            assert(s[0] == b);
        }
        if b < 0x80 {
            Some((b as u64, 1))
        } else {
            proof {
                assert(s.drop_first() =~= self.buf@.skip(pos + 1));
            }
            match self.zint_from(pos + 1, max - 1) {
                Option::None => None,
                Some((v, n)) => {
                    let low = (b - 0x80) as u64;
                    if v > (u64::MAX - low) / 0x80 {
                        proof {
                            let dec = spec_zint_decode(s.drop_first(), (max - 1) as nat)->0;
                            let sv = dec.0;
                            assert(low as nat + 0x80 * sv > u64::MAX as nat) by (nonlinear_arith)
                                requires
                                    sv == v as nat,
                                    low < 0x80,
                                    v > (u64::MAX - low) / 0x80,
                            ;
                        }
                        None
                    } else {
                        proof {
                            assert(low + 0x80 * v <= u64::MAX) by (nonlinear_arith)
                                requires
                                    low < 0x80,
                                    v <= (u64::MAX - low) / 0x80,
                            ;
                        }
                        Some((low + 0x80 * v, n + 1))
                    }
                },
            }
        }
    }

    /// Consumes a variable-width integer; fails, leaving the cursor in
    /// place, when the input ends mid-integer, when the continuation bit is
    /// still set after ten bytes, or when the value overflows 64 bits.
    pub fn read_zint(&mut self) -> (r: Option<ZInt>)
        requires
            old(self).wf(),
        ensures
            final(self).wf(),
            match spec_read_zint(old(self).spec_remaining()) {
                Option::None => r is None && final(self).spec_remaining() == old(self).spec_remaining(),
                Some((v, n)) => r == Some(v as u64) && final(self).spec_remaining() == old(self).spec_remaining().skip(n as int),
            },
    {
        let l = self.buf.len();
        match self.zint_from(self.pos, ZINT_MAX_BYTES) {
            Option::None => None,
            Some((v, n)) => {
                proof {
                    assert(self.pos + n <= l);
                }
                self.pos += n;
                proof {
                    assert(final(self).spec_remaining() =~= old(self).spec_remaining().skip(
                        n as int,
                    ));
                }
                Some(v)
            },
        }
    }

    /// Consumes a length-prefixed byte block; fails, leaving the cursor in
    /// place, when the length or the payload cannot be read whole.
    pub fn read_bytes(&mut self) -> (r: Option<Vec<u8>>)
        requires
            old(self).wf(),
        ensures
            final(self).wf(),
            match spec_read_buf(old(self).spec_remaining()) {
                Option::None => r is None && final(self).spec_remaining() == old(self).spec_remaining(),
                Some((payload, n)) => r is Some && r->0@ == payload && final(self).spec_remaining() == old(self).spec_remaining().skip(n as int),
            },
    {
        let l = self.buf.len();
        match self.zint_from(self.pos, ZINT_MAX_BYTES) {
            Option::None => None,
            Some((v, n)) => {
                let rem = l - (self.pos + n);
                if v > rem as u64 {
                    return None;
                }
                let len = v as usize;
                let start = self.pos + n;
                let mut out: Vec<u8> = Vec::new();
                let mut i: usize = 0;
                while i < len
                    invariant
                        start + len <= self.buf@.len(),
                        self.buf@.len() <= usize::MAX,
                        i <= len,
                        out@ == self.buf@.subrange(start as int, start + i),
                    decreases len - i,
                {
                    let ghost prev = out@;
                    out.push(self.buf[start + i]);
                    proof {
                        assert(prev.push(self.buf@[start + i]) =~= self.buf@.subrange(
                            start as int,
                            start + i + 1,
                        ));
                    }
                    i += 1;
                }
                self.pos = start + len;
                proof {
                    let orig = old(self).spec_remaining();
                    assert(out@ =~= orig.subrange(n as int, n + v));
                    assert(final(self).spec_remaining() =~= orig.skip(n + v));
                }
                Some(out)
            },
        }
    }
}

} // verus!
