//! The keep-alive message of the transport layer: a bare header, optionally
//! followed by a chain of extensions that a receiver skips when unknown.
//!
//! Sent periodically so the link lease does not expire; the sending interval
//! should be a quarter of the lease, and a link is considered failed after
//! three and a half intervals of silence.
use vstd::prelude::*;

use crate::io::{spec_read_buf, WBuf, ZBuf};
use crate::zerror::ZError;

verus! {

/// The message id of the keep-alive message, in the low five bits of the
/// header byte.
pub const ACKNACK_ID: u8 = 0x07;

/// The header flag that says extensions follow.
pub const FLAG_Z: u8 = 1 << 7;

/// The extension-header flag that says another extension follows.
pub const EXT_FLAG_MORE: u8 = 1 << 7;

/// Whether a header byte carries the given flag.
pub open spec fn spec_has_flag(byte: u8, flag: u8) -> bool {
    byte & flag != 0
}

pub fn has_flag(byte: u8, flag: u8) -> (r: bool)
    ensures
        r == spec_has_flag(byte, flag),
{
    byte & flag != 0
}

/// Whether an extension header announces a further extension.
pub open spec fn spec_has_more(header: u8) -> bool {
    spec_has_flag(header, EXT_FLAG_MORE)
}

pub fn has_more(header: u8) -> (r: bool)
    ensures
        r == spec_has_more(header),
{
    has_flag(header, EXT_FLAG_MORE)
}

/// Skipping a chain of extensions from the front of `s`: each extension is
/// a header byte and a length-prefixed body, and the chain ends with the
/// first header whose more-flag is clear. The bytes after the chain, or
/// nothing when the chain is cut short.
pub open spec fn spec_skip_exts(s: Seq<u8>) -> Option<Seq<u8>>
    decreases s.len(),
{
    if s.len() == 0 {
        None
    } else {
        let h = s[0];
        match spec_read_buf(s.drop_first()) {
            Option::None => None,
            Some((body, n)) => {
                let rest = s.drop_first().skip(n as int);
                if spec_has_more(h) {
                    spec_skip_exts(rest)
                } else {
                    Some(rest)
                }
            },
        }
    }
}

/// The extensions of a keep-alive message. None is defined yet: a sender
/// writes none, and a receiver skips any it finds.
#[derive(Debug, Clone, Copy, PartialEq, Eq, Structural, Default)]
pub struct AckNackExts;

impl AckNackExts {
    /// No extension is ever carried.
    pub fn is_empty(&self) -> (r: bool)
        ensures
            r,
    {
        true
    }

    /// Writes the (empty) extension chain: nothing.
    pub fn write(&self, wbuf: &mut WBuf) -> (r: bool)
        ensures
            *final(wbuf) == *old(wbuf),
            r,
    {
        true
    }

    /// Skips a received extension chain, extension by extension; fails when
    /// the chain is cut short.
    pub fn read(zbuf: &mut ZBuf) -> (r: Option<AckNackExts>)
        requires
            old(zbuf).wf(),
        ensures
            final(zbuf).wf(),
            match spec_skip_exts(old(zbuf).spec_remaining()) {
                Option::None => r is None,
                Some(rest) => r is Some && final(zbuf).spec_remaining() == rest,
            },
    {
        loop
            invariant
                zbuf.wf(),
                spec_skip_exts(old(zbuf).spec_remaining()) == spec_skip_exts(
                    zbuf.spec_remaining(),
                ),
            decreases zbuf.spec_remaining().len(),
        {
            let ghost head = zbuf.spec_remaining();
            let header = match zbuf.read() {
                Some(h) => h,
                Option::None => {
                    return None;
                },
            };
            match zbuf.read_bytes() {
                Some(_body) => {},
                Option::None => {
                    return None;
                },
            }
            if !has_more(header) {
                return Some(AckNackExts);
            }
            proof {
                assert(zbuf.spec_remaining().len() < head.len());
            }
        }
    }
}

/// The keep-alive message: a bare header and its (empty) extensions.
#[derive(Debug, Clone, Copy, PartialEq, Eq, Structural, Default)]
pub struct AckNack {
    pub exts: AckNackExts,
}

impl AckNack {
    pub fn new() -> (r: Self)
        ensures
            r == (AckNack { exts: AckNackExts }),
    {
        Self { exts: AckNackExts }
    }

    /// Writes the message: the header byte alone, since no extension is
    /// carried. Fails, without writing, when the buffer is full.
    pub fn write(&self, wbuf: &mut WBuf) -> (r: bool)
        requires
            old(wbuf).wf(),
        ensures
            final(wbuf).wf(),
            final(wbuf).spec_capacity() == old(wbuf).spec_capacity(),
            r == (old(wbuf).spec_bytes().len() < old(wbuf).spec_capacity()),
            r ==> final(wbuf).spec_bytes() == old(wbuf).spec_bytes().push(ACKNACK_ID),
            !r ==> final(wbuf).spec_bytes() == old(wbuf).spec_bytes(),
    {
        let has_exts = !self.exts.is_empty();
        let mut header = ACKNACK_ID;
        if has_exts {
            header = header | FLAG_Z;
        }
        if !wbuf.write(header) {
            return false;
        }
        if has_exts {
            if !self.exts.write(wbuf) {
                return false;
            }
        }
        true
    }

    /// Reads the message body, the header having been consumed already:
    /// skips the extension chain when the header announces one.
    pub fn read(zbuf: &mut ZBuf, header: u8) -> (r: Option<AckNack>)
        requires
            old(zbuf).wf(),
        ensures
            final(zbuf).wf(),
            !spec_has_flag(header, FLAG_Z) ==> r is Some && final(zbuf).spec_remaining() == old(
                zbuf,
            ).spec_remaining(),
            spec_has_flag(header, FLAG_Z) ==> match spec_skip_exts(old(zbuf).spec_remaining()) {
                Option::None => r is None,
                Some(rest) => r is Some && final(zbuf).spec_remaining() == rest,
            },
    {
        if has_flag(header, FLAG_Z) {
            match AckNackExts::read(zbuf) {
                Some(exts) => Some(AckNack { exts }),
                Option::None => None,
            }
        } else {
            Some(AckNack { exts: AckNackExts })
        }
    }
}

/// Frames a keep-alive into the outbound buffer; a frame that exceeds the
/// negotiated batch size is a `BufferOverflow`.
pub fn frame_keep_alive(msg: &AckNack, wbuf: &mut WBuf) -> (r: Result<(), ZError>)
    requires
        old(wbuf).wf(),
    ensures
        final(wbuf).wf(),
        final(wbuf).spec_capacity() == old(wbuf).spec_capacity(),
        (r is Ok) == (old(wbuf).spec_bytes().len() < old(wbuf).spec_capacity()),
        r is Ok ==> final(wbuf).spec_bytes() == old(wbuf).spec_bytes().push(ACKNACK_ID),
        r is Err ==> r->Err_0 is BufferOverflow && final(wbuf).spec_bytes() == old(
            wbuf,
        ).spec_bytes(),
{
    if msg.write(wbuf) {
        Ok(())
    } else {
        Err(ZError::BufferOverflow)
    }
}

/// Decodes a keep-alive body from a received frame, the header already
/// consumed; a cut-short extension chain is a `Parse` failure, and the
/// frame is dropped.
pub fn decode_keep_alive(zbuf: &mut ZBuf, header: u8) -> (r: Result<AckNack, ZError>)
    requires
        old(zbuf).wf(),
    ensures
        final(zbuf).wf(),
        !spec_has_flag(header, FLAG_Z) ==> r is Ok && final(zbuf).spec_remaining() == old(
            zbuf,
        ).spec_remaining(),
        spec_has_flag(header, FLAG_Z) ==> match spec_skip_exts(old(zbuf).spec_remaining()) {
            Option::None => r is Err && r->Err_0 is Parse,
            Some(rest) => r is Ok && final(zbuf).spec_remaining() == rest,
        },
{
    match AckNack::read(zbuf, header) {
        Some(m) => Ok(m),
        Option::None => Err(ZError::Parse),
    }
}

} // verus!
