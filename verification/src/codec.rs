//! Codec for the relay's length-prefixed binary frames and its two
//! fixed control packets.
//!
//! A frame is 9 header bytes — a type tag, a 4-byte big-endian
//! sequence, and a 4-byte big-endian payload length — followed by
//! that many payload bytes, at most 1 MiB.

use vstd::prelude::*;

use crate::errors::LiveError;
use crate::util::{be32, be32_bytes, put_be32, read_be32};

verus! {

/// Length of a frame header, in bytes.
pub const FRAME_HEADER_LEN: usize = 9;

/// Upper bound on a frame payload, in bytes: 1 MiB. A header that
/// announces more is treated as hostile.
pub const MAX_FRAME_PAYLOAD: u32 = 1048576;

/// Type tag of a video payload frame.
pub const FRAME_TYPE_VIDEO: u8 = 0x00;

/// Type tag of the keepalive control frame.
pub const FRAME_TYPE_KEEPALIVE: u8 = 0x0A;

/// Type tag of the latency stats control frame.
pub const FRAME_TYPE_LATENCY: u8 = 0x12;

/// Fixed sequence value carried by every latency stats frame.
pub const LATENCY_SEQUENCE: u32 = 1000;

/// A fully decoded frame.
pub struct Frame {
    pub tag: u8,
    pub payload: Vec<u8>,
}

/// What a parse attempt over the bytes read so far can say.
pub enum FrameParse {
    /// Too few bytes so far; the frame is complete once `total`
    /// bytes have accumulated.
    NeedMore { total: usize },
    /// The header announces a payload above [`MAX_FRAME_PAYLOAD`];
    /// decided from the header alone, before any payload is read.
    TooLarge,
    /// A complete frame.
    Done { frame: Frame },
}

/// Mathematical mirror of [`FrameParse`].
pub enum ParsedFrame {
    Incomplete { needed: int },
    Oversized,
    Complete { tag: u8, payload: Seq<u8> },
}

impl View for FrameParse {
    type V = ParsedFrame;

    open spec fn view(&self) -> ParsedFrame {
        match self {
            FrameParse::NeedMore { total } => ParsedFrame::Incomplete { needed: *total as int },
            FrameParse::TooLarge => ParsedFrame::Oversized,
            FrameParse::Done { frame } => ParsedFrame::Complete {
                tag: frame.tag,
                payload: frame.payload@,
            },
        }
    }
}

/// The parse of a byte string as a frame: the header gives the
/// payload length; an oversized length is rejected from the header
/// alone; otherwise the frame is complete exactly when the payload
/// has fully arrived.
pub open spec fn frame_parse(b: Seq<u8>) -> ParsedFrame {
    if b.len() < 9 {
        ParsedFrame::Incomplete { needed: 9 }
    } else {
        let len = be32(b.subrange(5, 9));
        if len > MAX_FRAME_PAYLOAD {
            ParsedFrame::Oversized
        } else if b.len() < 9 + len {
            ParsedFrame::Incomplete { needed: 9 + len }
        } else {
            ParsedFrame::Complete { tag: b[0], payload: b.subrange(9, 9 + len) }
        }
    }
}

/// Parses the bytes accumulated so far.
pub fn parse_frame(buf: &[u8]) -> (r: FrameParse)
    ensures
        r@ == frame_parse(buf@),
{
    let n = buf.len();
    if n < FRAME_HEADER_LEN {
        return FrameParse::NeedMore { total: FRAME_HEADER_LEN };
    }
    let len = read_be32(buf, 5);
    if len > MAX_FRAME_PAYLOAD {
        return FrameParse::TooLarge;
    }
    let total = FRAME_HEADER_LEN + len as usize;
    if n < total {
        return FrameParse::NeedMore { total };
    }
    let mut payload: Vec<u8> = Vec::new();
    let mut i: usize = 0;
    while i < len as usize
        invariant
            n == buf@.len(),
            9 + len <= n,
            i <= len,
            payload@ =~= buf@.subrange(9, 9 + i),
        decreases len - i,
    {
        payload.push(buf[FRAME_HEADER_LEN + i]);
        assert(payload@ =~= buf@.subrange(9, 9 + i + 1));
        i = i + 1;
    }
    let frame = Frame { tag: buf[0], payload };
    assert(frame.payload@ =~= buf@.subrange(9, 9 + be32(buf@.subrange(5, 9))));
    FrameParse::Done { frame }
}

/// The error a parse outcome stands for, if any.
pub fn parse_error(r: &FrameParse) -> (e: Option<LiveError>)
    ensures
        e == (if r@ is Oversized {
            Some(LiveError::FrameTooLarge)
        } else {
            None::<LiveError>
        }),
{
    match r {
        FrameParse::TooLarge => Some(LiveError::FrameTooLarge),
        _ => None,
    }
}

/// Wire bytes of the keepalive frame: tag `0x0A`, the caller's
/// sequence, an empty payload.
pub open spec fn keepalive_bytes(sequence: u32) -> Seq<u8> {
    seq![FRAME_TYPE_KEEPALIVE] + be32_bytes(sequence) + be32_bytes(0)
}

/// Wire bytes of the latency stats frame: tag `0x12`, the fixed
/// sequence, a 24-byte zero payload — 33 bytes in all.
pub open spec fn latency_stats_bytes() -> Seq<u8> {
    seq![FRAME_TYPE_LATENCY] + be32_bytes(LATENCY_SEQUENCE) + be32_bytes(24) + Seq::new(
        24,
        |i: int| 0u8,
    )
}

/// Encodes the 9-byte keepalive frame.
pub fn encode_keepalive(sequence: u32) -> (r: Vec<u8>)
    ensures
        r@ == keepalive_bytes(sequence),
        r@.len() == 9,
{
    let mut out: Vec<u8> = Vec::new();
    out.push(FRAME_TYPE_KEEPALIVE);
    put_be32(&mut out, sequence);
    put_be32(&mut out, 0);
    assert(out@ =~= keepalive_bytes(sequence));
    out
}

/// Encodes the 33-byte latency stats frame.
pub fn encode_latency_stats() -> (r: Vec<u8>)
    ensures
        r@ == latency_stats_bytes(),
        r@.len() == 33,
{
    let mut out: Vec<u8> = Vec::new();
    out.push(FRAME_TYPE_LATENCY);
    put_be32(&mut out, LATENCY_SEQUENCE);
    put_be32(&mut out, 24);
    let ghost header = out@;
    let mut i: usize = 0;
    while i < 24
        invariant
            i <= 24,
            out@ =~= header + Seq::new(i as nat, |k: int| 0u8),
        decreases 24 - i,
    {
        out.push(0);
        assert(out@ =~= header + Seq::new((i + 1) as nat, |k: int| 0u8));
        i = i + 1;
    }
    assert(out@ =~= latency_stats_bytes());
    out
}

/// Law: a keepalive frame survives the codec round trip. Its bytes
/// parse as a complete frame of the keepalive type with an empty
/// payload, and the sequence field reads back as the sequence that
/// was encoded.
pub proof fn lemma_keepalive_round_trip(sequence: u32)
    ensures
        frame_parse(keepalive_bytes(sequence)) == (ParsedFrame::Complete {
            tag: FRAME_TYPE_KEEPALIVE,
            payload: Seq::<u8>::empty(),
        }),
        be32(keepalive_bytes(sequence).subrange(1, 5)) == sequence,
{
    let b = keepalive_bytes(sequence);
    assert(b.len() == 9);
    assert(b.subrange(5, 9) =~= be32_bytes(0));
    assert(b.subrange(1, 5) =~= be32_bytes(sequence));
    crate::util::lemma_be32_round_trip(0);
    crate::util::lemma_be32_round_trip(sequence);
    assert(b.subrange(9, 9) =~= Seq::<u8>::empty());
}

/// Law: the latency stats frame also survives the codec round
/// trip: 33 bytes that parse as a complete frame of the latency
/// type whose payload is 24 zero bytes.
pub proof fn lemma_latency_stats_round_trip()
    ensures
        latency_stats_bytes().len() == 33,
        frame_parse(latency_stats_bytes()) == (ParsedFrame::Complete {
            tag: FRAME_TYPE_LATENCY,
            payload: Seq::new(24, |i: int| 0u8),
        }),
{
    let b = latency_stats_bytes();
    assert(b.len() == 33);
    assert(b.subrange(5, 9) =~= be32_bytes(24));
    crate::util::lemma_be32_round_trip(24);
    assert(b.subrange(9, 33) =~= Seq::new(24, |i: int| 0u8));
}

/// Law: a header that announces a payload above the bound is
/// rejected from the header alone — the parse is `Oversized` no
/// matter how few payload bytes have arrived.
pub proof fn lemma_oversized_header_rejected(b: Seq<u8>)
    requires
        b.len() >= 9,
        be32(b.subrange(5, 9)) > MAX_FRAME_PAYLOAD,
    ensures
        frame_parse(b) == ParsedFrame::Oversized,
{
}

} // verus!
