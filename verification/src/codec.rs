//! The wire framing: every message travels as a 4-byte little-endian
//! length prefix followed by exactly that many payload bytes.

use vstd::bytes::{
    lemma_auto_spec_u32_to_from_le_bytes, spec_u32_from_le_bytes, spec_u32_to_le_bytes,
    u32_from_le_bytes, u32_to_le_bytes,
};
use vstd::prelude::*;
use vstd::slice::slice_subrange;

verus! {

/// A payload can be framed only when its length fits the 32-bit prefix.
pub open spec fn fits_frame(payload: Seq<u8>) -> bool {
    payload.len() < 0x1_0000_0000
}

/// The wire image of one payload: its length as four little-endian bytes,
/// then the payload itself.
pub open spec fn frame_of(payload: Seq<u8>) -> Seq<u8>
    recommends
        fits_frame(payload),
{
    spec_u32_to_le_bytes(payload.len() as u32) + payload
}

/// What a reader that takes a 4-byte length and then exactly that many
/// payload bytes obtains from `data`, the bytes available before the
/// stream ends.  `None` means the stream ended short of a whole frame.
pub open spec fn frame_payload(data: Seq<u8>) -> Option<Seq<u8>> {
    if data.len() < 4 {
        None
    } else {
        let n = spec_u32_from_le_bytes(data.subrange(0, 4)) as int;
        if data.len() < 4 + n {
            None
        } else {
            Some(data.subrange(4, 4 + n))
        }
    }
}

/// Copies `src[from..to]` into a fresh vector.
pub fn copy_range(src: &Vec<u8>, from: usize, to: usize) -> (out: Vec<u8>)
    requires
        from <= to <= src@.len(),
    ensures
        out@ == src@.subrange(from as int, to as int),
{
    let mut out: Vec<u8> = Vec::new();
    let mut i: usize = from;
    while i < to
        invariant
            from <= i <= to <= src@.len(),
            out@ == src@.subrange(from as int, i as int),
        decreases to - i,
    {
        out.push(src[i]);
        i = i + 1;
        proof {
            assert(out@ =~= src@.subrange(from as int, i as int));
        }
    }
    out
}

/// Builds the frame for `payload`.
pub fn encode_frame(payload: &Vec<u8>) -> (frame: Vec<u8>)
    requires
        fits_frame(payload@),
    ensures
        frame@ == frame_of(payload@),
{
    let mut frame = u32_to_le_bytes(payload.len() as u32);
    proof {
        assert(frame@ =~= spec_u32_to_le_bytes(payload@.len() as u32) + payload@.take(0));
    }
    let mut i: usize = 0;
    while i < payload.len()
        invariant
            i <= payload@.len(),
            fits_frame(payload@),
            frame@ == spec_u32_to_le_bytes(payload@.len() as u32) + payload@.take(i as int),
        decreases payload@.len() - i,
    {
        frame.push(payload[i]);
        i = i + 1;
        proof {
            assert(frame@ =~= spec_u32_to_le_bytes(payload@.len() as u32) + payload@.take(
                i as int,
            ));
        }
    }
    proof {
        assert(payload@.take(payload@.len() as int) =~= payload@);
    }
    frame
}

/// Reads one frame out of `data`, the bytes available before the stream
/// ends; `None` when they stop short of the advertised length.
pub fn decode_frame(data: &Vec<u8>) -> (r: Option<Vec<u8>>)
    ensures
        r is Some <==> frame_payload(data@) is Some,
        r matches Some(p) ==> frame_payload(data@) == Some(p@),
{
    if data.len() < 4 {
        return None;
    }
    let header = slice_subrange(data.as_slice(), 0, 4);
    let n = u32_from_le_bytes(header) as usize;
    if data.len() - 4 < n {
        return None;
    }
    Some(copy_range(data, 4, 4 + n))
}

/// Round trip: decoding the frame built for any payload that fits the
/// prefix yields exactly that payload.
pub proof fn lemma_frame_roundtrip(payload: Seq<u8>)
    requires
        fits_frame(payload),
    ensures
        frame_payload(frame_of(payload)) == Some(payload),
{
    lemma_auto_spec_u32_to_from_le_bytes();
    let data = frame_of(payload);
    assert(data.subrange(0, 4) =~= spec_u32_to_le_bytes(payload.len() as u32));
    assert(data.subrange(4, 4 + payload.len() as int) =~= payload);
}

/// A stream that ends before the whole advertised frame arrived never
/// yields a payload.
pub proof fn lemma_short_read(data: Seq<u8>)
    requires
        data.len() < 4 || data.len() < 4 + spec_u32_from_le_bytes(data.subrange(0, 4)),
    ensures
        frame_payload(data) is None,
{
}

} // verus!
