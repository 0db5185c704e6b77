//! Length-prefixed binary framing.
//!
//! Every structured message of the protocol travels as a frame: a 4-byte
//! big-endian length followed by exactly that many payload bytes. Raw file
//! bodies do not use frames; their length comes from earlier metadata.

use vstd::prelude::*;
use vstd::slice::{slice_subrange, slice_to_vec};

use crate::errors::TransferError;

verus! {

/// Big-endian encoding of a `u32` as four bytes, most significant first.
pub open spec fn spec_u32_to_be_bytes(x: u32) -> Seq<u8> {
    seq![
        ((x >> 24) & 0xff) as u8,
        ((x >> 16) & 0xff) as u8,
        ((x >> 8) & 0xff) as u8,
        (x & 0xff) as u8,
    ]
}

/// The `u32` read from four bytes in big-endian order.
pub open spec fn spec_u32_from_be_bytes(s: Seq<u8>) -> u32
    recommends
        s.len() == 4,
{
    ((s[0] as u32) << 24) | ((s[1] as u32) << 16) | ((s[2] as u32) << 8) | (s[3] as u32)
}

pub proof fn lemma_u32_be_bytes_round_trip(x: u32)
    ensures
        spec_u32_to_be_bytes(x).len() == 4,
        spec_u32_from_be_bytes(spec_u32_to_be_bytes(x)) == x,
{
    assert((((((x >> 24) & 0xff) as u8) as u32) << 24) | (((((x >> 16) & 0xff) as u8) as u32)
        << 16) | (((((x >> 8) & 0xff) as u8) as u32) << 8) | (((x & 0xff) as u8) as u32) == x)
        by (bit_vector);
}

/// Encodes `x` as four big-endian bytes.
pub fn u32_to_be_bytes(x: u32) -> (r: Vec<u8>)
    ensures
        r@ == spec_u32_to_be_bytes(x),
        r@.len() == 4,
{
    proof {
        assert(((x >> 24) & 0xff) < 256 && ((x >> 16) & 0xff) < 256 && ((x >> 8) & 0xff) < 256 && (
        x & 0xff) < 256) by (bit_vector);
    }
    let mut r: Vec<u8> = Vec::new();
    r.push(((x >> 24) & 0xff) as u8);
    r.push(((x >> 16) & 0xff) as u8);
    r.push(((x >> 8) & 0xff) as u8);
    r.push((x & 0xff) as u8);
    proof {
        assert(r@ =~= spec_u32_to_be_bytes(x));
    }
    r
}

/// Reads a `u32` from four big-endian bytes.
pub fn u32_from_be_bytes(b0: u8, b1: u8, b2: u8, b3: u8) -> (r: u32)
    ensures
        r == spec_u32_from_be_bytes(seq![b0, b1, b2, b3]),
{
    ((b0 as u32) << 24) | ((b1 as u32) << 16) | ((b2 as u32) << 8) | (b3 as u32)
}

/// A frame: the payload's length as four big-endian bytes, then the payload.
pub open spec fn spec_frame(payload: Seq<u8>) -> Seq<u8>
    recommends
        payload.len() <= u32::MAX,
{
    spec_u32_to_be_bytes(payload.len() as u32) + payload
}

/// Reading one frame from `buf` at `pos`: the payload and the position just
/// after it, or nothing when the buffer ends before the exact byte counts.
pub open spec fn spec_read_frame(buf: Seq<u8>, pos: int) -> Option<(Seq<u8>, int)> {
    if pos + 4 > buf.len() {
        None
    } else {
        let n = spec_u32_from_be_bytes(buf.subrange(pos, pos + 4)) as int;
        if pos + 4 + n > buf.len() {
            None
        } else {
            Some((buf.subrange(pos + 4, pos + 4 + n), pos + 4 + n))
        }
    }
}

/// Appends one frame holding `payload` to `out`.
pub fn write_frame(out: &mut Vec<u8>, payload: &Vec<u8>)
    requires
        payload@.len() <= u32::MAX,
    ensures
        final(out)@ == old(out)@ + spec_frame(payload@),
{
    let len_bytes = u32_to_be_bytes(payload.len() as u32);
    out.extend_from_slice(len_bytes.as_slice());
    out.extend_from_slice(payload.as_slice());
    proof {
        assert(out@ =~= old(out)@ + spec_frame(payload@));
    }
}

/// Reads one frame from `buf` at `pos`: first the 4-byte big-endian length
/// `n`, then exactly `n` payload bytes. A buffer ending before either exact
/// count is a short read, never an empty message.
pub fn read_frame(buf: &Vec<u8>, pos: usize) -> (r: Result<(Vec<u8>, usize), TransferError>)
    requires
        pos <= buf@.len(),
    ensures
        match r {
            Ok(p) => {
                &&& spec_read_frame(buf@, pos as int) == Some((p.0@, p.1 as int))
                &&& pos + 4 <= p.1 <= buf@.len()
            },
            Err(e) => {
                &&& spec_read_frame(buf@, pos as int) is None
                &&& e == (TransferError::ShortRead)
            },
        },
{
    if buf.len() - pos < 4 {
        return Err(TransferError::ShortRead);
    }
    let n32 = u32_from_be_bytes(buf[pos], buf[pos + 1], buf[pos + 2], buf[pos + 3]);
    proof {
        assert(buf@.subrange(pos as int, pos as int + 4) =~= seq![
            buf@[pos as int],
            buf@[pos as int + 1],
            buf@[pos as int + 2],
            buf@[pos as int + 3],
        ]);
    }
    let n = n32 as usize;
    if buf.len() - (pos + 4) < n {
        return Err(TransferError::ShortRead);
    }
    let payload = slice_to_vec(slice_subrange(buf.as_slice(), pos + 4, pos + 4 + n));
    Ok((payload, pos + 4 + n))
}

/// A frame embedded in a larger stream reads back as its own payload: when
/// the bytes of `buf` from `pos` on start with the frame for `payload`,
/// reading at `pos` yields `payload` and stops just after the frame.
pub proof fn lemma_read_frame_at(buf: Seq<u8>, pos: int, payload: Seq<u8>)
    requires
        0 <= pos,
        payload.len() <= u32::MAX,
        pos + 4 + payload.len() <= buf.len(),
        buf.subrange(pos, pos + 4 + payload.len() as int) == spec_frame(payload),
    ensures
        spec_read_frame(buf, pos) == Some((payload, pos + 4 + payload.len() as int)),
{
    let n = payload.len() as int;
    let window = buf.subrange(pos, pos + 4 + n);
    assert(buf.subrange(pos, pos + 4) =~= window.subrange(0, 4));
    assert(window.subrange(0, 4) =~= spec_u32_to_be_bytes(payload.len() as u32));
    lemma_u32_be_bytes_round_trip(payload.len() as u32);
    assert(spec_u32_from_be_bytes(buf.subrange(pos, pos + 4)) == payload.len() as u32);
    assert(buf.subrange(pos + 4, pos + 4 + n) =~= window.subrange(4, 4 + n));
    assert(window.subrange(4, 4 + n) =~= payload);
}

/// Framing law: reading a frame from the output of `write_frame` returns
/// exactly the payload that was written, whatever bytes follow the frame.
pub proof fn lemma_frame_round_trip(payload: Seq<u8>, rest: Seq<u8>)
    requires
        payload.len() <= u32::MAX,
    ensures
        spec_read_frame(spec_frame(payload) + rest, 0) == Some(
            (payload, 4 + payload.len() as int),
        ),
{
    let buf = spec_frame(payload) + rest;
    assert(buf.subrange(0, 4 + payload.len() as int) =~= spec_frame(payload));
    lemma_read_frame_at(buf, 0, payload);
}

} // verus!
