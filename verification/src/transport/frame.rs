//! Wire framing of encoded sync frames: each frame travels on its own
//! stream as a 4-byte big-endian length followed by that many bytes.

use vstd::prelude::*;

verus! {

/// The four big-endian bytes of `x`.
pub open spec fn be_bytes(x: u32) -> Seq<u8> {
    seq![(x >> 24u32) as u8, (x >> 16u32) as u8, (x >> 8u32) as u8, x as u8]
}

/// The value of four big-endian bytes.
pub open spec fn be_value(b0: u8, b1: u8, b2: u8, b3: u8) -> u32 {
    ((b0 as u32) << 24u32) | ((b1 as u32) << 16u32) | ((b2 as u32) << 8u32) | (b3 as u32)
}

/// The length header sent before a frame of `len` bytes: the length, cut to
/// 32 bits, as four big-endian bytes.
pub fn frame_header(len: usize) -> (h: [u8; 4])
    ensures
        h@ == be_bytes(len as u32),
{
    let x = len as u32;
    let h = [(x >> 24u32) as u8, (x >> 16u32) as u8, (x >> 8u32) as u8, x as u8];
    assert(h@ =~= be_bytes(x));
    h
}

/// The frame length that a received header announces.
pub fn frame_length(h: [u8; 4]) -> (n: u32)
    ensures
        n == be_value(h@[0], h@[1], h@[2], h@[3]),
{
    ((h[0] as u32) << 24u32) | ((h[1] as u32) << 16u32) | ((h[2] as u32) << 8u32) | (h[3] as u32)
}

/// Reading back a header gives the length it was written for, for every
/// length that fits in 32 bits.
pub proof fn law_frame_length_round_trip(len: u32)
    ensures
        be_value(be_bytes(len)[0], be_bytes(len)[1], be_bytes(len)[2], be_bytes(len)[3]) == len,
{
    let b0 = (len >> 24u32) as u8;
    let b1 = (len >> 16u32) as u8;
    let b2 = (len >> 8u32) as u8;
    let b3 = len as u8;
    assert(be_bytes(len)[0] == b0 && be_bytes(len)[1] == b1 && be_bytes(len)[2] == b2 && be_bytes(len)[3] == b3);
    assert(((b0 as u32) << 24u32) | ((b1 as u32) << 16u32) | ((b2 as u32) << 8u32) | (b3 as u32) == len)
        by (bit_vector)
        requires
            b0 == (len >> 24u32) as u8,
            b1 == (len >> 16u32) as u8,
            b2 == (len >> 8u32) as u8,
            b3 == len as u8,
    ;
}

} // verus!
