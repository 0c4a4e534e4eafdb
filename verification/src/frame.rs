//! The on-wire frame format and its decoder.
//!
//! One frame is exactly 48 bytes: an 8-byte frame identifier, an 8-byte
//! timestamp, seven 4-byte channel words, and 4 trailing bytes of alignment
//! padding that carry no data, all in little-endian byte order. The channel
//! words are IEEE 754 single-precision bit patterns; the library keeps them
//! as raw `u32` values and leaves the floating-point interpretation to the
//! caller.

use vstd::prelude::*;
use vstd::bytes::{spec_u32_from_le_bytes, spec_u64_from_le_bytes, u32_from_le_bytes,
    u64_from_le_bytes};
use vstd::slice::slice_subrange;

verus! {

/// Exact length in bytes of one on-wire frame.
pub const FRAME_LEN: usize = 48;

/// Number of channel words in one frame.
pub const CHANNEL_COUNT: usize = 7;

/// One decoded IMU sample. `channels` holds the seven channel words as raw
/// little-endian `u32` bit patterns of single-precision values.
#[derive(Clone, Copy, Debug, PartialEq)]
pub struct ImuSample {
    pub frame_id: u64,
    pub timestamp: u64,
    pub channels: [u32; 7],
}

/// The frame identifier encoded at bytes 0..8 of a frame.
pub open spec fn spec_frame_id(b: Seq<u8>) -> u64 {
    spec_u64_from_le_bytes(b.subrange(0, 8))
}

/// The timestamp encoded at bytes 8..16 of a frame.
pub open spec fn spec_timestamp(b: Seq<u8>) -> u64 {
    spec_u64_from_le_bytes(b.subrange(8, 16))
}

/// The bit pattern of channel `i` encoded at bytes `16 + 4*i .. 20 + 4*i`.
pub open spec fn spec_channel_bits(b: Seq<u8>, i: int) -> u32 {
    spec_u32_from_le_bytes(b.subrange(16 + 4 * i, 20 + 4 * i))
}

/// `s` is exactly the record laid out in the 48-byte chunk `b`: every field
/// is read from its fixed offset with no transformation.
pub open spec fn is_decode_of(b: Seq<u8>, s: ImuSample) -> bool {
    &&& b.len() == FRAME_LEN
    &&& s.frame_id == spec_frame_id(b)
    &&& s.timestamp == spec_timestamp(b)
    &&& forall|i: int| 0 <= i < CHANNEL_COUNT ==> s.channels[i] == spec_channel_bits(b, i)
}

/// Decode one read chunk. A chunk is decodable if and only if it is exactly
/// `FRAME_LEN` bytes long; any other length yields `None` and the bytes are
/// discarded. The last 4 bytes of a frame are alignment padding and are
/// ignored.
pub fn decode_frame(chunk: &[u8]) -> (r: Option<ImuSample>)
    ensures
        r is Some <==> chunk@.len() == FRAME_LEN,
        r matches Some(s) ==> is_decode_of(chunk@, s),
{
    if chunk.len() != FRAME_LEN {
        return None;
    }
    let frame_id = u64_from_le_bytes(slice_subrange(chunk, 0, 8));
    let timestamp = u64_from_le_bytes(slice_subrange(chunk, 8, 16));
    let channels: [u32; 7] = [
        u32_from_le_bytes(slice_subrange(chunk, 16, 20)),
        u32_from_le_bytes(slice_subrange(chunk, 20, 24)),
        u32_from_le_bytes(slice_subrange(chunk, 24, 28)),
        u32_from_le_bytes(slice_subrange(chunk, 28, 32)),
        u32_from_le_bytes(slice_subrange(chunk, 32, 36)),
        u32_from_le_bytes(slice_subrange(chunk, 36, 40)),
        u32_from_le_bytes(slice_subrange(chunk, 40, 44)),
    ];
    Some(ImuSample { frame_id, timestamp, channels })
}

} // verus!
