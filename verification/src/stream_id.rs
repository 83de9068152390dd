//! Stream identifier arithmetic.
//!
//! A QUIC stream identifier encodes, in its two low bits, which side
//! initiated the stream and whether it is bidirectional. Bit 0 names the
//! initiator (0 = client, 1 = server); bit 1 set means unidirectional.

use vstd::prelude::*;

verus! {

/// Whether the low bit of `stream_id` names the local side: the server
/// initiates odd identifiers, the client even ones.
pub open spec fn spec_is_local(stream_id: u64, is_server: bool) -> bool {
    stream_id % 2 == (if is_server { 1u64 } else { 0u64 })
}

/// Whether `stream_id` names a bidirectional stream: bit 1 is clear.
pub open spec fn spec_is_bidi(stream_id: u64) -> bool {
    stream_id % 4 < 2
}

/// Returns true if the stream was created locally.
pub fn is_local(stream_id: u64, is_server: bool) -> (r: bool)
    ensures
        r == spec_is_local(stream_id, is_server),
{
    proof {
        assert((stream_id & 0x1) == stream_id % 2) by (bit_vector);
    }
    (stream_id & 0x1) == (if is_server { 1 } else { 0 })
}

/// Returns true if the stream is bidirectional.
pub fn is_bidi(stream_id: u64) -> (r: bool)
    ensures
        r == spec_is_bidi(stream_id),
{
    proof {
        assert(((stream_id & 0x2) == 0) == (stream_id % 4 < 2)) by (bit_vector);
    }
    (stream_id & 0x2) == 0
}

} // verus!
