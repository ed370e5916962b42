//! The length-prefixed wire format for a single frame.
//!
//! On the wire a frame is one header byte holding the payload length
//! (0 to 255) followed by exactly that many payload bytes; no terminator
//! and no checksum.

use vstd::prelude::*;

verus! {

use crate::MAXIMUM_DATA_LEN;

/// The wire bytes of a frame carrying `payload`: the length header
/// followed by the payload itself.  Meaningful only for payloads of at
/// most [`MAXIMUM_DATA_LEN`] bytes.
pub open spec fn wire_of(payload: Seq<u8>) -> Seq<u8> {
    seq![payload.len() as u8] + payload
}

/// Encodes one frame: prepends the 1-byte length header to `payload`.
///
/// A payload longer than [`MAXIMUM_DATA_LEN`] cannot be framed (the
/// header would truncate its length), so it is rejected outright.
pub fn encode_frame(payload: &[u8]) -> (r: Result<Vec<u8>, String>)
    ensures
        payload@.len() <= MAXIMUM_DATA_LEN <==> r is Ok,
        r matches Ok(w) ==> w@ == wire_of(payload@),
{
    if payload.len() > MAXIMUM_DATA_LEN {
        return Err("payload exceeds the maximum frame length".to_string());
    }
    let mut wire: Vec<u8> = Vec::new();
    wire.push(payload.len() as u8);
    let mut i: usize = 0;
    while i < payload.len()
        invariant
            i <= payload@.len() <= MAXIMUM_DATA_LEN,
            wire@ == seq![payload@.len() as u8] + payload@.take(i as int),
        decreases payload@.len() - i,
    {
        wire.push(payload[i]);
        i = i + 1;
    }
    assert(payload@.take(payload@.len() as int) == payload@);
    Ok(wire)
}

} // verus!
