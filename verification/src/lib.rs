use vstd::prelude::*;

pub mod codec;
pub mod reassembly;
pub mod rendezvous;
pub mod serial;
pub mod io;
pub mod handler;

verus! {

/// Largest payload a frame may carry: the wire format stores the payload
/// length in a single header byte.
pub const MAXIMUM_DATA_LEN: usize = 255;

/// Receive-side inter-byte timeout, in milliseconds: a partial frame is
/// abandoned once the gap since the last received byte exceeds this.
pub const SERIAL_RX_TIMEOUT_MS: u128 = 10;

/// Fixed baud rate at which serial devices are opened.
pub const SERIAL_BAUD_RATE: u32 = 115200;

} // verus!
