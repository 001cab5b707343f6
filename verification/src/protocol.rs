//! The fixed parameters of the wire-level exchange with the device: handshake
//! timeouts and retry bounds, the pacing delay between relayed events, queue
//! bounds, and the description of the framebuffer region to download.

use vstd::prelude::*;

use crate::geometry::ScreenGeometry;

verus! {

/// Timeout in milliseconds for the capture-readiness handshake.
pub const CAPTURE_TIMEOUT_MS: u64 = 100;

/// Retry bound for the capture-readiness handshake. The observed retry count
/// varies between deployments, so it is a tunable default rather than a fixed
/// part of the protocol.
pub const CAPTURE_HANDSHAKE_ATTEMPTS: u32 = 1;

/// Timeout in milliseconds for one touch-injection handshake.
pub const TOUCH_TIMEOUT_MS: u64 = 100;

/// Retry bound for one touch-injection handshake, distinct from the capture
/// path's retry bound.
pub const TOUCH_HANDSHAKE_ATTEMPTS: u32 = 5;

/// Delay in milliseconds between consecutive relayed events, giving the
/// device time to process each injected touch.
pub const EVENT_PACING_MS: u64 = 100;

/// Bound of the input-relay queue.
pub const RELAY_QUEUE_CAPACITY: usize = 200;

/// Bound of the downstream frame channel.
pub const FRAME_CHANNEL_CAPACITY: usize = 10;

/// The bulk-download request that pulls one raw capture buffer: a named
/// resource read from a fixed load address with a fixed byte count.
#[derive(Clone, Copy, Debug, PartialEq, Eq, Structural)]
pub struct FramebufferRequest {
    pub load_address: u32,
    pub size: u32,
}

/// The name of the resource the framebuffer download requests.
pub fn framebuffer_file_name() -> (s: &'static str)
    ensures
        s@ == "screen"@,
{
    "screen"
}

/// Builds the framebuffer download request for a geometry: load address zero
/// and exactly the raw buffer's byte count.
pub fn framebuffer_request(g: &ScreenGeometry) -> (r: FramebufferRequest)
    requires
        g.wf(),
        g.raw_len() <= u32::MAX,
    ensures
        r.load_address == 0,
        r.size == g.raw_len(),
{
    let size: usize = g.raw_len_exec();
    FramebufferRequest { load_address: 0, size: size as u32 }
}

} // verus!
