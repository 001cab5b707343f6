//! Control events sampled from the consumer's pointer and the wire payload
//! each one is translated into before being relayed to the device.

use vstd::prelude::*;

verus! {

/// One sampled pointer position and press state, produced by the consumer on
/// press, release, or move-while-pressed, and relayed to the device exactly
/// once.
#[derive(Clone, Copy, Debug, PartialEq, Eq, Structural)]
pub struct MouseEvent {
    pub x: u16,
    pub y: u16,
    pub pressing: bool,
}

/// The touch-injection request payload the device expects: the coordinates
/// unchanged and the press state widened to a 16-bit flag that is 1 when
/// pressing and 0 otherwise.
#[derive(Clone, Copy, Debug, PartialEq, Eq, Structural)]
pub struct TouchPayload {
    pub x: u16,
    pub y: u16,
    pub pressing: u16,
}

/// The wire payload that relays a given control event.
pub open spec fn payload_of(e: MouseEvent) -> TouchPayload {
    TouchPayload { x: e.x, y: e.y, pressing: if e.pressing { 1u16 } else { 0u16 } }
}

/// Translates a control event into the device's touch-injection payload.
pub fn touch_payload(e: MouseEvent) -> (p: TouchPayload)
    ensures
        p == payload_of(e),
{
    TouchPayload { x: e.x, y: e.y, pressing: if e.pressing { 1 } else { 0 } }
}

} // verus!
