//! The pointer tracker on the consumer side: it follows the pointer's
//! position and press state and decides which control events are worth
//! relaying — one on every press, one on every release, and one on every
//! move made while pressed.

use vstd::prelude::*;

use crate::event::MouseEvent;

verus! {

/// One observation of the consumer's pointer.
#[derive(Clone, Copy, Debug, PartialEq, Eq, Structural)]
pub enum PointerUpdate {
    Press,
    Release,
    Move(u16, u16),
}

/// The pointer's last known position and press state.
#[derive(Clone, Copy, Debug, PartialEq, Eq, Structural)]
pub struct MouseTracker {
    pub x: u16,
    pub y: u16,
    pub pressed: bool,
}

/// What one pointer observation does to the tracker and which control event,
/// if any, it produces. A press or release keeps the position and emits an
/// event carrying it with the new press state; a move stores the new
/// position and emits an event exactly when the pointer was already pressed.
pub open spec fn track_relation(
    pre: MouseTracker,
    update: PointerUpdate,
    post: MouseTracker,
    emitted: Option<MouseEvent>,
) -> bool {
    match update {
        PointerUpdate::Press => post == (MouseTracker { pressed: true, ..pre }) && emitted
            == Some(MouseEvent { x: pre.x, y: pre.y, pressing: true }),
        PointerUpdate::Release => post == (MouseTracker { pressed: false, ..pre }) && emitted
            == Some(MouseEvent { x: pre.x, y: pre.y, pressing: false }),
        PointerUpdate::Move(x, y) => post == (MouseTracker { x, y, pressed: pre.pressed })
            && emitted == (if pre.pressed {
            Some(MouseEvent { x, y, pressing: true })
        } else {
            Option::<MouseEvent>::None
        }),
    }
}

impl MouseTracker {
    /// A fresh tracker: pointer at the origin, not pressed.
    pub fn new() -> (t: MouseTracker)
        ensures
            t == (MouseTracker { x: 0, y: 0, pressed: false }),
    {
        MouseTracker { x: 0, y: 0, pressed: false }
    }

    /// Applies one pointer observation and returns the control event to
    /// relay, if the observation calls for one; `track_relation` pins down
    /// both the new tracker state and the emission.
    pub fn update(&mut self, update: PointerUpdate) -> (emitted: Option<MouseEvent>)
        ensures
            track_relation(*old(self), update, *final(self), emitted),
    {
        match update {
            PointerUpdate::Press => {
                self.pressed = true;
                Some(MouseEvent { x: self.x, y: self.y, pressing: true })
            },
            PointerUpdate::Release => {
                self.pressed = false;
                Some(MouseEvent { x: self.x, y: self.y, pressing: false })
            },
            PointerUpdate::Move(x, y) => {
                self.x = x;
                self.y = y;
                if self.pressed {
                    Some(MouseEvent { x, y, pressing: true })
                } else {
                    None
                }
            },
        }
    }
}

} // verus!
