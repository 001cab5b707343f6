use v5_stream::event::MouseEvent;
use v5_stream::tracker::{MouseTracker, PointerUpdate};

#[test]
fn press_emits_event_at_current_position() {
    let mut tracker = MouseTracker::new();
    assert_eq!(tracker.update(PointerUpdate::Move(120, 40)), None);
    let event = tracker.update(PointerUpdate::Press);
    assert_eq!(event, Some(MouseEvent { x: 120, y: 40, pressing: true }));
    assert!(tracker.pressed);
}

#[test]
fn release_emits_event_and_clears_press_state() {
    let mut tracker = MouseTracker::new();
    tracker.update(PointerUpdate::Move(7, 9));
    tracker.update(PointerUpdate::Press);
    let event = tracker.update(PointerUpdate::Release);
    assert_eq!(event, Some(MouseEvent { x: 7, y: 9, pressing: false }));
    assert!(!tracker.pressed);
}

#[test]
fn move_while_pressed_emits_move_while_released_does_not() {
    let mut tracker = MouseTracker::new();
    assert_eq!(tracker.update(PointerUpdate::Move(1, 2)), None);
    tracker.update(PointerUpdate::Press);
    let dragged = tracker.update(PointerUpdate::Move(3, 4));
    assert_eq!(dragged, Some(MouseEvent { x: 3, y: 4, pressing: true }));
    tracker.update(PointerUpdate::Release);
    assert_eq!(tracker.update(PointerUpdate::Move(5, 6)), None);
    assert_eq!(tracker.x, 5);
    assert_eq!(tracker.y, 6);
}
