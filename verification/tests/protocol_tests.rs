use v5_stream::geometry::{
    ScreenGeometry, DISPLAY_HEIGHT, DISPLAY_WIDTH, RAW_SCREEN_HEIGHT, RAW_SCREEN_WIDTH,
};
use v5_stream::protocol::{
    framebuffer_file_name, framebuffer_request, CAPTURE_TIMEOUT_MS, EVENT_PACING_MS,
    RELAY_QUEUE_CAPACITY, TOUCH_HANDSHAKE_ATTEMPTS, TOUCH_TIMEOUT_MS,
};

#[test]
fn device_geometry_matches_the_wire_contract() {
    let g = ScreenGeometry::device_default();
    assert_eq!(g.raw_width, 512);
    assert_eq!(g.raw_height, 272);
    assert_eq!(g.display_width, 480);
    assert_eq!(g.display_height, 272);
    assert_eq!(RAW_SCREEN_WIDTH, 512);
    assert_eq!(RAW_SCREEN_HEIGHT, 272);
    assert_eq!(DISPLAY_WIDTH, 480);
    assert_eq!(DISPLAY_HEIGHT, 272);
}

#[test]
fn framebuffer_download_targets_the_fixed_region() {
    let g = ScreenGeometry::device_default();
    let req = framebuffer_request(&g);
    assert_eq!(req.load_address, 0);
    assert_eq!(req.size, 512 * 272 * 4);
    assert_eq!(framebuffer_file_name(), "screen");
}

#[test]
fn handshake_timing_matches_the_wire_contract() {
    assert_eq!(CAPTURE_TIMEOUT_MS, 100);
    assert_eq!(TOUCH_TIMEOUT_MS, 100);
    assert_eq!(TOUCH_HANDSHAKE_ATTEMPTS, 5);
    assert_eq!(EVENT_PACING_MS, 100);
    assert_eq!(RELAY_QUEUE_CAPACITY, 200);
}
