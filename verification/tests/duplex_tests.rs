use v5_stream::decode::Frame;
use v5_stream::duplex::{
    capture_step, mark_sink_closed, run_capture_cycles, CaptureOutcome, DuplexState, StreamEnd,
};
use v5_stream::geometry::{ScreenGeometry, DISPLAY_HEIGHT, DISPLAY_WIDTH};

const RAW_LEN: usize = 512 * 272 * 4;

fn device_geometry() -> ScreenGeometry {
    ScreenGeometry::device_default()
}

fn good_buffer(fill: u8) -> Vec<u8> {
    vec![fill; RAW_LEN]
}

fn run(
    g: &ScreenGeometry,
    outcomes: Vec<CaptureOutcome>,
) -> (Vec<Frame>, DuplexState) {
    run_capture_cycles(g, &outcomes)
}

#[test]
fn handshake_failure_on_iteration_k_emits_k_minus_1_frames() {
    let g = device_geometry();
    // Failure on iteration 3: exactly 2 prior frames, then termination.
    let outcomes = vec![
        CaptureOutcome::Downloaded(good_buffer(1)),
        CaptureOutcome::Downloaded(good_buffer(2)),
        CaptureOutcome::HandshakeFailed,
        CaptureOutcome::Downloaded(good_buffer(3)),
    ];
    let (frames, state) = run(&g, outcomes);
    assert_eq!(frames.len(), 2);
    assert_eq!(state, DuplexState::Terminated(StreamEnd::CaptureHandshakeFailed));

    // No outcome past the failing iteration is examined: the run over only
    // the first three outcomes emits the identical frames.
    let truncated = vec![
        CaptureOutcome::Downloaded(good_buffer(1)),
        CaptureOutcome::Downloaded(good_buffer(2)),
        CaptureOutcome::HandshakeFailed,
    ];
    let (frames2, state2) = run(&g, truncated);
    assert_eq!(frames.len(), frames2.len());
    for (a, b) in frames.iter().zip(frames2.iter()) {
        assert_eq!(a.bytes, b.bytes);
    }
    assert_eq!(state2, DuplexState::Terminated(StreamEnd::CaptureHandshakeFailed));
}

#[test]
fn immediate_handshake_failure_emits_nothing() {
    let g = device_geometry();
    let (frames, state) = run(&g, vec![CaptureOutcome::HandshakeFailed]);
    assert!(frames.is_empty());
    assert_eq!(state, DuplexState::Terminated(StreamEnd::CaptureHandshakeFailed));
}

#[test]
fn download_failure_terminates_with_its_own_reason() {
    let g = device_geometry();
    let outcomes = vec![
        CaptureOutcome::Downloaded(good_buffer(9)),
        CaptureOutcome::DownloadFailed,
        CaptureOutcome::Downloaded(good_buffer(9)),
    ];
    let (frames, state) = run(&g, outcomes);
    assert_eq!(frames.len(), 1);
    assert_eq!(state, DuplexState::Terminated(StreamEnd::DownloadFailed));
}

#[test]
fn malformed_download_terminates_with_decode_failure() {
    let g = device_geometry();
    let outcomes = vec![CaptureOutcome::Downloaded(vec![0u8; 100])];
    let (frames, state) = run(&g, outcomes);
    assert!(frames.is_empty());
    assert_eq!(state, DuplexState::Terminated(StreamEnd::DecodeFailed));
}

#[test]
fn all_good_outcomes_keep_the_stream_running() {
    let g = device_geometry();
    let outcomes = vec![
        CaptureOutcome::Downloaded(good_buffer(4)),
        CaptureOutcome::Downloaded(good_buffer(5)),
        CaptureOutcome::Downloaded(good_buffer(6)),
    ];
    let (frames, state) = run(&g, outcomes);
    assert_eq!(frames.len(), 3);
    assert_eq!(state, DuplexState::Running);
    for frame in &frames {
        assert_eq!(frame.width, DISPLAY_WIDTH);
        assert_eq!(frame.height, DISPLAY_HEIGHT);
        assert_eq!(frame.bytes.len(), DISPLAY_WIDTH * DISPLAY_HEIGHT * 4);
    }
    // Each emitted frame reflects its own iteration's download.
    assert_eq!(frames[0].bytes[0], 4);
    assert_eq!(frames[1].bytes[0], 5);
    assert_eq!(frames[2].bytes[0], 6);
}

#[test]
fn capture_step_emits_the_decoded_frame() {
    let g = device_geometry();
    let mut state = DuplexState::Running;
    let outcome = CaptureOutcome::Downloaded(good_buffer(0x42));
    let emit = capture_step(&g, &mut state, &outcome);
    assert_eq!(state, DuplexState::Running);
    let frame = emit.expect("a well-sized download emits a frame");
    assert_eq!(frame.width, DISPLAY_WIDTH);
    assert_eq!(frame.height, DISPLAY_HEIGHT);
    // Constant raw group [42, 42, 42, 42] decodes to [42, 42, 42, 255].
    assert_eq!(&frame.bytes[0..4], [0x42, 0x42, 0x42, 0xFF]);
}

#[test]
fn sink_closure_terminates_the_stream() {
    let mut state = DuplexState::Running;
    mark_sink_closed(&mut state);
    assert_eq!(state, DuplexState::Terminated(StreamEnd::SinkClosed));
}
