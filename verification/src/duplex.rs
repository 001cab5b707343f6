//! The duplex loop's state machine. Each iteration the loop drains the input
//! relay and then runs one capture cycle: a readiness handshake, a bulk
//! download of the raw framebuffer, a decode, and an emission downstream.
//! The surrounding application performs the device exchanges and feeds what
//! came back into `capture_step`, which decides whether a frame is emitted
//! and whether the stream goes on or terminates with an explicit reason.

use vstd::prelude::*;

use crate::decode::{decodable, decode_frame, decode_spec, Frame};
use crate::geometry::ScreenGeometry;

verus! {

/// Why a stream ended. A capture-readiness handshake failure means the
/// device stopped answering; the other reasons are fatal conditions of one
/// iteration's download, decode, or downstream emission.
#[derive(Clone, Copy, Debug, PartialEq, Eq, Structural)]
pub enum StreamEnd {
    CaptureHandshakeFailed,
    DownloadFailed,
    DecodeFailed,
    SinkClosed,
}

/// The loop's state: running, or terminated with the reason the stream
/// ended. Termination is final; no state leaves `Terminated`.
#[derive(Clone, Copy, Debug, PartialEq, Eq, Structural)]
pub enum DuplexState {
    Running,
    Terminated(StreamEnd),
}

impl DuplexState {
    /// Whether the loop should run another iteration.
    pub fn is_running(&self) -> (b: bool)
        ensures
            b == (*self is Running),
    {
        match self {
            DuplexState::Running => true,
            DuplexState::Terminated(_) => false,
        }
    }
}

/// What the device side of one capture cycle produced: a failed readiness
/// handshake, a failed bulk download, or the downloaded raw buffer.
#[derive(Debug)]
pub enum CaptureOutcome {
    HandshakeFailed,
    DownloadFailed,
    Downloaded(Vec<u8>),
}

/// Everything one capture cycle decides, as a relation between what the
/// device returned, the state the loop moves to, and what is emitted. A
/// handshake failure or download failure terminates the stream with that
/// reason and emits nothing. A downloaded buffer of the raw size leaves the
/// loop running and emits exactly its decoded frame; a malformed buffer
/// terminates the stream with a decode failure and emits nothing.
pub open spec fn capture_step_relation(
    g: ScreenGeometry,
    outcome: CaptureOutcome,
    state: DuplexState,
    emit: Option<Frame>,
) -> bool {
    match outcome {
        CaptureOutcome::HandshakeFailed => state == DuplexState::Terminated(
            StreamEnd::CaptureHandshakeFailed,
        ) && emit is None,
        CaptureOutcome::DownloadFailed => state == DuplexState::Terminated(
            StreamEnd::DownloadFailed,
        ) && emit is None,
        CaptureOutcome::Downloaded(raw) => if decodable(raw@, g) {
            state == DuplexState::Running && (emit matches Some(f) && f.width == g.display_width
                && f.height == g.display_height && f.bytes@ == decode_spec(raw@, g) && f.wf())
        } else {
            state == DuplexState::Terminated(StreamEnd::DecodeFailed) && emit is None
        },
    }
}

/// Advances the loop by one capture cycle given what the device returned;
/// `capture_step_relation` pins down the new state and the emission for
/// every outcome.
pub fn capture_step(g: &ScreenGeometry, state: &mut DuplexState, outcome: &CaptureOutcome) -> (emit:
    Option<Frame>)
    requires
        g.wf(),
        *old(state) is Running,
    ensures
        capture_step_relation(*g, *outcome, *final(state), emit),
{
    match outcome {
        CaptureOutcome::HandshakeFailed => {
            *state = DuplexState::Terminated(StreamEnd::CaptureHandshakeFailed);
            None
        },
        CaptureOutcome::DownloadFailed => {
            *state = DuplexState::Terminated(StreamEnd::DownloadFailed);
            None
        },
        CaptureOutcome::Downloaded(raw) => {
            match decode_frame(raw, g) {
                Ok(frame) => Some(frame),
                Err(_) => {
                    *state = DuplexState::Terminated(StreamEnd::DecodeFailed);
                    None
                },
            }
        },
    }
}

/// Records that the downstream sink rejected an emission: the stream
/// terminates with that reason, whatever it was doing.
pub fn mark_sink_closed(state: &mut DuplexState)
    ensures
        *final(state) == DuplexState::Terminated(StreamEnd::SinkClosed),
{
    *state = DuplexState::Terminated(StreamEnd::SinkClosed);
}

/// The frames a stream emits when its capture cycles meet the given device
/// outcomes in order: one decoded frame per well-sized download, stopping at
/// the first failed handshake, failed download, or malformed buffer.
pub open spec fn outcome_frames(g: ScreenGeometry, outs: Seq<CaptureOutcome>) -> Seq<Seq<u8>>
    decreases outs.len(),
{
    if outs.len() == 0 {
        Seq::empty()
    } else {
        match outs[0] {
            CaptureOutcome::HandshakeFailed => Seq::empty(),
            CaptureOutcome::DownloadFailed => Seq::empty(),
            CaptureOutcome::Downloaded(raw) => if decodable(raw@, g) {
                seq![decode_spec(raw@, g)] + outcome_frames(g, outs.drop_first())
            } else {
                Seq::empty()
            },
        }
    }
}

/// Why a stream run against the given device outcomes ends, or `None` when
/// every outcome is a well-sized download and the run outlives them all.
pub open spec fn outcome_end(g: ScreenGeometry, outs: Seq<CaptureOutcome>) -> Option<StreamEnd>
    decreases outs.len(),
{
    if outs.len() == 0 {
        None
    } else {
        match outs[0] {
            CaptureOutcome::HandshakeFailed => Some(StreamEnd::CaptureHandshakeFailed),
            CaptureOutcome::DownloadFailed => Some(StreamEnd::DownloadFailed),
            CaptureOutcome::Downloaded(raw) => if decodable(raw@, g) {
                outcome_end(g, outs.drop_first())
            } else {
                Some(StreamEnd::DecodeFailed)
            },
        }
    }
}

/// The byte sequences of a sequence of frames.
pub open spec fn frames_bytes(frames: Seq<Frame>) -> Seq<Seq<u8>> {
    frames.map_values(|f: Frame| f.bytes@)
}

/// Runs capture cycles against a recorded sequence of device outcomes until
/// the stream terminates or the outcomes run out: exactly the emitted frames
/// of `outcome_frames` come back, in order and with the display dimensions,
/// and the final state carries the reason of `outcome_end`.
pub fn run_capture_cycles(g: &ScreenGeometry, outcomes: &Vec<CaptureOutcome>) -> (r: (
    Vec<Frame>,
    DuplexState,
))
    requires
        g.wf(),
    ensures
        frames_bytes(r.0@) == outcome_frames(*g, outcomes@),
        r.1 == (match outcome_end(*g, outcomes@) {
            Option::None => DuplexState::Running,
            Option::Some(e) => DuplexState::Terminated(e),
        }),
        forall|i: int|
            0 <= i < r.0@.len() ==> (#[trigger] r.0@[i]).width == g.display_width && r.0@[i].height
                == g.display_height && r.0@[i].wf(),
{
    let mut frames: Vec<Frame> = Vec::new();
    let mut state = DuplexState::Running;
    let mut running: bool = true;
    let mut i: usize = 0;
    proof {
        assert(outcomes@.skip(0) =~= outcomes@);
        assert(frames_bytes(frames@) =~= Seq::<Seq<u8>>::empty());
        assert(frames_bytes(frames@) + outcome_frames(*g, outcomes@) =~= outcome_frames(
            *g,
            outcomes@,
        ));
    }
    while running && i < outcomes.len()
        invariant
            g.wf(),
            i <= outcomes@.len(),
            running == (state is Running),
            forall|k: int|
                0 <= k < frames@.len() ==> (#[trigger] frames@[k]).width == g.display_width
                    && frames@[k].height == g.display_height && frames@[k].wf(),
            running ==> outcome_frames(*g, outcomes@) == frames_bytes(frames@) + outcome_frames(
                *g,
                outcomes@.skip(i as int),
            ),
            running ==> outcome_end(*g, outcomes@) == outcome_end(*g, outcomes@.skip(i as int)),
            !running ==> outcome_frames(*g, outcomes@) == frames_bytes(frames@),
            !running ==> (state matches DuplexState::Terminated(e) && outcome_end(*g, outcomes@)
                == Some(e)),
        decreases outcomes@.len() - i,
    {
        proof {
            assert(outcomes@.skip(i as int).len() > 0);
            assert(outcomes@.skip(i as int)[0] == outcomes@[i as int]);
            assert(outcomes@.skip(i as int).drop_first() =~= outcomes@.skip(i as int + 1));
        }
        let ghost prev_frames = frames@;
        let ghost rest = outcomes@.skip(i as int);
        let outcome = &outcomes[i];
        let emit = capture_step(g, &mut state, outcome);
        match emit {
            Option::Some(frame) => {
                frames.push(frame);
                proof {
                    assert(frames_bytes(frames@) =~= frames_bytes(prev_frames) + seq![
                        frames@[frames@.len() - 1].bytes@,
                    ]);
                    assert(frames_bytes(prev_frames) + outcome_frames(*g, rest) =~= frames_bytes(
                        frames@,
                    ) + outcome_frames(*g, outcomes@.skip(i as int + 1)));
                }
            },
            Option::None => {
                proof {
                    if state is Running {
                        assert(frames_bytes(prev_frames) + outcome_frames(*g, rest)
                            =~= frames_bytes(frames@) + outcome_frames(
                            *g,
                            outcomes@.skip(i as int + 1),
                        ));
                    } else {
                        assert(outcome_frames(*g, rest) =~= Seq::<Seq<u8>>::empty());
                        assert(frames_bytes(prev_frames) + outcome_frames(*g, rest)
                            =~= frames_bytes(frames@));
                    }
                }
            },
        }
        running = state.is_running();
        i = i + 1;
    }
    proof {
        if running {
            assert(outcomes@.skip(i as int) =~= Seq::<CaptureOutcome>::empty());
            assert(frames_bytes(frames@) + outcome_frames(*g, outcomes@.skip(i as int))
                =~= frames_bytes(frames@));
        }
    }
    (frames, state)
}

/// Whether a device outcome is a download of a buffer that decodes: the one
/// kind of outcome that keeps the stream running.
pub open spec fn good_download(g: ScreenGeometry, o: CaptureOutcome) -> bool {
    o matches CaptureOutcome::Downloaded(raw) && decodable(raw@, g)
}

/// A capture-handshake failure on iteration `k` ends the stream after
/// exactly `k - 1` emitted frames: each prior iteration's well-sized
/// download is decoded and emitted in order, the run terminates because the
/// device stopped answering the readiness handshake, and no outcome past
/// iteration `k` is ever examined — the loop issues no further handshake or
/// download once terminated.
pub proof fn lemma_handshake_failure_ends_stream(
    g: ScreenGeometry,
    outs: Seq<CaptureOutcome>,
    k: int,
)
    requires
        1 <= k <= outs.len(),
        forall|j: int| 0 <= j < k - 1 ==> good_download(g, #[trigger] outs[j]),
        outs[k - 1] is HandshakeFailed,
    ensures
        outcome_frames(g, outs).len() == k - 1,
        forall|j: int|
            0 <= j < k - 1 ==> outcome_frames(g, outs)[j] == decode_spec(
                outs[j]->Downloaded_0@,
                g,
            ),
        outcome_end(g, outs) == Some(StreamEnd::CaptureHandshakeFailed),
        outcome_frames(g, outs) == outcome_frames(g, outs.take(k)),
        outcome_end(g, outs) == outcome_end(g, outs.take(k)),
    decreases k,
{
    if k == 1 {
        assert(outcome_frames(g, outs) =~= Seq::<Seq<u8>>::empty());
        assert(outs.take(1)[0] == outs[0]);
        assert(outcome_frames(g, outs.take(1)) =~= Seq::<Seq<u8>>::empty());
    } else {
        let rest = outs.drop_first();
        assert forall|j: int| 0 <= j < k - 2 implies good_download(g, #[trigger] rest[j]) by {
            assert(rest[j] == outs[j + 1]);
        }
        assert(rest[k - 2] == outs[k - 1]);
        lemma_handshake_failure_ends_stream(g, rest, k - 1);
        assert(good_download(g, outs[0]));
        assert forall|j: int| 0 <= j < k - 1 implies outcome_frames(g, outs)[j] == decode_spec(
            outs[j]->Downloaded_0@,
            g,
        ) by {
            if j > 0 {
                assert(outcome_frames(g, outs)[j] == outcome_frames(g, rest)[j - 1]);
                assert(rest[j - 1] == outs[j]);
            }
        }
        assert(outs.take(k)[0] == outs[0]);
        assert(outs.take(k).drop_first() =~= rest.take(k - 1));
        assert(outcome_frames(g, outs.take(k)) =~= outcome_frames(g, outs));
    }
}

} // verus!
