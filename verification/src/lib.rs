//! Core logic for mirroring a remote embedded device's display onto a host
//! and relaying synthetic touch input back to it over a shared half-duplex
//! connection.
//!
//! The library holds the pixel decoder that turns the device's raw
//! little-endian framebuffer dump into a cropped RGBA frame, the bounded
//! input-relay queue that carries touch events from the consumer toward the
//! device, the pointer tracker that decides which observations become
//! events, and the duplex-loop state machine that alternates input draining
//! with capture cycles and terminates the stream with an explicit reason on
//! unrecoverable failure. The surrounding application performs the serial
//! exchanges and feeds their results into these functions.

pub mod decode;
pub mod duplex;
pub mod event;
pub mod geometry;
pub mod protocol;
pub mod relay;
pub mod tracker;
