//! Error taxonomy of the live-view pipeline.

use vstd::prelude::*;

verus! {

/// Everything that can end a viewing session abnormally.
///
/// Only the backend's busy signal is ever retried; every other
/// failure surfaces immediately and terminates the session.
#[derive(Clone, Copy, Debug, PartialEq, Eq, Structural)]
pub enum LiveError {
    /// The backend kept reporting the camera busy through the whole
    /// retry budget.
    DeviceBusyExhausted,
    /// The backend rejected the liveview request for a reason other
    /// than being busy; never retried.
    SessionNegotiationFailed,
    /// The relay address was malformed or the connection or the
    /// authentication write failed.
    HandshakeFailed,
    /// The relay closed the transport while a frame was being read.
    ConnectionClosed,
    /// A frame header announced a payload above the 1 MiB bound.
    FrameTooLarge,
    /// No video payload arrived within the pre-roll window.
    StreamStartTimeout,
}

} // verus!
