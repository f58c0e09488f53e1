//! Verified core of a live-view streaming client for cloud-connected
//! cameras: session negotiation with bounded busy retries, the relay
//! frame codec and handshake record, heartbeat cadence, the stream
//! pump that turns relay frames into a transport-stream byte feed,
//! and the post-session cleanup schedule.
//!
//! All protocol decisions live here as pure, contract-checked
//! functions; the sockets, timers and HTTP calls that drive them live
//! in the unverified application shell.

use vstd::prelude::*;

mod errors;
pub mod api;
pub mod cancel;
pub mod cleanup;
pub mod codec;
pub mod heartbeat;
pub mod negotiate;
pub mod pump;
pub mod relay;
pub mod util;

pub use errors::LiveError;
