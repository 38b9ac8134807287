//! Rollback networking core: input codec, snapshot ring, input
//! synchronisation with prediction, rollback scheduling and per-peer
//! handshake state, all as verified state machines driven by a host loop.
//!
//! The host owns the simulation and the sockets. Each tick it hands the
//! session the local inputs and the remote ones that arrived, calls
//! `Session::advance`, and carries out the returned plan: load a snapshot,
//! simulate the listed ticks with `Session::frame`, save each result.
//!
//! Window policy: the prediction window is fixed when the session is made
//! and may not exceed `snapshot::MAX_PREDICTION_WINDOW`, so the snapshot
//! ring never holds more than that many states plus one. A P2P session
//! refuses to run further ahead of its slowest player than the window, so a
//! rollback never needs a snapshot the ring has evicted.
//! `protocol::window_for_rtt` suggests a window from the measured round
//! trip for the next session. Inputs and frames of ticks that no rollback
//! can reach any more are dropped as the session advances, so memory stays
//! bounded by the window and by how far the slowest player lags.

pub mod codec;
pub mod error;
pub mod input_sync;
pub mod protocol;
pub mod session;
pub mod snapshot;
pub mod wire;
