//! Errors reported by the snapshot ring and the session.
use vstd::prelude::*;

verus! {

/// Why a call was refused. The fatal ones put the session in its terminal
/// error state; the others ask the caller to try again on a later tick.
#[derive(Clone, Copy, Debug, PartialEq, Eq, Structural)]
pub enum SessionError {
    /// The snapshot of `tick` was evicted or never saved.
    SnapshotMissing { tick: u64 },
    /// A snapshot was offered for a tick older than the retained window.
    SaveOutsideWindow { tick: u64 },
    /// A rollback to `tick` would replay `depth` ticks, more than the window.
    ReplayTooDeep { tick: u64, depth: u64 },
    /// A resimulated tick produced another checksum than the first run.
    DesyncDetected { tick: u64 },
    /// Advancing would leave more unconfirmed ticks than the window allows.
    PredictionThreshold,
    /// Remote player `handle` stopped sending and was marked disconnected.
    PeerDisconnected { handle: u64 },
    /// A spectator has not yet received every input of the next tick.
    WaitingForInput,
    /// The local player `handle` has no input for the tick about to run.
    MissingLocalInput { handle: u64 },
    /// The handle names no player of the kind the call needs.
    InvalidHandle { handle: u64 },
    /// The configuration cannot make a session.
    InvalidConfig,
    /// The tick counter can go no further than `tick`.
    Halted { tick: u64 },
}

impl SessionError {
    /// Fatal errors end the session; the others are transient.
    pub open spec fn is_fatal_spec(self) -> bool {
        match self {
            SessionError::SnapshotMissing { .. } => true,
            SessionError::SaveOutsideWindow { .. } => true,
            SessionError::ReplayTooDeep { .. } => true,
            SessionError::DesyncDetected { .. } => true,
            SessionError::Halted { .. } => true,
            _ => false,
        }
    }

    pub fn is_fatal(&self) -> (r: bool)
        ensures
            r == self.is_fatal_spec(),
    {
        match self {
            SessionError::SnapshotMissing { .. } => true,
            SessionError::SaveOutsideWindow { .. } => true,
            SessionError::ReplayTooDeep { .. } => true,
            SessionError::DesyncDetected { .. } => true,
            SessionError::Halted { .. } => true,
            _ => false,
        }
    }
}

} // verus!
