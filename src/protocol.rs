//! Per-peer handshake and liveness: `Idle -> Syncing -> Synchronized ->
//! (Running | Disconnected)`, driven by events the host hands in.
use vstd::prelude::*;

verus! {

/// How long a handshake request may go unanswered before another replaces it.
pub const SYNC_RETRY_MS: u64 = 200;

#[derive(Clone, Copy, Debug, PartialEq, Eq, Structural)]
pub enum PeerState {
    Idle,
    Syncing,
    Synchronized,
    Running,
    Disconnected,
}

/// What a sync reply did.
#[derive(Clone, Copy, Debug, PartialEq, Eq, Structural)]
pub enum ReplyOutcome {
    /// Not an echo of the pending request: dropped.
    Ignored,
    /// A round trip counted; another request is due.
    SendNext,
    /// The last round trip needed: the peer is synchronized.
    Synchronized,
}

/// The peer's state machine, with round-trip measurements.
#[derive(Clone, Copy, Debug, PartialEq, Eq, Structural)]
pub struct PeerSync {
    pub state: PeerState,
    pub round_trips: u32,
    pub required_round_trips: u32,
    pub pending_nonce: Option<u32>,
    pub sent_at_ms: u64,
    pub last_recv_ms: u64,
    pub timeout_ms: u64,
    pub rtt_avg_ms: Option<u64>,
}

/// The moving average after a new round-trip sample: the first sample
/// itself, then seven eighths of the old average plus an eighth of it.
pub open spec fn rtt_update(avg: Option<u64>, sample: u64) -> u64 {
    match avg {
        Some(a) => (a - a / 8 + sample / 8) as u64,
        None => sample,
    }
}

impl PeerSync {
    /// A peer that has exchanged nothing yet; it is synchronized after
    /// `required_round_trips` answered requests and disconnected after more
    /// than `timeout_ms` without traffic.
    pub fn new(required_round_trips: u32, timeout_ms: u64) -> (r: PeerSync)
        ensures
            r == (PeerSync {
                state: PeerState::Idle,
                round_trips: 0,
                required_round_trips,
                pending_nonce: None,
                sent_at_ms: 0,
                last_recv_ms: 0,
                timeout_ms,
                rtt_avg_ms: None,
            }),
    {
        PeerSync {
            state: PeerState::Idle,
            round_trips: 0,
            required_round_trips,
            pending_nonce: None,
            sent_at_ms: 0,
            last_recv_ms: 0,
            timeout_ms,
            rtt_avg_ms: None,
        }
    }

    /// Leaves `Idle`: the first handshake request, carrying `nonce`, is
    /// due. With no round trip required the peer is synchronized at once.
    /// Returns whether a request is to be sent.
    pub fn start(&mut self, nonce: u32, now_ms: u64) -> (r: bool)
        ensures
            old(self).state != PeerState::Idle ==> !r && *final(self) == *old(self),
            old(self).state == PeerState::Idle && old(self).required_round_trips == 0 ==> !r
                && *final(self) == (PeerSync {
                state: PeerState::Synchronized,
                last_recv_ms: now_ms,
                ..*old(self)
            }),
            old(self).state == PeerState::Idle && old(self).required_round_trips > 0 ==> r
                && *final(self) == (PeerSync {
                state: PeerState::Syncing,
                pending_nonce: Some(nonce),
                sent_at_ms: now_ms,
                last_recv_ms: now_ms,
                ..*old(self)
            }),
    {
        if self.state != PeerState::Idle {
            return false;
        }
        self.last_recv_ms = now_ms;
        if self.required_round_trips == 0 {
            self.state = PeerState::Synchronized;
            return false;
        }
        self.state = PeerState::Syncing;
        self.pending_nonce = Some(nonce);
        self.sent_at_ms = now_ms;
        true
    }

    /// Handles the peer's echo of a handshake request at `now_ms`. Only the
    /// echo of the pending nonce counts; each counted one measures a round
    /// trip and feeds the moving average.
    pub fn on_sync_reply(&mut self, nonce: u32, now_ms: u64) -> (r: ReplyOutcome)
        ensures
            ({
                let o = *old(self);
                let counts = o.state == PeerState::Syncing && o.pending_nonce == Some(nonce);
                let seen = if o.state == PeerState::Disconnected || now_ms < o.last_recv_ms {
                    o.last_recv_ms
                } else {
                    now_ms
                };
                if !counts {
                    &&& r == ReplyOutcome::Ignored
                    &&& *final(self) == (PeerSync { last_recv_ms: seen, ..o })
                } else {
                    let sample = if now_ms >= o.sent_at_ms {
                        (now_ms - o.sent_at_ms) as u64
                    } else {
                        0
                    };
                    let trips = if o.round_trips < u32::MAX {
                        (o.round_trips + 1) as u32
                    } else {
                        o.round_trips
                    };
                    let done = trips >= o.required_round_trips;
                    &&& r == (if done {
                        ReplyOutcome::Synchronized
                    } else {
                        ReplyOutcome::SendNext
                    })
                    &&& *final(self) == (PeerSync {
                        state: if done {
                            PeerState::Synchronized
                        } else {
                            PeerState::Syncing
                        },
                        round_trips: trips,
                        pending_nonce: None,
                        last_recv_ms: seen,
                        rtt_avg_ms: Some(rtt_update(o.rtt_avg_ms, sample)),
                        ..o
                    })
                }
            }),
    {
        if self.state != PeerState::Disconnected && now_ms >= self.last_recv_ms {
            self.last_recv_ms = now_ms;
        }
        if self.state != PeerState::Syncing || self.pending_nonce != Some(nonce) {
            return ReplyOutcome::Ignored;
        }
        let sample: u64 = if now_ms >= self.sent_at_ms {
            now_ms - self.sent_at_ms
        } else {
            0
        };
        let avg: u64 = match self.rtt_avg_ms {
            Some(a) => a - a / 8 + sample / 8,
            None => sample,
        };
        self.rtt_avg_ms = Some(avg);
        if self.round_trips < u32::MAX {
            self.round_trips = self.round_trips + 1;
        }
        self.pending_nonce = None;
        if self.round_trips >= self.required_round_trips {
            self.state = PeerState::Synchronized;
            ReplyOutcome::Synchronized
        } else {
            ReplyOutcome::SendNext
        }
    }

    /// Registers the next handshake request, carrying `nonce`, while
    /// syncing: when no request is pending, or when the pending one has gone
    /// unanswered for `SYNC_RETRY_MS` and is taken as lost. Returns whether
    /// it is to be sent.
    pub fn next_request(&mut self, nonce: u32, now_ms: u64) -> (r: bool)
        ensures
            r == (old(self).state == PeerState::Syncing && (old(self).pending_nonce is None || (
            now_ms >= old(self).sent_at_ms && now_ms - old(self).sent_at_ms >= SYNC_RETRY_MS))),
            r ==> *final(self) == (PeerSync {
                pending_nonce: Some(nonce),
                sent_at_ms: now_ms,
                ..*old(self)
            }),
            !r ==> *final(self) == *old(self),
    {
        if self.state != PeerState::Syncing {
            return false;
        }
        if self.pending_nonce.is_some() && (now_ms < self.sent_at_ms || now_ms - self.sent_at_ms
            < SYNC_RETRY_MS) {
            return false;
        }
        self.pending_nonce = Some(nonce);
        self.sent_at_ms = now_ms;
        true
    }

    /// Notes any other traffic from the peer at `now_ms`.
    pub fn on_traffic(&mut self, now_ms: u64)
        ensures
            *final(self) == (PeerSync {
                last_recv_ms: if old(self).state == PeerState::Disconnected || now_ms
                    < old(self).last_recv_ms {
                    old(self).last_recv_ms
                } else {
                    now_ms
                },
                ..*old(self)
            }),
    {
        if self.state != PeerState::Disconnected && now_ms >= self.last_recv_ms {
            self.last_recv_ms = now_ms;
        }
    }

    /// Checks liveness at `now_ms`: a started peer silent for more than the
    /// timeout becomes `Disconnected`, for good. Returns the new state.
    pub fn poll(&mut self, now_ms: u64) -> (r: PeerState)
        ensures
            ({
                let o = *old(self);
                let silent = o.state != PeerState::Idle && o.state != PeerState::Disconnected
                    && now_ms > o.last_recv_ms && now_ms - o.last_recv_ms > o.timeout_ms;
                &&& *final(self) == (if silent {
                    PeerSync { state: PeerState::Disconnected, ..o }
                } else {
                    o
                })
                &&& r == final(self).state
            }),
    {
        if self.state != PeerState::Idle && self.state != PeerState::Disconnected && now_ms
            > self.last_recv_ms && now_ms - self.last_recv_ms > self.timeout_ms {
            self.state = PeerState::Disconnected;
        }
        self.state
    }
}

pub open spec fn ready(s: PeerState) -> bool {
    s == PeerState::Synchronized || s == PeerState::Running
}

/// Whether every peer is synchronized or running, so ticks may advance.
pub fn all_synchronized(peers: &Vec<PeerSync>) -> (r: bool)
    ensures
        r == forall|i: int| 0 <= i < peers@.len() ==> ready(#[trigger] peers@[i].state),
{
    let mut i: usize = 0;
    while i < peers.len()
        invariant
            i <= peers@.len(),
            forall|k: int| 0 <= k < i ==> ready(#[trigger] peers@[k].state),
        decreases peers@.len() - i,
    {
        if !(peers[i].state == PeerState::Synchronized || peers[i].state == PeerState::Running) {
            return false;
        }
        i = i + 1;
    }
    true
}

/// Moves every peer to `Running` once all are synchronized; returns
/// whether it did. Nothing changes while one is not.
pub fn start_running(peers: &mut Vec<PeerSync>) -> (r: bool)
    ensures
        r == forall|i: int| 0 <= i < old(peers)@.len() ==> ready(#[trigger] old(peers)@[i].state),
        final(peers)@.len() == old(peers)@.len(),
        forall|i: int|
            0 <= i < old(peers)@.len() ==> #[trigger] final(peers)@[i] == if r {
                PeerSync { state: PeerState::Running, ..old(peers)@[i] }
            } else {
                old(peers)@[i]
            },
{
    if !all_synchronized(peers) {
        return false;
    }
    let ghost orig = peers@;
    let mut i: usize = 0;
    while i < peers.len()
        invariant
            i <= peers@.len(),
            peers@.len() == orig.len(),
            forall|k: int|
                0 <= k < orig.len() ==> #[trigger] peers@[k] == if k < i {
                    PeerSync { state: PeerState::Running, ..orig[k] }
                } else {
                    orig[k]
                },
        decreases peers@.len() - i,
    {
        let mut p = peers[i];
        p.state = PeerState::Running;
        peers.set(i, p);
        i = i + 1;
    }
    true
}

/// The prediction window that covers a round trip of `rtt_ms` at
/// `ticks_per_second`: the ticks that elapse in one round trip, rounded up,
/// at least one and at most `max_window`.
pub open spec fn window_for_rtt_spec(rtt_ms: u64, ticks_per_second: u64, max_window: u64) -> int {
    let ticks = (rtt_ms as int * ticks_per_second as int + 999) / 1000;
    let lo = if ticks < 1 {
        1
    } else {
        ticks
    };
    if lo > max_window {
        max_window as int
    } else {
        lo
    }
}

pub fn window_for_rtt(rtt_ms: u64, ticks_per_second: u64, max_window: u64) -> (r: u64)
    ensures
        r == window_for_rtt_spec(rtt_ms, ticks_per_second, max_window),
{
    let a: u128 = rtt_ms as u128;
    let b: u128 = ticks_per_second as u128;
    assert(a * b <= 0xffff_ffff_ffff_fffe_0000_0000_0000_0001u128) by (nonlinear_arith)
        requires
            a <= 0xffff_ffff_ffff_ffffu128,
            b <= 0xffff_ffff_ffff_ffffu128,
    ;
    let prod: u128 = a * b;
    let ticks: u128 = (prod + 999) / 1000;
    let lo: u128 = if ticks < 1 {
        1
    } else {
        ticks
    };
    if lo > max_window as u128 {
        max_window
    } else {
        lo as u64
    }
}

} // verus!
