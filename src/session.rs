//! The session: players, mode, and the rollback scheduler that tells the
//! host which snapshots to load and save and which ticks to simulate.
use vstd::prelude::*;
use crate::codec::InputSample;
use crate::error::SessionError;
use crate::input_sync::{
    frame_of, input_added, replayed, InputOutcome, InputSynchronizer, PlayerInput,
};
use crate::snapshot::{after_save, save_refused, SnapshotStore, MAX_PREDICTION_WINDOW};

verus! {

/// How the session gets its inputs.
#[derive(Clone, Copy, Debug, PartialEq, Eq, Structural)]
pub enum SessionMode {
    /// Every player is local; each tick replays the last few ticks and
    /// compares checksums, to catch a simulation that does not reproduce.
    SyncTest,
    /// Local and remote peers, with prediction and rollback.
    P2P,
    /// Only remote players; ticks run once all their inputs are confirmed.
    Spectator,
}

/// Where a player's inputs come from.
#[derive(Clone, Copy, Debug, PartialEq, Eq, Structural)]
pub enum PlayerKind {
    Local,
    Remote,
}

/// What the host does for one `advance`: save the state of tick 0 first
/// where `save_initial` holds; load the snapshot of `load` where given;
/// then for each tick `t` in `first_tick..=last_tick` simulate the frame of
/// `t` and save the resulting state as the snapshot of `t + 1`.
#[derive(Clone, Copy, Debug, PartialEq, Eq, Structural)]
pub struct AdvancePlan {
    pub save_initial: bool,
    pub load: Option<u64>,
    pub first_tick: u64,
    pub last_tick: u64,
}

pub open spec fn has_kind(kinds: Seq<PlayerKind>, k: PlayerKind) -> bool {
    exists|p: int| 0 <= p < kinds.len() && kinds[p] == k
}

/// The configurations a session can be made from.
pub open spec fn config_ok(
    mode: SessionMode,
    kinds: Seq<PlayerKind>,
    window: u64,
    check_distance: u64,
) -> bool {
    &&& kinds.len() > 0
    &&& window <= MAX_PREDICTION_WINDOW
    &&& check_distance <= window
    &&& (mode == SessionMode::SyncTest ==> !has_kind(kinds, PlayerKind::Remote))
    &&& (mode == SessionMode::Spectator ==> !has_kind(kinds, PlayerKind::Local))
}

/// The tick a step rolls back to: the first wrong prediction, else in sync
/// test mode the tick `check_distance` back.
pub open spec fn rollback_target(
    mode: SessionMode,
    frontier: u64,
    first_incorrect: Option<u64>,
    check_distance: u64,
) -> Option<u64> {
    match first_incorrect {
        Some(m) => Some(m),
        None => if mode == SessionMode::SyncTest && check_distance > 0 && frontier
            >= check_distance {
            Some((frontier - check_distance) as u64)
        } else {
            None
        },
    }
}

/// The plan of a step that runs tick `frontier`, rolling back to `target`.
pub open spec fn plan_of(frontier: u64, target: Option<u64>) -> AdvancePlan {
    AdvancePlan {
        save_initial: frontier == 0,
        load: target,
        first_tick: match target {
            Some(t) => t,
            None => frontier,
        },
        last_tick: frontier,
    }
}

/// The frames after a step: those from `target` on recomputed, then the
/// frame of `frontier` appended.
pub open spec fn frames_after_step(
    conf: Seq<Seq<InputSample>>,
    frames: Seq<Seq<InputSample>>,
    frontier: u64,
    target: Option<u64>,
) -> Seq<Seq<InputSample>> {
    let kept = match target {
        Some(t) => replayed(conf, frames, t as int),
        None => frames,
    };
    kept.push(frame_of(conf, frontier as int))
}

pub struct Session {
    mode: SessionMode,
    kinds: Vec<PlayerKind>,
    window: u64,
    check_distance: u64,
    sync: InputSynchronizer,
    store: SnapshotStore,
    disconnected: Vec<bool>,
    halted: Option<SessionError>,
}

impl Session {
    pub closed spec fn mode_spec(&self) -> SessionMode {
        self.mode
    }

    pub closed spec fn kinds_spec(&self) -> Seq<PlayerKind> {
        self.kinds@
    }

    pub closed spec fn window_spec(&self) -> u64 {
        self.window
    }

    pub closed spec fn check_distance_spec(&self) -> u64 {
        self.check_distance
    }

    pub closed spec fn sync_spec(&self) -> InputSynchronizer {
        self.sync
    }

    pub closed spec fn store_spec(&self) -> SnapshotStore {
        self.store
    }

    pub closed spec fn disconnected_spec(&self) -> Seq<bool> {
        self.disconnected@
    }

    /// The fatal error the session stopped on, if any.
    pub closed spec fn halted_spec(&self) -> Option<SessionError> {
        self.halted
    }

    pub open spec fn frontier_spec(&self) -> nat {
        self.sync_spec().frontier_spec()
    }

    pub open spec fn conf(&self) -> Seq<Seq<InputSample>> {
        self.sync_spec().confirmed_view()
    }

    /// The configuration stays valid and the parts agree on it.
    pub open spec fn wf(&self) -> bool {
        &&& config_ok(
            self.mode_spec(),
            self.kinds_spec(),
            self.window_spec(),
            self.check_distance_spec(),
        )
        &&& self.sync_spec().wf()
        &&& self.store_spec().wf()
        &&& self.store_spec().window_spec() == self.window_spec()
        &&& self.sync_spec().num_players_spec() == self.kinds_spec().len()
        &&& self.disconnected_spec().len() == self.kinds_spec().len()
        &&& (self.sync_spec().base_spec() == 0 || self.sync_spec().base_spec()
            + self.window_spec() <= self.frontier_spec())
    }

    /// A session for the players `kinds` (handle = position), or
    /// `InvalidConfig` where the configuration cannot make one.
    pub fn new(mode: SessionMode, kinds: Vec<PlayerKind>, window: u64, check_distance: u64) -> (r:
        Result<Session, SessionError>)
        ensures
            config_ok(mode, kinds@, window, check_distance) <==> r is Ok,
            !config_ok(mode, kinds@, window, check_distance) ==> r == Err::<Session, SessionError>(
                SessionError::InvalidConfig,
            ),
            r matches Ok(s) ==> {
                &&& s.wf()
                &&& s.mode_spec() == mode
                &&& s.kinds_spec() == kinds@
                &&& s.window_spec() == window
                &&& s.check_distance_spec() == check_distance
                &&& s.frontier_spec() == 0
                &&& s.sync_spec().first_incorrect_spec() is None
                &&& s.halted_spec() is None
                &&& s.store_spec()@ == Map::<u64, (Seq<u8>, u64)>::empty()
                &&& forall|p: int| 0 <= p < kinds@.len() ==> (#[trigger] s.conf()[p]).len() == 0
                &&& forall|p: int| 0 <= p < kinds@.len() ==> !(#[trigger] s.disconnected_spec()[p])
            },
    {
        if kinds.len() == 0 || window > MAX_PREDICTION_WINDOW || check_distance > window {
            return Err(SessionError::InvalidConfig);
        }
        let mut i: usize = 0;
        while i < kinds.len()
            invariant
                i <= kinds@.len(),
                forall|q: int|
                    0 <= q < i ==> (mode == SessionMode::SyncTest ==> #[trigger] kinds@[q]
                        != PlayerKind::Remote) && (mode == SessionMode::Spectator ==> kinds@[q]
                        != PlayerKind::Local),
            decreases kinds@.len() - i,
        {
            let k = kinds[i];
            if mode == SessionMode::SyncTest && k == PlayerKind::Remote {
                return Err(SessionError::InvalidConfig);
            }
            if mode == SessionMode::Spectator && k == PlayerKind::Local {
                return Err(SessionError::InvalidConfig);
            }
            i = i + 1;
        }
        let n = kinds.len();
        let mut disconnected: Vec<bool> = Vec::new();
        while disconnected.len() < n
            invariant
                disconnected@.len() <= n,
                forall|q: int| 0 <= q < disconnected@.len() ==> !(#[trigger] disconnected@[q]),
            decreases n - disconnected@.len(),
        {
            disconnected.push(false);
        }
        let sync = InputSynchronizer::new(n);
        let store = SnapshotStore::new(window);
        Ok(Session { mode, kinds, window, check_distance, sync, store, disconnected, halted: None })
    }

    /// The number of players, whatever the mode.
    pub fn num_players(&self) -> (r: usize)
        requires
            self.wf(),
        ensures
            r == self.kinds_spec().len(),
    {
        self.kinds.len()
    }

    pub fn mode(&self) -> (r: SessionMode)
        ensures
            r == self.mode_spec(),
    {
        self.mode
    }

    /// The configured prediction window.
    pub fn window(&self) -> (r: u64)
        ensures
            r == self.window_spec(),
    {
        self.window
    }

    /// The next tick to simulate.
    pub fn current_tick(&self) -> (r: u64)
        requires
            self.wf(),
        ensures
            r == self.frontier_spec(),
    {
        self.sync.frontier()
    }

    /// The number of leading ticks whose inputs are confirmed for every player.
    pub fn confirmed_ticks(&self) -> (r: u64)
        requires
            self.wf(),
        ensures
            forall|p: int| 0 <= p < self.kinds_spec().len() ==> r <= (#[trigger] self.conf()[p]).len(),
            exists|p: int| 0 <= p < self.kinds_spec().len() && r == (#[trigger] self.conf()[p]).len(),
    {
        let r = self.sync.min_confirmed();
        proof {
            let w = choose|p: int|
                0 <= p < self.sync.num_players_spec() && r == (
                #[trigger] self.sync.confirmed_view()[p]).len();
            assert(r == self.conf()[w].len());
        }
        r
    }

    /// The fatal error the session stopped on, if any.
    pub fn halted(&self) -> (r: Option<SessionError>)
        ensures
            r == self.halted_spec(),
    {
        self.halted
    }

    /// The kind of player `handle`, if there is one.
    pub fn player_kind(&self, handle: usize) -> (r: Option<PlayerKind>)
        requires
            self.wf(),
        ensures
            handle < self.kinds_spec().len() ==> r == Some(self.kinds_spec()[handle as int]),
            handle >= self.kinds_spec().len() ==> r is None,
    {
        if handle < self.kinds.len() {
            Some(self.kinds[handle])
        } else {
            None
        }
    }

    /// Whether remote player `handle` was reported disconnected.
    pub fn is_disconnected(&self, handle: usize) -> (r: bool)
        requires
            self.wf(),
        ensures
            r == (handle < self.kinds_spec().len() && self.disconnected_spec()[handle as int]),
    {
        handle < self.disconnected.len() && self.disconnected[handle]
    }

    /// Gives the input of local player `handle` for the tick about to run.
    /// A second input for the same tick is ignored as a duplicate.
    pub fn add_local_input(&mut self, handle: usize, sample: InputSample) -> (r: Result<
        InputOutcome,
        SessionError,
    >)
        requires
            old(self).wf(),
        ensures
            final(self).wf(),
            old(self).halted_spec() matches Some(e) ==> r == Err::<InputOutcome, SessionError>(e)
                && *final(self) == *old(self),
            old(self).halted_spec() is None && (handle >= old(self).kinds_spec().len()
                || old(self).kinds_spec()[handle as int] != PlayerKind::Local) ==> r == Err::<
                InputOutcome,
                SessionError,
            >(SessionError::InvalidHandle { handle: handle as u64 }) && *final(self) == *old(
                self,
            ),
            old(self).halted_spec() is None && handle < old(self).kinds_spec().len()
                && old(self).kinds_spec()[handle as int] == PlayerKind::Local ==> {
                &&& r is Ok
                &&& final(self).mode_spec() == old(self).mode_spec()
                &&& final(self).kinds_spec() == old(self).kinds_spec()
                &&& final(self).store_spec() == old(self).store_spec()
                &&& final(self).halted_spec() is None
                &&& final(self).disconnected_spec() == old(self).disconnected_spec()
                &&& input_added(
                    old(self).sync_spec(),
                    final(self).sync_spec(),
                    handle,
                    old(self).frontier_spec() as u64,
                    sample,
                    r->Ok_0,
                )
            },
    {
        if let Some(e) = self.halted {
            return Err(e);
        }
        if handle >= self.kinds.len() || self.kinds[handle] != PlayerKind::Local {
            return Err(SessionError::InvalidHandle { handle: handle as u64 });
        }
        let tick = self.sync.frontier();
        let o = self.sync.add_input(handle, tick, sample);
        Ok(o)
    }

    /// Gives the confirmed input of remote player `handle` for `tick`, as it
    /// arrived from the network.
    pub fn add_remote_input(&mut self, handle: usize, tick: u64, sample: InputSample) -> (r:
        Result<InputOutcome, SessionError>)
        requires
            old(self).wf(),
        ensures
            final(self).wf(),
            old(self).halted_spec() matches Some(e) ==> r == Err::<InputOutcome, SessionError>(e)
                && *final(self) == *old(self),
            old(self).halted_spec() is None && (handle >= old(self).kinds_spec().len()
                || old(self).kinds_spec()[handle as int] != PlayerKind::Remote) ==> r == Err::<
                InputOutcome,
                SessionError,
            >(SessionError::InvalidHandle { handle: handle as u64 }) && *final(self) == *old(
                self,
            ),
            old(self).halted_spec() is None && handle < old(self).kinds_spec().len()
                && old(self).kinds_spec()[handle as int] == PlayerKind::Remote ==> {
                &&& r is Ok
                &&& final(self).mode_spec() == old(self).mode_spec()
                &&& final(self).kinds_spec() == old(self).kinds_spec()
                &&& final(self).store_spec() == old(self).store_spec()
                &&& final(self).halted_spec() is None
                &&& final(self).disconnected_spec() == old(self).disconnected_spec()
                &&& input_added(
                    old(self).sync_spec(),
                    final(self).sync_spec(),
                    handle,
                    tick,
                    sample,
                    r->Ok_0,
                )
            },
    {
        if let Some(e) = self.halted {
            return Err(e);
        }
        if handle >= self.kinds.len() || self.kinds[handle] != PlayerKind::Remote {
            return Err(SessionError::InvalidHandle { handle: handle as u64 });
        }
        let o = self.sync.add_input(handle, tick, sample);
        Ok(o)
    }

    /// Records that remote player `handle` stopped sending; later advances
    /// report it instead of waiting for that player.
    pub fn mark_disconnected(&mut self, handle: usize) -> (r: Result<(), SessionError>)
        requires
            old(self).wf(),
        ensures
            final(self).wf(),
            handle < old(self).kinds_spec().len() && old(self).kinds_spec()[handle as int]
                == PlayerKind::Remote <==> r is Ok,
            r is Err ==> r == Err::<(), SessionError>(
                SessionError::InvalidHandle { handle: handle as u64 },
            ) && *final(self) == *old(self),
            r is Ok ==> {
                &&& final(self).disconnected_spec() == old(self).disconnected_spec().update(
                    handle as int,
                    true,
                )
                &&& final(self).sync_spec() == old(self).sync_spec()
                &&& final(self).store_spec() == old(self).store_spec()
                &&& final(self).halted_spec() == old(self).halted_spec()
                &&& final(self).mode_spec() == old(self).mode_spec()
                &&& final(self).kinds_spec() == old(self).kinds_spec()
            },
    {
        if handle >= self.kinds.len() || self.kinds[handle] != PlayerKind::Remote {
            return Err(SessionError::InvalidHandle { handle: handle as u64 });
        }
        self.disconnected.set(handle, true);
        Ok(())
    }

    fn first_missing(&self, local_only: bool) -> (r: Option<usize>)
        requires
            self.wf(),
        ensures
            r matches Some(p) ==> {
                &&& p < self.kinds_spec().len()
                &&& (local_only ==> self.kinds_spec()[p as int] == PlayerKind::Local)
                &&& self.conf()[p as int].len() <= self.frontier_spec()
            },
            r is None ==> forall|p: int|
                0 <= p < self.kinds_spec().len() && (local_only ==> self.kinds_spec()[p]
                    == PlayerKind::Local) ==> (#[trigger] self.conf()[p]).len() > self.frontier_spec(),
    {
        let f = self.sync.frontier();
        let mut p: usize = 0;
        while p < self.kinds.len()
            invariant
                self.wf(),
                f == self.frontier_spec(),
                p <= self.kinds_spec().len(),
                forall|q: int|
                    0 <= q < p && (local_only ==> self.kinds_spec()[q] == PlayerKind::Local) ==> (
                    #[trigger] self.conf()[q]).len() > f,
            decreases self.kinds_spec().len() - p,
        {
            if !local_only || self.kinds[p] == PlayerKind::Local {
                if self.sync.confirmed_count(p) <= f {
                    return Some(p);
                }
            }
            p = p + 1;
        }
        None
    }

    fn first_disconnected(&self) -> (r: Option<usize>)
        requires
            self.wf(),
        ensures
            r matches Some(p) ==> p < self.kinds_spec().len() && self.disconnected_spec()[p as int],
            r is None ==> forall|p: int|
                0 <= p < self.kinds_spec().len() ==> !(#[trigger] self.disconnected_spec()[p]),
    {
        let mut p: usize = 0;
        while p < self.disconnected.len()
            invariant
                self.wf(),
                p <= self.kinds_spec().len(),
                forall|q: int| 0 <= q < p ==> !(#[trigger] self.disconnected_spec()[q]),
            decreases self.kinds_spec().len() - p,
        {
            if self.disconnected[p] {
                return Some(p);
            }
            p = p + 1;
        }
        None
    }

    /// Runs the scheduler for the next tick. Where it can run, the inputs
    /// of the ticks to replay and of the next tick are fixed, and the plan
    /// says which snapshots the host loads and saves around them. Transient
    /// refusals leave the session as it was; fatal ones halt it.
    pub fn advance(&mut self) -> (r: Result<AdvancePlan, SessionError>)
        requires
            old(self).wf(),
        ensures
            final(self).wf(),
            final(self).mode_spec() == old(self).mode_spec(),
            final(self).kinds_spec() == old(self).kinds_spec(),
            final(self).store_spec() == old(self).store_spec(),
            final(self).disconnected_spec() == old(self).disconnected_spec(),
            final(self).sync_spec().confirmed_view() == old(self).conf(),
            ({
                let f = old(self).frontier_spec();
                let conf = old(self).conf();
                let kinds = old(self).kinds_spec();
                let mode = old(self).mode_spec();
                let missing_local = exists|p: int|
                    0 <= p < kinds.len() && kinds[p] == PlayerKind::Local && (
                    #[trigger] conf[p]).len() <= f;
                let gone = exists|p: int|
                    0 <= p < kinds.len() && #[trigger] old(self).disconnected_spec()[p];
                let missing_any = exists|p: int| 0 <= p < kinds.len() && (#[trigger] conf[p]).len() <= f;
                let too_far = exists|p: int|
                    0 <= p < kinds.len() && (#[trigger] conf[p]).len() + old(self).window_spec() <= f;
                let target = rollback_target(
                    mode,
                    f as u64,
                    old(self).sync_spec().first_incorrect_spec(),
                    old(self).check_distance_spec(),
                );
                if old(self).halted_spec() is Some {
                    &&& r == Err::<AdvancePlan, SessionError>(old(self).halted_spec()->Some_0)
                    &&& *final(self) == *old(self)
                } else if missing_local {
                    &&& r matches Err(SessionError::MissingLocalInput { handle })
                    &&& handle < kinds.len() && kinds[handle as int] == PlayerKind::Local
                    &&& conf[handle as int].len() <= f
                    &&& *final(self) == *old(self)
                } else if gone {
                    &&& r matches Err(SessionError::PeerDisconnected { handle })
                    &&& handle < kinds.len() && old(self).disconnected_spec()[handle as int]
                    &&& *final(self) == *old(self)
                } else if mode == SessionMode::Spectator && missing_any {
                    &&& r == Err::<AdvancePlan, SessionError>(SessionError::WaitingForInput)
                    &&& *final(self) == *old(self)
                } else if mode == SessionMode::P2P && too_far {
                    &&& r == Err::<AdvancePlan, SessionError>(SessionError::PredictionThreshold)
                    &&& *final(self) == *old(self)
                } else if f + 2 >= u64::MAX {
                    &&& r == Err::<AdvancePlan, SessionError>(SessionError::Halted { tick: f as u64 })
                    &&& final(self).halted_spec() == Some(SessionError::Halted { tick: f as u64 })
                    &&& final(self).sync_spec() == old(self).sync_spec()
                } else if target is Some && f - target->Some_0 > old(self).window_spec() {
                    let t = target->Some_0;
                    let e = SessionError::ReplayTooDeep { tick: t, depth: (f - t) as u64 };
                    &&& r == Err::<AdvancePlan, SessionError>(e)
                    &&& final(self).halted_spec() == Some(e)
                    &&& final(self).sync_spec() == old(self).sync_spec()
                } else {
                    &&& r == Ok::<AdvancePlan, SessionError>(plan_of(f as u64, target))
                    &&& final(self).sync_spec().base_spec() <= plan_of(f as u64, target).first_tick
                    &&& final(self).halted_spec() is None
                    &&& final(self).sync_spec().first_incorrect_spec() is None
                    &&& final(self).sync_spec().frames() == frames_after_step(
                        conf,
                        old(self).sync_spec().frames(),
                        f as u64,
                        target,
                    )
                }
            }),
    {
        if let Some(e) = self.halted {
            return Err(e);
        }
        if let Some(p) = self.first_missing(true) {
            return Err(SessionError::MissingLocalInput { handle: p as u64 });
        }
        if let Some(p) = self.first_disconnected() {
            return Err(SessionError::PeerDisconnected { handle: p as u64 });
        }
        if self.mode == SessionMode::Spectator {
            if let Some(_) = self.first_missing(false) {
                return Err(SessionError::WaitingForInput);
            }
        }
        let f = self.sync.frontier();
        if self.mode == SessionMode::P2P {
            let m = self.sync.min_confirmed();
            if m <= f && f - m >= self.window {
                proof {
                    let w = choose|p: int|
                        0 <= p < self.sync.num_players_spec() && m == (
                        #[trigger] self.sync.confirmed_view()[p]).len();
                    assert(self.conf()[w].len() + self.window <= f);
                }
                return Err(SessionError::PredictionThreshold);
            }
        }
        if f >= u64::MAX - 2 {
            let e = SessionError::Halted { tick: f };
            self.halted = Some(e);
            return Err(e);
        }
        let target: Option<u64> = match self.sync.first_incorrect() {
            Some(m) => Some(m),
            None => if self.mode == SessionMode::SyncTest && self.check_distance > 0 && f
                >= self.check_distance {
                Some(f - self.check_distance)
            } else {
                None
            },
        };
        if let Some(t) = target {
            if f - t > self.window {
                let e = SessionError::ReplayTooDeep { tick: t, depth: f - t };
                self.halted = Some(e);
                return Err(e);
            }
            self.sync.replay_from(t);
        }
        let ran = self.sync.record_frame();
        // Ticks before both the slowest player's last confirmed tick and the
        // window can no longer be rolled back to: drop them.
        let m = self.sync.min_confirmed();
        if m >= 1 && f >= self.window {
            let b: u64 = if m - 1 < f - self.window {
                m - 1
            } else {
                f - self.window
            };
            if b > self.sync.base() {
                self.sync.discard_before(b);
            }
        }
        let first: u64 = match target {
            Some(t) => t,
            None => f,
        };
        Ok(AdvancePlan { save_initial: f == 0, load: target, first_tick: first, last_tick: ran })
    }

    /// The first tick whose frame is still held; every tick of the plan the
    /// last `advance` returned is at or after it.
    pub fn first_held_tick(&self) -> (r: u64)
        ensures
            r == self.sync_spec().base_spec(),
    {
        self.sync.base()
    }

    /// The frame tick `tick` ran with, for the host to simulate.
    pub fn frame(&self, tick: u64) -> (r: Vec<PlayerInput>)
        requires
            self.wf(),
            self.sync_spec().base_spec() <= tick < self.frontier_spec(),
        ensures
            r@.len() == self.kinds_spec().len(),
            forall|p: int|
                0 <= p < r@.len() ==> {
                    &&& (#[trigger] r@[p]).sample == self.sync_spec().frames()[tick as int][p]
                    &&& (r@[p].status == crate::input_sync::InputStatus::Confirmed <==> tick
                        < self.conf()[p].len())
                },
    {
        self.sync.frame(tick)
    }

    /// Stores the host's state for `tick`. In sync test mode a state saved
    /// again for a retained tick must carry the same checksum: a different
    /// one halts the session with `DesyncDetected`.
    pub fn save_state(&mut self, tick: u64, data: Vec<u8>, checksum: u64) -> (r: Result<
        (),
        SessionError,
    >)
        requires
            old(self).wf(),
        ensures
            final(self).wf(),
            final(self).mode_spec() == old(self).mode_spec(),
            final(self).kinds_spec() == old(self).kinds_spec(),
            final(self).sync_spec() == old(self).sync_spec(),
            final(self).disconnected_spec() == old(self).disconnected_spec(),
            ({
                let store = old(self).store_spec();
                let mismatch = old(self).mode_spec() == SessionMode::SyncTest
                    && store@.contains_key(tick) && store@[tick].1 != checksum;
                if old(self).halted_spec() is Some {
                    &&& r == Err::<(), SessionError>(old(self).halted_spec()->Some_0)
                    &&& *final(self) == *old(self)
                } else if mismatch {
                    &&& r == Err::<(), SessionError>(SessionError::DesyncDetected { tick })
                    &&& final(self).halted_spec() == Some(SessionError::DesyncDetected { tick })
                    &&& final(self).store_spec() == store
                } else if save_refused(store.latest_spec(), store.window_spec(), tick) {
                    &&& r == Err::<(), SessionError>(SessionError::SaveOutsideWindow { tick })
                    &&& final(self).halted_spec() == Some(SessionError::SaveOutsideWindow { tick })
                    &&& final(self).store_spec() == store
                } else {
                    &&& r is Ok
                    &&& final(self).halted_spec() is None
                    &&& final(self).store_spec()@ == after_save(
                        store@,
                        store.latest_spec(),
                        store.window_spec(),
                        tick,
                        data@,
                        checksum,
                    )
                }
            }),
    {
        if let Some(e) = self.halted {
            return Err(e);
        }
        if self.mode == SessionMode::SyncTest {
            if let Some(c) = self.store.checksum(tick) {
                if c != checksum {
                    let e = SessionError::DesyncDetected { tick };
                    self.halted = Some(e);
                    return Err(e);
                }
            }
        }
        match self.store.save(tick, data, checksum) {
            Ok(()) => Ok(()),
            Err(e) => {
                self.halted = Some(e);
                Err(e)
            },
        }
    }

    /// The state saved for `tick`. A tick that is not retained is a fatal
    /// `SnapshotMissing`: the session halts.
    pub fn load_state(&mut self, tick: u64) -> (r: Result<Vec<u8>, SessionError>)
        requires
            old(self).wf(),
        ensures
            final(self).wf(),
            final(self).mode_spec() == old(self).mode_spec(),
            final(self).kinds_spec() == old(self).kinds_spec(),
            final(self).sync_spec() == old(self).sync_spec(),
            final(self).store_spec() == old(self).store_spec(),
            final(self).disconnected_spec() == old(self).disconnected_spec(),
            old(self).halted_spec() is Some ==> r == Err::<Vec<u8>, SessionError>(
                old(self).halted_spec()->Some_0,
            ) && *final(self) == *old(self),
            old(self).halted_spec() is None && old(self).store_spec()@.contains_key(tick) ==> {
                &&& r is Ok
                &&& r->Ok_0@ == old(self).store_spec()@[tick].0
                &&& final(self).halted_spec() is None
            },
            old(self).halted_spec() is None && !old(self).store_spec()@.contains_key(tick) ==> {
                &&& r == Err::<Vec<u8>, SessionError>(SessionError::SnapshotMissing { tick })
                &&& final(self).halted_spec() == Some(SessionError::SnapshotMissing { tick })
            },
    {
        if let Some(e) = self.halted {
            return Err(e);
        }
        match self.store.restore(tick) {
            Ok(d) => Ok(d),
            Err(e) => {
                self.halted = Some(e);
                Err(e)
            },
        }
    }

    /// Compares a peer's checksum for `tick` with the local one. A
    /// difference is a desync: the session halts with `DesyncDetected`.
    /// Returns whether the tick was retained, so that a comparison was made.
    pub fn check_remote_checksum(&mut self, tick: u64, checksum: u64) -> (r: Result<
        bool,
        SessionError,
    >)
        requires
            old(self).wf(),
        ensures
            final(self).wf(),
            final(self).mode_spec() == old(self).mode_spec(),
            final(self).kinds_spec() == old(self).kinds_spec(),
            final(self).sync_spec() == old(self).sync_spec(),
            final(self).store_spec() == old(self).store_spec(),
            final(self).disconnected_spec() == old(self).disconnected_spec(),
            ({
                let m = old(self).store_spec()@;
                if old(self).halted_spec() is Some {
                    &&& r == Err::<bool, SessionError>(old(self).halted_spec()->Some_0)
                    &&& *final(self) == *old(self)
                } else if m.contains_key(tick) && m[tick].1 != checksum {
                    &&& r == Err::<bool, SessionError>(SessionError::DesyncDetected { tick })
                    &&& final(self).halted_spec() == Some(SessionError::DesyncDetected { tick })
                } else {
                    &&& r == Ok::<bool, SessionError>(m.contains_key(tick))
                    &&& *final(self) == *old(self)
                }
            }),
    {
        if let Some(e) = self.halted {
            return Err(e);
        }
        match self.store.checksum(tick) {
            Some(c) => {
                if c != checksum {
                    let e = SessionError::DesyncDetected { tick };
                    self.halted = Some(e);
                    Err(e)
                } else {
                    Ok(true)
                }
            },
            None => Ok(false),
        }
    }
}

} // verus!
