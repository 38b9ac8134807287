use rollback_core::codec::{intent, InputSample};
use rollback_core::error::SessionError;
use rollback_core::input_sync::{InputOutcome, InputStatus, PlayerInput};
use rollback_core::protocol::{PeerState, PeerSync, ReplyOutcome};
use rollback_core::session::{AdvancePlan, PlayerKind, Session, SessionMode};

/// A small deterministic simulation: one integer position per player.
#[derive(Clone, Debug, PartialEq)]
struct Sim {
    pos: Vec<(i64, i64)>,
}

impl Sim {
    fn new(n: usize) -> Sim {
        Sim { pos: vec![(0, 0); n] }
    }

    fn advance_one_tick(&mut self, frame: &[PlayerInput]) {
        for (p, input) in frame.iter().enumerate() {
            let i = intent(input.sample);
            self.pos[p].0 = self.pos[p].0 * 3 + i.horizontal as i64;
            self.pos[p].1 = self.pos[p].1 * 5 + i.vertical as i64 + self.pos[p].0;
        }
    }

    fn serialize_state(&self) -> Vec<u8> {
        let mut out = Vec::new();
        for (x, y) in &self.pos {
            out.extend_from_slice(&x.to_le_bytes());
            out.extend_from_slice(&y.to_le_bytes());
        }
        out
    }

    fn deserialize_state(&mut self, b: &[u8]) {
        for p in 0..self.pos.len() {
            let x = i64::from_le_bytes(b[p * 16..p * 16 + 8].try_into().unwrap());
            let y = i64::from_le_bytes(b[p * 16 + 8..p * 16 + 16].try_into().unwrap());
            self.pos[p] = (x, y);
        }
    }

    fn checksum(&self) -> u64 {
        self.serialize_state().iter().fold(17u64, |h, b| h.wrapping_mul(31).wrapping_add(*b as u64))
    }
}

/// Carries out a plan; returns the number of ticks replayed.
fn perform(sess: &mut Session, sim: &mut Sim, plan: AdvancePlan) -> Result<u64, SessionError> {
    if plan.save_initial {
        sess.save_state(0, sim.serialize_state(), sim.checksum())?;
    }
    if let Some(t) = plan.load {
        let b = sess.load_state(t)?;
        sim.deserialize_state(&b);
    }
    for t in plan.first_tick..=plan.last_tick {
        let frame = sess.frame(t);
        sim.advance_one_tick(&frame);
        sess.save_state(t + 1, sim.serialize_state(), sim.checksum())?;
    }
    Ok(plan.last_tick - plan.first_tick)
}

fn sample(bits: u8) -> InputSample {
    InputSample { bits }
}

fn remote_bits(t: u64) -> u8 {
    if (t / 5) % 2 == 0 {
        1
    } else {
        6
    }
}

#[test]
fn sync_test_runs_ten_thousand_ticks_without_fatal_error() {
    let delay = 2u64;
    let mut sess = Session::new(SessionMode::SyncTest, vec![PlayerKind::Local, PlayerKind::Local], 12, delay).unwrap();
    assert_eq!(sess.num_players(), 2);
    let mut sim = Sim::new(2);
    let mut replayed = 0u64;
    let mut steps = 0u64;
    for t in 0u64..10_000 {
        sess.add_local_input(0, sample((t % 16) as u8)).unwrap();
        let changing = if (t / 20) % 2 == 0 { 4 } else { 9 };
        sess.add_local_input(1, sample(changing)).unwrap();
        let plan = sess.advance().unwrap();
        assert_eq!(plan.last_tick, t);
        replayed += perform(&mut sess, &mut sim, plan).unwrap();
        steps += 1;
    }
    assert_eq!(sess.halted(), None);
    assert_eq!(sess.current_tick(), 10_000);
    assert_eq!(sess.first_held_tick(), 10_000 - 1 - 12);
    assert!(replayed <= delay * steps);
    assert_eq!(replayed, delay * (steps - delay));
}

#[test]
fn sync_test_detects_a_simulation_that_does_not_reproduce() {
    let mut sess = Session::new(SessionMode::SyncTest, vec![PlayerKind::Local], 4, 1).unwrap();
    let mut sim = Sim::new(1);
    sess.add_local_input(0, sample(1)).unwrap();
    let plan = sess.advance().unwrap();
    perform(&mut sess, &mut sim, plan).unwrap();
    sess.add_local_input(0, sample(1)).unwrap();
    let plan = sess.advance().unwrap();
    assert_eq!(plan.load, Some(0));
    let b = sess.load_state(0).unwrap();
    sim.deserialize_state(&b);
    sim.advance_one_tick(&sess.frame(0));
    let wrong = sim.checksum() ^ 1;
    assert_eq!(sess.save_state(1, sim.serialize_state(), wrong), Err(SessionError::DesyncDetected { tick: 1 }));
    assert_eq!(sess.halted(), Some(SessionError::DesyncDetected { tick: 1 }));
    assert_eq!(sess.advance(), Err(SessionError::DesyncDetected { tick: 1 }));
}

#[test]
fn rollback_converges_to_the_confirmed_run() {
    let lag = 3u64;
    let mut sess = Session::new(SessionMode::P2P, vec![PlayerKind::Local, PlayerKind::Remote], 8, 0).unwrap();
    let mut sim = Sim::new(2);
    let mut rollbacks = 0;
    for t in 0u64..40 {
        sess.add_local_input(0, sample(4)).unwrap();
        if t >= lag {
            let r = sess.add_remote_input(1, t - lag, sample(remote_bits(t - lag))).unwrap();
            assert!(r == InputOutcome::Accepted || r == InputOutcome::Mispredicted);
        }
        let plan = sess.advance().unwrap();
        if plan.load.is_some() {
            rollbacks += 1;
        }
        perform(&mut sess, &mut sim, plan).unwrap();
    }
    assert!(rollbacks > 0);
    let confirmed = sess.confirmed_ticks();
    assert_eq!(confirmed, 40 - lag);
    let mut reference = Sim::new(2);
    for t in 0..confirmed {
        let frame = vec![
            PlayerInput { sample: sample(4), status: InputStatus::Confirmed },
            PlayerInput { sample: sample(remote_bits(t)), status: InputStatus::Confirmed },
        ];
        reference.advance_one_tick(&frame);
    }
    assert_eq!(sess.load_state(confirmed).unwrap(), reference.serialize_state());
    let f = sess.frame(confirmed);
    assert_eq!(f[1].status, InputStatus::Predicted);
    assert_eq!(f[0].status, InputStatus::Confirmed);
}

#[test]
fn identical_runs_give_identical_snapshots() {
    let mut results = Vec::new();
    for _ in 0..2 {
        let mut sess = Session::new(SessionMode::P2P, vec![PlayerKind::Remote, PlayerKind::Local], 6, 0).unwrap();
        let mut sim = Sim::new(2);
        for t in 0u64..25 {
            sess.add_local_input(1, sample((t % 4) as u8)).unwrap();
            if t >= 2 {
                sess.add_remote_input(0, t - 2, sample(remote_bits(t - 2) ^ 8)).unwrap();
            }
            let plan = sess.advance().unwrap();
            perform(&mut sess, &mut sim, plan).unwrap();
        }
        let mut snaps = Vec::new();
        for t in 19u64..=25 {
            snaps.push(sess.load_state(t).unwrap());
        }
        results.push(snaps);
    }
    assert_eq!(results[0], results[1]);
}

#[test]
fn silent_peer_is_reported_not_waited_for() {
    let mut sess = Session::new(SessionMode::P2P, vec![PlayerKind::Local, PlayerKind::Remote], 8, 0).unwrap();
    let mut peer = PeerSync::new(1, 2000);
    assert!(peer.start(5, 0));
    assert_eq!(peer.on_sync_reply(5, 30), ReplyOutcome::Synchronized);
    let mut sim = Sim::new(2);
    let mut now = 30u64;
    let mut reported = None;
    for _ in 0..1000 {
        now += 16;
        if peer.poll(now) == PeerState::Disconnected {
            sess.mark_disconnected(1).unwrap();
        }
        sess.add_local_input(0, sample(1)).unwrap();
        match sess.advance() {
            Ok(plan) => {
                perform(&mut sess, &mut sim, plan).unwrap();
            }
            Err(SessionError::PredictionThreshold) => {}
            Err(e) => {
                reported = Some(e);
                break;
            }
        }
    }
    assert_eq!(peer.state, PeerState::Disconnected);
    assert!(sess.is_disconnected(1));
    assert_eq!(reported, Some(SessionError::PeerDisconnected { handle: 1 }));
    assert!(!SessionError::PeerDisconnected { handle: 1 }.is_fatal());
}

#[test]
fn snapshot_beyond_the_window_halts_the_session() {
    let mut sess = Session::new(SessionMode::SyncTest, vec![PlayerKind::Local], 12, 0).unwrap();
    let mut sim = Sim::new(1);
    for _ in 0u64..13 {
        sess.add_local_input(0, sample(2)).unwrap();
        let plan = sess.advance().unwrap();
        perform(&mut sess, &mut sim, plan).unwrap();
    }
    assert_eq!(sess.current_tick(), 13);
    assert!(sess.load_state(1).is_ok());
    assert_eq!(sess.load_state(0), Err(SessionError::SnapshotMissing { tick: 0 }));
    assert_eq!(sess.halted(), Some(SessionError::SnapshotMissing { tick: 0 }));
    assert_eq!(sess.add_local_input(0, sample(1)), Err(SessionError::SnapshotMissing { tick: 0 }));
}

#[test]
fn prediction_stops_at_the_window() {
    let mut sess = Session::new(SessionMode::P2P, vec![PlayerKind::Local, PlayerKind::Remote], 3, 0).unwrap();
    let mut sim = Sim::new(2);
    for _ in 0..3 {
        sess.add_local_input(0, sample(1)).unwrap();
        let plan = sess.advance().unwrap();
        perform(&mut sess, &mut sim, plan).unwrap();
    }
    sess.add_local_input(0, sample(1)).unwrap();
    assert_eq!(sess.advance(), Err(SessionError::PredictionThreshold));
    assert_eq!(sess.add_remote_input(1, 0, sample(1)), Ok(InputOutcome::Mispredicted));
    assert_eq!(sess.add_remote_input(1, 0, sample(1)), Ok(InputOutcome::Duplicate));
    assert_eq!(sess.add_remote_input(1, 2, sample(1)), Ok(InputOutcome::Gap));
    let plan = sess.advance().unwrap();
    assert_eq!(plan, AdvancePlan { save_initial: false, load: Some(0), first_tick: 0, last_tick: 3 });
}

#[test]
fn spectator_waits_for_every_input() {
    let mut sess = Session::new(SessionMode::Spectator, vec![PlayerKind::Remote, PlayerKind::Remote], 4, 0).unwrap();
    assert_eq!(sess.advance(), Err(SessionError::WaitingForInput));
    sess.add_remote_input(0, 0, sample(1)).unwrap();
    assert_eq!(sess.advance(), Err(SessionError::WaitingForInput));
    sess.add_remote_input(1, 0, sample(2)).unwrap();
    let plan = sess.advance().unwrap();
    assert_eq!(plan, AdvancePlan { save_initial: true, load: None, first_tick: 0, last_tick: 0 });
    assert_eq!(sess.num_players(), 2);
}

#[test]
fn bad_configurations_and_handles_are_refused() {
    assert!(matches!(Session::new(SessionMode::P2P, vec![], 4, 0), Err(SessionError::InvalidConfig)));
    assert!(matches!(Session::new(SessionMode::P2P, vec![PlayerKind::Local], 129, 0), Err(SessionError::InvalidConfig)));
    assert!(matches!(Session::new(SessionMode::SyncTest, vec![PlayerKind::Local], 4, 5), Err(SessionError::InvalidConfig)));
    assert!(matches!(Session::new(SessionMode::SyncTest, vec![PlayerKind::Remote], 4, 1), Err(SessionError::InvalidConfig)));
    assert!(matches!(Session::new(SessionMode::Spectator, vec![PlayerKind::Local], 4, 0), Err(SessionError::InvalidConfig)));
    let mut sess = Session::new(SessionMode::P2P, vec![PlayerKind::Local, PlayerKind::Remote], 4, 0).unwrap();
    assert_eq!(sess.add_local_input(1, sample(1)), Err(SessionError::InvalidHandle { handle: 1 }));
    assert_eq!(sess.add_remote_input(0, 0, sample(1)), Err(SessionError::InvalidHandle { handle: 0 }));
    assert_eq!(sess.add_local_input(7, sample(1)), Err(SessionError::InvalidHandle { handle: 7 }));
    assert_eq!(sess.mark_disconnected(0), Err(SessionError::InvalidHandle { handle: 0 }));
    assert_eq!(sess.advance(), Err(SessionError::MissingLocalInput { handle: 0 }));
    assert_eq!(sess.player_kind(1), Some(PlayerKind::Remote));
    assert_eq!(sess.player_kind(2), None);
    assert_eq!(sess.mode(), SessionMode::P2P);
    assert_eq!(sess.window(), 4);
}

#[test]
fn remote_checksum_mismatch_is_a_desync() {
    let mut sess = Session::new(SessionMode::P2P, vec![PlayerKind::Local, PlayerKind::Remote], 4, 0).unwrap();
    let mut sim = Sim::new(2);
    sess.add_local_input(0, sample(1)).unwrap();
    let plan = sess.advance().unwrap();
    perform(&mut sess, &mut sim, plan).unwrap();
    let c = sim.checksum();
    assert_eq!(sess.check_remote_checksum(1, c), Ok(true));
    assert_eq!(sess.check_remote_checksum(9, 0), Ok(false));
    assert_eq!(sess.check_remote_checksum(1, c ^ 1), Err(SessionError::DesyncDetected { tick: 1 }));
    assert_eq!(sess.halted(), Some(SessionError::DesyncDetected { tick: 1 }));
}
