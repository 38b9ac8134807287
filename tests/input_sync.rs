use rollback_core::codec::InputSample;
use rollback_core::input_sync::{InputOutcome, InputStatus, InputSynchronizer};

fn s(bits: u8) -> InputSample {
    InputSample { bits }
}

#[test]
fn missing_inputs_repeat_the_last_confirmed_one() {
    let mut sync = InputSynchronizer::new(2);
    assert_eq!(sync.add_input(0, 0, s(1)), InputOutcome::Accepted);
    assert_eq!(sync.record_frame(), 0);
    let f = sync.frame(0);
    assert_eq!(f[0].sample, s(1));
    assert_eq!(f[0].status, InputStatus::Confirmed);
    assert_eq!(f[1].sample, s(0));
    assert_eq!(f[1].status, InputStatus::Predicted);
    assert_eq!(sync.add_input(1, 0, s(0)), InputOutcome::Accepted);
    assert_eq!(sync.add_input(1, 1, s(8)), InputOutcome::Accepted);
    assert_eq!(sync.record_frame(), 1);
    assert_eq!(sync.record_frame(), 2);
    let f = sync.frame(2);
    assert_eq!(f[0].sample, s(1));
    assert_eq!(f[1].sample, s(8));
    assert_eq!(sync.first_incorrect(), None);
}

#[test]
fn wrong_prediction_marks_the_earliest_tick() {
    let mut sync = InputSynchronizer::new(2);
    for _ in 0..5 {
        sync.record_frame();
    }
    assert_eq!(sync.add_input(1, 0, s(0)), InputOutcome::Accepted);
    assert_eq!(sync.add_input(1, 1, s(0)), InputOutcome::Accepted);
    assert_eq!(sync.add_input(1, 2, s(4)), InputOutcome::Mispredicted);
    assert_eq!(sync.add_input(1, 3, s(2)), InputOutcome::Mispredicted);
    assert_eq!(sync.first_incorrect(), Some(2));
    assert_eq!(sync.add_input(1, 9, s(2)), InputOutcome::Gap);
    assert_eq!(sync.add_input(1, 1, s(2)), InputOutcome::Duplicate);
    sync.replay_from(2);
    assert_eq!(sync.first_incorrect(), None);
    assert_eq!(sync.frame(2)[1].sample, s(4));
    assert_eq!(sync.frame(3)[1].sample, s(2));
    assert_eq!(sync.frame(4)[1].sample, s(2));
    assert_eq!(sync.frame(4)[1].status, InputStatus::Predicted);
    assert_eq!(sync.confirmed_count(1), 4);
    assert_eq!(sync.min_confirmed(), 0);
    assert_eq!(sync.frontier(), 5);
    assert_eq!(sync.num_players(), 2);
}

#[test]
fn discarded_ticks_keep_predictions_and_counts() {
    let mut sync = InputSynchronizer::new(2);
    for t in 0u64..6 {
        sync.add_input(0, t, s(1));
        sync.record_frame();
    }
    for t in 0u64..4 {
        sync.add_input(1, t, s(2));
    }
    assert_eq!(sync.first_incorrect(), Some(0));
    sync.replay_from(0);
    sync.discard_before(3);
    assert_eq!(sync.base(), 3);
    assert_eq!(sync.confirmed_count(1), 4);
    assert_eq!(sync.confirmed_count(0), 6);
    assert_eq!(sync.frontier(), 6);
    assert_eq!(sync.frame(3)[1].status, InputStatus::Confirmed);
    assert_eq!(sync.frame(4)[1].sample, s(2));
    assert_eq!(sync.add_input(1, 4, s(8)), InputOutcome::Mispredicted);
    assert_eq!(sync.first_incorrect(), Some(4));
    sync.replay_from(4);
    assert_eq!(sync.frame(5)[1].sample, s(8));
    assert_eq!(sync.record_frame(), 6);
    assert_eq!(sync.frame(6)[1].sample, s(8));
    assert_eq!(sync.frame(6)[1].status, InputStatus::Predicted);
}
