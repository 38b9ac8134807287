use rollback_core::protocol::{all_synchronized, start_running, window_for_rtt, PeerState, PeerSync, ReplyOutcome};

#[test]
fn handshake_needs_the_configured_round_trips() {
    let mut p = PeerSync::new(2, 1000);
    assert!(p.start(11, 0));
    assert_eq!(p.state, PeerState::Syncing);
    assert_eq!(p.on_sync_reply(99, 10), ReplyOutcome::Ignored);
    assert_eq!(p.on_sync_reply(11, 40), ReplyOutcome::SendNext);
    assert_eq!(p.rtt_avg_ms, Some(40));
    assert!(p.next_request(12, 50));
    assert!(!p.next_request(13, 50));
    assert_eq!(p.on_sync_reply(12, 130), ReplyOutcome::Synchronized);
    assert_eq!(p.state, PeerState::Synchronized);
    assert_eq!(p.rtt_avg_ms, Some(40 - 5 + 10));
    assert_eq!(p.on_sync_reply(12, 140), ReplyOutcome::Ignored);
}

#[test]
fn silent_peer_becomes_disconnected() {
    let mut p = PeerSync::new(1, 500);
    assert!(p.start(1, 0));
    assert_eq!(p.on_sync_reply(1, 20), ReplyOutcome::Synchronized);
    p.on_traffic(100);
    assert_eq!(p.poll(600), PeerState::Synchronized);
    assert_eq!(p.poll(601), PeerState::Disconnected);
    p.on_traffic(700);
    assert_eq!(p.poll(710), PeerState::Disconnected);
}

#[test]
fn idle_peer_never_times_out() {
    let mut p = PeerSync::new(1, 10);
    assert_eq!(p.poll(1_000_000), PeerState::Idle);
}

#[test]
fn running_starts_only_when_all_are_synchronized() {
    let mut a = PeerSync::new(0, 100);
    let mut b = PeerSync::new(1, 100);
    assert!(!a.start(1, 0));
    assert!(b.start(2, 0));
    let mut peers = vec![a, b];
    assert!(!all_synchronized(&peers));
    assert!(!start_running(&mut peers));
    assert_eq!(peers[0].state, PeerState::Synchronized);
    peers[1].on_sync_reply(2, 5);
    assert!(start_running(&mut peers));
    assert_eq!(peers[0].state, PeerState::Running);
    assert_eq!(peers[1].state, PeerState::Running);
}

#[test]
fn window_follows_round_trip_time() {
    assert_eq!(window_for_rtt(0, 60, 12), 1);
    assert_eq!(window_for_rtt(100, 60, 12), 6);
    assert_eq!(window_for_rtt(101, 60, 12), 7);
    assert_eq!(window_for_rtt(1000, 60, 12), 12);
    assert_eq!(window_for_rtt(u64::MAX, u64::MAX, 128), 128);
}

#[test]
fn unanswered_request_is_replaced_after_the_retry_delay() {
    let mut p = PeerSync::new(1, 5000);
    assert!(p.start(1, 0));
    assert!(!p.next_request(2, 199));
    assert!(p.next_request(2, 200));
    assert_eq!(p.pending_nonce, Some(2));
    assert_eq!(p.on_sync_reply(1, 210), ReplyOutcome::Ignored);
    assert_eq!(p.on_sync_reply(2, 260), ReplyOutcome::Synchronized);
    assert_eq!(p.rtt_avg_ms, Some(60));
    assert!(!p.next_request(3, 1000));
}
