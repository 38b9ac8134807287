use rollback_core::error::SessionError;
use rollback_core::snapshot::SnapshotStore;

#[test]
fn restore_returns_saved_bytes() {
    let mut s = SnapshotStore::new(12);
    for t in 0u64..=12 {
        s.save(t, vec![t as u8, 1, 2], 100 + t).unwrap();
    }
    for t in 0u64..=12 {
        assert_eq!(s.restore(t), Ok(vec![t as u8, 1, 2]));
        assert_eq!(s.checksum(t), Some(100 + t));
    }
}

#[test]
fn snapshot_beyond_window_is_missing() {
    let mut s = SnapshotStore::new(12);
    for t in 0u64..=13 {
        s.save(t, vec![t as u8], t).unwrap();
    }
    assert_eq!(s.latest(), Some(13));
    assert_eq!(s.restore(0), Err(SessionError::SnapshotMissing { tick: 0 }));
    assert_eq!(s.restore(1), Ok(vec![1]));
    assert_eq!(s.restore(14), Err(SessionError::SnapshotMissing { tick: 14 }));
    assert!(SessionError::SnapshotMissing { tick: 0 }.is_fatal());
}

#[test]
fn saving_again_replaces_the_tick() {
    let mut s = SnapshotStore::new(4);
    s.save(0, vec![1], 1).unwrap();
    s.save(1, vec![2], 2).unwrap();
    s.save(1, vec![3], 3).unwrap();
    assert_eq!(s.restore(1), Ok(vec![3]));
    assert_eq!(s.restore(0), Ok(vec![1]));
}

#[test]
fn save_older_than_window_is_refused() {
    let mut s = SnapshotStore::new(2);
    s.save(10, vec![1], 1).unwrap();
    assert_eq!(s.save(7, vec![2], 2), Err(SessionError::SaveOutsideWindow { tick: 7 }));
    assert_eq!(s.save(8, vec![2], 2), Ok(()));
    assert_eq!(s.restore(8), Ok(vec![2]));
}

#[test]
fn empty_store_has_nothing() {
    let s = SnapshotStore::new(0);
    assert_eq!(s.restore(0), Err(SessionError::SnapshotMissing { tick: 0 }));
    assert_eq!(s.latest(), None);
    assert_eq!(s.window(), 0);
}
