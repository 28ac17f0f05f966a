use authenticator::database::{AuthenticationEntry, DatabaseState};
use authenticator::utils::throttling::Timestamp;
use authenticator::utils::blockchain_updater::{
    get_next_blockchain_id, start, update_last_blockchain_id, update_last_blockchain_id_at,
    update_record, NextFetch, PolicyRow, RecordUpdate, UpdaterPhase,
};

fn rows(ids: &[u64]) -> Vec<PolicyRow> {
    ids.iter().map(|&id| PolicyRow { id, backend_user_id: format!("user{}", id) }).collect()
}

#[test]
fn next_id_comes_from_the_stored_state() {
    assert_eq!(get_next_blockchain_id(None), 0);
    let s = DatabaseState { last_blockchain_id: 42, last_updated_at: 7 };
    assert_eq!(get_next_blockchain_id(Some(s)), 42);
}

#[test]
fn storing_an_index_keeps_the_creation_time() {
    let s = DatabaseState { last_blockchain_id: 42, last_updated_at: 7 };
    let clock = Timestamp { secs: 99, nanos: 5 };
    let before_epoch = Timestamp { secs: -1, nanos: 0 };
    assert_eq!(
        update_last_blockchain_id_at(Some(s), 50, clock),
        Some(DatabaseState { last_blockchain_id: 50, last_updated_at: 7 })
    );
    assert_eq!(
        update_last_blockchain_id_at(Some(s), 50, before_epoch),
        Some(DatabaseState { last_blockchain_id: 50, last_updated_at: 7 })
    );
    assert_eq!(
        update_last_blockchain_id_at(None, 50, clock),
        Some(DatabaseState { last_blockchain_id: 50, last_updated_at: 99 })
    );
    assert_eq!(update_last_blockchain_id_at(None, 50, before_epoch), None);
    assert_eq!(update_last_blockchain_id(Some(s), 51), Some(DatabaseState { last_blockchain_id: 51, last_updated_at: 7 }));
    let fresh = update_last_blockchain_id(None, 3).unwrap();
    assert_eq!(fresh.last_blockchain_id, 3);
    assert!(fresh.last_updated_at > 1_600_000_000);
    assert_eq!(get_next_blockchain_id(Some(fresh)), 3);
}

#[test]
fn updater_catches_up_then_polls() {
    let (mut u, first) = start(Some(DatabaseState { last_blockchain_id: 5, last_updated_at: 0 }), 3);
    assert_eq!(first, NextFetch::Now { lower: 5, upper: 8 });
    let step = u.on_batch(&rows(&[5, 6, 7]));
    assert_eq!(step.store_last_blockchain_id, Some(8));
    assert!(step.apply_rows);
    assert_eq!(step.next, NextFetch::Now { lower: 8, upper: 11 });
    let step = u.on_failure();
    assert_eq!(step.next, NextFetch::Now { lower: 8, upper: 11 });
    assert_eq!(step.store_last_blockchain_id, None);
    let step = u.on_batch(&rows(&[8]));
    assert_eq!(step.next, NextFetch::AfterPause { lower: 9, upper: 12 });
    assert_eq!(u.phase, UpdaterPhase::Polling);
    let step = u.on_batch(&rows(&[]));
    assert_eq!(step.store_last_blockchain_id, Some(9));
    assert_eq!(step.next, NextFetch::AfterPause { lower: 9, upper: 12 });
    let step = u.on_failure();
    assert_eq!(step.next, NextFetch::AfterPause { lower: 9, upper: 12 });
    assert_eq!(u.phase, UpdaterPhase::Polling);
}

#[test]
fn updater_stops_where_indexes_overflow() {
    let (mut u, first) = start(Some(DatabaseState { last_blockchain_id: u64::MAX - 1, last_updated_at: 0 }), 3);
    assert_eq!(first, NextFetch::Halt);
    assert_eq!(u.phase, UpdaterPhase::Stopped);
    let step = u.on_batch(&rows(&[1]));
    assert_eq!(step.next, NextFetch::Halt);
    assert!(!step.apply_rows);
    let (mut u, _) = start(None, 3);
    let step = u.on_batch(&rows(&[0, 1, u64::MAX]));
    assert_eq!(step.next, NextFetch::Halt);
    assert_eq!(step.store_last_blockchain_id, None);
    assert_eq!(u.phase, UpdaterPhase::Stopped);
}

fn entry() -> AuthenticationEntry {
    AuthenticationEntry {
        id: 1,
        account_name: "alice".to_string(),
        secret: 2,
        policy_base64: "cA==".to_string(),
        valid_until: 10,
        blockchain_index: None,
        token_hash: "h".to_string(),
    }
}

#[test]
fn rows_confirm_waiting_entries() {
    let row = PolicyRow { id: 17, backend_user_id: "abc".to_string() };
    match update_record(&row, Some(entry())) {
        RecordUpdate::Confirm { key, entry } => {
            assert_eq!(key, "abc");
            assert_eq!(entry.blockchain_index, Some(17));
            assert_eq!(entry.account_name, "alice");
            assert_eq!(entry.valid_until, 10);
        }
        RecordUpdate::Unknown { .. } => panic!("expected a confirmation"),
    }
    match update_record(&row, None) {
        RecordUpdate::Unknown { backend_user_id } => assert_eq!(backend_user_id, "abc"),
        RecordUpdate::Confirm { .. } => panic!("expected an unknown id"),
    }
}
