use peersend_protocol::{
    FaultKind, FileInfo, FileSession, SessionError, SessionEvent, SessionManager, SessionState,
    TransferProgress,
};

fn file(name: &str, size: u64) -> FileInfo {
    FileInfo {
        id: format!("id-{}", name),
        name: name.to_string(),
        size,
        file_type: "application/octet-stream".to_string(),
        metadata: None,
    }
}

#[test]
fn fresh_session_is_waiting() {
    let mut manager = SessionManager::new();
    let session = manager.create_session(
        "alice".to_string(),
        "bob".to_string(),
        vec![file("a.bin", 10), file("b.bin", 32)],
    );
    assert_eq!(session.state, SessionState::Waiting);
    assert_eq!(session.sender_id, "alice");
    assert_eq!(session.receiver_id, "bob");
    assert_eq!(session.files.len(), 2);
    assert_eq!(session.progress, TransferProgress::new(0, 42));
    assert_eq!(session.id.len(), 36);
    let stored = manager.get_session(&session.id).unwrap();
    assert_eq!(stored.id, session.id);
    assert_eq!(stored.state, SessionState::Waiting);
}

#[test]
fn session_ids_are_fresh() {
    let mut manager = SessionManager::new();
    let first = manager.create_session("a".to_string(), "b".to_string(), vec![]);
    let second = manager.create_session("a".to_string(), "b".to_string(), vec![]);
    assert_ne!(first.id, second.id);
    assert_eq!(manager.get_all_sessions().len(), 2);
}

#[test]
fn total_is_the_sum_of_the_sizes_and_saturates() {
    let session = FileSession::new(
        "s".to_string(),
        "a".to_string(),
        "b".to_string(),
        vec![file("x", u64::MAX - 1), file("y", 5)],
    );
    assert_eq!(session.progress.total_bytes, u64::MAX);
    let empty = FileSession::new("s".to_string(), "a".to_string(), "b".to_string(), vec![]);
    assert_eq!(empty.progress.total_bytes, 0);
    assert_eq!(empty.progress, TransferProgress::default());
}

#[test]
fn get_and_remove_by_id() {
    let mut manager = SessionManager::new();
    manager.create_session_with_id("one".to_string(), "a".to_string(), "b".to_string(), vec![]);
    manager.create_session_with_id("two".to_string(), "a".to_string(), "b".to_string(), vec![]);
    assert!(manager.get_session("one").is_some());
    assert!(manager.get_session("three").is_none());
    // removing an unknown id is a no-op
    manager.remove_session("three");
    assert_eq!(manager.get_all_sessions().len(), 2);
    manager.remove_session("one");
    assert!(manager.get_session("one").is_none());
    let left = manager.get_all_sessions();
    assert_eq!(left.len(), 1);
    assert_eq!(left[0].id, "two");
}

#[test]
fn events_drive_the_state_of_the_stored_session() {
    let mut manager = SessionManager::new();
    manager.create_session_with_id(
        "s".to_string(),
        "a".to_string(),
        "b".to_string(),
        vec![file("f", 4)],
    );
    assert_eq!(
        manager.apply_event("s", SessionEvent::ChunkAccepted),
        Ok(SessionState::Transferring)
    );
    assert_eq!(
        manager.apply_event("s", SessionEvent::AllFilesComplete),
        Ok(SessionState::Finished)
    );
    assert_eq!(manager.get_session("s").unwrap().state, SessionState::Finished);
    // nothing leaves a terminal state
    assert_eq!(manager.apply_event("s", SessionEvent::Cancel), Err(SessionError::Closed));
    assert_eq!(manager.get_session("s").unwrap().state, SessionState::Finished);
    assert_eq!(manager.apply_event("nope", SessionEvent::Cancel), Err(SessionError::NotFound));
}

#[test]
fn cancel_from_waiting_and_double_cancel() {
    let mut manager = SessionManager::new();
    manager.create_session_with_id("s".to_string(), "a".to_string(), "b".to_string(), vec![]);
    assert_eq!(manager.apply_event("s", SessionEvent::Cancel), Ok(SessionState::Cancelled));
    assert_eq!(manager.apply_event("s", SessionEvent::Cancel), Err(SessionError::Closed));
}

#[test]
fn progress_never_goes_back_nor_over_the_total() {
    let mut manager = SessionManager::new();
    manager.create_session_with_id(
        "s".to_string(),
        "a".to_string(),
        "b".to_string(),
        vec![file("f", 100)],
    );
    assert_eq!(manager.record_progress("s", 40), Ok(TransferProgress::new(40, 100)));
    assert_eq!(manager.record_progress("s", 30), Ok(TransferProgress::new(40, 100)));
    assert_eq!(manager.record_progress("s", 500), Ok(TransferProgress::new(100, 100)));
    assert_eq!(manager.record_progress("x", 1), Err(SessionError::NotFound));
    manager.apply_event("s", SessionEvent::Cancel).unwrap();
    assert_eq!(manager.record_progress("s", 100), Err(SessionError::Closed));
}

#[test]
fn inactive_sessions_time_out() {
    let mut manager = SessionManager::new();
    manager.advance_clock(1000);
    manager.create_session_with_id("old".to_string(), "a".to_string(), "b".to_string(), vec![]);
    manager.advance_clock(1200);
    manager.create_session_with_id("new".to_string(), "a".to_string(), "b".to_string(), vec![]);
    manager.create_session_with_id("done".to_string(), "a".to_string(), "b".to_string(), vec![]);
    manager.apply_event("done", SessionEvent::Cancel).unwrap();
    assert_eq!(manager.get_session("old").unwrap().last_activity, 1000);

    manager.advance_clock(1299);
    assert_eq!(manager.expire_inactive(300), 0);
    manager.advance_clock(1300);
    assert_eq!(manager.expire_inactive(300), 1);
    assert_eq!(
        manager.get_session("old").unwrap().state,
        SessionState::Error(FaultKind::Timeout)
    );
    assert_eq!(manager.get_session("new").unwrap().state, SessionState::Waiting);
    assert_eq!(manager.get_session("done").unwrap().state, SessionState::Cancelled);
    // the clock never goes back
    manager.advance_clock(5);
    assert_eq!(manager.expire_inactive(300), 0);
    manager.advance_clock(1500);
    assert_eq!(manager.expire_inactive(300), 1);
    assert_eq!(manager.expire_inactive(300), 0);
}

#[test]
fn activity_postpones_the_timeout() {
    let mut manager = SessionManager::new();
    manager.create_session_with_id("s".to_string(), "a".to_string(), "b".to_string(), vec![]);
    manager.advance_clock(200);
    manager.apply_event("s", SessionEvent::ChunkAccepted).unwrap();
    manager.advance_clock(400);
    assert_eq!(manager.expire_inactive(300), 0);
    manager.advance_clock(500);
    assert_eq!(manager.expire_inactive(300), 1);
}

#[test]
fn session_methods() {
    let mut session =
        FileSession::new("s".to_string(), "a".to_string(), "b".to_string(), vec![file("f", 10)]);
    assert!(session.record_progress(4, 7));
    assert_eq!(session.progress.bytes_transferred, 4);
    assert_eq!(session.last_activity, 7);
    assert!(session.apply(SessionEvent::ChunkAccepted, 3));
    assert_eq!(session.state, SessionState::Transferring);
    assert_eq!(session.last_activity, 7);
    assert!(!session.expire(306, 300));
    assert!(session.expire(307, 300));
    assert_eq!(session.state, SessionState::Error(FaultKind::Timeout));
    assert!(!session.apply(SessionEvent::Cancel, 400));
    assert!(!session.record_progress(10, 400));
    assert!(!session.expire(4000, 300));
    assert_eq!(session.progress.bytes_transferred, 4);
    let copy = session.clone();
    assert_eq!(copy.id, "s");
    assert_eq!(copy.files[0].name, "f");
    assert_eq!(copy.state, session.state);
}

#[test]
fn progress_percent_values() {
    assert_eq!(TransferProgress::new(0, 0).progress_percent(), 0);
    assert_eq!(TransferProgress::new(0, 10).progress_percent(), 0);
    assert_eq!(TransferProgress::new(1, 3).progress_percent(), 33);
    assert_eq!(TransferProgress::new(2, 3).progress_percent(), 66);
    assert_eq!(TransferProgress::new(3, 3).progress_percent(), 100);
    assert_eq!(TransferProgress::new(9, 3).progress_percent(), 100);
    assert_eq!(TransferProgress::new(u64::MAX - 1, u64::MAX).progress_percent(), 99);
    assert!(TransferProgress::new(3, 3).is_complete());
    assert!(!TransferProgress::new(2, 3).is_complete());
    assert_eq!(TransferProgress::default(), TransferProgress::new(0, 0));
}
