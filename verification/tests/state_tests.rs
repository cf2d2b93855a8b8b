use peersend_protocol::{FaultKind, SessionEvent, SessionState};

fn all_states() -> Vec<SessionState> {
    vec![
        SessionState::Waiting,
        SessionState::Transferring,
        SessionState::Finished,
        SessionState::Cancelled,
        SessionState::Error(FaultKind::Io),
        SessionState::Error(FaultKind::Timeout),
    ]
}

fn all_events() -> Vec<SessionEvent> {
    vec![
        SessionEvent::ChunkAccepted,
        SessionEvent::AllFilesComplete,
        SessionEvent::Cancel,
        SessionEvent::Fault(FaultKind::Protocol),
        SessionEvent::Fault(FaultKind::Crypto),
    ]
}

#[test]
fn lifecycle_of_a_successful_transfer() {
    let state = SessionState::Waiting;
    let state = state.on_event(SessionEvent::ChunkAccepted);
    assert_eq!(state, SessionState::Transferring);
    let state = state.on_event(SessionEvent::ChunkAccepted);
    assert_eq!(state, SessionState::Transferring);
    let state = state.on_event(SessionEvent::AllFilesComplete);
    assert_eq!(state, SessionState::Finished);
    assert!(state.is_terminal());
}

#[test]
fn terminal_states_are_absorbing() {
    for state in all_states() {
        if state.is_terminal() {
            for event in all_events() {
                assert_eq!(state.on_event(event), state);
                assert!(!state.reacts_to(event));
            }
        }
    }
}

#[test]
fn every_live_state_can_be_cancelled_or_failed() {
    for state in [SessionState::Waiting, SessionState::Transferring] {
        assert!(!state.is_terminal());
        assert_eq!(state.on_event(SessionEvent::Cancel), SessionState::Cancelled);
        assert_eq!(
            state.on_event(SessionEvent::Fault(FaultKind::Io)),
            SessionState::Error(FaultKind::Io)
        );
        assert_eq!(
            state.on_event(SessionEvent::Fault(FaultKind::Timeout)),
            SessionState::Error(FaultKind::Timeout)
        );
    }
}

#[test]
fn a_waiting_session_does_not_finish() {
    let state = SessionState::Waiting;
    assert_eq!(state.on_event(SessionEvent::AllFilesComplete), SessionState::Waiting);
    assert!(!state.reacts_to(SessionEvent::AllFilesComplete));
    assert!(state.reacts_to(SessionEvent::ChunkAccepted));
    assert!(!SessionState::Transferring.reacts_to(SessionEvent::ChunkAccepted));
    assert!(SessionState::Transferring.reacts_to(SessionEvent::AllFilesComplete));
}

#[test]
fn which_states_are_terminal() {
    assert!(!SessionState::Waiting.is_terminal());
    assert!(!SessionState::Transferring.is_terminal());
    assert!(SessionState::Finished.is_terminal());
    assert!(SessionState::Cancelled.is_terminal());
    assert!(SessionState::Error(FaultKind::PathTraversal).is_terminal());
}
