//! The lifecycle of a transfer session.
//!
//! ```text
//! Waiting      --(chunk accepted)------> Transferring
//! Transferring --(all files complete)--> Finished
//! Waiting | Transferring --(cancel)----> Cancelled
//! Waiting | Transferring --(fault)-----> Error(cause)
//! ```
//!
//! `Finished`, `Cancelled` and `Error` are terminal: no event leaves them.

use vstd::prelude::*;

verus! {

/// The cause of a failed session.
#[derive(Clone, Copy, Debug, PartialEq, Eq, Structural)]
pub enum FaultKind {
    /// Reading or writing a file failed.
    Io,
    /// The peer broke the protocol.
    Protocol,
    /// A payload could not be sealed or opened.
    Crypto,
    /// A file name would have escaped the output directory.
    PathTraversal,
    /// The session saw no progress for too long.
    Timeout,
}

/// The state of a transfer session.
#[derive(Clone, Copy, Debug, PartialEq, Eq, Structural)]
pub enum SessionState {
    Waiting,
    Transferring,
    Finished,
    Cancelled,
    Error(FaultKind),
}

/// What can happen to a session.
#[derive(Clone, Copy, Debug, PartialEq, Eq, Structural)]
pub enum SessionEvent {
    /// A chunk was accepted.
    ChunkAccepted,
    /// The last file was completed.
    AllFilesComplete,
    /// Either side cancelled.
    Cancel,
    /// An I/O, protocol, crypto or timeout fault occurred.
    Fault(FaultKind),
}

/// Whether `state` is terminal.
pub open spec fn is_terminal(state: SessionState) -> bool {
    state is Finished || state is Cancelled || state is Error
}

/// Whether the state machine has an edge from `from` to `to`.
pub open spec fn legal_edge(from: SessionState, to: SessionState) -> bool {
    match from {
        SessionState::Waiting => to is Transferring || to is Cancelled || to is Error,
        SessionState::Transferring => to is Finished || to is Cancelled || to is Error,
        _ => false,
    }
}

/// The state after `event` in `state`. An event that has no edge from
/// `state` leaves it as it is.
pub open spec fn next_state(state: SessionState, event: SessionEvent) -> SessionState {
    match state {
        SessionState::Waiting => match event {
            SessionEvent::ChunkAccepted => SessionState::Transferring,
            SessionEvent::AllFilesComplete => SessionState::Waiting,
            SessionEvent::Cancel => SessionState::Cancelled,
            SessionEvent::Fault(cause) => SessionState::Error(cause),
        },
        SessionState::Transferring => match event {
            SessionEvent::ChunkAccepted => SessionState::Transferring,
            SessionEvent::AllFilesComplete => SessionState::Finished,
            SessionEvent::Cancel => SessionState::Cancelled,
            SessionEvent::Fault(cause) => SessionState::Error(cause),
        },
        _ => state,
    }
}

/// How far along its lifecycle a state is.
pub open spec fn stage(state: SessionState) -> nat {
    match state {
        SessionState::Waiting => 0,
        SessionState::Transferring => 1,
        _ => 2,
    }
}

impl SessionState {
    /// Whether no event can change this state any more.
    pub fn is_terminal(&self) -> (terminal: bool)
        ensures
            terminal == is_terminal(*self),
    {
        match self {
            SessionState::Waiting => false,
            SessionState::Transferring => false,
            _ => true,
        }
    }

    /// Whether `event` changes this state.
    pub fn reacts_to(&self, event: SessionEvent) -> (changes: bool)
        ensures
            changes == (next_state(*self, event) != *self),
            changes ==> legal_edge(*self, next_state(*self, event)),
    {
        match self {
            SessionState::Waiting => match event {
                SessionEvent::AllFilesComplete => false,
                _ => true,
            },
            SessionState::Transferring => match event {
                SessionEvent::ChunkAccepted => false,
                _ => true,
            },
            _ => false,
        }
    }

    /// The state after `event`.
    pub fn on_event(self, event: SessionEvent) -> (next: SessionState)
        ensures
            next == next_state(self, event),
    {
        match self {
            SessionState::Waiting => match event {
                SessionEvent::ChunkAccepted => SessionState::Transferring,
                SessionEvent::AllFilesComplete => SessionState::Waiting,
                SessionEvent::Cancel => SessionState::Cancelled,
                SessionEvent::Fault(cause) => SessionState::Error(cause),
            },
            SessionState::Transferring => match event {
                SessionEvent::ChunkAccepted => SessionState::Transferring,
                SessionEvent::AllFilesComplete => SessionState::Finished,
                SessionEvent::Cancel => SessionState::Cancelled,
                SessionEvent::Fault(cause) => SessionState::Error(cause),
            },
            _ => self,
        }
    }
}

/// No event moves a session out of a terminal state.
pub proof fn lemma_terminal_is_absorbing(state: SessionState, event: SessionEvent)
    requires
        is_terminal(state),
    ensures
        next_state(state, event) == state,
{
}

/// A session in any non-terminal state can be forced to `Cancelled`.
pub proof fn lemma_cancel_always_lands(state: SessionState)
    requires
        !is_terminal(state),
    ensures
        next_state(state, SessionEvent::Cancel) == SessionState::Cancelled,
{
}

/// A fault moves a session in any non-terminal state to `Error` with the
/// fault's cause.
pub proof fn lemma_fault_always_lands(state: SessionState, cause: FaultKind)
    requires
        !is_terminal(state),
    ensures
        next_state(state, SessionEvent::Fault(cause)) == SessionState::Error(cause),
{
}

/// Every step of the state machine either keeps the state or follows one of
/// its edges, and the stage never goes back.
pub proof fn lemma_steps_follow_edges(state: SessionState, event: SessionEvent)
    ensures
        next_state(state, event) == state || legal_edge(state, next_state(state, event)),
        stage(next_state(state, event)) >= stage(state),
{
}

/// `Finished` is reached only from `Transferring`, and only by completing
/// the last file.
pub proof fn lemma_finish_needs_transfer(state: SessionState, event: SessionEvent)
    requires
        next_state(state, event) is Finished,
        !(state is Finished),
    ensures
        state is Transferring,
        event is AllFilesComplete,
{
}

/// Applying a whole sequence of events to a terminal state leaves it as
/// it is.
pub proof fn lemma_terminal_is_final(state: SessionState, events: Seq<SessionEvent>)
    requires
        is_terminal(state),
    ensures
        run(state, events) == state,
    decreases events.len(),
{
    if events.len() > 0 {
        lemma_terminal_is_final(state, events.drop_last());
    }
}

/// The state after a sequence of events, applied first to last.
pub open spec fn run(state: SessionState, events: Seq<SessionEvent>) -> SessionState
    decreases events.len(),
{
    if events.len() == 0 {
        state
    } else {
        next_state(run(state, events.drop_last()), events.last())
    }
}

} // verus!
