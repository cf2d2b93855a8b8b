//! Transfer sessions and the manager that owns them.

use vstd::prelude::*;
use crate::files::{capped_total, clone_files, total_bytes, FileInfo, TransferProgress};
use crate::keyed::{
    contains_id, is_first_with_id, lemma_removed_id_is_gone, position_of, remove_all, without_id,
    Identified,
};
use crate::state::{is_terminal, next_state, FaultKind, SessionEvent, SessionState};

verus! {

/// Trusted: `uuid::Uuid::new_v4().to_string()`. The text is the hyphenated
/// form of a random UUID, which is 36 characters long; nothing is claimed of
/// which characters.
#[verifier::external_body]
pub(crate) fn fresh_uuid() -> (id: String)
    ensures
        id@.len() == 36,
{
    uuid::Uuid::new_v4().to_string()
}

/// One negotiated multi-file transfer between two devices.
#[derive(Debug)]
pub struct FileSession {
    pub id: String,
    pub sender_id: String,
    pub receiver_id: String,
    pub files: Vec<FileInfo>,
    pub state: SessionState,
    pub progress: TransferProgress,
    /// The time, in seconds, of the last event that this session reacted to.
    pub last_activity: u64,
}

/// What a session holds.
pub struct SessionView {
    pub id: Seq<char>,
    pub sender_id: Seq<char>,
    pub receiver_id: Seq<char>,
    pub files: Seq<FileInfo>,
    pub state: SessionState,
    pub progress: TransferProgress,
    pub last_activity: u64,
}

impl View for FileSession {
    type V = SessionView;

    open spec fn view(&self) -> SessionView {
        SessionView {
            id: self.id@,
            sender_id: self.sender_id@,
            receiver_id: self.receiver_id@,
            files: self.files@,
            state: self.state,
            progress: self.progress,
            last_activity: self.last_activity,
        }
    }
}

impl Identified for FileSession {
    open spec fn ident(&self) -> Seq<char> {
        self.id@
    }

    fn has_ident(&self, id: &str) -> (same: bool) {
        str::eq(self.id.as_str(), id)
    }
}

impl Clone for FileSession {
    fn clone(&self) -> (copy: Self)
        ensures
            copy@ == self@,
    {
        FileSession {
            id: self.id.clone(),
            sender_id: self.sender_id.clone(),
            receiver_id: self.receiver_id.clone(),
            files: clone_files(&self.files),
            state: self.state,
            progress: self.progress,
            last_activity: self.last_activity,
        }
    }
}

/// A session as it is created at time `now`: waiting, nothing transferred
/// yet, and the total fixed as the sum of the file sizes.
pub open spec fn fresh_session(
    id: Seq<char>,
    sender_id: Seq<char>,
    receiver_id: Seq<char>,
    files: Seq<FileInfo>,
    now: u64,
) -> SessionView {
    SessionView {
        id,
        sender_id,
        receiver_id,
        files,
        state: SessionState::Waiting,
        progress: TransferProgress {
            bytes_transferred: 0,
            total_bytes: capped_total(files),
            speed_bytes_per_sec: 0,
        },
        last_activity: now,
    }
}

/// The later of two times.
pub open spec fn later(a: u64, b: u64) -> u64 {
    if a >= b {
        a
    } else {
        b
    }
}

/// A session after `event` at time `now`. A session in a terminal state
/// does not change.
pub open spec fn after_event(session: SessionView, event: SessionEvent, now: u64) -> SessionView {
    if is_terminal(session.state) {
        session
    } else {
        SessionView {
            state: next_state(session.state, event),
            last_activity: later(session.last_activity, now),
            ..session
        }
    }
}

/// The byte count of a session after a report of `bytes` transferred: never
/// less than before and never more than the total.
pub open spec fn advanced(progress: TransferProgress, bytes: u64) -> u64 {
    let capped = if bytes <= progress.total_bytes {
        bytes
    } else {
        progress.total_bytes
    };
    if capped >= progress.bytes_transferred {
        capped
    } else {
        progress.bytes_transferred
    }
}

/// A session after a report of `bytes` transferred at time `now`. A session
/// in a terminal state does not change.
pub open spec fn after_progress(session: SessionView, bytes: u64, now: u64) -> SessionView {
    if is_terminal(session.state) {
        session
    } else {
        SessionView {
            progress: TransferProgress {
                bytes_transferred: advanced(session.progress, bytes),
                ..session.progress
            },
            last_activity: later(session.last_activity, now),
            ..session
        }
    }
}

/// Whether a session has been inactive for `timeout` seconds or more at
/// time `now`. A session in a terminal state never expires.
pub open spec fn is_expired(session: SessionView, now: u64, timeout: u64) -> bool {
    &&& !is_terminal(session.state)
    &&& now >= session.last_activity
    &&& now - session.last_activity >= timeout
}

/// A session after the timeout sweep at time `now`.
pub open spec fn after_sweep(session: SessionView, now: u64, timeout: u64) -> SessionView {
    if is_expired(session, now, timeout) {
        SessionView { state: SessionState::Error(FaultKind::Timeout), ..session }
    } else {
        session
    }
}

impl FileSession {
    /// Whether the progress of this session is consistent with its files.
    pub open spec fn well_formed(&self) -> bool {
        &&& self.progress.total_bytes == capped_total(self.files@)
        &&& self.progress.bytes_transferred <= self.progress.total_bytes
    }

    /// A new session in state `Waiting`.
    pub fn new(
        id: String,
        sender_id: String,
        receiver_id: String,
        files: Vec<FileInfo>,
    ) -> (session: Self)
        ensures
            session@ == fresh_session(id@, sender_id@, receiver_id@, files@, 0),
            session.well_formed(),
    {
        let total = total_bytes(&files);
        FileSession {
            id,
            sender_id,
            receiver_id,
            files,
            state: SessionState::Waiting,
            progress: TransferProgress::new(0, total),
            last_activity: 0,
        }
    }

    /// Applies `event` at time `now`. Returns whether the session was still
    /// live, that is, whether the event was taken into account.
    pub fn apply(&mut self, event: SessionEvent, now: u64) -> (live: bool)
        ensures
            live == !is_terminal(old(self).state),
            final(self)@ == after_event(old(self)@, event, now),
            old(self).well_formed() ==> final(self).well_formed(),
    {
        if self.state.is_terminal() {
            return false;
        }
        self.state = self.state.on_event(event);
        if now > self.last_activity {
            self.last_activity = now;
        }
        true
    }

    /// Records that `bytes` bytes have been transferred in all, at time
    /// `now`. The count never goes back and never passes the total.
    pub fn record_progress(&mut self, bytes: u64, now: u64) -> (live: bool)
        ensures
            live == !is_terminal(old(self).state),
            final(self)@ == after_progress(old(self)@, bytes, now),
            final(self).progress.bytes_transferred >= old(self).progress.bytes_transferred,
            old(self).well_formed() ==> final(self).well_formed(),
    {
        if self.state.is_terminal() {
            return false;
        }
        let capped = if bytes <= self.progress.total_bytes {
            bytes
        } else {
            self.progress.total_bytes
        };
        if capped > self.progress.bytes_transferred {
            self.progress.bytes_transferred = capped;
        }
        if now > self.last_activity {
            self.last_activity = now;
        }
        true
    }

    /// Forces the session into `Error(Timeout)` if it has been inactive for
    /// `timeout` seconds or more at time `now`. Returns whether it did.
    pub fn expire(&mut self, now: u64, timeout: u64) -> (expired: bool)
        ensures
            expired == is_expired(old(self)@, now, timeout),
            final(self)@ == after_sweep(old(self)@, now, timeout),
            old(self).well_formed() ==> final(self).well_formed(),
    {
        if self.state.is_terminal() {
            return false;
        }
        if now >= self.last_activity && now - self.last_activity >= timeout {
            self.state = SessionState::Error(FaultKind::Timeout);
            true
        } else {
            false
        }
    }
}

/// Why the manager refused a request.
#[derive(Clone, Copy, Debug, PartialEq, Eq, Structural)]
pub enum SessionError {
    /// No session carries the given id.
    NotFound,
    /// The session has reached a terminal state and takes no more events.
    Closed,
}

/// The number of sessions of `sessions` that are expired at time `now`.
pub open spec fn expired_count(sessions: Seq<FileSession>, now: u64, timeout: u64) -> nat
    decreases sessions.len(),
{
    if sessions.len() == 0 {
        0
    } else {
        expired_count(sessions.drop_last(), now, timeout) + if is_expired(
            sessions.last()@,
            now,
            timeout,
        ) {
            1nat
        } else {
            0nat
        }
    }
}

/// Whether `after` is `before` but for the session at position `i`.
pub open spec fn same_except(before: Seq<FileSession>, after: Seq<FileSession>, i: int) -> bool {
    &&& after.len() == before.len()
    &&& forall|j: int| 0 <= j < before.len() && j != i ==> after[j] == before[j]
}

/// Whether the first session of `sessions` with id `id` is in a terminal
/// state.
pub open spec fn first_is_closed(sessions: Seq<FileSession>, id: Seq<char>) -> bool {
    exists|i: int| is_first_with_id(sessions, id, i) && is_terminal(sessions[i].state)
}

/// Whether `after` is `before` with `event` applied, at time `now`, to the
/// first session with id `id`, which was live and is in state `state`
/// afterwards.
pub open spec fn event_applied(
    before: Seq<FileSession>,
    after: Seq<FileSession>,
    id: Seq<char>,
    event: SessionEvent,
    now: u64,
    state: SessionState,
) -> bool {
    exists|i: int|
        {
            &&& is_first_with_id(before, id, i)
            &&& !is_terminal(before[i].state)
            &&& after[i]@ == after_event(before[i]@, event, now)
            &&& state == next_state(before[i].state, event)
            &&& same_except(before, after, i)
        }
}

/// Whether `after` is `before` with a report of `bytes` transferred taken
/// in, at time `now`, by the first session with id `id`, which was live and
/// whose progress is `progress` afterwards.
pub open spec fn progress_applied(
    before: Seq<FileSession>,
    after: Seq<FileSession>,
    id: Seq<char>,
    bytes: u64,
    now: u64,
    progress: TransferProgress,
) -> bool {
    exists|i: int|
        {
            &&& is_first_with_id(before, id, i)
            &&& !is_terminal(before[i].state)
            &&& after[i]@ == after_progress(before[i]@, bytes, now)
            &&& progress == after[i].progress
            &&& progress.bytes_transferred == advanced(before[i].progress, bytes)
            &&& same_except(before, after, i)
        }
}

/// The owner of the active sessions.
#[derive(Debug)]
pub struct SessionManager {
    sessions: Vec<FileSession>,
    clock: u64,
}

impl SessionManager {
    /// The sessions, in the order in which they were created.
    pub closed spec fn sessions(&self) -> Seq<FileSession> {
        self.sessions@
    }

    /// The latest time, in seconds, that the manager was told of.
    pub closed spec fn clock(&self) -> u64 {
        self.clock
    }

    /// A manager without sessions, at time 0.
    pub fn new() -> (manager: Self)
        ensures
            manager.sessions() == Seq::<FileSession>::empty(),
            manager.clock() == 0,
    {
        SessionManager { sessions: Vec::new(), clock: 0 }
    }

    /// Tells the manager the current time in seconds. The manager's clock
    /// never goes back.
    pub fn advance_clock(&mut self, now: u64)
        ensures
            final(self).clock() == later(old(self).clock(), now),
            final(self).sessions() == old(self).sessions(),
    {
        if now > self.clock {
            self.clock = now;
        }
    }

    /// Creates a session under the given id, in state `Waiting`, appends it
    /// to the manager's sessions and returns a copy of it.
    pub fn create_session_with_id(
        &mut self,
        id: String,
        sender_id: String,
        receiver_id: String,
        files: Vec<FileInfo>,
    ) -> (session: FileSession)
        ensures
            session@ == fresh_session(
                id@,
                sender_id@,
                receiver_id@,
                files@,
                old(self).clock(),
            ),
            session.well_formed(),
            final(self).clock() == old(self).clock(),
            final(self).sessions().len() == old(self).sessions().len() + 1,
            final(self).sessions().drop_last() == old(self).sessions(),
            final(self).sessions().last()@ == session@,
    {
        let mut session = FileSession::new(id, sender_id, receiver_id, files);
        session.last_activity = self.clock;
        let copy = session.clone();
        let ghost before = self.sessions@;
        self.sessions.push(session);
        proof {
            assert(self.sessions@.drop_last() =~= before);
        }
        copy
    }

    /// Creates a session under a freshly generated id, in state `Waiting`,
    /// appends it to the manager's sessions and returns a copy of it.
    pub fn create_session(
        &mut self,
        sender_id: String,
        receiver_id: String,
        files: Vec<FileInfo>,
    ) -> (session: FileSession)
        ensures
            session@ == fresh_session(
                session.id@,
                sender_id@,
                receiver_id@,
                files@,
                old(self).clock(),
            ),
            session.id@.len() == 36,
            session.well_formed(),
            final(self).clock() == old(self).clock(),
            final(self).sessions().len() == old(self).sessions().len() + 1,
            final(self).sessions().drop_last() == old(self).sessions(),
            final(self).sessions().last()@ == session@,
    {
        let id = fresh_uuid();
        self.create_session_with_id(id, sender_id, receiver_id, files)
    }

    /// A copy of the first session with id `session_id`, if there is one.
    pub fn get_session(&self, session_id: &str) -> (found: Option<FileSession>)
        ensures
            match found {
                Some(session) => exists|i: int|
                    is_first_with_id(self.sessions(), session_id@, i) && session@
                        == self.sessions()[i]@,
                None => !contains_id(self.sessions(), session_id@),
            },
    {
        match position_of(&self.sessions, session_id) {
            Some(i) => {
                let session = self.sessions[i].clone();
                proof {
                    assert(is_first_with_id(self.sessions(), session_id@, i as int));
                }
                Some(session)
            },
            None => None,
        }
    }

    /// Removes every session with id `session_id`. An unknown id changes
    /// nothing.
    pub fn remove_session(&mut self, session_id: &str)
        ensures
            final(self).sessions() == without_id(old(self).sessions(), session_id@),
            !contains_id(final(self).sessions(), session_id@),
            final(self).clock() == old(self).clock(),
    {
        proof {
            lemma_removed_id_is_gone(self.sessions@, session_id@);
        }
        remove_all(&mut self.sessions, session_id);
    }

    /// Copies of all sessions, in the order in which they were created.
    pub fn get_all_sessions(&self) -> (all: Vec<FileSession>)
        ensures
            all@.len() == self.sessions().len(),
            forall|i: int| 0 <= i < all@.len() ==> (#[trigger] all@[i])@ == self.sessions()[i]@,
    {
        let mut all: Vec<FileSession> = Vec::new();
        let mut i: usize = 0;
        while i < self.sessions.len()
            invariant
                i <= self.sessions@.len(),
                all@.len() == i,
                forall|j: int| 0 <= j < i ==> (#[trigger] all@[j])@ == self.sessions@[j]@,
            decreases self.sessions@.len() - i,
        {
            all.push(self.sessions[i].clone());
            i = i + 1;
        }
        all
    }

    /// Applies `event` to the first session with id `session_id`, at the
    /// manager's current time, and returns the state that the session is
    /// then in. An unknown id and a session that is already in a terminal
    /// state are refused, and nothing changes.
    pub fn apply_event(&mut self, session_id: &str, event: SessionEvent) -> (outcome: Result<
        SessionState,
        SessionError,
    >)
        ensures
            final(self).clock() == old(self).clock(),
            final(self).sessions().len() == old(self).sessions().len(),
            match outcome {
                Ok(state) => event_applied(
                    old(self).sessions(),
                    final(self).sessions(),
                    session_id@,
                    event,
                    old(self).clock(),
                    state,
                ),
                Err(SessionError::NotFound) => {
                    &&& !contains_id(old(self).sessions(), session_id@)
                    &&& final(self).sessions() == old(self).sessions()
                },
                Err(SessionError::Closed) => {
                    &&& first_is_closed(old(self).sessions(), session_id@)
                    &&& final(self).sessions() == old(self).sessions()
                },
            },
    {
        let now = self.clock;
        match position_of(&self.sessions, session_id) {
            None => Err(SessionError::NotFound),
            Some(i) => {
                if self.sessions[i].state.is_terminal() {
                    proof {
                        assert(is_first_with_id(self.sessions(), session_id@, i as int));
                    }
                    return Err(SessionError::Closed);
                }
                let ghost before = self.sessions@;
                let session = &mut self.sessions[i];
                session.apply(event, now);
                let state = self.sessions[i].state;
                proof {
                    assert(is_first_with_id(before, session_id@, i as int));
                }
                Ok(state)
            },
        }
    }

    /// Records, on the first session with id `session_id`, that `bytes`
    /// bytes have been transferred in all, and returns the session's
    /// progress. An unknown id and a session that is already in a terminal
    /// state are refused, and nothing changes.
    pub fn record_progress(&mut self, session_id: &str, bytes: u64) -> (outcome: Result<
        TransferProgress,
        SessionError,
    >)
        ensures
            final(self).clock() == old(self).clock(),
            final(self).sessions().len() == old(self).sessions().len(),
            match outcome {
                Ok(progress) => progress_applied(
                    old(self).sessions(),
                    final(self).sessions(),
                    session_id@,
                    bytes,
                    old(self).clock(),
                    progress,
                ),
                Err(SessionError::NotFound) => {
                    &&& !contains_id(old(self).sessions(), session_id@)
                    &&& final(self).sessions() == old(self).sessions()
                },
                Err(SessionError::Closed) => {
                    &&& first_is_closed(old(self).sessions(), session_id@)
                    &&& final(self).sessions() == old(self).sessions()
                },
            },
    {
        let now = self.clock;
        match position_of(&self.sessions, session_id) {
            None => Err(SessionError::NotFound),
            Some(i) => {
                if self.sessions[i].state.is_terminal() {
                    proof {
                        assert(is_first_with_id(self.sessions(), session_id@, i as int));
                    }
                    return Err(SessionError::Closed);
                }
                let ghost before = self.sessions@;
                let session = &mut self.sessions[i];
                session.record_progress(bytes, now);
                let progress = self.sessions[i].progress;
                proof {
                    assert(is_first_with_id(before, session_id@, i as int));
                }
                Ok(progress)
            },
        }
    }

    /// The timeout sweep: forces every live session that has been inactive
    /// for `timeout` seconds or more, by the manager's clock, into
    /// `Error(Timeout)`. Returns how many sessions it expired.
    pub fn expire_inactive(&mut self, timeout: u64) -> (expired: usize)
        ensures
            final(self).clock() == old(self).clock(),
            final(self).sessions().len() == old(self).sessions().len(),
            forall|i: int|
                0 <= i < old(self).sessions().len() ==> (#[trigger] final(self).sessions()[i])@
                    == after_sweep(old(self).sessions()[i]@, old(self).clock(), timeout),
            expired == expired_count(old(self).sessions(), old(self).clock(), timeout),
    {
        let now = self.clock;
        let ghost before = self.sessions@;
        let mut expired: usize = 0;
        let mut i: usize = 0;
        proof {
            assert(before.subrange(0, 0) =~= Seq::<FileSession>::empty());
        }
        while i < self.sessions.len()
            invariant
                now == self.clock,
                self.sessions@.len() == before.len(),
                i <= before.len(),
                expired <= i,
                expired == expired_count(before.subrange(0, i as int), now, timeout),
                forall|j: int|
                    0 <= j < i ==> (#[trigger] self.sessions@[j])@ == after_sweep(
                        before[j]@,
                        now,
                        timeout,
                    ),
                forall|j: int| i <= j < before.len() ==> self.sessions@[j] == before[j],
            decreases before.len() - i,
        {
            proof {
                let next = before.subrange(0, i + 1);
                assert(next.drop_last() =~= before.subrange(0, i as int));
                assert(next.last() == before[i as int]);
            }
            let session = &mut self.sessions[i];
            if session.expire(now, timeout) {
                expired = expired + 1;
            }
            i = i + 1;
        }
        proof {
            assert(before.subrange(0, i as int) =~= before);
        }
        expired
    }
}

} // verus!
