//! The transfer engine: the sender that slices the files of a session into
//! chunks, the receiver that reassembles them, and the manager that keeps
//! track of both.
//!
//! The engine decides and counts; it does not touch the file system. The
//! sender is handed the bytes that were read and says which of them make the
//! next chunk; the receiver is handed a chunk and says where it goes.

use vstd::prelude::*;
use crate::config::BLOCK_SIZE;
use crate::files::{capped_total, total_bytes, FileInfo, TransferProgress};
use crate::keyed::{
    contains_id, is_first_with_id, lemma_removed_id_is_gone, position_of, remove_all, without_id,
    Identified,
};
use crate::manager::{fresh_session, FileSession, SessionView};
use crate::paths::{is_safe_file_name, is_safe_name, join_path, joined};
use crate::state::{is_terminal, next_state, FaultKind, SessionEvent, SessionState};

verus! {

/// Why the engine refused an operation.
#[derive(Clone, Copy, Debug, PartialEq, Eq, Structural)]
pub enum TransferError {
    /// The file name would lead out of the output directory.
    UnsafePath,
    /// The session is in a terminal state.
    SessionClosed,
    /// The chunk would bring the byte count over the total of the session.
    ExceedsTotal,
}

impl TransferError {
    /// The cause under which this refusal fails a session.
    pub fn fault_kind(&self) -> (cause: FaultKind)
        ensures
            cause == match *self {
                TransferError::UnsafePath => FaultKind::PathTraversal,
                TransferError::SessionClosed => FaultKind::Protocol,
                TransferError::ExceedsTotal => FaultKind::Protocol,
            },
    {
        match self {
            TransferError::UnsafePath => FaultKind::PathTraversal,
            TransferError::SessionClosed => FaultKind::Protocol,
            TransferError::ExceedsTotal => FaultKind::Protocol,
        }
    }
}

/// A session as an engine starts on it: nothing transferred yet, the total
/// fixed as the sum of the file sizes.
pub open spec fn at_start(session: SessionView) -> SessionView {
    SessionView {
        progress: TransferProgress {
            bytes_transferred: 0,
            total_bytes: capped_total(session.files),
            speed_bytes_per_sec: 0,
        },
        ..session
    }
}

/// A session after a chunk of `n` bytes was accepted.
pub open spec fn with_chunk(session: SessionView, n: nat) -> SessionView {
    SessionView {
        state: next_state(session.state, SessionEvent::ChunkAccepted),
        progress: TransferProgress {
            bytes_transferred: (session.progress.bytes_transferred + n) as u64,
            ..session.progress
        },
        ..session
    }
}

/// A session whose cursor stands at `file_index` after a file was left:
/// finished, if that was the last file of a running transfer.
pub open spec fn with_cursor(session: SessionView, file_index: nat) -> SessionView {
    if file_index >= session.files.len() {
        SessionView {
            state: next_state(session.state, SessionEvent::AllFilesComplete),
            ..session
        }
    } else {
        session
    }
}

/// The cursor after the file at `file_index` of `count` files: one further,
/// but never past the end.
pub open spec fn advanced_cursor(file_index: nat, count: nat) -> nat {
    if file_index < count {
        file_index + 1
    } else {
        file_index
    }
}

/// Why a chunk of `n` bytes is refused after `done` bytes of a session, if
/// it is.
pub open spec fn chunk_refusal(session: SessionView, done: u64, n: nat) -> Option<TransferError> {
    if is_terminal(session.state) {
        Some(TransferError::SessionClosed)
    } else if done + n > session.progress.total_bytes {
        Some(TransferError::ExceedsTotal)
    } else {
        None
    }
}

/// What a sender holds.
pub struct SenderView {
    pub session: SessionView,
    pub file_index: nat,
    pub bytes_sent: u64,
    pub file_offset: u64,
    pub chunk_size: usize,
}

/// What the sender needs read next: up to `len` bytes of the file `name`,
/// from byte `offset` on.
#[derive(Debug)]
pub struct ChunkRequest {
    pub name: String,
    pub offset: u64,
    pub len: usize,
}

/// The invariant of a sender: the byte count is the session's progress and
/// within its total, and the cursor is within the file list.
pub open spec fn sender_ok(sender: SenderView) -> bool {
    &&& sender.session.progress.total_bytes == capped_total(sender.session.files)
    &&& sender.session.progress.bytes_transferred == sender.bytes_sent
    &&& sender.bytes_sent <= sender.session.progress.total_bytes
    &&& sender.file_offset <= sender.bytes_sent
    &&& sender.file_index <= sender.session.files.len()
}

/// Whether the sender's cursor has passed its last file.
pub open spec fn sender_done(sender: SenderView) -> bool {
    sender.file_index >= sender.session.files.len()
}

/// The length of the chunk that the sender makes of `read_len` bytes read.
pub open spec fn chunk_len(sender: SenderView, read_len: nat) -> nat {
    if read_len <= sender.chunk_size {
        read_len
    } else {
        sender.chunk_size as nat
    }
}

/// The sender after it was handed `read_len` bytes read from its current
/// file.
pub open spec fn after_read(sender: SenderView, read_len: nat) -> SenderView {
    let n = chunk_len(sender, read_len);
    if sender_done(sender) || chunk_refusal(sender.session, sender.bytes_sent, n) is Some {
        sender
    } else {
        SenderView {
            session: with_chunk(sender.session, n),
            bytes_sent: (sender.bytes_sent + n) as u64,
            file_offset: (sender.file_offset + n) as u64,
            ..sender
        }
    }
}

/// The sender after it moved on to its next file.
pub open spec fn after_next_file(sender: SenderView) -> SenderView {
    let file_index = advanced_cursor(sender.file_index, sender.session.files.len());
    SenderView {
        session: with_cursor(sender.session, file_index),
        file_index,
        file_offset: 0,
        ..sender
    }
}

/// The outgoing side of a session.
#[derive(Debug)]
pub struct FileSender {
    session: FileSession,
    file_index: usize,
    bytes_sent: u64,
    file_offset: u64,
    chunk_size: usize,
}

impl View for FileSender {
    type V = SenderView;

    closed spec fn view(&self) -> SenderView {
        SenderView {
            session: self.session@,
            file_index: self.file_index as nat,
            bytes_sent: self.bytes_sent,
            file_offset: self.file_offset,
            chunk_size: self.chunk_size,
        }
    }
}

impl Clone for FileSender {
    fn clone(&self) -> (copy: Self)
        ensures
            copy@ == self@,
    {
        FileSender {
            session: self.session.clone(),
            file_index: self.file_index,
            bytes_sent: self.bytes_sent,
            file_offset: self.file_offset,
            chunk_size: self.chunk_size,
        }
    }
}

impl Identified for FileSender {
    open spec fn ident(&self) -> Seq<char> {
        self@.session.id
    }

    fn has_ident(&self, id: &str) -> (same: bool) {
        str::eq(self.session.id.as_str(), id)
    }
}

impl FileSender {
    /// Whether the invariant of a sender holds of this one.
    pub open spec fn well_formed(&self) -> bool {
        sender_ok(self@)
    }

    /// A sender at the first file of `session`, with the default chunk size.
    pub fn new(session: FileSession) -> (sender: Self)
        ensures
            sender@ == (SenderView {
                session: at_start(session@),
                file_index: 0,
                bytes_sent: 0,
                file_offset: 0,
                chunk_size: BLOCK_SIZE,
            }),
            sender.well_formed(),
    {
        let mut session = session;
        let total = total_bytes(&session.files);
        session.progress = TransferProgress::new(0, total);
        FileSender { session, file_index: 0, bytes_sent: 0, file_offset: 0, chunk_size: BLOCK_SIZE }
    }

    /// The file under the cursor, or `None` once the list is exhausted.
    pub fn current_file_info(&self) -> (info: Option<&FileInfo>)
        ensures
            match info {
                Some(file) => {
                    &&& !sender_done(self@)
                    &&& *file == self@.session.files[self@.file_index as int]
                },
                None => sender_done(self@),
            },
    {
        if self.file_index < self.session.files.len() {
            Some(&self.session.files[self.file_index])
        } else {
            None
        }
    }

    /// Sets the largest chunk that the sender makes.
    pub fn set_chunk_size(&mut self, size: usize)
        ensures
            final(self)@ == (SenderView { chunk_size: size, ..old(self)@ }),
    {
        self.chunk_size = size;
    }

    /// The number of files of the session.
    pub fn total_files(&self) -> (count: usize)
        ensures
            count == self@.session.files.len(),
    {
        self.session.files.len()
    }

    /// The position of the cursor in the file list.
    pub fn current_index(&self) -> (index: usize)
        ensures
            index == self@.file_index,
    {
        self.file_index
    }

    /// Whether the cursor has passed the last file.
    pub fn is_complete(&self) -> (done: bool)
        ensures
            done == sender_done(self@),
    {
        self.file_index >= self.session.files.len()
    }

    /// The state of the sender's session.
    pub fn state(&self) -> (state: SessionState)
        ensures
            state == self@.session.state,
    {
        self.session.state
    }

    /// Moves the cursor to the next file and says whether work remains.
    /// Leaving the last file of a running transfer finishes the session.
    pub fn next_file(&mut self) -> (more: bool)
        requires
            old(self).well_formed(),
        ensures
            final(self)@ == after_next_file(old(self)@),
            more == !sender_done(final(self)@),
            final(self).well_formed(),
    {
        if self.file_index < self.session.files.len() {
            self.file_index = self.file_index + 1;
        }
        self.file_offset = 0;
        if self.file_index >= self.session.files.len() {
            self.session.state = self.session.state.on_event(SessionEvent::AllFilesComplete);
        }
        !self.is_complete()
    }

    /// What to read next: the name of the current file, the offset in it
    /// and the chunk size. `None` exactly when the file list is exhausted.
    pub fn chunk_request(&self) -> (request: Option<ChunkRequest>)
        ensures
            match request {
                Some(r) => {
                    &&& !sender_done(self@)
                    &&& r.name == self@.session.files[self@.file_index as int].name
                    &&& r.offset == self@.file_offset
                    &&& r.len == self@.chunk_size
                },
                None => sender_done(self@),
            },
    {
        if self.file_index < self.session.files.len() {
            Some(
                ChunkRequest {
                    name: self.session.files[self.file_index].name.clone(),
                    offset: self.file_offset,
                    len: self.chunk_size,
                },
            )
        } else {
            None
        }
    }

    /// Makes the next chunk of the bytes `read` from the current file, at
    /// most a chunk size of them, and counts it as sent.
    ///
    /// Returns `None` exactly when the file list is exhausted. A session in
    /// a terminal state and a chunk that would bring the count over the
    /// session's total are refused, and nothing changes. The first chunk
    /// moves a waiting session to `Transferring`.
    pub fn read_chunk(&mut self, read: Vec<u8>) -> (out: Result<Option<Vec<u8>>, TransferError>)
        requires
            old(self).well_formed(),
        ensures
            final(self)@ == after_read(old(self)@, read@.len()),
            final(self).well_formed(),
            final(self)@.bytes_sent >= old(self)@.bytes_sent,
            final(self)@.bytes_sent <= final(self)@.session.progress.total_bytes,
            match out {
                Ok(Some(chunk)) => {
                    &&& !sender_done(old(self)@)
                    &&& chunk_refusal(
                        old(self)@.session,
                        old(self)@.bytes_sent,
                        chunk_len(old(self)@, read@.len()),
                    ) is None
                    &&& chunk@ == read@.subrange(0, chunk_len(old(self)@, read@.len()) as int)
                },
                Ok(None) => sender_done(old(self)@),
                Err(e) => {
                    &&& !sender_done(old(self)@)
                    &&& chunk_refusal(
                        old(self)@.session,
                        old(self)@.bytes_sent,
                        chunk_len(old(self)@, read@.len()),
                    ) == Some(e)
                },
            },
    {
        if self.file_index >= self.session.files.len() {
            return Ok(None);
        }
        if self.session.state.is_terminal() {
            return Err(TransferError::SessionClosed);
        }
        let n: usize = if read.len() <= self.chunk_size {
            read.len()
        } else {
            self.chunk_size
        };
        let room: u64 = self.session.progress.total_bytes - self.bytes_sent;
        if n as u64 > room {
            return Err(TransferError::ExceedsTotal);
        }
        let mut chunk = read;
        chunk.truncate(n);
        self.bytes_sent = self.bytes_sent + n as u64;
        self.file_offset = self.file_offset + n as u64;
        self.session.progress.bytes_transferred = self.bytes_sent;
        self.session.state = self.session.state.on_event(SessionEvent::ChunkAccepted);
        Ok(Some(chunk))
    }

    /// The progress of the transfer: bytes sent against the total of the
    /// session.
    pub fn get_progress(&self) -> (progress: TransferProgress)
        ensures
            progress == (TransferProgress {
                bytes_transferred: self@.bytes_sent,
                total_bytes: capped_total(self@.session.files),
                speed_bytes_per_sec: 0,
            }),
            self.well_formed() ==> progress.well_formed(),
    {
        TransferProgress::new(self.bytes_sent, total_bytes(&self.session.files))
    }

    /// The number of bytes sent so far.
    pub fn get_offset(&self) -> (offset: u64)
        ensures
            offset == self@.bytes_sent,
    {
        self.bytes_sent
    }

    /// Cancels the session unless it is in a terminal state already.
    pub fn cancel(&mut self)
        ensures
            final(self)@ == (SenderView {
                session: SessionView {
                    state: next_state(old(self)@.session.state, SessionEvent::Cancel),
                    ..old(self)@.session
                },
                ..old(self)@
            }),
            old(self).well_formed() ==> final(self).well_formed(),
    {
        self.session.state = self.session.state.on_event(SessionEvent::Cancel);
    }

    /// Fails the session with `cause` unless it is in a terminal state
    /// already.
    pub fn fail(&mut self, cause: FaultKind)
        ensures
            final(self)@ == (SenderView {
                session: SessionView {
                    state: next_state(old(self)@.session.state, SessionEvent::Fault(cause)),
                    ..old(self)@.session
                },
                ..old(self)@
            }),
            old(self).well_formed() ==> final(self).well_formed(),
    {
        self.session.state = self.session.state.on_event(SessionEvent::Fault(cause));
    }
}

/// What a receiver holds.
pub struct ReceiverView {
    pub session: SessionView,
    pub output_dir: Seq<char>,
    pub file_index: nat,
    pub bytes_received: u64,
    pub current_file: Option<Seq<char>>,
}

/// The invariant of a receiver: the byte count is the session's progress
/// and within its total, and the cursor is within the file list.
pub open spec fn receiver_ok(receiver: ReceiverView) -> bool {
    &&& receiver.session.progress.total_bytes == capped_total(receiver.session.files)
    &&& receiver.session.progress.bytes_transferred == receiver.bytes_received
    &&& receiver.bytes_received <= receiver.session.progress.total_bytes
    &&& receiver.file_index <= receiver.session.files.len()
}

/// Whether the receiver's cursor has passed its last file.
pub open spec fn receiver_done(receiver: ReceiverView) -> bool {
    receiver.file_index >= receiver.session.files.len()
}

/// Why the receiver refuses to start the file `name`, if it does.
pub open spec fn start_refusal(receiver: ReceiverView, name: Seq<char>) -> Option<TransferError> {
    if is_terminal(receiver.session.state) {
        Some(TransferError::SessionClosed)
    } else if !is_safe_name(name) {
        Some(TransferError::UnsafePath)
    } else {
        None
    }
}

/// The receiver after it was asked to start the file `name`.
pub open spec fn after_start(receiver: ReceiverView, name: Seq<char>) -> ReceiverView {
    if start_refusal(receiver, name) is Some {
        receiver
    } else {
        ReceiverView { current_file: Some(joined(receiver.output_dir, name)), ..receiver }
    }
}

/// The receiver after it was handed a chunk of `n` bytes.
pub open spec fn after_write(receiver: ReceiverView, n: nat) -> ReceiverView {
    if receiver.current_file is None || chunk_refusal(
        receiver.session,
        receiver.bytes_received,
        n,
    ) is Some {
        receiver
    } else {
        ReceiverView {
            session: with_chunk(receiver.session, n),
            bytes_received: (receiver.bytes_received + n) as u64,
            ..receiver
        }
    }
}

/// The receiver after it closed its current file.
pub open spec fn after_finish(receiver: ReceiverView) -> ReceiverView {
    let file_index = advanced_cursor(receiver.file_index, receiver.session.files.len());
    ReceiverView {
        session: with_cursor(receiver.session, file_index),
        file_index,
        current_file: None,
        ..receiver
    }
}

/// The incoming side of a session.
#[derive(Debug)]
pub struct FileReceiver {
    session: FileSession,
    output_dir: String,
    file_index: usize,
    bytes_received: u64,
    current_file: Option<String>,
}

impl View for FileReceiver {
    type V = ReceiverView;

    closed spec fn view(&self) -> ReceiverView {
        ReceiverView {
            session: self.session@,
            output_dir: self.output_dir@,
            file_index: self.file_index as nat,
            bytes_received: self.bytes_received,
            current_file: match self.current_file {
                Some(path) => Some(path@),
                None => None,
            },
        }
    }
}

impl Clone for FileReceiver {
    fn clone(&self) -> (copy: Self)
        ensures
            copy@ == self@,
    {
        let current_file = match &self.current_file {
            Some(path) => Some(path.clone()),
            None => None,
        };
        FileReceiver {
            session: self.session.clone(),
            output_dir: self.output_dir.clone(),
            file_index: self.file_index,
            bytes_received: self.bytes_received,
            current_file,
        }
    }
}

impl Identified for FileReceiver {
    open spec fn ident(&self) -> Seq<char> {
        self@.session.id
    }

    fn has_ident(&self, id: &str) -> (same: bool) {
        str::eq(self.session.id.as_str(), id)
    }
}

impl FileReceiver {
    /// Whether the invariant of a receiver holds of this one.
    pub open spec fn well_formed(&self) -> bool {
        receiver_ok(self@)
    }

    /// A receiver at the first file of `session` that saves under
    /// `output_dir`.
    pub fn new(session: FileSession, output_dir: String) -> (receiver: Self)
        ensures
            receiver@ == (ReceiverView {
                session: at_start(session@),
                output_dir: output_dir@,
                file_index: 0,
                bytes_received: 0,
                current_file: None,
            }),
            receiver.well_formed(),
    {
        let mut session = session;
        let total = total_bytes(&session.files);
        session.progress = TransferProgress::new(0, total);
        FileReceiver { session, output_dir, file_index: 0, bytes_received: 0, current_file: None }
    }

    /// The file under the cursor, or `None` once the list is exhausted.
    pub fn current_file_info(&self) -> (info: Option<&FileInfo>)
        ensures
            match info {
                Some(file) => {
                    &&& !receiver_done(self@)
                    &&& *file == self@.session.files[self@.file_index as int]
                },
                None => receiver_done(self@),
            },
    {
        if self.file_index < self.session.files.len() {
            Some(&self.session.files[self.file_index])
        } else {
            None
        }
    }

    /// The path under which a file named `filename` is saved. A name that
    /// is empty, absolute, holds a `..` component or a forbidden character
    /// is rejected.
    pub fn get_save_path(&self, filename: &str) -> (path: Result<String, TransferError>)
        ensures
            match path {
                Ok(p) => is_safe_name(filename@) && p@ == joined(self@.output_dir, filename@),
                Err(e) => !is_safe_name(filename@) && e == TransferError::UnsafePath,
            },
    {
        if is_safe_file_name(filename) {
            Ok(join_path(self.output_dir.as_str(), filename))
        } else {
            Err(TransferError::UnsafePath)
        }
    }

    /// Starts receiving the file `filename` and returns its destination
    /// path, which the caller creates. A session in a terminal state and an
    /// unsafe name are refused, and nothing changes.
    pub fn start_file(&mut self, filename: &str) -> (out: Result<String, TransferError>)
        ensures
            final(self)@ == after_start(old(self)@, filename@),
            old(self).well_formed() ==> final(self).well_formed(),
            match out {
                Ok(path) => {
                    &&& start_refusal(old(self)@, filename@) is None
                    &&& path@ == joined(old(self)@.output_dir, filename@)
                },
                Err(e) => start_refusal(old(self)@, filename@) == Some(e),
            },
    {
        if self.session.state.is_terminal() {
            return Err(TransferError::SessionClosed);
        }
        match self.get_save_path(filename) {
            Ok(path) => {
                self.current_file = Some(path.clone());
                Ok(path)
            },
            Err(e) => Err(e),
        }
    }

    /// Accepts a chunk for the current file and counts it as received.
    /// Returns the path that the caller appends `data` to, or `None` when
    /// no file is open, in which case the chunk is dropped.
    ///
    /// A session in a terminal state and a chunk that would bring the count
    /// over the session's total are refused, and nothing changes. The first
    /// chunk moves a waiting session to `Transferring`.
    pub fn write_chunk(&mut self, data: &[u8]) -> (out: Result<Option<String>, TransferError>)
        requires
            old(self).well_formed(),
        ensures
            final(self)@ == after_write(old(self)@, data@.len()),
            final(self).well_formed(),
            final(self)@.bytes_received >= old(self)@.bytes_received,
            final(self)@.bytes_received <= final(self)@.session.progress.total_bytes,
            match out {
                Ok(Some(path)) => {
                    &&& old(self)@.current_file == Some(path@)
                    &&& chunk_refusal(
                        old(self)@.session,
                        old(self)@.bytes_received,
                        data@.len(),
                    ) is None
                },
                Ok(None) => old(self)@.current_file is None,
                Err(e) => {
                    &&& old(self)@.current_file is Some
                    &&& chunk_refusal(
                        old(self)@.session,
                        old(self)@.bytes_received,
                        data@.len(),
                    ) == Some(e)
                },
            },
    {
        let path = match &self.current_file {
            Some(path) => path.clone(),
            None => {
                return Ok(None);
            },
        };
        if self.session.state.is_terminal() {
            return Err(TransferError::SessionClosed);
        }
        let room: u64 = self.session.progress.total_bytes - self.bytes_received;
        let n: usize = data.len();
        if n as u64 > room {
            return Err(TransferError::ExceedsTotal);
        }
        self.bytes_received = self.bytes_received + n as u64;
        self.session.progress.bytes_transferred = self.bytes_received;
        self.session.state = self.session.state.on_event(SessionEvent::ChunkAccepted);
        Ok(Some(path))
    }

    /// Closes the current file and moves the cursor on. Closing the last
    /// file of a running transfer finishes the session.
    pub fn finish_current_file(&mut self)
        requires
            old(self).well_formed(),
        ensures
            final(self)@ == after_finish(old(self)@),
            final(self).well_formed(),
    {
        self.current_file = None;
        if self.file_index < self.session.files.len() {
            self.file_index = self.file_index + 1;
        }
        if self.file_index >= self.session.files.len() {
            self.session.state = self.session.state.on_event(SessionEvent::AllFilesComplete);
        }
    }

    /// Whether the cursor has passed the last file.
    pub fn is_complete(&self) -> (done: bool)
        ensures
            done == receiver_done(self@),
    {
        self.file_index >= self.session.files.len()
    }

    /// The state of the receiver's session.
    pub fn state(&self) -> (state: SessionState)
        ensures
            state == self@.session.state,
    {
        self.session.state
    }

    /// The progress of the transfer: bytes received against the total of
    /// the session.
    pub fn get_progress(&self) -> (progress: TransferProgress)
        ensures
            progress == (TransferProgress {
                bytes_transferred: self@.bytes_received,
                total_bytes: capped_total(self@.session.files),
                speed_bytes_per_sec: 0,
            }),
            self.well_formed() ==> progress.well_formed(),
    {
        TransferProgress::new(self.bytes_received, total_bytes(&self.session.files))
    }

    /// The position of the cursor in the file list.
    pub fn current_index(&self) -> (index: usize)
        ensures
            index == self@.file_index,
    {
        self.file_index
    }

    /// Cancels the session unless it is in a terminal state already.
    pub fn cancel(&mut self)
        ensures
            final(self)@ == (ReceiverView {
                session: SessionView {
                    state: next_state(old(self)@.session.state, SessionEvent::Cancel),
                    ..old(self)@.session
                },
                ..old(self)@
            }),
            old(self).well_formed() ==> final(self).well_formed(),
    {
        self.session.state = self.session.state.on_event(SessionEvent::Cancel);
    }

    /// Fails the session with `cause` unless it is in a terminal state
    /// already.
    pub fn fail(&mut self, cause: FaultKind)
        ensures
            final(self)@ == (ReceiverView {
                session: SessionView {
                    state: next_state(old(self)@.session.state, SessionEvent::Fault(cause)),
                    ..old(self)@.session
                },
                ..old(self)@
            }),
            old(self).well_formed() ==> final(self).well_formed(),
    {
        self.session.state = self.session.state.on_event(SessionEvent::Fault(cause));
    }
}

/// The receiver as it starts on a new session.
pub open spec fn fresh_receiver(
    session_id: Seq<char>,
    sender_id: Seq<char>,
    files: Seq<FileInfo>,
    output_dir: Seq<char>,
) -> ReceiverView {
    ReceiverView {
        session: fresh_session(session_id, sender_id, "self"@, files, 0),
        output_dir,
        file_index: 0,
        bytes_received: 0,
        current_file: None,
    }
}

/// The sender as it starts on `session`.
pub open spec fn fresh_sender(session: SessionView) -> SenderView {
    SenderView {
        session: at_start(session),
        file_index: 0,
        bytes_sent: 0,
        file_offset: 0,
        chunk_size: BLOCK_SIZE,
    }
}

/// The registry of the transfers of this device: their sessions, and the
/// receivers and senders as they were created.
#[derive(Debug)]
pub struct TransferManager {
    sessions: Vec<FileSession>,
    receivers: Vec<FileReceiver>,
    senders: Vec<FileSender>,
}

impl TransferManager {
    /// The sessions of the receivers, in the order of their creation.
    pub closed spec fn sessions(&self) -> Seq<FileSession> {
        self.sessions@
    }

    /// The receivers, in the order of their creation.
    pub closed spec fn receivers(&self) -> Seq<FileReceiver> {
        self.receivers@
    }

    /// The senders, in the order of their creation.
    pub closed spec fn senders(&self) -> Seq<FileSender> {
        self.senders@
    }

    /// A manager without transfers.
    pub fn new() -> (manager: Self)
        ensures
            manager.sessions() == Seq::<FileSession>::empty(),
            manager.receivers() == Seq::<FileReceiver>::empty(),
            manager.senders() == Seq::<FileSender>::empty(),
    {
        TransferManager { sessions: Vec::new(), receivers: Vec::new(), senders: Vec::new() }
    }

    /// Creates the session of an incoming transfer and its receiver, keeps
    /// both, and returns a copy of the receiver.
    pub fn create_receiver(
        &mut self,
        session_id: String,
        sender_id: String,
        files: Vec<FileInfo>,
        output_dir: String,
    ) -> (receiver: FileReceiver)
        ensures
            receiver@ == fresh_receiver(session_id@, sender_id@, files@, output_dir@),
            receiver.well_formed(),
            final(self).sessions().len() == old(self).sessions().len() + 1,
            final(self).sessions().drop_last() == old(self).sessions(),
            final(self).sessions().last()@ == receiver@.session,
            final(self).receivers().len() == old(self).receivers().len() + 1,
            final(self).receivers().drop_last() == old(self).receivers(),
            final(self).receivers().last()@ == receiver@,
            final(self).senders() == old(self).senders(),
    {
        let session = FileSession::new(session_id, sender_id, "self".to_owned(), files);
        let ghost sessions_before = self.sessions@;
        let ghost receivers_before = self.receivers@;
        self.sessions.push(session.clone());
        let receiver = FileReceiver::new(session, output_dir);
        self.receivers.push(receiver.clone());
        proof {
            assert(self.sessions@.drop_last() =~= sessions_before);
            assert(self.receivers@.drop_last() =~= receivers_before);
            assert(receiver@ == fresh_receiver(session_id@, sender_id@, files@, output_dir@));
        }
        receiver
    }

    /// Creates the sender of `session`, keeps it, and returns a copy.
    pub fn create_sender(&mut self, session: FileSession) -> (sender: FileSender)
        ensures
            sender@ == fresh_sender(session@),
            sender.well_formed(),
            final(self).senders().len() == old(self).senders().len() + 1,
            final(self).senders().drop_last() == old(self).senders(),
            final(self).senders().last()@ == sender@,
            final(self).sessions() == old(self).sessions(),
            final(self).receivers() == old(self).receivers(),
    {
        let sender = FileSender::new(session);
        let ghost senders_before = self.senders@;
        self.senders.push(sender.clone());
        proof {
            assert(self.senders@.drop_last() =~= senders_before);
        }
        sender
    }

    /// A copy of the first receiver of the session `session_id`.
    pub fn get_receiver(&self, session_id: &str) -> (found: Option<FileReceiver>)
        ensures
            match found {
                Some(receiver) => exists|i: int|
                    is_first_with_id(self.receivers(), session_id@, i) && receiver@
                        == self.receivers()[i]@,
                None => !contains_id(self.receivers(), session_id@),
            },
    {
        match position_of(&self.receivers, session_id) {
            Some(i) => {
                let receiver = self.receivers[i].clone();
                proof {
                    assert(is_first_with_id(self.receivers(), session_id@, i as int));
                }
                Some(receiver)
            },
            None => None,
        }
    }

    /// A copy of the first sender of the session `session_id`.
    pub fn get_sender(&self, session_id: &str) -> (found: Option<FileSender>)
        ensures
            match found {
                Some(sender) => exists|i: int|
                    is_first_with_id(self.senders(), session_id@, i) && sender@
                        == self.senders()[i]@,
                None => !contains_id(self.senders(), session_id@),
            },
    {
        match position_of(&self.senders, session_id) {
            Some(i) => {
                let sender = self.senders[i].clone();
                proof {
                    assert(is_first_with_id(self.senders(), session_id@, i as int));
                }
                Some(sender)
            },
            None => None,
        }
    }

    /// Copies of the sessions of the receivers, in the order of their
    /// creation.
    pub fn get_sessions(&self) -> (all: Vec<FileSession>)
        ensures
            all@.len() == self.sessions().len(),
            forall|i: int| 0 <= i < all@.len() ==> (#[trigger] all@[i])@ == self.sessions()[i]@,
    {
        let mut all: Vec<FileSession> = Vec::new();
        let mut i: usize = 0;
        while i < self.sessions.len()
            invariant
                i <= self.sessions@.len(),
                all@.len() == i,
                forall|j: int| 0 <= j < i ==> (#[trigger] all@[j])@ == self.sessions@[j]@,
            decreases self.sessions@.len() - i,
        {
            all.push(self.sessions[i].clone());
            i = i + 1;
        }
        all
    }

    /// Removes every receiver of the session `session_id`.
    pub fn remove_receiver(&mut self, session_id: &str)
        ensures
            final(self).receivers() == without_id(old(self).receivers(), session_id@),
            !contains_id(final(self).receivers(), session_id@),
            final(self).sessions() == old(self).sessions(),
            final(self).senders() == old(self).senders(),
    {
        proof {
            lemma_removed_id_is_gone(self.receivers@, session_id@);
        }
        remove_all(&mut self.receivers, session_id);
    }

    /// Removes every sender of the session `session_id`.
    pub fn remove_sender(&mut self, session_id: &str)
        ensures
            final(self).senders() == without_id(old(self).senders(), session_id@),
            !contains_id(final(self).senders(), session_id@),
            final(self).sessions() == old(self).sessions(),
            final(self).receivers() == old(self).receivers(),
    {
        proof {
            lemma_removed_id_is_gone(self.senders@, session_id@);
        }
        remove_all(&mut self.senders, session_id);
    }
}

/// The receiver after chunks of the lengths `lens`, handed to it first to
/// last.
pub open spec fn after_writes(receiver: ReceiverView, lens: Seq<nat>) -> ReceiverView
    decreases lens.len(),
{
    if lens.len() == 0 {
        receiver
    } else {
        after_write(after_writes(receiver, lens.drop_last()), lens.last())
    }
}

/// The sender after reads of the lengths `lens`, handed to it first to
/// last.
pub open spec fn after_reads(sender: SenderView, lens: Seq<nat>) -> SenderView
    decreases lens.len(),
{
    if lens.len() == 0 {
        sender
    } else {
        after_read(after_reads(sender, lens.drop_last()), lens.last())
    }
}

/// Whatever chunks a receiver is handed, its byte count never goes back and
/// never passes the total of the session, and its invariant holds.
pub proof fn lemma_received_bytes_are_monotonic(receiver: ReceiverView, lens: Seq<nat>)
    requires
        receiver_ok(receiver),
    ensures
        receiver_ok(after_writes(receiver, lens)),
        after_writes(receiver, lens).bytes_received >= receiver.bytes_received,
        after_writes(receiver, lens).bytes_received <= receiver.session.progress.total_bytes,
        after_writes(receiver, lens).session.progress.total_bytes
            == receiver.session.progress.total_bytes,
    decreases lens.len(),
{
    if lens.len() > 0 {
        lemma_received_bytes_are_monotonic(receiver, lens.drop_last());
    }
}

/// Whatever reads a sender is handed, its byte count never goes back and
/// never passes the total of the session, and its invariant holds.
pub proof fn lemma_sent_bytes_are_monotonic(sender: SenderView, lens: Seq<nat>)
    requires
        sender_ok(sender),
    ensures
        sender_ok(after_reads(sender, lens)),
        after_reads(sender, lens).bytes_sent >= sender.bytes_sent,
        after_reads(sender, lens).bytes_sent <= sender.session.progress.total_bytes,
        after_reads(sender, lens).session.progress.total_bytes
            == sender.session.progress.total_bytes,
    decreases lens.len(),
{
    if lens.len() > 0 {
        lemma_sent_bytes_are_monotonic(sender, lens.drop_last());
    }
}

/// The first chunk that a waiting receiver accepts moves its session to
/// `Transferring`.
pub proof fn lemma_first_chunk_starts_transfer(receiver: ReceiverView, n: nat)
    requires
        receiver.session.state is Waiting,
        receiver.current_file is Some,
        chunk_refusal(receiver.session, receiver.bytes_received, n) is None,
    ensures
        after_write(receiver, n).session.state is Transferring,
{
}

/// Closing the last file of a running transfer finishes the session, and the
/// receiver is then complete.
pub proof fn lemma_last_file_finishes(receiver: ReceiverView)
    requires
        receiver.session.state is Transferring,
        receiver.file_index + 1 >= receiver.session.files.len(),
        receiver.file_index <= receiver.session.files.len(),
    ensures
        after_finish(receiver).session.state is Finished,
        receiver_done(after_finish(receiver)),
{
}

/// No operation of a receiver changes the state of a session that is in a
/// terminal state, and none of them counts a byte for it.
pub proof fn lemma_closed_receiver_stays_closed(receiver: ReceiverView, name: Seq<char>, n: nat)
    requires
        is_terminal(receiver.session.state),
    ensures
        after_start(receiver, name) == receiver,
        after_write(receiver, n) == receiver,
        after_finish(receiver).session.state == receiver.session.state,
        after_finish(receiver).bytes_received == receiver.bytes_received,
{
}

/// No operation of a sender changes the state of a session that is in a
/// terminal state, and none of them counts a byte for it.
pub proof fn lemma_closed_sender_stays_closed(sender: SenderView, n: nat)
    requires
        is_terminal(sender.session.state),
    ensures
        sender_done(sender) || after_read(sender, n) == sender,
        after_read(sender, n).session.state == sender.session.state,
        after_read(sender, n).bytes_sent == sender.bytes_sent,
        after_next_file(sender).session.state == sender.session.state,
        after_next_file(sender).bytes_sent == sender.bytes_sent,
{
}

} // verus!
