//! The protocol surface: what each request of the HTTP interface does to
//! the registry of peers and to the sessions.
//!
//! The listener socket is the caller's. It hands each request to the handler
//! of its endpoint and sends the answer back.

use vstd::prelude::*;
use crate::config::{LocalSendConfig, PROTOCOL_VERSION};
use crate::discovery::{text_or_empty, ANNOUNCED_VERSION};
use crate::dto::{
    clone_incoming, file_infos, info_of, parse_request_type, port_or, request_type_of,
    CancelRequest, FileMetadata, FileRequest, FileResponse, IncomingFileMetadata, PrepareRequest,
    PrepareResponse, RegisterRequest, RegisterResponse, RequestType,
};
use crate::keyed::{contains_id, is_first_with_id, Identified};
use crate::manager::{
    event_applied, first_is_closed, fresh_session, FileSession, SessionError, SessionManager,
};
use crate::paths::{is_safe_file_name, is_safe_name};
use crate::registry::{with_device, DeviceInfo, DiscoveryManager};
use crate::state::{is_terminal, SessionEvent, SessionState};

verus! {

/// Why a request was rejected.
#[derive(Clone, Copy, Debug, PartialEq, Eq, Structural)]
pub enum ProtocolError {
    /// The path is none of the endpoints.
    UnknownEndpoint,
    /// No session carries the id that the request names.
    SessionNotFound,
    /// The request cannot be served as it is: the session is closed
    /// already, or a file name is not acceptable.
    InvalidRequest,
}

/// Finds the endpoint of a request. A path that is none of the endpoints is
/// rejected.
pub fn route(path: &str) -> (kind: Result<RequestType, ProtocolError>)
    ensures
        match kind {
            Ok(k) => k == request_type_of(path@) && !(k is Unknown),
            Err(e) => request_type_of(path@) is Unknown && e == ProtocolError::UnknownEndpoint,
        },
{
    match parse_request_type(path) {
        RequestType::Unknown => Err(ProtocolError::UnknownEndpoint),
        kind => Ok(kind),
    }
}

/// Whether `device` is the record of the peer that registered with `req`
/// from the address `ip`.
pub open spec fn describes_request(
    device: DeviceInfo,
    req: RegisterRequest,
    ip: Seq<char>,
    fallback: u16,
) -> bool {
    &&& device.id == req.id
    &&& device.name == req.name
    &&& device.device_type == req.device_type
    &&& device.ip@ == ip
    &&& device.port == port_or(req.port, fallback)
    &&& device.version == req.version
    &&& device.protocol_version == req.protocol_version
    &&& device.announcement_id@ == text_or_empty(req.announcement_id)
    &&& device.uses_password == req.uses_password
}

/// Whether `after` is the registry `before` with the sighting of `device`,
/// the peer that registered with `req` from the address `ip`.
pub open spec fn registered(
    before: Seq<DeviceInfo>,
    after: Seq<DeviceInfo>,
    device: DeviceInfo,
    req: RegisterRequest,
    ip: Seq<char>,
    fallback: u16,
) -> bool {
    &&& describes_request(device, req, ip, fallback)
    &&& after == with_device(before, device)
}

/// Whether `response` is how the device of `config` presents itself.
pub open spec fn presents(response: RegisterResponse, config: LocalSendConfig) -> bool {
    &&& response.id == config.device_id
    &&& response.device_type == config.device_type
    &&& response.name == config.device_name
    &&& response.version@ == ANNOUNCED_VERSION@
    &&& response.protocol_version@ == PROTOCOL_VERSION@
    &&& response.download
    &&& response.port == Some(config.port)
    &&& response.announcement_id is None
    &&& !response.uses_password
}

/// The name under which an uploaded file is saved: the one the sender asks
/// for, else the file's own.
pub open spec fn destination_name(file: IncomingFileMetadata) -> Seq<char> {
    match file.save_as {
        Some(name) => name@,
        None => file.name@,
    }
}

/// Whether every file of `files` would be saved under a safe name.
pub open spec fn all_destinations_safe(files: Seq<IncomingFileMetadata>) -> bool {
    forall|i: int| 0 <= i < files.len() ==> is_safe_name(destination_name(#[trigger] files[i]))
}

/// Whether every file of an upload would be saved under a safe name.
pub fn destinations_are_safe(files: &Vec<IncomingFileMetadata>) -> (safe: bool)
    ensures
        safe == all_destinations_safe(files@),
{
    let mut i: usize = 0;
    while i < files.len()
        invariant
            i <= files@.len(),
            forall|j: int| 0 <= j < i ==> is_safe_name(destination_name(#[trigger] files@[j])),
        decreases files@.len() - i,
    {
        let safe = match &files[i].save_as {
            Some(name) => is_safe_file_name(name.as_str()),
            None => is_safe_file_name(files[i].name.as_str()),
        };
        if !safe {
            return false;
        }
        i = i + 1;
    }
    true
}

/// The HTTP interface of this device.
#[derive(Debug)]
pub struct LocalSendServer {
    config: LocalSendConfig,
    session_manager: SessionManager,
    discovery_manager: DiscoveryManager,
}

impl LocalSendServer {
    /// The configuration of this device.
    pub closed spec fn config(&self) -> LocalSendConfig {
        self.config
    }

    /// The sessions, in the order in which they were created.
    pub closed spec fn sessions(&self) -> Seq<FileSession> {
        self.session_manager.sessions()
    }

    /// The known devices, in the order in which their ids were first seen.
    pub closed spec fn devices(&self) -> Seq<DeviceInfo> {
        self.discovery_manager@
    }

    /// The time that the session manager goes by.
    pub closed spec fn clock(&self) -> u64 {
        self.session_manager.clock()
    }

    /// A server for the device of `config` over the given managers.
    pub fn new(
        config: LocalSendConfig,
        session_manager: SessionManager,
        discovery_manager: DiscoveryManager,
    ) -> (server: Self)
        ensures
            server.config() == config,
            server.sessions() == session_manager.sessions(),
            server.clock() == session_manager.clock(),
            server.devices() == discovery_manager@,
    {
        LocalSendServer { config, session_manager, discovery_manager }
    }

    /// The session manager of the server.
    pub fn get_session_manager(&self) -> (manager: &SessionManager)
        ensures
            manager.sessions() == self.sessions(),
            manager.clock() == self.clock(),
    {
        &self.session_manager
    }

    /// The registry of peers of the server.
    pub fn get_discovery_manager(&self) -> (manager: &DiscoveryManager)
        ensures
            manager@ == self.devices(),
    {
        &self.discovery_manager
    }

    /// Tells the server the current time in seconds.
    pub fn advance_clock(&mut self, now: u64)
        ensures
            final(self).clock() == crate::manager::later(old(self).clock(), now),
            final(self).sessions() == old(self).sessions(),
            final(self).devices() == old(self).devices(),
            final(self).config() == old(self).config(),
    {
        self.session_manager.advance_clock(now);
    }

    /// Serves a registration from the address `ip`: the peer is added to the
    /// registry unless its id is known there already, and this device
    /// presents itself in return.
    pub fn handle_register(&mut self, req: &RegisterRequest, ip: &str) -> (response:
        RegisterResponse)
        ensures
            presents(response, old(self).config()),
            exists|device: DeviceInfo|
                registered(
                    old(self).devices(),
                    final(self).devices(),
                    device,
                    *req,
                    ip@,
                    old(self).config().port,
                ),
            final(self).sessions() == old(self).sessions(),
            final(self).clock() == old(self).clock(),
            final(self).config() == old(self).config(),
    {
        let port = match req.port {
            Some(p) => p,
            None => self.config.port,
        };
        let announcement_id = match &req.announcement_id {
            Some(id) => id.clone(),
            None => String::new(),
        };
        let device = DeviceInfo {
            id: req.id.clone(),
            name: req.name.clone(),
            device_type: req.device_type.clone(),
            ip: ip.to_owned(),
            port,
            version: req.version.clone(),
            protocol_version: req.protocol_version.clone(),
            announcement_id,
            uses_password: req.uses_password,
        };
        let ghost sighted = device;
        let ghost before = self.devices();
        self.discovery_manager.add_device(device);
        proof {
            assert(registered(before, self.devices(), sighted, *req, ip@, self.config().port));
        }
        RegisterResponse {
            id: self.config.device_id.clone(),
            device_type: self.config.device_type.clone(),
            name: self.config.device_name.clone(),
            version: ANNOUNCED_VERSION.to_owned(),
            protocol_version: PROTOCOL_VERSION.to_owned(),
            download: true,
            port: Some(self.config.port),
            announcement_id: None,
            uses_password: false,
        }
    }

    /// Serves a transfer request: a session in state `Waiting` is created
    /// for the proposed files, from the requesting device to this one, under
    /// a fresh id, and the request is accepted under that id.
    pub fn handle_request(&mut self, req: &FileRequest) -> (response: FileResponse)
        ensures
            response.id == old(self).config().device_id,
            response.accepted,
            response.token == req.token,
            response.session_id@.len() == 36,
            final(self).sessions().len() == old(self).sessions().len() + 1,
            final(self).sessions().drop_last() == old(self).sessions(),
            final(self).sessions().last()@ == fresh_session(
                response.session_id@,
                req.id@,
                old(self).config().device_id@,
                req.files@.map_values(|meta: FileMetadata| info_of(meta)),
                old(self).clock(),
            ),
            final(self).devices() == old(self).devices(),
            final(self).clock() == old(self).clock(),
            final(self).config() == old(self).config(),
    {
        let files = file_infos(&req.files);
        let session = self.session_manager.create_session(
            req.id.clone(),
            self.config.device_id.clone(),
            files,
        );
        FileResponse {
            id: self.config.device_id.clone(),
            session_id: session.id,
            accepted: true,
            token: req.token.clone(),
        }
    }

    /// Serves the announcement of an upload. It is acknowledged, with the
    /// list of its files, if its session is known and every file would be
    /// saved under a safe name.
    pub fn handle_prepare(&self, req: &PrepareRequest) -> (response: Result<
        PrepareResponse,
        ProtocolError,
    >)
        ensures
            match response {
                Ok(ack) => {
                    &&& contains_id(self.sessions(), req.session_id@)
                    &&& all_destinations_safe(req.files@)
                    &&& ack.id == self.config().device_id
                    &&& ack.session_id == req.session_id
                    &&& ack.files@ == req.files@
                },
                Err(e) => if !contains_id(self.sessions(), req.session_id@) {
                    e == ProtocolError::SessionNotFound
                } else {
                    !all_destinations_safe(req.files@) && e == ProtocolError::InvalidRequest
                },
            },
    {
        match self.session_manager.get_session(req.session_id.as_str()) {
            None => {
                return Err(ProtocolError::SessionNotFound);
            },
            Some(_) => {},
        }
        if !destinations_are_safe(&req.files) {
            return Err(ProtocolError::InvalidRequest);
        }
        Ok(
            PrepareResponse {
                id: self.config.device_id.clone(),
                session_id: req.session_id.clone(),
                files: clone_incoming(&req.files),
            },
        )
    }

    /// Serves a cancellation: the session goes to `Cancelled`, whatever
    /// non-terminal state it was in. An unknown session is reported as not
    /// found, and one that is closed already as an invalid request; nothing
    /// changes then.
    pub fn handle_cancel(&mut self, req: &CancelRequest) -> (outcome: Result<
        SessionState,
        ProtocolError,
    >)
        ensures
            final(self).devices() == old(self).devices(),
            final(self).clock() == old(self).clock(),
            final(self).config() == old(self).config(),
            final(self).sessions().len() == old(self).sessions().len(),
            match outcome {
                Ok(state) => {
                    &&& state is Cancelled
                    &&& event_applied(
                        old(self).sessions(),
                        final(self).sessions(),
                        req.session_id@,
                        SessionEvent::Cancel,
                        old(self).clock(),
                        state,
                    )
                },
                Err(e) => {
                    &&& final(self).sessions() == old(self).sessions()
                    &&& if contains_id(old(self).sessions(), req.session_id@) {
                        &&& first_is_closed(old(self).sessions(), req.session_id@)
                        &&& e == ProtocolError::InvalidRequest
                    } else {
                        e == ProtocolError::SessionNotFound
                    }
                },
            },
    {
        let ghost before = self.sessions();
        match self.session_manager.apply_event(req.session_id.as_str(), SessionEvent::Cancel) {
            Ok(state) => Ok(state),
            Err(SessionError::NotFound) => Err(ProtocolError::SessionNotFound),
            Err(SessionError::Closed) => {
                proof {
                    let i = choose|i: int|
                        is_first_with_id(before, req.session_id@, i) && is_terminal(
                            before[i].state,
                        );
                    assert(before[i].ident() == req.session_id@);
                }
                Err(ProtocolError::InvalidRequest)
            },
        }
    }
}

} // verus!
