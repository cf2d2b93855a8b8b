//! The messages of the wire protocol, and the endpoints that take them.

use vstd::prelude::*;
use crate::files::{clone_json, FileInfo};

verus! {

/// A device registers itself with a peer.
#[derive(Debug, Clone)]
pub struct RegisterRequest {
    pub id: String,
    pub device_type: String,
    pub name: String,
    pub version: String,
    pub protocol_version: String,
    pub download: bool,
    pub port: Option<u16>,
    pub announcement_id: Option<String>,
    pub uses_password: bool,
}

/// The answer to a registration: the identity of the answering device.
#[derive(Debug, Clone)]
pub struct RegisterResponse {
    pub id: String,
    pub device_type: String,
    pub name: String,
    pub version: String,
    pub protocol_version: String,
    pub download: bool,
    pub port: Option<u16>,
    pub announcement_id: Option<String>,
    pub uses_password: bool,
}

/// A sender proposes a transfer.
#[derive(Debug, Clone)]
pub struct FileRequest {
    pub id: String,
    pub sender: String,
    pub sender_type: String,
    pub files: Vec<FileMetadata>,
    pub session_id: String,
    pub token: String,
    pub message: String,
}

/// One file of a proposed transfer.
#[derive(Debug, Clone)]
pub struct FileMetadata {
    pub id: String,
    pub name: String,
    pub file_type: String,
    pub size: u64,
    pub metadata: Option<serde_json::Value>,
}

/// The answer to a proposed transfer.
#[derive(Debug, Clone)]
pub struct FileResponse {
    pub id: String,
    pub session_id: String,
    pub accepted: bool,
    pub token: String,
}

/// A sender announces the files it is about to upload.
#[derive(Debug, Clone)]
pub struct PrepareRequest {
    pub id: String,
    pub session_id: String,
    pub files: Vec<IncomingFileMetadata>,
    pub token: String,
}

/// The acknowledgement of the files that will be taken.
#[derive(Debug, Clone)]
pub struct PrepareResponse {
    pub id: String,
    pub session_id: String,
    pub files: Vec<IncomingFileMetadata>,
}

/// One file of an upload, with the name the receiver saves it under.
#[derive(Debug)]
pub struct IncomingFileMetadata {
    pub id: String,
    pub name: String,
    pub file_type: String,
    pub size: u64,
    pub save_as: Option<String>,
}

impl Clone for IncomingFileMetadata {
    fn clone(&self) -> (copy: Self)
        ensures
            copy == *self,
    {
        let save_as = match &self.save_as {
            Some(name) => Some(name.clone()),
            None => None,
        };
        IncomingFileMetadata {
            id: self.id.clone(),
            name: self.name.clone(),
            file_type: self.file_type.clone(),
            size: self.size,
            save_as,
        }
    }
}

/// A copy of the files of an upload.
pub fn clone_incoming(files: &Vec<IncomingFileMetadata>) -> (copy: Vec<IncomingFileMetadata>)
    ensures
        copy@ == files@,
{
    let mut copy: Vec<IncomingFileMetadata> = Vec::new();
    let mut i: usize = 0;
    while i < files.len()
        invariant
            i <= files@.len(),
            copy@ == files@.subrange(0, i as int),
        decreases files@.len() - i,
    {
        copy.push(files[i].clone());
        proof {
            assert(copy@ =~= files@.subrange(0, i + 1));
        }
        i = i + 1;
    }
    proof {
        assert(copy@ =~= files@);
    }
    copy
}

/// The header of one uploaded block.
#[derive(Debug, Clone)]
pub struct BlockRequest {
    pub id: String,
    pub session_id: String,
    pub file_id: String,
    pub size: u64,
    pub token: String,
}

/// Either side cancels a session.
#[derive(Debug, Clone)]
pub struct CancelRequest {
    pub id: String,
    pub session_id: String,
    pub reason: String,
}

/// The certificate of a device.
#[derive(Debug, Clone)]
pub struct CertificateInfo {
    pub fingerprint: String,
    pub starts_at: String,
    pub expires_at: String,
}

/// A device asks for a peer's certificate.
#[derive(Debug, Clone)]
pub struct CertificateRequest {
    pub id: String,
    pub name: String,
}

/// The first message of the key handshake.
#[derive(Debug, Clone)]
pub struct HandshakeRequest {
    pub id: String,
    pub public_key: String,
    pub session_id: String,
}

/// The answer to the key handshake.
#[derive(Debug, Clone)]
pub struct HandshakeResponse {
    pub id: String,
    pub public_key: String,
    pub session_id: String,
    pub success: bool,
}

/// The kind of request that an endpoint takes.
#[derive(Debug, Clone, Copy, PartialEq, Eq, Structural)]
pub enum RequestType {
    /// A device registers itself.
    Register,
    /// A sender proposes a transfer.
    Request,
    /// A sender announces an upload.
    Prepare,
    /// A block of file data.
    Block,
    /// A session is cancelled.
    Cancel,
    /// Anything else; such a request is rejected.
    Unknown,
}

/// The path of the endpoint that takes requests of kind `kind`; the empty
/// path for `Unknown`, which has no endpoint.
pub open spec fn endpoint_of(kind: RequestType) -> Seq<char> {
    match kind {
        RequestType::Register => "/api/v1/localsend/register"@,
        RequestType::Request => "/api/v1/localsend/request"@,
        RequestType::Prepare => "/api/v1/localsend/prepare-upload"@,
        RequestType::Block => "/api/v1/localsend/upload"@,
        RequestType::Cancel => "/api/v1/localsend/cancel"@,
        RequestType::Unknown => Seq::<char>::empty(),
    }
}

/// The kind of request that the endpoint at `path` takes.
pub open spec fn request_type_of(path: Seq<char>) -> RequestType {
    if path == endpoint_of(RequestType::Register) {
        RequestType::Register
    } else if path == endpoint_of(RequestType::Request) {
        RequestType::Request
    } else if path == endpoint_of(RequestType::Prepare) {
        RequestType::Prepare
    } else if path == endpoint_of(RequestType::Block) {
        RequestType::Block
    } else if path == endpoint_of(RequestType::Cancel) {
        RequestType::Cancel
    } else {
        RequestType::Unknown
    }
}

/// Tells from the path of an HTTP request which kind of request it is.
/// Every path but those of the five endpoints is `Unknown`.
pub fn parse_request_type(path: &str) -> (kind: RequestType)
    ensures
        kind == request_type_of(path@),
{
    if str::eq(path, "/api/v1/localsend/register") {
        RequestType::Register
    } else if str::eq(path, "/api/v1/localsend/request") {
        RequestType::Request
    } else if str::eq(path, "/api/v1/localsend/prepare-upload") {
        RequestType::Prepare
    } else if str::eq(path, "/api/v1/localsend/upload") {
        RequestType::Block
    } else if str::eq(path, "/api/v1/localsend/cancel") {
        RequestType::Cancel
    } else {
        RequestType::Unknown
    }
}

impl RequestType {
    /// The path of the endpoint that takes this kind of request, or `None`
    /// for `Unknown`.
    pub fn endpoint(&self) -> (path: Option<&'static str>)
        ensures
            match path {
                Some(p) => !(*self is Unknown) && p@ == endpoint_of(*self),
                None => *self is Unknown,
            },
    {
        match self {
            RequestType::Register => Some("/api/v1/localsend/register"),
            RequestType::Request => Some("/api/v1/localsend/request"),
            RequestType::Prepare => Some("/api/v1/localsend/prepare-upload"),
            RequestType::Block => Some("/api/v1/localsend/upload"),
            RequestType::Cancel => Some("/api/v1/localsend/cancel"),
            RequestType::Unknown => None,
        }
    }
}

/// The path of every endpoint leads back to the kind of request it takes.
pub proof fn lemma_endpoints_are_told_apart(kind: RequestType)
    requires
        !(kind is Unknown),
    ensures
        request_type_of(endpoint_of(kind)) == kind,
{
    reveal_strlit("/api/v1/localsend/register");
    reveal_strlit("/api/v1/localsend/request");
    reveal_strlit("/api/v1/localsend/prepare-upload");
    reveal_strlit("/api/v1/localsend/upload");
    reveal_strlit("/api/v1/localsend/cancel");
    let register = "/api/v1/localsend/register"@;
    let request = "/api/v1/localsend/request"@;
    let prepare = "/api/v1/localsend/prepare-upload"@;
    let upload = "/api/v1/localsend/upload"@;
    let cancel = "/api/v1/localsend/cancel"@;
    assert(register.len() == 26 && request.len() == 25 && prepare.len() == 32);
    assert(upload.len() == 24 && cancel.len() == 24);
    assert(upload[18] == 'u' && cancel[18] == 'c');
}

/// The envelope of an API answer: the data, or the message of an error.
#[derive(Debug, Clone)]
pub struct ApiResponse<T> {
    pub data: Option<T>,
    pub error: Option<String>,
}

impl<T> ApiResponse<T> {
    /// An answer that carries `data`.
    pub fn success(data: T) -> (response: Self)
        ensures
            response.data == Some(data),
            response.error is None,
    {
        ApiResponse { data: Some(data), error: None }
    }

    /// An answer that carries the error `message`.
    pub fn error(message: String) -> (response: Self)
        ensures
            response.data is None,
            response.error == Some(message),
    {
        ApiResponse { data: None, error: Some(message) }
    }
}

/// The periodic multicast announcement of a device.
#[derive(Debug, Clone)]
pub struct AnnouncementMessage {
    pub msg_type: String,
    pub id: String,
    pub device_type: String,
    pub name: String,
    pub version: String,
    pub protocol_version: String,
    pub download: bool,
    pub port: Option<u16>,
    pub announcement_id: Option<String>,
    pub uses_password: bool,
}

/// The port that a message names, or `fallback` where it names none.
pub open spec fn port_or(port: Option<u16>, fallback: u16) -> u16 {
    match port {
        Some(p) => p,
        None => fallback,
    }
}

impl AnnouncementMessage {
    /// The announcement that repeats a registration. It names the port of
    /// the registration, or `port` where the registration names none.
    pub fn from_register(req: &RegisterRequest, port: u16) -> (msg: Self)
        ensures
            msg.msg_type@ == "announce"@,
            msg.id == req.id,
            msg.device_type == req.device_type,
            msg.name == req.name,
            msg.version == req.version,
            msg.protocol_version == req.protocol_version,
            msg.download == req.download,
            msg.port == Some(port_or(req.port, port)),
            msg.announcement_id == req.announcement_id,
            msg.uses_password == req.uses_password,
    {
        let announced = match req.port {
            Some(p) => p,
            None => port,
        };
        let announcement_id = match &req.announcement_id {
            Some(id) => Some(id.clone()),
            None => None,
        };
        AnnouncementMessage {
            msg_type: "announce".to_owned(),
            id: req.id.clone(),
            device_type: req.device_type.clone(),
            name: req.name.clone(),
            version: req.version.clone(),
            protocol_version: req.protocol_version.clone(),
            download: req.download,
            port: Some(announced),
            announcement_id,
            uses_password: req.uses_password,
        }
    }
}

/// The file record of a session for a proposed file.
pub open spec fn info_of(meta: FileMetadata) -> FileInfo {
    FileInfo {
        id: meta.id,
        name: meta.name,
        size: meta.size,
        file_type: meta.file_type,
        metadata: meta.metadata,
    }
}

impl FileMetadata {
    /// The file record of a session for this proposed file.
    pub fn to_file_info(&self) -> (info: FileInfo)
        ensures
            info == info_of(*self),
    {
        let metadata = match &self.metadata {
            Some(value) => Some(clone_json(value)),
            None => None,
        };
        FileInfo {
            id: self.id.clone(),
            name: self.name.clone(),
            size: self.size,
            file_type: self.file_type.clone(),
            metadata,
        }
    }
}

/// The file records of a session for a list of proposed files.
pub fn file_infos(files: &Vec<FileMetadata>) -> (infos: Vec<FileInfo>)
    ensures
        infos@ == files@.map_values(|meta: FileMetadata| info_of(meta)),
{
    let mut infos: Vec<FileInfo> = Vec::new();
    let mut i: usize = 0;
    while i < files.len()
        invariant
            i <= files@.len(),
            infos@ == files@.subrange(0, i as int).map_values(|meta: FileMetadata| info_of(meta)),
        decreases files@.len() - i,
    {
        infos.push(files[i].to_file_info());
        proof {
            assert(infos@ =~= files@.subrange(0, i + 1).map_values(
                |meta: FileMetadata| info_of(meta),
            ));
        }
        i = i + 1;
    }
    proof {
        assert(files@.subrange(0, i as int) =~= files@);
    }
    infos
}

} // verus!
