use peersend_protocol::dto::{
    CancelRequest, FileMetadata, FileRequest, IncomingFileMetadata, PrepareRequest,
    RegisterRequest, RequestType,
};
use peersend_protocol::server::{destinations_are_safe, route, LocalSendServer, ProtocolError};
use peersend_protocol::{
    DiscoveryManager, LocalSendConfig, SessionEvent, SessionManager, SessionState,
};

fn server() -> LocalSendServer {
    let config = LocalSendConfig::new(
        "me".to_string(),
        "My Laptop".to_string(),
        "key".to_string(),
        "/tmp/downloads".to_string(),
    );
    LocalSendServer::new(config, SessionManager::new(), DiscoveryManager::new())
}

fn incoming(name: &str, save_as: Option<&str>) -> IncomingFileMetadata {
    IncomingFileMetadata {
        id: "f".to_string(),
        name: name.to_string(),
        file_type: "text/plain".to_string(),
        size: 3,
        save_as: save_as.map(|s| s.to_string()),
    }
}

fn request(files: Vec<FileMetadata>) -> FileRequest {
    FileRequest {
        id: "peer".to_string(),
        sender: "Phone".to_string(),
        sender_type: "mobile".to_string(),
        files,
        session_id: "proposed".to_string(),
        token: "tok".to_string(),
        message: "hi".to_string(),
    }
}

#[test]
fn unknown_endpoints_are_rejected() {
    assert_eq!(route("/api/v1/localsend/register"), Ok(RequestType::Register));
    assert_eq!(route("/api/v1/localsend/request"), Ok(RequestType::Request));
    assert_eq!(route("/api/v1/localsend/prepare-upload"), Ok(RequestType::Prepare));
    assert_eq!(route("/api/v1/localsend/upload"), Ok(RequestType::Block));
    assert_eq!(route("/api/v1/localsend/cancel"), Ok(RequestType::Cancel));
    assert_eq!(route("/api/v1/localsend/nothing"), Err(ProtocolError::UnknownEndpoint));
    assert_eq!(route(""), Err(ProtocolError::UnknownEndpoint));
}

#[test]
fn register_adds_the_peer_and_presents_this_device() {
    let mut server = server();
    let req = RegisterRequest {
        id: "peer".to_string(),
        device_type: "mobile".to_string(),
        name: "Phone".to_string(),
        version: "1".to_string(),
        protocol_version: "2.0".to_string(),
        download: false,
        port: None,
        announcement_id: None,
        uses_password: false,
    };
    let response = server.handle_register(&req, "10.0.0.7");
    assert_eq!(response.id, "me");
    assert_eq!(response.name, "My Laptop");
    assert_eq!(response.device_type, "desktop");
    assert_eq!(response.version, "0.1.0-peersend");
    assert_eq!(response.protocol_version, "2.0");
    assert_eq!(response.port, Some(53317));
    assert!(response.download);
    let devices = server.get_discovery_manager().get_devices();
    assert_eq!(devices.len(), 1);
    assert_eq!(devices[0].id, "peer");
    assert_eq!(devices[0].ip, "10.0.0.7");
    assert_eq!(devices[0].port, 53317);
    server.handle_register(&req, "10.0.0.8");
    assert_eq!(server.get_discovery_manager().get_devices().len(), 1);
    assert_eq!(server.get_discovery_manager().get_devices()[0].ip, "10.0.0.7");
}

#[test]
fn request_creates_a_waiting_session() {
    let mut server = server();
    server.advance_clock(77);
    let files = vec![FileMetadata {
        id: "1".to_string(),
        name: "a.txt".to_string(),
        file_type: "text/plain".to_string(),
        size: 12,
        metadata: None,
    }];
    let response = server.handle_request(&request(files));
    assert!(response.accepted);
    assert_eq!(response.id, "me");
    assert_eq!(response.token, "tok");
    let session = server.get_session_manager().get_session(&response.session_id).unwrap();
    assert_eq!(session.state, SessionState::Waiting);
    assert_eq!(session.sender_id, "peer");
    assert_eq!(session.receiver_id, "me");
    assert_eq!(session.progress.total_bytes, 12);
    assert_eq!(session.last_activity, 77);
    assert_eq!(session.files[0].name, "a.txt");
}

#[test]
fn prepare_checks_the_session_and_the_names() {
    let mut server = server();
    let session_id = server.handle_request(&request(vec![])).session_id;
    let prepare = |id: &str, files: Vec<IncomingFileMetadata>| PrepareRequest {
        id: "peer".to_string(),
        session_id: id.to_string(),
        files,
        token: String::new(),
    };
    let proposed = vec![incoming("a.txt", None), incoming("../x", Some("x"))];
    let ack = server.handle_prepare(&prepare(&session_id, proposed)).unwrap();
    assert_eq!(ack.id, "me");
    assert_eq!(ack.session_id, session_id);
    assert_eq!(ack.files.len(), 2);
    assert_eq!(ack.files[0].name, "a.txt");
    assert_eq!(ack.files[1].save_as, Some("x".to_string()));
    assert_eq!(
        server.handle_prepare(&prepare(&session_id, vec![incoming("../x", None)])).err(),
        Some(ProtocolError::InvalidRequest)
    );
    assert_eq!(
        server.handle_prepare(&prepare(&session_id, vec![incoming("x", Some("/etc/x"))])).err(),
        Some(ProtocolError::InvalidRequest)
    );
    assert_eq!(
        server.handle_prepare(&prepare("unknown", vec![incoming("a.txt", None)])).err(),
        Some(ProtocolError::SessionNotFound)
    );
    assert!(destinations_are_safe(&vec![]));
    assert!(!destinations_are_safe(&vec![incoming("ok", None), incoming("", None)]));
}

#[test]
fn cancel_forces_a_live_session_to_cancelled() {
    let mut server = server();
    let session_id = server.handle_request(&request(vec![])).session_id;
    let cancel = |id: &str| CancelRequest {
        id: "peer".to_string(),
        session_id: id.to_string(),
        reason: "user".to_string(),
    };
    assert_eq!(server.handle_cancel(&cancel(&session_id)), Ok(SessionState::Cancelled));
    assert_eq!(
        server.get_session_manager().get_session(&session_id).unwrap().state,
        SessionState::Cancelled
    );
    // a second cancel is an invalid request, an unknown session is not found
    assert_eq!(server.handle_cancel(&cancel(&session_id)), Err(ProtocolError::InvalidRequest));
    assert_eq!(server.handle_cancel(&cancel("nope")), Err(ProtocolError::SessionNotFound));
}

#[test]
fn cancel_reaches_a_running_transfer() {
    let config = LocalSendConfig::new(
        "me".to_string(),
        "n".to_string(),
        "k".to_string(),
        "d".to_string(),
    );
    let mut sessions = SessionManager::new();
    sessions.create_session_with_id("s".to_string(), "a".to_string(), "me".to_string(), vec![]);
    sessions.apply_event("s", SessionEvent::ChunkAccepted).unwrap();
    let mut server = LocalSendServer::new(config, sessions, DiscoveryManager::new());
    let req = CancelRequest {
        id: "a".to_string(),
        session_id: "s".to_string(),
        reason: String::new(),
    };
    assert_eq!(server.handle_cancel(&req), Ok(SessionState::Cancelled));
}
