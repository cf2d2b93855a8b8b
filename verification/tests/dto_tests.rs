use peersend_protocol::dto::{
    file_infos, parse_request_type, ApiResponse, FileMetadata, RegisterRequest, RequestType,
};
use peersend_protocol::AnnouncementMessage;

fn register(port: Option<u16>) -> RegisterRequest {
    RegisterRequest {
        id: "dev-1".to_string(),
        device_type: "mobile".to_string(),
        name: "Phone".to_string(),
        version: "1.2.3".to_string(),
        protocol_version: "2.0".to_string(),
        download: true,
        port,
        announcement_id: Some("ann-7".to_string()),
        uses_password: true,
    }
}

#[test]
fn endpoints_map_to_request_types() {
    assert_eq!(parse_request_type("/api/v1/localsend/register"), RequestType::Register);
    assert_eq!(parse_request_type("/api/v1/localsend/request"), RequestType::Request);
    assert_eq!(parse_request_type("/api/v1/localsend/prepare-upload"), RequestType::Prepare);
    assert_eq!(parse_request_type("/api/v1/localsend/upload"), RequestType::Block);
    assert_eq!(parse_request_type("/api/v1/localsend/cancel"), RequestType::Cancel);
}

#[test]
fn other_paths_are_unknown() {
    for path in [
        "",
        "/",
        "/api/v1/localsend",
        "/api/v1/localsend/",
        "/api/v1/localsend/register/",
        "/api/v1/localsend/Register",
        "/api/v2/localsend/register",
        "api/v1/localsend/register",
        "/api/v1/localsend/upload?x=1",
        "/api/v1/localsend/info",
    ] {
        assert_eq!(parse_request_type(path), RequestType::Unknown, "{:?}", path);
    }
}

#[test]
fn every_endpoint_leads_back_to_its_type() {
    for kind in [
        RequestType::Register,
        RequestType::Request,
        RequestType::Prepare,
        RequestType::Block,
        RequestType::Cancel,
    ] {
        assert_eq!(parse_request_type(kind.endpoint().unwrap()), kind);
    }
    assert_eq!(RequestType::Unknown.endpoint(), None);
}

#[test]
fn api_response_success_and_error() {
    let ok = ApiResponse::success(5u32);
    assert_eq!(ok.data, Some(5));
    assert_eq!(ok.error, None);
    let failed: ApiResponse<u32> = ApiResponse::error("not found".to_string());
    assert_eq!(failed.data, None);
    assert_eq!(failed.error, Some("not found".to_string()));
}

#[test]
fn announcement_from_register_keeps_the_port_of_the_request() {
    let msg = AnnouncementMessage::from_register(&register(Some(4000)), 53317);
    assert_eq!(msg.msg_type, "announce");
    assert_eq!(msg.id, "dev-1");
    assert_eq!(msg.device_type, "mobile");
    assert_eq!(msg.name, "Phone");
    assert_eq!(msg.version, "1.2.3");
    assert_eq!(msg.protocol_version, "2.0");
    assert!(msg.download);
    assert_eq!(msg.port, Some(4000));
    assert_eq!(msg.announcement_id, Some("ann-7".to_string()));
    assert!(msg.uses_password);
}

#[test]
fn announcement_from_register_falls_back_to_the_given_port() {
    let msg = AnnouncementMessage::from_register(&register(None), 53317);
    assert_eq!(msg.port, Some(53317));
}

#[test]
fn proposed_files_become_session_files() {
    let metas = vec![
        FileMetadata {
            id: "1".to_string(),
            name: "a.txt".to_string(),
            file_type: "text/plain".to_string(),
            size: 12,
            metadata: Some(serde_json::Value::Bool(true)),
        },
        FileMetadata {
            id: "2".to_string(),
            name: "b.bin".to_string(),
            file_type: "application/octet-stream".to_string(),
            size: 7,
            metadata: None,
        },
    ];
    let infos = file_infos(&metas);
    assert_eq!(infos.len(), 2);
    assert_eq!(infos[0].id, "1");
    assert_eq!(infos[0].name, "a.txt");
    assert_eq!(infos[0].file_type, "text/plain");
    assert_eq!(infos[0].size, 12);
    assert_eq!(infos[0].metadata, Some(serde_json::Value::Bool(true)));
    assert_eq!(infos[1].size, 7);
    assert_eq!(infos[1].metadata, None);
    assert_eq!(metas[1].to_file_info().name, "b.bin");
    assert!(file_infos(&Vec::new()).is_empty());
}
