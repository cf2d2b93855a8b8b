use peersend_protocol::discovery::{
    classify_send, device_from_announcement, device_from_response, format_address, parse_octet,
    probe_url, split_dotted, DiscoveryService, HttpDiscoverer, SendOutcome, UdpDiscoverer,
    MULTICAST_ADDR, MULTICAST_PORT,
};
use peersend_protocol::dto::RegisterResponse;
use peersend_protocol::text::{chars_of, decimal_string, string_of};
use peersend_protocol::{
    AnnouncementMessage, DiscoveryManager, LocalSendConfig, ANNOUNCEMENT_INTERVAL_MS,
    DEFAULT_PORT, PROTOCOL_VERSION, SESSION_TIMEOUT_SECS,
};

fn config() -> LocalSendConfig {
    LocalSendConfig::new(
        "me".to_string(),
        "My Laptop".to_string(),
        "key".to_string(),
        "/tmp/downloads".to_string(),
    )
}

fn announcement(id: &str, name: &str, port: Option<u16>) -> AnnouncementMessage {
    AnnouncementMessage {
        msg_type: "announce".to_string(),
        id: id.to_string(),
        device_type: "mobile".to_string(),
        name: name.to_string(),
        version: "1.0".to_string(),
        protocol_version: "2.0".to_string(),
        download: false,
        port,
        announcement_id: None,
        uses_password: false,
    }
}

fn octet(text: &str) -> u8 {
    parse_octet(&chars_of(text))
}

#[test]
fn scan_of_five_addresses() {
    let discoverer = HttpDiscoverer::new(config());
    let targets = discoverer.scan_range("192.168.1.0", 5);
    let ips: Vec<&str> = targets.iter().map(|t| t.ip.as_str()).collect();
    assert_eq!(
        ips,
        vec!["192.168.1.1", "192.168.1.2", "192.168.1.3", "192.168.1.4", "192.168.1.5"]
    );
    assert_eq!(targets[0].url, "http://192.168.1.1:53317/api/v1/localsend/register");
    assert_eq!(targets[4].url, "http://192.168.1.5:53317/api/v1/localsend/register");
}

#[test]
fn scan_stops_at_the_last_octet_255() {
    let discoverer = HttpDiscoverer::new(config());
    let targets = discoverer.scan_range("10.0.0.250", 20);
    let ips: Vec<&str> = targets.iter().map(|t| t.ip.as_str()).collect();
    assert_eq!(ips, vec!["10.0.0.251", "10.0.0.252", "10.0.0.253", "10.0.0.254", "10.0.0.255"]);
    assert!(discoverer.scan_range("10.0.0.255", 3).is_empty());
    assert_eq!(discoverer.scan_range("10.0.0.0", 255).len(), 255);
    assert!(discoverer.scan_range("10.0.0.0", 0).is_empty());
}

#[test]
fn scan_needs_four_parts() {
    let discoverer = HttpDiscoverer::new(config());
    assert!(discoverer.scan_range("192.168.1", 5).is_empty());
    assert!(discoverer.scan_range("192.168.1.0.0", 5).is_empty());
    assert!(discoverer.scan_range("", 5).is_empty());
    assert!(discoverer.scan_range("localhost", 5).is_empty());
}

#[test]
fn parts_that_are_no_octets_count_as_zero() {
    let discoverer = HttpDiscoverer::new(config());
    let targets = discoverer.scan_range("x.300.+7.", 2);
    let ips: Vec<&str> = targets.iter().map(|t| t.ip.as_str()).collect();
    assert_eq!(ips, vec!["0.0.7.1", "0.0.7.2"]);
}

#[test]
fn octets() {
    assert_eq!(octet("0"), 0);
    assert_eq!(octet("7"), 7);
    assert_eq!(octet("255"), 255);
    assert_eq!(octet("256"), 0);
    assert_eq!(octet("1000"), 0);
    assert_eq!(octet("99999999999999999999999"), 0);
    assert_eq!(octet("007"), 7);
    assert_eq!(octet("+12"), 12);
    assert_eq!(octet("+"), 0);
    assert_eq!(octet(""), 0);
    assert_eq!(octet("-1"), 0);
    assert_eq!(octet("1a"), 0);
    assert_eq!(octet(" 1"), 0);
    assert_eq!(octet("१"), 0);
    for n in 0u16..=255 {
        assert_eq!(octet(&n.to_string()) as u16, n);
        assert_eq!(octet(&n.to_string()), n.to_string().parse::<u8>().unwrap_or(0));
    }
}

#[test]
fn splitting_at_dots() {
    let texts = |s: &str| -> Vec<String> {
        split_dotted(s).iter().map(|p| string_of(p)).collect()
    };
    assert_eq!(texts("192.168.1.0"), vec!["192", "168", "1", "0"]);
    assert_eq!(texts(""), vec![""]);
    assert_eq!(texts("."), vec!["", ""]);
    assert_eq!(texts("a..b"), vec!["a", "", "b"]);
    assert_eq!(texts("abc"), vec!["abc"]);
    assert_eq!(texts("a."), vec!["a", ""]);
    for s in ["1.2.3.4", "..", "x.y", "", "no dots"] {
        let expected: Vec<String> = s.split('.').map(|p| p.to_string()).collect();
        assert_eq!(texts(s), expected);
    }
}

#[test]
fn decimal_numerals() {
    assert_eq!(decimal_string(0), "0");
    assert_eq!(decimal_string(9), "9");
    assert_eq!(decimal_string(10), "10");
    assert_eq!(decimal_string(53317), "53317");
    assert_eq!(decimal_string(u64::MAX), "18446744073709551615");
    assert_eq!(format_address(192, 168, 0, 1), "192.168.0.1");
    assert_eq!(format_address(0, 0, 0, 0), "0.0.0.0");
    assert_eq!(format_address(255, 255, 255, 255), "255.255.255.255");
    assert_eq!(probe_url("10.1.2.3", 80), "http://10.1.2.3:80/api/v1/localsend/register");
    assert_eq!(
        HttpDiscoverer::new(config()).probe_url("host"),
        "http://host:53317/api/v1/localsend/register"
    );
}

#[test]
fn own_announcement() {
    let discoverer = UdpDiscoverer::new(config());
    let msg = discoverer.announcement();
    assert_eq!(msg.msg_type, "announce");
    assert_eq!(msg.id, "me");
    assert_eq!(msg.device_type, "desktop");
    assert_eq!(msg.name, "My Laptop");
    assert_eq!(msg.version, "0.1.0-peersend");
    assert_eq!(msg.protocol_version, "2.0");
    assert!(msg.download);
    assert_eq!(msg.port, Some(53317));
    assert_eq!(msg.announcement_id, None);
    assert!(!msg.uses_password);
}

#[test]
fn partial_send_is_told_apart() {
    assert_eq!(classify_send(120, 120), SendOutcome::Complete);
    assert_eq!(classify_send(119, 120), SendOutcome::Partial);
    assert_eq!(classify_send(0, 120), SendOutcome::Partial);
    assert_eq!(classify_send(0, 0), SendOutcome::Complete);
}

#[test]
fn listener_discards_own_announcements() {
    let discoverer = UdpDiscoverer::new(config());
    let mut manager = DiscoveryManager::new();
    let own = announcement("me", "echo", None);
    assert!(discoverer.receive(&mut manager, &own, "10.0.0.9").is_none());
    assert!(manager.get_devices().is_empty());
}

#[test]
fn listener_records_peers_once() {
    let discoverer = UdpDiscoverer::new(config());
    let mut manager = DiscoveryManager::new();
    let seen = discoverer
        .receive(&mut manager, &announcement("peer", "Phone", Some(4040)), "10.0.0.9")
        .unwrap();
    assert_eq!(seen.id, "peer");
    assert_eq!(seen.ip, "10.0.0.9");
    assert_eq!(seen.port, 4040);
    assert_eq!(seen.announcement_id, "");
    discoverer.receive(&mut manager, &announcement("peer", "Renamed", None), "10.0.0.10").unwrap();
    let devices = manager.get_devices();
    assert_eq!(devices.len(), 1);
    assert_eq!(devices[0].name, "Phone");
    assert_eq!(devices[0].ip, "10.0.0.9");
}

#[test]
fn device_records_fall_back_to_the_own_port() {
    let device = device_from_announcement(&announcement("p", "n", None), "1.2.3.4", 53317);
    assert_eq!(device.port, 53317);
    assert_eq!(device.device_type, "mobile");
    assert_eq!(device.version, "1.0");
    assert_eq!(device.protocol_version, "2.0");
    let response = RegisterResponse {
        id: "r".to_string(),
        device_type: "server".to_string(),
        name: "Box".to_string(),
        version: "3".to_string(),
        protocol_version: "2.1".to_string(),
        download: true,
        port: Some(9000),
        announcement_id: Some("ann".to_string()),
        uses_password: true,
    };
    let device = device_from_response(&response, "1.2.3.5", 53317);
    assert_eq!(device.id, "r");
    assert_eq!(device.name, "Box");
    assert_eq!(device.ip, "1.2.3.5");
    assert_eq!(device.port, 9000);
    assert_eq!(device.announcement_id, "ann");
    assert!(device.uses_password);
    let checked = HttpDiscoverer::new(config()).check_device(&response, "h");
    assert_eq!(checked.ip, "h");
}

#[test]
fn discovery_service_fills_and_clears_its_registry() {
    let mut service = DiscoveryService::new(config());
    assert!(service.get_devices().is_empty());
    assert!(service.on_announcement(&announcement("me", "self", None), "10.0.0.1").is_none());
    assert!(service.on_announcement(&announcement("a", "A", None), "10.0.0.2").is_some());
    let response = RegisterResponse {
        id: "b".to_string(),
        device_type: "desktop".to_string(),
        name: "B".to_string(),
        version: "1".to_string(),
        protocol_version: "2.0".to_string(),
        download: false,
        port: None,
        announcement_id: None,
        uses_password: false,
    };
    let targets = service.scan_range("10.0.0.2", 1);
    assert_eq!(targets.len(), 1);
    let device = service.on_probe_response(&response, &targets[0].ip);
    assert_eq!(device.ip, "10.0.0.3");
    assert_eq!(service.get_devices().len(), 2);
    assert_eq!(service.get_manager().len(), 2);
    assert_eq!(service.announcement().id, "me");
    service.clear_devices();
    assert!(service.get_devices().is_empty());
}

#[test]
fn protocol_constants() {
    assert_eq!(MULTICAST_ADDR, "224.0.0.115");
    assert_eq!(MULTICAST_PORT, 53317);
    assert_eq!(DEFAULT_PORT, 53317);
    assert_eq!(PROTOCOL_VERSION, "2.0");
    assert_eq!(ANNOUNCEMENT_INTERVAL_MS, 5000);
    assert_eq!(SESSION_TIMEOUT_SECS, 300);
}

#[test]
fn generated_configuration() {
    let config = LocalSendConfig::generate("Box".to_string(), "/dl".to_string());
    assert_eq!(config.device_id.len(), 36);
    assert_eq!(config.api_key.len(), 36);
    assert_ne!(config.device_id, config.api_key);
    assert_eq!(config.device_type, "desktop");
    assert_eq!(config.port, 53317);
    assert!(!config.use_tls);
    assert_eq!(config.download_dir, "/dl");
    let copy = config.clone();
    assert_eq!(copy.device_id, config.device_id);
    assert_eq!(copy.device_name, "Box");
}
