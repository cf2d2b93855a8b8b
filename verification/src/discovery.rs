//! Device discovery: the multicast announcements of this device and of its
//! peers, and the active scan of an address range.
//!
//! This module builds and reads the messages and plans the probes. Sending,
//! receiving and probing are the caller's part.

use vstd::prelude::*;
use crate::config::{LocalSendConfig, PROTOCOL_VERSION};
use crate::dto::{port_or, AnnouncementMessage, RegisterResponse};
use crate::registry::{with_device, DeviceInfo, DiscoveryManager};
use crate::text::{
    all_digits, decimal_text, decimal_value, lemma_decimal_round_trip, part_texts, push_decimal,
    push_text, split_on, split_parts, string_of,
};

verus! {

/// The multicast group of the announcements.
pub const MULTICAST_ADDR: &'static str = "224.0.0.115";

/// The port of the multicast group.
pub const MULTICAST_PORT: u16 = 53317;

/// The software version that this device announces.
pub const ANNOUNCED_VERSION: &'static str = "0.1.0-peersend";

/// How the transport dealt with an announcement.
#[derive(Clone, Copy, Debug, PartialEq, Eq, Structural)]
pub enum SendOutcome {
    /// The whole message was written.
    Complete,
    /// Fewer bytes were written than the message has. This is worth a
    /// warning, not an error: the next periodic announcement makes up for it.
    Partial,
}

/// Tells from the number of bytes written whether an announcement of `len`
/// bytes went out whole.
pub fn classify_send(written: usize, len: usize) -> (outcome: SendOutcome)
    ensures
        outcome == if written == len {
            SendOutcome::Complete
        } else {
            SendOutcome::Partial
        },
{
    if written == len {
        SendOutcome::Complete
    } else {
        SendOutcome::Partial
    }
}

/// The text of an optional string: empty where there is none.
pub open spec fn text_or_empty(text: Option<String>) -> Seq<char> {
    match text {
        Some(t) => t@,
        None => Seq::<char>::empty(),
    }
}

/// Whether `device` is the record of the peer that sent `msg` from the
/// address `ip`, with `fallback` as its port where the message names none.
pub open spec fn describes_announcement(
    device: DeviceInfo,
    msg: AnnouncementMessage,
    ip: Seq<char>,
    fallback: u16,
) -> bool {
    &&& device.id == msg.id
    &&& device.name == msg.name
    &&& device.device_type == msg.device_type
    &&& device.ip@ == ip
    &&& device.port == port_or(msg.port, fallback)
    &&& device.version == msg.version
    &&& device.protocol_version == msg.protocol_version
    &&& device.announcement_id@ == text_or_empty(msg.announcement_id)
    &&& device.uses_password == msg.uses_password
}

/// Whether `device` is the record of the peer that answered a probe of the
/// address `ip` with `response`, with `fallback` as its port where the
/// response names none.
pub open spec fn describes_response(
    device: DeviceInfo,
    response: RegisterResponse,
    ip: Seq<char>,
    fallback: u16,
) -> bool {
    &&& device.id == response.id
    &&& device.name == response.name
    &&& device.device_type == response.device_type
    &&& device.ip@ == ip
    &&& device.port == port_or(response.port, fallback)
    &&& device.version == response.version
    &&& device.protocol_version == response.protocol_version
    &&& device.announcement_id@ == text_or_empty(response.announcement_id)
    &&& device.uses_password == response.uses_password
}

fn text_of(text: &Option<String>) -> (out: String)
    ensures
        out@ == text_or_empty(*text),
{
    match text {
        Some(t) => t.clone(),
        None => String::new(),
    }
}

/// The record of the peer that sent `msg` from the address `ip`.
pub fn device_from_announcement(
    msg: &AnnouncementMessage,
    ip: &str,
    fallback_port: u16,
) -> (device: DeviceInfo)
    ensures
        describes_announcement(device, *msg, ip@, fallback_port),
{
    let port = match msg.port {
        Some(p) => p,
        None => fallback_port,
    };
    DeviceInfo {
        id: msg.id.clone(),
        name: msg.name.clone(),
        device_type: msg.device_type.clone(),
        ip: ip.to_owned(),
        port,
        version: msg.version.clone(),
        protocol_version: msg.protocol_version.clone(),
        announcement_id: text_of(&msg.announcement_id),
        uses_password: msg.uses_password,
    }
}

/// The record of the peer that answered a probe of `ip` with `response`.
pub fn device_from_response(
    response: &RegisterResponse,
    ip: &str,
    fallback_port: u16,
) -> (device: DeviceInfo)
    ensures
        describes_response(device, *response, ip@, fallback_port),
{
    let port = match response.port {
        Some(p) => p,
        None => fallback_port,
    };
    DeviceInfo {
        id: response.id.clone(),
        name: response.name.clone(),
        device_type: response.device_type.clone(),
        ip: ip.to_owned(),
        port,
        version: response.version.clone(),
        protocol_version: response.protocol_version.clone(),
        announcement_id: text_of(&response.announcement_id),
        uses_password: response.uses_password,
    }
}

/// The announcer and listener of the multicast group.
#[derive(Debug)]
pub struct UdpDiscoverer {
    config: LocalSendConfig,
}

impl UdpDiscoverer {
    /// The configuration of this device.
    pub closed spec fn config(&self) -> LocalSendConfig {
        self.config
    }

    /// A discoverer for the device that `config` describes.
    pub fn new(config: LocalSendConfig) -> (discoverer: Self)
        ensures
            discoverer.config() == config,
    {
        UdpDiscoverer { config }
    }

    /// The announcement of this device: its identity, the protocol version,
    /// and its port.
    pub fn announcement(&self) -> (msg: AnnouncementMessage)
        ensures
            msg.msg_type@ == "announce"@,
            msg.id == self.config().device_id,
            msg.device_type == self.config().device_type,
            msg.name == self.config().device_name,
            msg.version@ == ANNOUNCED_VERSION@,
            msg.protocol_version@ == PROTOCOL_VERSION@,
            msg.download,
            msg.port == Some(self.config().port),
            msg.announcement_id is None,
            !msg.uses_password,
    {
        AnnouncementMessage {
            msg_type: "announce".to_owned(),
            id: self.config.device_id.clone(),
            device_type: self.config.device_type.clone(),
            name: self.config.device_name.clone(),
            version: ANNOUNCED_VERSION.to_owned(),
            protocol_version: PROTOCOL_VERSION.to_owned(),
            download: true,
            port: Some(self.config.port),
            announcement_id: None,
            uses_password: false,
        }
    }

    /// Takes in an announcement that arrived from the address `ip`. An
    /// announcement of this device itself is discarded. Any other is turned
    /// into a device record, which is added to `manager` unless its id is
    /// known there already, and returned.
    pub fn receive(
        &self,
        manager: &mut DiscoveryManager,
        msg: &AnnouncementMessage,
        ip: &str,
    ) -> (seen: Option<DeviceInfo>)
        ensures
            match seen {
                Some(device) => {
                    &&& msg.id@ != self.config().device_id@
                    &&& describes_announcement(device, *msg, ip@, self.config().port)
                    &&& final(manager)@ == with_device(old(manager)@, device)
                },
                None => {
                    &&& msg.id@ == self.config().device_id@
                    &&& final(manager)@ == old(manager)@
                },
            },
            old(manager).well_formed() ==> final(manager).well_formed(),
    {
        if msg.id == self.config.device_id {
            return None;
        }
        let device = device_from_announcement(msg, ip, self.config.port);
        let seen = device.clone();
        manager.add_device(device);
        Some(seen)
    }
}

/// The parts of `text` between its dots: one more than it has dots.
pub open spec fn dotted_parts(text: Seq<char>) -> Seq<Seq<char>> {
    split_parts(text, '.')
}

/// The digits of a numeral: what follows its optional plus sign.
pub open spec fn unsigned_digits(text: Seq<char>) -> Seq<char> {
    if text.len() > 0 && text[0] == '+' {
        text.subrange(1, text.len() as int)
    } else {
        text
    }
}

/// The octet that `text` writes: the value of a decimal numeral of at most
/// 255, with or without a plus sign, and 0 for anything else.
pub open spec fn octet_of(text: Seq<char>) -> u8 {
    let digits = unsigned_digits(text);
    if digits.len() > 0 && all_digits(digits) && decimal_value(digits) <= 255 {
        decimal_value(digits) as u8
    } else {
        0
    }
}

/// The four octets of the base address `base_ip`, or `None` unless it has
/// exactly four parts.
pub open spec fn base_octets(base_ip: Seq<char>) -> Option<(u8, u8, u8, u8)> {
    let parts = dotted_parts(base_ip);
    if parts.len() == 4 {
        Some((octet_of(parts[0]), octet_of(parts[1]), octet_of(parts[2]), octet_of(parts[3])))
    } else {
        None
    }
}

/// The number of candidates of a scan of `range` addresses above the last
/// octet `last`: the range, cut where the octet would pass 255.
pub open spec fn candidate_count(last: u8, range: u8) -> nat {
    if last + range <= 255 {
        range as nat
    } else {
        (255 - last) as nat
    }
}

/// The dotted text of an address.
pub open spec fn address_text(a: u8, b: u8, c: u8, d: u8) -> Seq<char> {
    decimal_text(a as nat) + seq!['.'] + decimal_text(b as nat) + seq!['.'] + decimal_text(
        c as nat,
    ) + seq!['.'] + decimal_text(d as nat)
}

/// The URL of the registration endpoint of the host `ip`.
pub open spec fn probe_url_of(ip: Seq<char>, port: u16) -> Seq<char> {
    "http://"@ + ip + seq![':'] + decimal_text(port as nat) + "/api/v1/localsend/register"@
}

/// The addresses that a scan of `range` addresses above `base_ip` probes,
/// in order: the last octet goes up by one from address to address.
pub open spec fn scan_addresses(base_ip: Seq<char>, range: u8) -> Seq<Seq<char>> {
    match base_octets(base_ip) {
        Some((a, b, c, d)) => Seq::new(
            candidate_count(d, range),
            |i: int| address_text(a, b, c, (d + 1 + i) as u8),
        ),
        None => Seq::<Seq<char>>::empty(),
    }
}

/// One candidate of a scan: its address and the URL to probe.
#[derive(Debug, Clone)]
pub struct ProbeTarget {
    pub ip: String,
    pub url: String,
}

/// Splits `text` at its dots.
pub fn split_dotted(text: &str) -> (parts: Vec<Vec<char>>)
    ensures
        part_texts(parts@) == dotted_parts(text@),
{
    split_on(text, '.')
}

proof fn lemma_decimal_value_grows(digits: Seq<char>, k: int)
    requires
        0 <= k <= digits.len(),
    ensures
        decimal_value(digits.subrange(0, k)) <= decimal_value(digits),
    decreases digits.len() - k,
{
    if k < digits.len() {
        lemma_decimal_value_grows(digits, k + 1);
        let longer = digits.subrange(0, k + 1);
        assert(longer.drop_last() =~= digits.subrange(0, k));
        assert(decimal_value(longer) >= decimal_value(digits.subrange(0, k))) by (nonlinear_arith)
            requires
                decimal_value(longer) == decimal_value(digits.subrange(0, k)) * 10
                    + crate::text::digit_value(longer.last()),
        ;
    } else {
        assert(digits.subrange(0, k) =~= digits);
    }
}

/// Reads an octet: a decimal numeral of at most 255, with or without a plus
/// sign. Anything else reads as 0.
pub fn parse_octet(text: &[char]) -> (value: u8)
    ensures
        value == octet_of(text@),
{
    let n = text.len();
    let start: usize = if n > 0 && text[0] == '+' {
        1
    } else {
        0
    };
    let ghost digits = unsigned_digits(text@);
    proof {
        assert(digits =~= text@.subrange(start as int, n as int));
    }
    if start == n {
        return 0;
    }
    let mut acc: u32 = 0;
    let mut i: usize = start;
    proof {
        assert(digits.subrange(0, 0) =~= Seq::<char>::empty());
    }
    while i < n
        invariant
            n == text@.len(),
            start <= i <= n,
            digits == unsigned_digits(text@),
            digits == text@.subrange(start as int, n as int),
            all_digits(digits.subrange(0, i - start)),
            acc == decimal_value(digits.subrange(0, i - start)),
            acc <= 255,
        decreases n - i,
    {
        let c = text[i];
        let ghost k = i - start;
        proof {
            assert(digits[k] == c);
        }
        if !(c >= '0' && c <= '9') {
            proof {
                assert(!crate::text::is_digit(digits[k]));
            }
            return 0;
        }
        let d: u32 = c as u32 - 48;
        let ghost before = acc;
        acc = acc * 10 + d;
        proof {
            let longer = digits.subrange(0, k + 1);
            assert(longer.drop_last() =~= digits.subrange(0, k));
            assert(longer.last() == c);
            assert(crate::text::digit_value(c) == d);
            assert(decimal_value(longer) == before * 10 + d);
            assert(all_digits(longer)) by {
                assert forall|j: int| 0 <= j < longer.len() implies crate::text::is_digit(
                    #[trigger] longer[j],
                ) by {
                    if j < k {
                        assert(digits.subrange(0, k)[j] == longer[j]);
                    }
                }
            }
        }
        if acc > 255 {
            proof {
                lemma_decimal_value_grows(digits, k + 1);
            }
            return 0;
        }
        i = i + 1;
    }
    proof {
        assert(digits.subrange(0, i - start) =~= digits);
    }
    acc as u8
}

/// The numeral of an octet reads back as that octet.
pub proof fn lemma_octet_round_trip(n: u8)
    ensures
        octet_of(decimal_text(n as nat)) == n,
{
    let text = decimal_text(n as nat);
    lemma_decimal_round_trip(n as nat);
    assert(crate::text::is_digit(text[0]));
    assert(unsigned_digits(text) == text);
}

/// The dotted text of the address `a.b.c.d`.
pub fn format_address(a: u8, b: u8, c: u8, d: u8) -> (text: String)
    ensures
        text@ == address_text(a, b, c, d),
{
    let mut chars: Vec<char> = Vec::new();
    push_decimal(&mut chars, a as u64);
    chars.push('.');
    push_decimal(&mut chars, b as u64);
    chars.push('.');
    push_decimal(&mut chars, c as u64);
    chars.push('.');
    push_decimal(&mut chars, d as u64);
    proof {
        assert(chars@ =~= address_text(a, b, c, d));
    }
    string_of(chars.as_slice())
}

/// The URL of the registration endpoint of the host `ip`.
pub fn probe_url(ip: &str, port: u16) -> (url: String)
    ensures
        url@ == probe_url_of(ip@, port),
{
    let mut chars: Vec<char> = Vec::new();
    push_text(&mut chars, "http://");
    push_text(&mut chars, ip);
    chars.push(':');
    push_decimal(&mut chars, port as u64);
    push_text(&mut chars, "/api/v1/localsend/register");
    proof {
        assert(chars@ =~= probe_url_of(ip@, port));
    }
    string_of(chars.as_slice())
}

/// The prober of an address range.
#[derive(Debug)]
pub struct HttpDiscoverer {
    config: LocalSendConfig,
}

impl HttpDiscoverer {
    /// The configuration of this device.
    pub closed spec fn config(&self) -> LocalSendConfig {
        self.config
    }

    /// A prober for the device that `config` describes.
    pub fn new(config: LocalSendConfig) -> (discoverer: Self)
        ensures
            discoverer.config() == config,
    {
        HttpDiscoverer { config }
    }

    /// Plans the scan of `range` addresses above `base_ip`: one probe for
    /// each address whose last octet is that of `base_ip` plus 1, 2, and so
    /// on up to `range`, as long as the octet stays within 255. A base
    /// address that does not have four parts gives no probe. A part that is
    /// no octet counts as 0.
    pub fn scan_range(&self, base_ip: &str, range: u8) -> (targets: Vec<ProbeTarget>)
        ensures
            targets@.len() == scan_addresses(base_ip@, range).len(),
            targets@.len() <= range,
            forall|i: int|
                0 <= i < targets@.len() ==> {
                    &&& (#[trigger] targets@[i]).ip@ == scan_addresses(base_ip@, range)[i]
                    &&& targets@[i].url@ == probe_url_of(
                        scan_addresses(base_ip@, range)[i],
                        self.config().port,
                    )
                },
    {
        let parts = split_dotted(base_ip);
        let mut targets: Vec<ProbeTarget> = Vec::new();
        proof {
            assert(part_texts(parts@).len() == parts@.len());
        }
        if parts.len() != 4 {
            return targets;
        }
        proof {
            assert(part_texts(parts@)[0] == parts@[0]@);
            assert(part_texts(parts@)[1] == parts@[1]@);
            assert(part_texts(parts@)[2] == parts@[2]@);
            assert(part_texts(parts@)[3] == parts@[3]@);
        }
        let a = parse_octet(parts[0].as_slice());
        let b = parse_octet(parts[1].as_slice());
        let c = parse_octet(parts[2].as_slice());
        let d = parse_octet(parts[3].as_slice());
        let count: u8 = if range <= 255 - d {
            range
        } else {
            255 - d
        };
        let ghost plan = scan_addresses(base_ip@, range);
        let mut i: u8 = 0;
        while i < count
            invariant
                base_octets(base_ip@) == Some((a, b, c, d)),
                plan == scan_addresses(base_ip@, range),
                count == candidate_count(d, range),
                count <= range,
                d + count <= 255,
                i <= count,
                targets@.len() == i,
                forall|j: int|
                    0 <= j < i ==> {
                        &&& (#[trigger] targets@[j]).ip@ == plan[j]
                        &&& targets@[j].url@ == probe_url_of(plan[j], self.config().port)
                    },
            decreases count - i,
        {
            let ip = format_address(a, b, c, d + 1 + i);
            let url = probe_url(ip.as_str(), self.config.port);
            targets.push(ProbeTarget { ip, url });
            i = i + 1;
        }
        targets
    }

    /// The URL to probe the host `ip` at.
    pub fn probe_url(&self, ip: &str) -> (url: String)
        ensures
            url@ == probe_url_of(ip@, self.config().port),
    {
        probe_url(ip, self.config.port)
    }

    /// Takes in the well-formed answer of the host `ip` to a probe: the
    /// record of that device, which is added to `manager` unless its id is
    /// known there already, and returned.
    pub fn record_probe(
        &self,
        manager: &mut DiscoveryManager,
        response: &RegisterResponse,
        ip: &str,
    ) -> (device: DeviceInfo)
        ensures
            describes_response(device, *response, ip@, self.config().port),
            final(manager)@ == with_device(old(manager)@, device),
            old(manager).well_formed() ==> final(manager).well_formed(),
    {
        let device = device_from_response(response, ip, self.config.port);
        let seen = device.clone();
        manager.add_device(device);
        seen
    }

    /// The record of the device that answered a probe of `ip` with
    /// `response`.
    pub fn check_device(&self, response: &RegisterResponse, ip: &str) -> (device: DeviceInfo)
        ensures
            describes_response(device, *response, ip@, self.config().port),
    {
        device_from_response(response, ip, self.config.port)
    }
}

/// Discovery as a whole: the registry of peers with the two ways that
/// fill it.
#[derive(Debug)]
pub struct DiscoveryService {
    udp_discoverer: UdpDiscoverer,
    http_discoverer: HttpDiscoverer,
    manager: DiscoveryManager,
}

impl DiscoveryService {
    /// The configuration of this device.
    pub closed spec fn config(&self) -> LocalSendConfig {
        self.udp_discoverer.config()
    }

    /// The known devices, in the order in which their ids were first seen.
    pub closed spec fn devices(&self) -> Seq<DeviceInfo> {
        self.manager@
    }

    /// The invariant of the service: both discoverers work for the same
    /// device, and the registry holds no id twice.
    pub closed spec fn well_formed(&self) -> bool {
        &&& self.http_discoverer.config() == self.udp_discoverer.config()
        &&& self.manager.well_formed()
    }

    /// A service for the device that `config` describes, with an empty
    /// registry.
    pub fn new(config: LocalSendConfig) -> (service: Self)
        ensures
            service.config() == config,
            service.devices() == Seq::<DeviceInfo>::empty(),
            service.well_formed(),
    {
        let copy = config.clone();
        DiscoveryService {
            udp_discoverer: UdpDiscoverer::new(config),
            http_discoverer: HttpDiscoverer::new(copy),
            manager: DiscoveryManager::new(),
        }
    }

    /// The registry of the service.
    pub fn get_manager(&self) -> (manager: &DiscoveryManager)
        ensures
            manager@ == self.devices(),
    {
        &self.manager
    }

    /// A snapshot copy of the known devices.
    pub fn get_devices(&self) -> (devices: Vec<DeviceInfo>)
        ensures
            devices@ == self.devices(),
    {
        self.manager.get_devices()
    }

    /// Forgets every device.
    pub fn clear_devices(&mut self)
        ensures
            final(self).devices() == Seq::<DeviceInfo>::empty(),
            final(self).config() == old(self).config(),
            old(self).well_formed() ==> final(self).well_formed(),
    {
        self.manager.clear();
    }

    /// The announcement of this device.
    pub fn announcement(&self) -> (msg: AnnouncementMessage)
        ensures
            msg.msg_type@ == "announce"@,
            msg.id == self.config().device_id,
            msg.device_type == self.config().device_type,
            msg.name == self.config().device_name,
            msg.version@ == ANNOUNCED_VERSION@,
            msg.protocol_version@ == PROTOCOL_VERSION@,
            msg.download,
            msg.port == Some(self.config().port),
            msg.announcement_id is None,
            !msg.uses_password,
    {
        self.udp_discoverer.announcement()
    }

    /// Takes in an announcement that arrived from the address `ip`; see
    /// `UdpDiscoverer::receive`.
    pub fn on_announcement(
        &mut self,
        msg: &AnnouncementMessage,
        ip: &str,
    ) -> (seen: Option<DeviceInfo>)
        ensures
            final(self).config() == old(self).config(),
            match seen {
                Some(device) => {
                    &&& msg.id@ != old(self).config().device_id@
                    &&& describes_announcement(device, *msg, ip@, old(self).config().port)
                    &&& final(self).devices() == with_device(old(self).devices(), device)
                },
                None => {
                    &&& msg.id@ == old(self).config().device_id@
                    &&& final(self).devices() == old(self).devices()
                },
            },
            old(self).well_formed() ==> final(self).well_formed(),
    {
        self.udp_discoverer.receive(&mut self.manager, msg, ip)
    }

    /// Plans the scan of `range` addresses above `base_ip`; see
    /// `HttpDiscoverer::scan_range`.
    pub fn scan_range(&self, base_ip: &str, range: u8) -> (targets: Vec<ProbeTarget>)
        requires
            self.well_formed(),
        ensures
            targets@.len() == scan_addresses(base_ip@, range).len(),
            targets@.len() <= range,
            forall|i: int|
                0 <= i < targets@.len() ==> {
                    &&& (#[trigger] targets@[i]).ip@ == scan_addresses(base_ip@, range)[i]
                    &&& targets@[i].url@ == probe_url_of(
                        scan_addresses(base_ip@, range)[i],
                        self.config().port,
                    )
                },
    {
        self.http_discoverer.scan_range(base_ip, range)
    }

    /// Takes in the well-formed answer of the host `ip` to a probe; see
    /// `HttpDiscoverer::record_probe`.
    pub fn on_probe_response(
        &mut self,
        response: &RegisterResponse,
        ip: &str,
    ) -> (device: DeviceInfo)
        requires
            old(self).well_formed(),
        ensures
            final(self).config() == old(self).config(),
            describes_response(device, *response, ip@, old(self).config().port),
            final(self).devices() == with_device(old(self).devices(), device),
            final(self).well_formed(),
    {
        self.http_discoverer.record_probe(&mut self.manager, response, ip)
    }
}

} // verus!
