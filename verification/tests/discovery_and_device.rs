//! Discovery: the M-SEARCH datagram, response parsing, deduplication,
//! enrichment of a device from its own report, and the wake path.

use roku_ecp::device::power_action;
use roku_ecp::ssdp::dedup_responders;
use roku_ecp::ssdp::m_search;
use roku_ecp::ssdp::parse_ssdp_response;
use roku_ecp::ssdp::SsdpResponder;
use roku_ecp::wol::magic_packet;
use roku_ecp::client::waking_after_wake;
use roku_ecp::client::waking_step;
use roku_ecp::Device;
use roku_ecp::HTTPEVENT;
use roku_ecp::NETWORKTYPE;
use roku_ecp::POWERACTION;
use roku_ecp::POWERCOMMAND;
use roku_ecp::POWERSTATE;
use roku_ecp::WAKINGSTEP;

#[test]
fn the_m_search_datagram_names_the_ecp_target() {
    assert_eq!(
        m_search(5),
        "M-SEARCH * HTTP/1.1\r\nHOST: 239.255.255.250:1900\r\nMAN: \"ssdp:discover\"\r\nST: roku:ecp\r\nMX: 5\r\n\r\n"
    );
}

#[test]
fn a_discovery_response_yields_address_port_and_usn() {
    let text = "HTTP/1.1 200 OK\r\nLOCATION: http://192.168.1.50:8060/\r\nST: roku:ecp\r\nUSN: uuid:roku:ecp:X1\r\n\r\n";
    let r = parse_ssdp_response(text).unwrap();
    assert_eq!(r.ipv4, "192.168.1.50");
    assert_eq!(r.port, 8060);
    assert_eq!(r.usn, "uuid:roku:ecp:X1");
}

#[test]
fn discovery_header_names_are_read_case_insensitively() {
    let text = "HTTP/1.1 200 OK\r\nLocation: http://10.0.0.2:8060/\r\nUsn: uuid:roku:ecp:Z9\r\n\r\n";
    let r = parse_ssdp_response(text).unwrap();
    assert_eq!(r.ipv4, "10.0.0.2");
    assert_eq!(r.port, 8060);
    assert_eq!(r.usn, "uuid:roku:ecp:Z9");
}

#[test]
fn a_response_without_location_or_usn_is_no_responder() {
    assert!(parse_ssdp_response("HTTP/1.1 200 OK\r\nST: roku:ecp\r\n\r\n").is_none());
    assert!(parse_ssdp_response("LOCATION: http://192.168.1.50:8060/\r\n").is_none());
    assert!(parse_ssdp_response("LOCATION: ftp://192.168.1.50:8060/\r\nUSN: u\r\n").is_none());
    assert!(parse_ssdp_response("LOCATION: http://192.168.1.50:99999/\r\nUSN: u\r\n").is_none());
}

fn responder(ip: &str, port: u16, usn: &str) -> SsdpResponder {
    SsdpResponder { ipv4: ip.to_string(), port, usn: usn.to_string() }
}

fn names(v: &[SsdpResponder]) -> Vec<String> {
    v.iter().map(|r| format!("{}:{} {}", r.ipv4, r.port, r.usn)).collect()
}

#[test]
fn dedup_drops_repeats_by_usn_or_address_keeping_first_seen_order() {
    let found = vec![
        responder("192.168.1.50", 8060, "uuid:roku:ecp:X1"),
        responder("192.168.1.50", 8060, "uuid:roku:ecp:X1"),
        responder("192.168.1.60", 8060, "uuid:roku:ecp:X1"),
        responder("192.168.1.70", 8060, "uuid:roku:ecp:X2"),
        responder("192.168.1.70", 8060, "uuid:roku:ecp:X3"),
    ];
    let kept = dedup_responders(found);
    assert_eq!(
        names(&kept),
        vec![
            "192.168.1.50:8060 uuid:roku:ecp:X1".to_string(),
            "192.168.1.70:8060 uuid:roku:ecp:X2".to_string(),
        ]
    );
}

#[test]
fn dedup_is_idempotent_over_the_same_responder_set() {
    let found = vec![
        responder("192.168.1.50", 8060, "uuid:roku:ecp:X1"),
        responder("192.168.1.60", 8060, "uuid:roku:ecp:X2"),
        responder("192.168.1.50", 8060, "uuid:roku:ecp:X9"),
    ];
    let once = dedup_responders(found);
    let twice = dedup_responders(once.clone());
    assert_eq!(names(&once), names(&twice));
}

#[test]
fn the_discovery_happy_path_yields_the_enriched_device() {
    let text = "HTTP/1.1 200 OK\r\nLOCATION: http://192.168.1.50:8060/\r\nST: roku:ecp\r\nUSN: uuid:roku:ecp:X1\r\n\r\n";
    let r = parse_ssdp_response(text).unwrap();
    let mut d = Device::from_ipv4(r.ipv4.as_str(), r.port as i32);
    let body = "<device-info>\
                <friendly-device-name>Living Room</friendly-device-name>\
                <network-type>wireless</network-type>\
                <wifi-mac>AA:BB:CC:DD:EE:FF</wifi-mac>\
                <supports-ethernet>false</supports-ethernet>\
                </device-info>"
        .to_string();
    d.update_self(&Ok(body));
    let expected = Device {
        ipv4: "192.168.1.50".to_string(),
        port: 8060,
        name: "Living Room".to_string(),
        network: NETWORKTYPE::WIRELESS,
        mac_wlan: [0xAA, 0xBB, 0xCC, 0xDD, 0xEE, 0xFF],
        mac_eth: [0; 6],
    };
    assert_eq!(d, expected);
}

#[test]
fn enrichment_is_a_no_op_on_transport_failure() {
    let mut d = Device::from_ipv4("192.168.1.50", 8060);
    let before = d.clone();
    d.update_self(&Err(500));
    assert_eq!(d, before);
    d.update_self(&Err(408));
    assert_eq!(d, before);
}

#[test]
fn enrichment_is_a_no_op_on_malformed_xml() {
    let mut d = Device::from_ipv4("192.168.1.50", 8060);
    let before = d.clone();
    d.update_self(&Ok("<friendly-device-name>Half<".to_string()));
    assert_eq!(d, before);
}

#[test]
fn enrichment_stops_at_the_first_missing_required_field() {
    let mut d = Device::from_ipv4("192.168.1.50", 8060);
    let before = d.clone();
    d.update_self(&Ok("<serial-number>123</serial-number>".to_string()));
    assert_eq!(d, before);

    let mut d2 = Device::from_ipv4("192.168.1.50", 8060);
    d2.update_self(&Ok("<friendly-device-name>Den</friendly-device-name>".to_string()));
    assert_eq!(d2.name, "Den");
    assert_eq!(d2.network, NETWORKTYPE::WIRELESS);
    assert_eq!(d2.mac_wlan, [0; 6]);
}

#[test]
fn enrichment_fills_the_ethernet_mac_only_when_supported() {
    let body = "<friendly-device-name>Den</friendly-device-name>\
                <network-type>ethernet</network-type>\
                <wifi-mac>AA:BB:CC:DD:EE:FF</wifi-mac>\
                <supports-ethernet>TRUE</supports-ethernet>\
                <ethernet-mac>11:22:33:44:55:66</ethernet-mac>"
        .to_string();
    let mut d = Device::from_ipv4("10.0.0.9", 8060);
    d.update_self(&Ok(body));
    assert_eq!(d.network, NETWORKTYPE::ETHERNET);
    assert_eq!(d.mac_eth, [0x11, 0x22, 0x33, 0x44, 0x55, 0x66]);

    let body2 = "<friendly-device-name>Den</friendly-device-name>\
                 <network-type>ethernet</network-type>\
                 <wifi-mac>AA:BB:CC:DD:EE:FF</wifi-mac>\
                 <supports-ethernet>TRUE</supports-ethernet>"
        .to_string();
    let mut d2 = Device::from_ipv4("10.0.0.9", 8060);
    d2.update_self(&Ok(body2));
    assert_eq!(d2.mac_eth, [0; 6]);
}

#[test]
fn the_magic_packet_is_six_ff_bytes_then_the_mac_sixteen_times() {
    let mac = [0xAA, 0xBB, 0xCC, 0xDD, 0xEE, 0xFF];
    let p = magic_packet(&mac);
    assert_eq!(p.len(), 102);
    assert_eq!(&p[0..6], &[0xFF; 6]);
    for rep in 0..16 {
        assert_eq!(&p[6 + rep * 6..12 + rep * 6], &mac);
    }
}

#[test]
fn the_wake_goes_to_the_mac_of_the_active_link() {
    let mut d = Device::from_ipv4("10.0.0.9", 8060);
    d.mac_wlan = [1, 2, 3, 4, 5, 6];
    d.mac_eth = [9, 9, 9, 9, 9, 9];
    assert_eq!(d.wol_mac(), [1, 2, 3, 4, 5, 6]);
    d.network = NETWORKTYPE::ETHERNET;
    assert_eq!(d.wol_mac(), [9, 9, 9, 9, 9, 9]);
}

#[test]
fn a_cold_launch_wakes_once_and_reports_the_retry() {
    let d = Device::from_ipv4("192.168.1.50", 8060);
    let mut target = Device::from_ipv4("192.168.1.50", 8060);
    target.mac_wlan = [0xAA, 0xBB, 0xCC, 0xDD, 0xEE, 0xFF];
    assert!(matches!(waking_step(HTTPEVENT::TIMEOUT), WAKINGSTEP::WAKE));
    let payload = magic_packet(&target.wol_mac());
    assert_eq!(payload.len(), 102);
    assert_eq!(&payload[6..12], &[0xAA, 0xBB, 0xCC, 0xDD, 0xEE, 0xFF]);
    let retried = waking_after_wake(true, HTTPEVENT::BODY(String::new()));
    assert_eq!(d.launch_app_by_id(retried), Ok(true));
}

#[test]
fn turning_on_a_cold_device_decides_a_wake() {
    let d = Device::from_ipv4("192.168.1.50", 8060);
    let state = d.get_power_state(&Err(408));
    assert_eq!(state, POWERSTATE::OFF);
    assert_eq!(power_action(POWERCOMMAND::TURNON, state), POWERACTION::WAKEONLAN);
}

#[test]
fn info_and_apps_report_transport_failures_as_status_text() {
    let d = Device::from_ipv4("192.168.1.50", 8060);
    assert_eq!(
        d.get_info(Err(408)).unwrap_err(),
        "408 Request Timeout".to_string()
    );
    assert_eq!(
        d.get_installed_apps(Err(503)).unwrap_err(),
        "503 Service Unavailable".to_string()
    );
    assert_eq!(
        d.get_info(Ok("<broken".to_string())).unwrap_err(),
        "malformed XML".to_string()
    );
}

#[test]
fn blank_and_addressed_factories_fill_the_defaults() {
    let d = Device::new();
    assert_eq!(d.ipv4, "");
    assert_eq!(d.port, 0);
    assert_eq!(d.name, "");
    assert_eq!(d.network, NETWORKTYPE::WIRELESS);
    assert_eq!(d.mac_wlan, [0; 6]);
    assert_eq!(d.mac_eth, [0; 6]);
    let f = Device::from_ipv4("1.2.3.4", 9000);
    assert_eq!(f.ipv4, "1.2.3.4");
    assert_eq!(f.port, 9000);
}
