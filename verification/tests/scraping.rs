//! The XML scrapers and MAC handling: the device-info map, the apps list,
//! and the colon-separated hex addresses.

use roku_ecp::format_mac;
use roku_ecp::parse_mac;
use roku_ecp::split_mac;
use roku_ecp::xml::info_get;
use roku_ecp::xml::scrape_device_info;
use roku_ecp::apps::scrape_apps;
use roku_ecp::Device;

#[test]
fn split_mac_reads_hex_octets_in_order() {
    assert_eq!(split_mac("AA:BB:CC:DD:EE:FF"), [0xAA, 0xBB, 0xCC, 0xDD, 0xEE, 0xFF]);
    assert_eq!(split_mac("0:1:2:3:4:5"), [0, 1, 2, 3, 4, 5]);
    assert_eq!(split_mac("a1:b2:c3:d4:e5:f6"), [0xA1, 0xB2, 0xC3, 0xD4, 0xE5, 0xF6]);
}

#[test]
fn mac_round_trips_to_lowercase_canonical_form() {
    for input in ["AA:BB:CC:DD:EE:FF", "a1:B2:c3:D4:e5:F6", "00:00:00:00:00:00"] {
        let bytes = split_mac(input);
        assert_eq!(format_mac(&bytes), input.to_lowercase());
    }
}

#[test]
fn mac_round_trips_zero_padded_for_short_chunks() {
    let bytes = split_mac("0:1:2:3:4:5");
    assert_eq!(format_mac(&bytes), "00:01:02:03:04:05");
    let mixed = split_mac("A:bB:C:dD:e:F0");
    assert_eq!(format_mac(&mixed), "0a:bb:0c:dd:0e:f0");
}

#[test]
fn parse_mac_rejects_what_is_not_six_hex_octets() {
    assert!(parse_mac("GG:00:00:00:00:00").is_none());
    assert!(parse_mac("00:11:22:33:44").is_none());
    assert!(parse_mac("00:11:22:33:44:55:66").is_none());
    assert!(parse_mac("").is_none());
    assert!(parse_mac("001:11:22:33:44:55").is_none());
    assert!(parse_mac("00:11:22:33:44:").is_none());
}

#[test]
fn device_info_scrape_yields_a_flat_map() {
    let xml = "<?xml version=\"1.0\"?><device-info>\
               <friendly-device-name>Living Room</friendly-device-name>\
               <power-mode>DisplayOff</power-mode>\
               </device-info>";
    let pairs = scrape_device_info(xml).unwrap();
    assert_eq!(
        info_get(&pairs, "friendly-device-name"),
        Some("Living Room".to_string())
    );
    assert_eq!(info_get(&pairs, "power-mode"), Some("DisplayOff".to_string()));
    assert_eq!(info_get(&pairs, "serial-number"), None);
}

#[test]
fn device_info_scrape_keeps_the_later_of_repeated_tags() {
    let xml = "<a>first</a><a>second</a>";
    let pairs = scrape_device_info(xml).unwrap();
    assert_eq!(info_get(&pairs, "a"), Some("second".to_string()));
}

#[test]
fn device_info_scrape_trims_and_unescapes_text() {
    let xml = "<name>  Ben &amp; Jerry &lt;3  </name>";
    let pairs = scrape_device_info(xml).unwrap();
    assert_eq!(info_get(&pairs, "name"), Some("Ben & Jerry <3".to_string()));
}

#[test]
fn device_info_scrape_rejects_a_document_cut_inside_a_tag() {
    assert!(scrape_device_info("<friendly-device-name>Half<").is_none());
    assert!(scrape_device_info("<friendly-device").is_none());
}

#[test]
fn apps_scrape_reads_the_documented_record() {
    let xml = "<apps><app id=\"12\" type=\"appl\" version=\"1.2.3\">Netflix\u{a0}HD</app></apps>";
    let apps = scrape_apps(xml).unwrap();
    assert_eq!(apps.len(), 1);
    assert_eq!(apps[0].id, 12);
    assert_eq!(apps[0].apptype, "appl");
    assert_eq!(apps[0].version, "1.2.3");
    assert_eq!(apps[0].name, "NetflixHD");
    assert!(apps[0].icon.is_none());
}

#[test]
fn apps_scrape_keeps_document_order() {
    let xml = "<apps>\
               <app id=\"1\" type=\"appl\" version=\"1.0\">First</app>\
               <app id=\"2\" type=\"menu\" version=\"2.0\">Second</app>\
               </apps>";
    let apps = scrape_apps(xml).unwrap();
    assert_eq!(apps.len(), 2);
    assert_eq!(apps[0].id, 1);
    assert_eq!(apps[0].name, "First");
    assert_eq!(apps[1].id, 2);
    assert_eq!(apps[1].apptype, "menu");
    assert_eq!(apps[1].name, "Second");
}

#[test]
fn apps_scrape_requires_a_parsable_id() {
    assert!(scrape_apps("<apps><app id=\"twelve\" type=\"appl\" version=\"1\">X</app></apps>").is_none());
    assert!(scrape_apps("<apps><app type=\"appl\" version=\"1\">X</app></apps>").is_none());
}

#[test]
fn apps_scrape_defaults_missing_type_and_version_to_empty() {
    let apps = scrape_apps("<apps><app id=\"7\">Bare</app></apps>").unwrap();
    assert_eq!(apps.len(), 1);
    assert_eq!(apps[0].id, 7);
    assert_eq!(apps[0].apptype, "");
    assert_eq!(apps[0].version, "");
    assert_eq!(apps[0].name, "Bare");
}

#[test]
fn device_get_info_returns_the_scraped_pairs() {
    let d = Device::from_ipv4("192.168.1.50", 8060);
    let body = "<device-info><model-name>Ultra</model-name></device-info>".to_string();
    let pairs = d.get_info(Ok(body)).unwrap();
    assert_eq!(info_get(&pairs, "model-name"), Some("Ultra".to_string()));
}

#[test]
fn device_get_installed_apps_reads_the_list() {
    let d = Device::from_ipv4("192.168.1.50", 8060);
    let body = "<apps><app id=\"31012\" type=\"menu\" version=\"1.9.28\">FandangoNOW</app></apps>"
        .to_string();
    let apps = d.get_installed_apps(Ok(body)).unwrap();
    assert_eq!(apps.len(), 1);
    assert_eq!(apps[0].id, 31012);
    assert_eq!(apps[0].name, "FandangoNOW");
    assert!(apps[0].icon.is_none());
}
