//! The power state machine, the waking POST, the press fold and the
//! endpoints the remote vocabulary produces.

use roku_ecp::client::get_outcome;
use roku_ecp::client::post_outcome;
use roku_ecp::client::status_text;
use roku_ecp::client::url_of;
use roku_ecp::client::waking_after_wake;
use roku_ecp::client::waking_step;
use roku_ecp::client::KEYPRESS_TIMEOUT_SECS;
use roku_ecp::client::LAUNCH_TIMEOUT_SECS;
use roku_ecp::client::QUERY_TIMEOUT_SECS;
use roku_ecp::device::launch_endpoint;
use roku_ecp::device::wol_result;
use roku_ecp::device::power_action;
use roku_ecp::remote::button_endpoint;
use roku_ecp::remote::key_endpoint;
use roku_ecp::remote::key_endpoints;
use roku_ecp::remote::press_result;
use roku_ecp::remote::presses_outcome;
use roku_ecp::Device;
use roku_ecp::BUTTON;
use roku_ecp::HTTPEVENT;
use roku_ecp::POWERACTION;
use roku_ecp::POWERCOMMAND;
use roku_ecp::POWERSTATE;
use roku_ecp::WAKINGSTEP;

#[test]
fn a_timeout_forces_the_power_state_to_off() {
    let d = Device::from_ipv4("192.168.1.50", 8060);
    assert_eq!(d.get_power_state(&Err(408)), POWERSTATE::OFF);
}

#[test]
fn other_transport_failures_leave_the_power_state_unknown() {
    let d = Device::from_ipv4("192.168.1.50", 8060);
    assert_eq!(d.get_power_state(&Err(500)), POWERSTATE::UNKNOWN);
    assert_eq!(d.get_power_state(&Err(400)), POWERSTATE::UNKNOWN);
}

#[test]
fn power_state_is_read_from_the_power_mode_element() {
    let d = Device::from_ipv4("192.168.1.50", 8060);
    let body = "<device-info><power-mode>DisplayOff</power-mode></device-info>".to_string();
    assert_eq!(d.get_power_state(&Ok(body)), POWERSTATE::DISPLAYOFF);
}

#[test]
fn unrecognized_power_mode_text_yields_unknown_without_raising() {
    let d = Device::from_ipv4("192.168.1.50", 8060);
    let body = "<power-mode>Suspended</power-mode>".to_string();
    assert_eq!(d.get_power_state(&Ok(body)), POWERSTATE::UNKNOWN);
}

#[test]
fn turning_on_an_already_on_device_decides_no_action() {
    assert_eq!(
        power_action(POWERCOMMAND::TURNON, POWERSTATE::ON),
        POWERACTION::NOACTION
    );
}

#[test]
fn the_power_dispatch_table_holds() {
    assert_eq!(power_action(POWERCOMMAND::TURNOFF, POWERSTATE::ON), POWERACTION::PRESSPOWEROFF);
    assert_eq!(power_action(POWERCOMMAND::TURNOFF, POWERSTATE::OFF), POWERACTION::NOACTION);
    assert_eq!(power_action(POWERCOMMAND::TURNOFF, POWERSTATE::DISPLAYOFF), POWERACTION::NOACTION);
    assert_eq!(power_action(POWERCOMMAND::TURNOFF, POWERSTATE::UNKNOWN), POWERACTION::NOACTION);
    assert_eq!(power_action(POWERCOMMAND::TOGGLE, POWERSTATE::ON), POWERACTION::PRESSPOWEROFF);
    assert_eq!(power_action(POWERCOMMAND::TOGGLE, POWERSTATE::DISPLAYOFF), POWERACTION::PRESSPOWERON);
    assert_eq!(power_action(POWERCOMMAND::TOGGLE, POWERSTATE::OFF), POWERACTION::WAKEONLAN);
    assert_eq!(power_action(POWERCOMMAND::TOGGLE, POWERSTATE::UNKNOWN), POWERACTION::WAKEONLAN);
    assert_eq!(power_action(POWERCOMMAND::TURNON, POWERSTATE::DISPLAYOFF), POWERACTION::PRESSPOWERON);
    assert_eq!(power_action(POWERCOMMAND::TURNON, POWERSTATE::OFF), POWERACTION::WAKEONLAN);
    assert_eq!(power_action(POWERCOMMAND::TURNON, POWERSTATE::UNKNOWN), POWERACTION::WAKEONLAN);
}

#[test]
fn toggle_from_display_off_presses_power_on_with_five_seconds() {
    let d = Device::from_ipv4("192.168.1.50", 8060);
    let body = "<power-mode>DisplayOff</power-mode>".to_string();
    let state = d.get_power_state(&Ok(body));
    assert_eq!(state, POWERSTATE::DISPLAYOFF);
    let action = power_action(POWERCOMMAND::TOGGLE, state);
    assert_eq!(action, POWERACTION::PRESSPOWERON);
    assert_eq!(button_endpoint(&BUTTON::PowerOn), "keypress/PowerOn");
    assert_eq!(KEYPRESS_TIMEOUT_SECS, 5);
    assert_eq!(press_result(Ok(String::new())), Ok(true));
}

#[test]
fn the_waking_post_wakes_only_on_timeout_and_retries_once() {
    assert!(matches!(waking_step(HTTPEVENT::TIMEOUT), WAKINGSTEP::WAKE));
    assert!(matches!(
        waking_step(HTTPEVENT::BODY("ok".to_string())),
        WAKINGSTEP::DONE(Ok(_))
    ));
    assert!(matches!(
        waking_step(HTTPEVENT::ERRORSTATUS(503)),
        WAKINGSTEP::DONE(Err(503))
    ));
    assert_eq!(
        waking_after_wake(true, HTTPEVENT::BODY("hello".to_string())),
        Ok("hello".to_string())
    );
    assert_eq!(waking_after_wake(false, HTTPEVENT::BODY(String::new())), Err(418));
}

#[test]
fn get_and_post_outcomes_map_failures_to_statuses() {
    assert_eq!(get_outcome(HTTPEVENT::BODY("b".to_string())), Ok("b".to_string()));
    assert_eq!(get_outcome(HTTPEVENT::TIMEOUT), Err(408));
    assert_eq!(get_outcome(HTTPEVENT::ERRORSTATUS(503)), Err(503));
    assert_eq!(get_outcome(HTTPEVENT::ERRORNOSTATUS), Err(400));
    assert_eq!(post_outcome(HTTPEVENT::TIMEOUT), Err(400));
    assert_eq!(post_outcome(HTTPEVENT::ERRORSTATUS(404)), Err(404));
}

#[test]
fn presses_succeed_only_when_every_press_does() {
    let all_ok: Vec<Result<String, u16>> = vec![Ok(String::new()), Ok(String::new())];
    assert_eq!(presses_outcome(&all_ok), Ok(true));
    let empty: Vec<Result<String, u16>> = Vec::new();
    assert_eq!(presses_outcome(&empty), Ok(true));
}

#[test]
fn presses_fail_with_the_first_failing_status() {
    let runs: Vec<Result<String, u16>> =
        vec![Ok(String::new()), Err(500), Ok(String::new()), Err(404)];
    assert_eq!(
        presses_outcome(&runs),
        Err("500 Internal Server Error".to_string())
    );
}

#[test]
fn press_result_stringifies_the_status() {
    assert_eq!(press_result(Err(408)), Err("408 Request Timeout".to_string()));
    assert_eq!(press_result(Ok("body".to_string())), Ok(true));
}

#[test]
fn button_endpoints_use_the_canonical_spelling_verbatim() {
    assert_eq!(button_endpoint(&BUTTON::Home), "keypress/Home");
    assert_eq!(button_endpoint(&BUTTON::VolumeUp), "keypress/VolumeUp");
    assert_eq!(button_endpoint(&BUTTON::InputHDMI2), "keypress/InputHDMI2");
}

#[test]
fn a_literal_space_posts_to_the_percent_encoded_endpoint() {
    assert_eq!(key_endpoint(' '), "keypress/Lit_%20");
}

#[test]
fn literal_keys_percent_encode_their_utf8_bytes() {
    assert_eq!(key_endpoint('a'), "keypress/Lit_a");
    assert_eq!(key_endpoint('/'), "keypress/Lit_%2F");
    assert_eq!(key_endpoint('\u{e9}'), "keypress/Lit_%C3%A9");
    let all = key_endpoints("a b");
    assert_eq!(all.len(), 3);
    assert_eq!(all[0], "keypress/Lit_a");
    assert_eq!(all[1], "keypress/Lit_%20");
    assert_eq!(all[2], "keypress/Lit_b");
}

#[test]
fn launch_endpoints_carry_the_decimal_identifier() {
    assert_eq!(launch_endpoint(12), "launch/12");
    assert_eq!(launch_endpoint(0), "launch/0");
    assert_eq!(launch_endpoint(-3), "launch/-3");
    assert_eq!(LAUNCH_TIMEOUT_SECS, 3);
}

#[test]
fn status_texts_match_printed_status_lines() {
    assert_eq!(status_text(408), "408 Request Timeout");
    assert_eq!(status_text(400), "400 Bad Request");
    assert_eq!(status_text(418), "418 I'm a teapot");
    assert_eq!(status_text(413), "413 Payload Too Large");
    assert_eq!(status_text(511), "511 Network Authentication Required");
    assert_eq!(status_text(599), "599 <unknown status code>");
}

#[test]
fn a_failed_wake_reports_the_fixed_text() {
    assert_eq!(wol_result(true), Ok(true));
    assert_eq!(wol_result(false), Err("Unable to send Wake-on-LAN".to_string()));
}

#[test]
fn urls_have_the_fixed_shape_on_port_8060() {
    assert_eq!(
        url_of("192.168.1.50", "query/device-info"),
        "http://192.168.1.50:8060/query/device-info"
    );
    assert_eq!(QUERY_TIMEOUT_SECS, 3);
}
