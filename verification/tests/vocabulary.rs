//! The closed vocabularies: buttons, power states, power commands and
//! network types, with their case-insensitive parsers and round trips.

use roku_ecp::BUTTON;
use roku_ecp::NETWORKTYPE;
use roku_ecp::POWERCOMMAND;
use roku_ecp::POWERSTATE;

fn all_buttons() -> Vec<BUTTON> {
    vec![
        BUTTON::Back,
        BUTTON::Backspace,
        BUTTON::ChannelUp,
        BUTTON::ChannelDown,
        BUTTON::Down,
        BUTTON::Enter,
        BUTTON::FindRemote,
        BUTTON::Fwd,
        BUTTON::Home,
        BUTTON::Info,
        BUTTON::InputTuner,
        BUTTON::InputHDMI1,
        BUTTON::InputHDMI2,
        BUTTON::InputHDMI3,
        BUTTON::InputHDMI4,
        BUTTON::InputAV1,
        BUTTON::InstantReplay,
        BUTTON::Left,
        BUTTON::Play,
        BUTTON::Rev,
        BUTTON::Right,
        BUTTON::Search,
        BUTTON::Select,
        BUTTON::Up,
        BUTTON::VolumeDown,
        BUTTON::VolumeMute,
        BUTTON::VolumeUp,
        BUTTON::PowerOff,
        BUTTON::PowerOn,
    ]
}

#[test]
fn button_round_trips_through_its_name() {
    for b in all_buttons() {
        assert_eq!(BUTTON::from(b.to_string()), b);
    }
}

#[test]
fn button_parser_ignores_case() {
    assert_eq!(BUTTON::from("hOmE".to_string()), BUTTON::Home);
    assert_eq!(BUTTON::from("volumeup".to_string()), BUTTON::VolumeUp);
    assert_eq!(BUTTON::from("INSTANTREPLAY".to_string()), BUTTON::InstantReplay);
    assert_eq!(BUTTON::from("inputhdmi3".to_string()), BUTTON::InputHDMI3);
}

#[test]
fn unknown_button_text_defaults_to_power_on() {
    assert_eq!(BUTTON::from("NoSuchKey".to_string()), BUTTON::PowerOn);
    assert_eq!(BUTTON::from(String::new()), BUTTON::PowerOn);
}

#[test]
fn power_state_parsing_follows_the_vocabulary() {
    assert_eq!(POWERSTATE::from("off".to_string()), POWERSTATE::OFF);
    assert_eq!(POWERSTATE::from("OFF".to_string()), POWERSTATE::OFF);
    assert_eq!(POWERSTATE::from("PowerOff".to_string()), POWERSTATE::OFF);
    assert_eq!(POWERSTATE::from("displayoff".to_string()), POWERSTATE::DISPLAYOFF);
    assert_eq!(POWERSTATE::from("on".to_string()), POWERSTATE::ON);
    assert_eq!(POWERSTATE::from("POWERON".to_string()), POWERSTATE::ON);
}

#[test]
fn power_state_parsing_falls_through_to_unknown() {
    assert_eq!(POWERSTATE::from("Suspended".to_string()), POWERSTATE::UNKNOWN);
    assert_eq!(POWERSTATE::from(String::new()), POWERSTATE::UNKNOWN);
}

#[test]
fn power_state_display_spellings() {
    assert_eq!(POWERSTATE::OFF.to_string(), "Off");
    assert_eq!(POWERSTATE::DISPLAYOFF.to_string(), "DisplayOff");
    assert_eq!(POWERSTATE::ON.to_string(), "On");
    assert_eq!(POWERSTATE::UNKNOWN.to_string(), "Unknown");
}

#[test]
fn power_command_parsing_defaults_to_turn_on() {
    assert_eq!(POWERCOMMAND::from("OFF".to_string()), POWERCOMMAND::TURNOFF);
    assert_eq!(POWERCOMMAND::from("off".to_string()), POWERCOMMAND::TURNOFF);
    assert_eq!(POWERCOMMAND::from("Toggle".to_string()), POWERCOMMAND::TOGGLE);
    assert_eq!(POWERCOMMAND::from("ON".to_string()), POWERCOMMAND::TURNON);
    assert_eq!(POWERCOMMAND::from("whatever".to_string()), POWERCOMMAND::TURNON);
}

#[test]
fn network_type_parsing_defaults_to_wireless() {
    assert_eq!(NETWORKTYPE::from("ETHERNET".to_string()), NETWORKTYPE::ETHERNET);
    assert_eq!(NETWORKTYPE::from("ethernet".to_string()), NETWORKTYPE::ETHERNET);
    assert_eq!(NETWORKTYPE::from("wireless".to_string()), NETWORKTYPE::WIRELESS);
    assert_eq!(NETWORKTYPE::from("anything".to_string()), NETWORKTYPE::WIRELESS);
    assert_eq!(NETWORKTYPE::WIRELESS.to_string(), "WIRELESS");
    assert_eq!(NETWORKTYPE::ETHERNET.to_string(), "ETHERNET");
}
