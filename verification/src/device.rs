//! The device model: the value object for one ECP device, the closed
//! vocabularies around power and network state, the power state machine,
//! and the enrichment step that fills a device in from its own
//! device-info report.

use vstd::prelude::*;
use crate::strutil::to_upper;
use crate::strutil::upper_seq;
use crate::strutil::dec_rep_signed;
use crate::strutil::i32_to_string;
use crate::xml::device_info_spec;
use crate::xml::lookup_pairs;
use crate::xml::pairs_view;
use crate::xml::scrape_device_info;
use crate::xml::info_get;
use crate::mac::mac_parse_spec;
use crate::mac::parse_mac;
use crate::apps::App;
use crate::apps::apps_spec;
use crate::apps::apps_view;
use crate::apps::scrape_apps;
use crate::client::status_text;
use crate::client::status_text_spec;

verus! {

/// The kinds of network link a device can report.
#[derive(Clone, Copy, Debug, PartialEq, Eq, Structural)]
#[allow(non_camel_case_types)]
pub enum NETWORKTYPE {
    /// A wireless link, the default.
    WIRELESS,
    /// A wired link.
    ETHERNET,
}

impl NETWORKTYPE {
    /// The canonical spelling of this link kind.
    pub open spec fn name_spec(self) -> Seq<char> {
        match self {
            NETWORKTYPE::WIRELESS => "WIRELESS"@,
            NETWORKTYPE::ETHERNET => "ETHERNET"@,
        }
    }

    /// Renders the canonical spelling.
    pub fn to_string(&self) -> (r: String)
        ensures
            r@ == self.name_spec(),
    {
        match self {
            NETWORKTYPE::WIRELESS => String::from_str("WIRELESS"),
            NETWORKTYPE::ETHERNET => String::from_str("ETHERNET"),
        }
    }

    /// The link kind a reported string stands for, case-insensitively;
    /// anything unrecognized is wireless.
    pub open spec fn parse_spec(s: Seq<char>) -> NETWORKTYPE {
        if upper_seq(s) == "ETHERNET"@ {
            NETWORKTYPE::ETHERNET
        } else {
            NETWORKTYPE::WIRELESS
        }
    }

    /// Parses a reported link kind.
    pub fn from(s: String) -> (r: NETWORKTYPE)
        ensures
            r == NETWORKTYPE::parse_spec(s@),
    {
        let u = to_upper(s.as_str());
        if u == String::from_str("ETHERNET") {
            NETWORKTYPE::ETHERNET
        } else {
            NETWORKTYPE::WIRELESS
        }
    }
}

/// The power states a device can be observed in.
#[derive(Clone, Copy, Debug, PartialEq, Eq, Structural)]
#[allow(non_camel_case_types)]
pub enum POWERSTATE {
    /// Powered down; only Wake-on-LAN reaches it.
    OFF,
    /// Screen off, hardware up; the API still answers.
    DISPLAYOFF,
    /// Screen on.
    ON,
    /// Anything the device reported that is none of the above.
    UNKNOWN,
}

impl POWERSTATE {
    /// The display spelling of this state.
    pub open spec fn name_spec(self) -> Seq<char> {
        match self {
            POWERSTATE::OFF => "Off"@,
            POWERSTATE::DISPLAYOFF => "DisplayOff"@,
            POWERSTATE::ON => "On"@,
            POWERSTATE::UNKNOWN => "Unknown"@,
        }
    }

    /// Renders the display spelling.
    pub fn to_string(&self) -> (r: String)
        ensures
            r@ == self.name_spec(),
    {
        match self {
            POWERSTATE::OFF => String::from_str("Off"),
            POWERSTATE::DISPLAYOFF => String::from_str("DisplayOff"),
            POWERSTATE::ON => String::from_str("On"),
            POWERSTATE::UNKNOWN => String::from_str("Unknown"),
        }
    }

    /// The state a reported string stands for, case-insensitively:
    /// `OFF` and `POWEROFF` are off, `DISPLAYOFF` is display-off, `ON` and
    /// `POWERON` are on, anything else is unknown.
    pub open spec fn parse_spec(s: Seq<char>) -> POWERSTATE {
        if upper_seq(s) == "OFF"@ || upper_seq(s) == "POWEROFF"@ {
            POWERSTATE::OFF
        } else if upper_seq(s) == "DISPLAYOFF"@ {
            POWERSTATE::DISPLAYOFF
        } else if upper_seq(s) == "ON"@ || upper_seq(s) == "POWERON"@ {
            POWERSTATE::ON
        } else {
            POWERSTATE::UNKNOWN
        }
    }

    /// Parses a reported power state.
    pub fn from(s: String) -> (r: POWERSTATE)
        ensures
            r == POWERSTATE::parse_spec(s@),
    {
        let u = to_upper(s.as_str());
        if u == String::from_str("OFF") || u == String::from_str("POWEROFF") {
            POWERSTATE::OFF
        } else if u == String::from_str("DISPLAYOFF") {
            POWERSTATE::DISPLAYOFF
        } else if u == String::from_str("ON") || u == String::from_str("POWERON") {
            POWERSTATE::ON
        } else {
            POWERSTATE::UNKNOWN
        }
    }
}

/// The commands that change a device's power state.
#[derive(Clone, Copy, Debug, PartialEq, Eq, Structural)]
#[allow(non_camel_case_types)]
pub enum POWERCOMMAND {
    /// Power the device off.
    TURNOFF,
    /// Power the device on.
    TURNON,
    /// Set the opposite state.
    TOGGLE,
}

impl POWERCOMMAND {
    /// The command a string stands for, case-insensitively: `OFF` turns
    /// off, `TOGGLE` toggles, anything else turns on.
    pub open spec fn parse_spec(s: Seq<char>) -> POWERCOMMAND {
        if upper_seq(s) == "OFF"@ {
            POWERCOMMAND::TURNOFF
        } else if upper_seq(s) == "TOGGLE"@ {
            POWERCOMMAND::TOGGLE
        } else {
            POWERCOMMAND::TURNON
        }
    }

    /// Parses a textual power command.
    pub fn from(s: String) -> (r: POWERCOMMAND)
        ensures
            r == POWERCOMMAND::parse_spec(s@),
    {
        let u = to_upper(s.as_str());
        if u == String::from_str("OFF") {
            POWERCOMMAND::TURNOFF
        } else if u == String::from_str("TOGGLE") {
            POWERCOMMAND::TOGGLE
        } else {
            POWERCOMMAND::TURNON
        }
    }
}

/// What the power state machine decides to do for one command, given the
/// state it just read.
#[derive(Clone, Copy, Debug, PartialEq, Eq, Structural)]
#[allow(non_camel_case_types)]
pub enum POWERACTION {
    /// Nothing to send; the command already holds.
    NOACTION,
    /// POST `keypress/PowerOff`.
    PRESSPOWEROFF,
    /// POST the undocumented `keypress/PowerOn`.
    PRESSPOWERON,
    /// Send a Wake-on-LAN magic packet to the device's link MAC.
    WAKEONLAN,
}

/// The dispatch table of the power state machine: turning off presses
/// PowerOff only from on; toggling presses PowerOff from on and PowerOn
/// from display-off; turning on presses PowerOn from display-off; a device
/// that is off or unknown is woken over the LAN; everything else is
/// already settled.
pub open spec fn power_action_spec(cmd: POWERCOMMAND, state: POWERSTATE) -> POWERACTION {
    match cmd {
        POWERCOMMAND::TURNOFF => if state == POWERSTATE::ON {
            POWERACTION::PRESSPOWEROFF
        } else {
            POWERACTION::NOACTION
        },
        POWERCOMMAND::TOGGLE => match state {
            POWERSTATE::ON => POWERACTION::PRESSPOWEROFF,
            POWERSTATE::DISPLAYOFF => POWERACTION::PRESSPOWERON,
            _ => POWERACTION::WAKEONLAN,
        },
        POWERCOMMAND::TURNON => match state {
            POWERSTATE::DISPLAYOFF => POWERACTION::PRESSPOWERON,
            POWERSTATE::ON => POWERACTION::NOACTION,
            _ => POWERACTION::WAKEONLAN,
        },
    }
}

/// Decides what to send for `cmd` given the state just read. Turning on a
/// device that already reports on decides no action at all: no network
/// call follows the state read.
pub fn power_action(cmd: POWERCOMMAND, state: POWERSTATE) -> (a: POWERACTION)
    ensures
        a == power_action_spec(cmd, state),
        cmd == POWERCOMMAND::TURNON && state == POWERSTATE::ON ==> a == POWERACTION::NOACTION,
{
    match cmd {
        POWERCOMMAND::TURNOFF => if state == POWERSTATE::ON {
            POWERACTION::PRESSPOWEROFF
        } else {
            POWERACTION::NOACTION
        },
        POWERCOMMAND::TOGGLE => match state {
            POWERSTATE::ON => POWERACTION::PRESSPOWEROFF,
            POWERSTATE::DISPLAYOFF => POWERACTION::PRESSPOWERON,
            _ => POWERACTION::WAKEONLAN,
        },
        POWERCOMMAND::TURNON => match state {
            POWERSTATE::DISPLAYOFF => POWERACTION::PRESSPOWERON,
            POWERSTATE::ON => POWERACTION::NOACTION,
            _ => POWERACTION::WAKEONLAN,
        },
    }
}

/// What a wake reports: true when the magic packet went out, the fixed
/// Wake-on-LAN failure text when the send failed.
pub fn wol_result(sent: bool) -> (r: Result<bool, String>)
    ensures
        sent ==> (r matches Ok(b) && b),
        !sent ==> (r matches Err(e) && e@ == "Unable to send Wake-on-LAN"@),
{
    if sent {
        Ok(true)
    } else {
        Err(String::from_str("Unable to send Wake-on-LAN"))
    }
}

/// One ECP device: its address, display name, link kind and MAC
/// addresses. An all-zero MAC means unknown or unsupported.
#[derive(Clone, Debug)]
pub struct Device {
    /// The dotted-quad IPv4 address of the ECP server.
    pub ipv4: String,
    /// The ECP port; 8060 on live devices, free on test stand-ins.
    pub port: i32,
    /// The display name; empty until enriched.
    pub name: String,
    /// The link kind; wireless until enriched.
    pub network: NETWORKTYPE,
    /// The wireless MAC.
    pub mac_wlan: [u8; 6],
    /// The wired MAC; filled only when the device supports ethernet.
    pub mac_eth: [u8; 6],
}

impl PartialEq for Device {
    /// Field-by-field equality.
    fn eq(&self, other: &Device) -> (r: bool) {
        let macs_eq = self.mac_wlan[0] == other.mac_wlan[0] && self.mac_wlan[1]
            == other.mac_wlan[1] && self.mac_wlan[2] == other.mac_wlan[2] && self.mac_wlan[3]
            == other.mac_wlan[3] && self.mac_wlan[4] == other.mac_wlan[4] && self.mac_wlan[5]
            == other.mac_wlan[5] && self.mac_eth[0] == other.mac_eth[0] && self.mac_eth[1]
            == other.mac_eth[1] && self.mac_eth[2] == other.mac_eth[2] && self.mac_eth[3]
            == other.mac_eth[3] && self.mac_eth[4] == other.mac_eth[4] && self.mac_eth[5]
            == other.mac_eth[5];
        proof {
            if macs_eq {
                assert(self.mac_wlan@ =~= other.mac_wlan@);
                assert(self.mac_eth@ =~= other.mac_eth@);
            }
        }
        macs_eq && self.ipv4 == other.ipv4 && self.port == other.port && self.name == other.name
            && self.network == other.network
    }
}

impl vstd::std_specs::cmp::PartialEqSpecImpl for Device {
    open spec fn obeys_eq_spec() -> bool {
        true
    }

    open spec fn eq_spec(&self, other: &Device) -> bool {
        self.ipv4@ == other.ipv4@ && self.port == other.port && self.name@ == other.name@
            && self.network == other.network && self.mac_wlan@ == other.mac_wlan@ && self.mac_eth@
            == other.mac_eth@
    }
}

impl Device {
    /// A blank device: no address, port zero, wireless, unknown MACs.
    pub fn new() -> (d: Device)
        ensures
            d.ipv4@ == Seq::<char>::empty(),
            d.port == 0,
            d.name@ == Seq::<char>::empty(),
            d.network == NETWORKTYPE::WIRELESS,
            d.mac_wlan@ == seq![0u8, 0u8, 0u8, 0u8, 0u8, 0u8],
            d.mac_eth@ == seq![0u8, 0u8, 0u8, 0u8, 0u8, 0u8],
    {
        let d = Device {
            ipv4: String::new(),
            port: 0,
            name: String::new(),
            network: NETWORKTYPE::WIRELESS,
            mac_wlan: [0, 0, 0, 0, 0, 0],
            mac_eth: [0, 0, 0, 0, 0, 0],
        };
        assert(d.mac_wlan@ =~= seq![0u8, 0u8, 0u8, 0u8, 0u8, 0u8]);
        assert(d.mac_eth@ =~= seq![0u8, 0u8, 0u8, 0u8, 0u8, 0u8]);
        d
    }

    /// A device known only by address and port, to be enriched later.
    pub fn from_ipv4(ipv4: &str, port: i32) -> (d: Device)
        ensures
            d.ipv4@ == ipv4@,
            d.port == port,
            d.name@ == Seq::<char>::empty(),
            d.network == NETWORKTYPE::WIRELESS,
            d.mac_wlan@ == seq![0u8, 0u8, 0u8, 0u8, 0u8, 0u8],
            d.mac_eth@ == seq![0u8, 0u8, 0u8, 0u8, 0u8, 0u8],
    {
        let d = Device {
            ipv4: ipv4.to_owned(),
            port,
            name: String::new(),
            network: NETWORKTYPE::WIRELESS,
            mac_wlan: [0, 0, 0, 0, 0, 0],
            mac_eth: [0, 0, 0, 0, 0, 0],
        };
        assert(d.mac_wlan@ =~= seq![0u8, 0u8, 0u8, 0u8, 0u8, 0u8]);
        assert(d.mac_eth@ =~= seq![0u8, 0u8, 0u8, 0u8, 0u8, 0u8]);
        d
    }

    /// The MAC a wake should go to: the wired one on a wired link, the
    /// wireless one otherwise.
    pub open spec fn wol_mac_spec(self) -> Seq<u8> {
        if self.network == NETWORKTYPE::ETHERNET {
            self.mac_eth@
        } else {
            self.mac_wlan@
        }
    }

    /// Picks the MAC a wake should go to.
    pub fn wol_mac(&self) -> (m: [u8; 6])
        ensures
            m@ == self.wol_mac_spec(),
    {
        if self.network == NETWORKTYPE::ETHERNET {
            self.mac_eth
        } else {
            self.mac_wlan
        }
    }

    /// The scraped device-info mapping from a `query/device-info`
    /// response: the flat pairs on success; the stringified status when
    /// the transport failed; a fixed parse error when the body is
    /// malformed XML.
    pub fn get_info(&self, response: Result<String, u16>) -> (r: Result<
        Vec<(String, String)>,
        String,
    >)
        ensures
            response matches Err(code) ==> r matches Err(e) && e@ == status_text_spec(code),
            response matches Ok(body) ==> match device_info_spec(body@) {
                Some(pairs) => r matches Ok(v) && pairs_view(v@) == pairs,
                None => r matches Err(e) && e@ == "malformed XML"@,
            },
    {
        match response {
            Ok(body) => match scrape_device_info(body.as_str()) {
                Some(v) => Ok(v),
                None => Err(String::from_str("malformed XML")),
            },
            Err(code) => Err(status_text(code)),
        }
    }

    /// The power state a `query/device-info` response shows: the parsed
    /// `power-mode` text when the body yields one; unknown when the body
    /// is malformed or silent on power; off when the transport timed out,
    /// the device being unreachable; unknown on any other failure.
    pub fn get_power_state(&self, response: &Result<String, u16>) -> (state: POWERSTATE)
        ensures
            *response matches Ok(body) ==> state == power_state_of_body(body@),
            *response matches Err(code) ==> state == (if code == 408 {
                POWERSTATE::OFF
            } else {
                POWERSTATE::UNKNOWN
            }),
    {
        match response {
            Ok(body) => match scrape_device_info(body.as_str()) {
                Some(pairs) => match info_get(&pairs, "power-mode") {
                    Some(v) => POWERSTATE::from(v),
                    None => POWERSTATE::UNKNOWN,
                },
                None => POWERSTATE::UNKNOWN,
            },
            Err(code) => {
                if *code == 408 {
                    POWERSTATE::OFF
                } else {
                    POWERSTATE::UNKNOWN
                }
            },
        }
    }

    /// The installed applications a `query/apps` response lists, in
    /// document order; the stringified status when the transport failed;
    /// a fixed parse error when the body is malformed.
    pub fn get_installed_apps(&self, response: Result<String, u16>) -> (r: Result<
        Vec<App>,
        String,
    >)
        ensures
            response matches Err(code) ==> r matches Err(e) && e@ == status_text_spec(code),
            response matches Ok(body) ==> match apps_spec(body@) {
                Some(records) => r matches Ok(v) && apps_view(v@) == records,
                None => r matches Err(e) && e@ == "malformed XML"@,
            },
            r matches Ok(v) ==> forall|k: int|
                0 <= k < v@.len() ==> (#[trigger] v@[k]).icon is None,
    {
        match response {
            Ok(body) => match scrape_apps(body.as_str()) {
                Some(v) => Ok(v),
                None => Err(String::from_str("malformed XML")),
            },
            Err(code) => Err(status_text(code)),
        }
    }

    /// Whether an application launch worked, from the waking POST's
    /// result: true on any response, the stringified status otherwise.
    pub fn launch_app_by_id(&self, response: Result<String, u16>) -> (r: Result<bool, String>)
        ensures
            response matches Ok(_) ==> r matches Ok(b) && b,
            response matches Err(code) ==> r matches Err(e) && e@ == status_text_spec(code),
    {
        match response {
            Ok(_) => Ok(true),
            Err(code) => Err(status_text(code)),
        }
    }

    /// Enriches this device from a `query/device-info` response. A
    /// transport failure or a malformed body changes nothing. Otherwise
    /// the fields are filled in order — name, link kind, wireless MAC,
    /// then the wired MAC when ethernet is supported — and a missing or
    /// unparsable field stops the enrichment there, leaving the rest as
    /// it was.
    pub fn update_self(&mut self, response: &Result<String, u16>)
        ensures
            *response matches Err(_) ==> *final(self) == *old(self),
            *response matches Ok(body) ==> match device_info_spec(body@) {
                None => *final(self) == *old(self),
                Some(pairs) => enriched(*old(self), *final(self), pairs),
            },
    {
        match response {
            Err(_) => {},
            Ok(body) => {
                match scrape_device_info(body.as_str()) {
                    None => {},
                    Some(pairs) => {
                        match info_get(&pairs, "friendly-device-name") {
                            None => {},
                            Some(nv) => {
                                self.name = nv;
                                match info_get(&pairs, "network-type") {
                                    None => {},
                                    Some(tv) => {
                                        self.network = NETWORKTYPE::from(tv);
                                        match info_get(&pairs, "wifi-mac") {
                                            None => {},
                                            Some(mv) => {
                                                match parse_mac(mv.as_str()) {
                                                    None => {},
                                                    Some(m) => {
                                                        self.mac_wlan = m;
                                                        self.update_mac_eth(&pairs);
                                                    },
                                                }
                                            },
                                        }
                                    },
                                }
                            },
                        }
                    },
                }
            },
        }
    }

    /// Fills the wired MAC in when the report says ethernet is supported:
    /// the parsed `ethernet-mac`, all-zero when that key is absent,
    /// untouched when its value does not parse.
    fn update_mac_eth(&mut self, pairs: &Vec<(String, String)>)
        ensures
            eth_enriched(*old(self), *final(self), pairs_view(pairs@)),
            final(self).ipv4 == old(self).ipv4,
            final(self).port == old(self).port,
            final(self).name == old(self).name,
            final(self).network == old(self).network,
            final(self).mac_wlan == old(self).mac_wlan,
    {
        match info_get(pairs, "supports-ethernet") {
            None => {},
            Some(sv) => {
                let u = to_upper(sv.as_str());
                if u == String::from_str("TRUE") {
                    match info_get(pairs, "ethernet-mac") {
                        None => {
                            self.mac_eth = [0, 0, 0, 0, 0, 0];
                            assert(self.mac_eth@ =~= seq![0u8, 0u8, 0u8, 0u8, 0u8, 0u8]);
                        },
                        Some(ev) => {
                            match parse_mac(ev.as_str()) {
                                None => {},
                                Some(em) => {
                                    self.mac_eth = em;
                                },
                            }
                        },
                    }
                }
            },
        }
    }
}

/// The power state shown by a device-info body: the parsed text of its
/// last `power-mode` element; unknown when the body is malformed or has
/// no such element.
pub open spec fn power_state_of_body(body: Seq<char>) -> POWERSTATE {
    match device_info_spec(body) {
        None => POWERSTATE::UNKNOWN,
        Some(pairs) => match lookup_pairs(pairs, "power-mode"@) {
            None => POWERSTATE::UNKNOWN,
            Some(v) => POWERSTATE::parse_spec(v),
        },
    }
}

/// How the wired MAC relates to the report: filled from `ethernet-mac`
/// only when `supports-ethernet` is `TRUE` (case-insensitively), all-zero
/// when that key is absent, unchanged when the value does not parse or
/// ethernet is unsupported.
pub open spec fn eth_enriched(
    d0: Device,
    d1: Device,
    pairs: Seq<(Seq<char>, Seq<char>)>,
) -> bool {
    match lookup_pairs(pairs, "supports-ethernet"@) {
        None => d1.mac_eth@ == d0.mac_eth@,
        Some(sv) => if upper_seq(sv) == "TRUE"@ {
            match lookup_pairs(pairs, "ethernet-mac"@) {
                None => d1.mac_eth@ == seq![0u8, 0u8, 0u8, 0u8, 0u8, 0u8],
                Some(ev) => match mac_parse_spec(ev) {
                    None => d1.mac_eth@ == d0.mac_eth@,
                    Some(em) => d1.mac_eth@ == em,
                },
            }
        } else {
            d1.mac_eth@ == d0.mac_eth@
        },
    }
}

/// How an enriched device relates to the scraped report: address and port
/// never move; the name, link kind and wireless MAC are filled in that
/// order from `friendly-device-name`, `network-type` and `wifi-mac`, a
/// missing or unparsable field stopping the enrichment there; the wired
/// MAC follows `eth_enriched`.
pub open spec fn enriched(d0: Device, d1: Device, pairs: Seq<(Seq<char>, Seq<char>)>) -> bool {
    d1.ipv4@ == d0.ipv4@ && d1.port == d0.port && match lookup_pairs(
        pairs,
        "friendly-device-name"@,
    ) {
        None => d1 == d0,
        Some(nv) => d1.name@ == nv && match lookup_pairs(pairs, "network-type"@) {
            None => d1.network == d0.network && d1.mac_wlan@ == d0.mac_wlan@ && d1.mac_eth@
                == d0.mac_eth@,
            Some(tv) => d1.network == NETWORKTYPE::parse_spec(tv) && match lookup_pairs(
                pairs,
                "wifi-mac"@,
            ) {
                None => d1.mac_wlan@ == d0.mac_wlan@ && d1.mac_eth@ == d0.mac_eth@,
                Some(mv) => match mac_parse_spec(mv) {
                    None => d1.mac_wlan@ == d0.mac_wlan@ && d1.mac_eth@ == d0.mac_eth@,
                    Some(m) => d1.mac_wlan@ == m && eth_enriched(d0, d1, pairs),
                },
            },
        },
    }
}

/// The endpoint that launches an application: `launch/{id}`.
pub open spec fn launch_endpoint_spec(id: int) -> Seq<char> {
    "launch/"@ + dec_rep_signed(id)
}

/// Builds the endpoint that launches the application with this
/// identifier.
pub fn launch_endpoint(app_id: i32) -> (r: String)
    ensures
        r@ == launch_endpoint_spec(app_id as int),
{
    let mut r = String::from_str("launch/");
    let digits = i32_to_string(app_id);
    r.append(digits.as_str());
    r
}

/// The six strings devices actually report for power, each mapping as the
/// vocabulary says: `off` and `OFF` and `PowerOff` are off, `displayoff`
/// is display-off, `on` and `POWERON` are on.
pub proof fn lemma_power_state_parsing()
    ensures
        POWERSTATE::parse_spec("off"@) == POWERSTATE::OFF,
        POWERSTATE::parse_spec("OFF"@) == POWERSTATE::OFF,
        POWERSTATE::parse_spec("PowerOff"@) == POWERSTATE::OFF,
        POWERSTATE::parse_spec("displayoff"@) == POWERSTATE::DISPLAYOFF,
        POWERSTATE::parse_spec("on"@) == POWERSTATE::ON,
        POWERSTATE::parse_spec("POWERON"@) == POWERSTATE::ON,
{
    reveal_strlit("off");
    reveal_strlit("OFF");
    reveal_strlit("PowerOff");
    reveal_strlit("POWEROFF");
    reveal_strlit("displayoff");
    reveal_strlit("DISPLAYOFF");
    reveal_strlit("on");
    reveal_strlit("ON");
    reveal_strlit("POWERON");
    assert(upper_seq("off"@) =~= "OFF"@);
    assert(upper_seq("OFF"@) =~= "OFF"@);
    assert(upper_seq("PowerOff"@) =~= "POWEROFF"@);
    assert(upper_seq("displayoff"@) =~= "DISPLAYOFF"@);
    assert(upper_seq("on"@) =~= "ON"@);
    assert(upper_seq("POWERON"@) =~= "POWERON"@);
}

} // verus!
