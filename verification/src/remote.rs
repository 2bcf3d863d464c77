//! The remote-control vocabulary: the closed set of buttons, the
//! `keypress/...` endpoints they press, the percent-encoded literal-key
//! endpoints, and the stop-at-first-failure rule of a run of presses.
//!
//! Pressing requires the device to be powered on; to change power,
//! toggling through the power state machine is the recommended route
//! rather than pressing the power buttons directly.

use vstd::prelude::*;
use vstd::utf8::encode_utf8;
use crate::strutil::to_upper;
use crate::strutil::upper_seq;
use crate::strutil::push_char;
use crate::client::status_text;
use crate::client::status_text_spec;

verus! {

/// Every known remote button; some need device support.
#[derive(Clone, Copy, Debug, PartialEq, Eq, Structural)]
#[allow(non_camel_case_types)]
pub enum BUTTON {
    Back,
    Backspace,
    ChannelUp,
    ChannelDown,
    Down,
    Enter,
    FindRemote,
    Fwd,
    Home,
    Info,
    InputTuner,
    InputHDMI1,
    InputHDMI2,
    InputHDMI3,
    InputHDMI4,
    InputAV1,
    InstantReplay,
    Left,
    Play,
    Rev,
    Right,
    Search,
    Select,
    Up,
    VolumeDown,
    VolumeMute,
    VolumeUp,
    PowerOff,
    PowerOn,
}

impl BUTTON {
    /// The canonical spelling, used verbatim in the URL.
    pub open spec fn name_spec(self) -> Seq<char> {
        match self {
            BUTTON::Back => "Back"@,
            BUTTON::Backspace => "Backspace"@,
            BUTTON::ChannelUp => "ChannelUp"@,
            BUTTON::ChannelDown => "ChannelDown"@,
            BUTTON::Down => "Down"@,
            BUTTON::Enter => "Enter"@,
            BUTTON::FindRemote => "FindRemote"@,
            BUTTON::Fwd => "Fwd"@,
            BUTTON::Home => "Home"@,
            BUTTON::Info => "Info"@,
            BUTTON::InputTuner => "InputTuner"@,
            BUTTON::InputHDMI1 => "InputHDMI1"@,
            BUTTON::InputHDMI2 => "InputHDMI2"@,
            BUTTON::InputHDMI3 => "InputHDMI3"@,
            BUTTON::InputHDMI4 => "InputHDMI4"@,
            BUTTON::InputAV1 => "InputAV1"@,
            BUTTON::InstantReplay => "InstantReplay"@,
            BUTTON::Left => "Left"@,
            BUTTON::Play => "Play"@,
            BUTTON::Rev => "Rev"@,
            BUTTON::Right => "Right"@,
            BUTTON::Search => "Search"@,
            BUTTON::Select => "Select"@,
            BUTTON::Up => "Up"@,
            BUTTON::VolumeDown => "VolumeDown"@,
            BUTTON::VolumeMute => "VolumeMute"@,
            BUTTON::VolumeUp => "VolumeUp"@,
            BUTTON::PowerOff => "PowerOff"@,
            BUTTON::PowerOn => "PowerOn"@,
        }
    }

    /// Renders the canonical spelling.
    pub fn to_string(&self) -> (r: String)
        ensures
            r@ == self.name_spec(),
    {
        match self {
            BUTTON::Back => String::from_str("Back"),
            BUTTON::Backspace => String::from_str("Backspace"),
            BUTTON::ChannelUp => String::from_str("ChannelUp"),
            BUTTON::ChannelDown => String::from_str("ChannelDown"),
            BUTTON::Down => String::from_str("Down"),
            BUTTON::Enter => String::from_str("Enter"),
            BUTTON::FindRemote => String::from_str("FindRemote"),
            BUTTON::Fwd => String::from_str("Fwd"),
            BUTTON::Home => String::from_str("Home"),
            BUTTON::Info => String::from_str("Info"),
            BUTTON::InputTuner => String::from_str("InputTuner"),
            BUTTON::InputHDMI1 => String::from_str("InputHDMI1"),
            BUTTON::InputHDMI2 => String::from_str("InputHDMI2"),
            BUTTON::InputHDMI3 => String::from_str("InputHDMI3"),
            BUTTON::InputHDMI4 => String::from_str("InputHDMI4"),
            BUTTON::InputAV1 => String::from_str("InputAV1"),
            BUTTON::InstantReplay => String::from_str("InstantReplay"),
            BUTTON::Left => String::from_str("Left"),
            BUTTON::Play => String::from_str("Play"),
            BUTTON::Rev => String::from_str("Rev"),
            BUTTON::Right => String::from_str("Right"),
            BUTTON::Search => String::from_str("Search"),
            BUTTON::Select => String::from_str("Select"),
            BUTTON::Up => String::from_str("Up"),
            BUTTON::VolumeDown => String::from_str("VolumeDown"),
            BUTTON::VolumeMute => String::from_str("VolumeMute"),
            BUTTON::VolumeUp => String::from_str("VolumeUp"),
            BUTTON::PowerOff => String::from_str("PowerOff"),
            BUTTON::PowerOn => String::from_str("PowerOn"),
        }
    }

    /// The button a string names, case-insensitively; unknown input is
    /// the undocumented PowerOn.
    pub open spec fn parse_spec(s: Seq<char>) -> BUTTON {
        let u = upper_seq(s);
        if u == "BACK"@ {
            BUTTON::Back
        } else if u == "BACKSPACE"@ {
            BUTTON::Backspace
        } else if u == "CHANNELUP"@ {
            BUTTON::ChannelUp
        } else if u == "CHANNELDOWN"@ {
            BUTTON::ChannelDown
        } else if u == "DOWN"@ {
            BUTTON::Down
        } else if u == "ENTER"@ {
            BUTTON::Enter
        } else if u == "FINDREMOTE"@ {
            BUTTON::FindRemote
        } else if u == "FWD"@ {
            BUTTON::Fwd
        } else if u == "HOME"@ {
            BUTTON::Home
        } else if u == "INFO"@ {
            BUTTON::Info
        } else if u == "INPUTTUNER"@ {
            BUTTON::InputTuner
        } else if u == "INPUTHDMI1"@ {
            BUTTON::InputHDMI1
        } else if u == "INPUTHDMI2"@ {
            BUTTON::InputHDMI2
        } else if u == "INPUTHDMI3"@ {
            BUTTON::InputHDMI3
        } else if u == "INPUTHDMI4"@ {
            BUTTON::InputHDMI4
        } else if u == "INPUTAV1"@ {
            BUTTON::InputAV1
        } else if u == "INSTANTREPLAY"@ {
            BUTTON::InstantReplay
        } else if u == "LEFT"@ {
            BUTTON::Left
        } else if u == "PLAY"@ {
            BUTTON::Play
        } else if u == "REV"@ {
            BUTTON::Rev
        } else if u == "RIGHT"@ {
            BUTTON::Right
        } else if u == "SEARCH"@ {
            BUTTON::Search
        } else if u == "SELECT"@ {
            BUTTON::Select
        } else if u == "UP"@ {
            BUTTON::Up
        } else if u == "VOLUMEDOWN"@ {
            BUTTON::VolumeDown
        } else if u == "VOLUMEMUTE"@ {
            BUTTON::VolumeMute
        } else if u == "VOLUMEUP"@ {
            BUTTON::VolumeUp
        } else if u == "POWEROFF"@ {
            BUTTON::PowerOff
        } else {
            BUTTON::PowerOn
        }
    }

    /// Parses a button name.
    pub fn from(s: String) -> (r: BUTTON)
        ensures
            r == BUTTON::parse_spec(s@),
    {
        let u = to_upper(s.as_str());
        if u == String::from_str("BACK") {
            BUTTON::Back
        } else if u == String::from_str("BACKSPACE") {
            BUTTON::Backspace
        } else if u == String::from_str("CHANNELUP") {
            BUTTON::ChannelUp
        } else if u == String::from_str("CHANNELDOWN") {
            BUTTON::ChannelDown
        } else if u == String::from_str("DOWN") {
            BUTTON::Down
        } else if u == String::from_str("ENTER") {
            BUTTON::Enter
        } else if u == String::from_str("FINDREMOTE") {
            BUTTON::FindRemote
        } else if u == String::from_str("FWD") {
            BUTTON::Fwd
        } else if u == String::from_str("HOME") {
            BUTTON::Home
        } else if u == String::from_str("INFO") {
            BUTTON::Info
        } else if u == String::from_str("INPUTTUNER") {
            BUTTON::InputTuner
        } else if u == String::from_str("INPUTHDMI1") {
            BUTTON::InputHDMI1
        } else if u == String::from_str("INPUTHDMI2") {
            BUTTON::InputHDMI2
        } else if u == String::from_str("INPUTHDMI3") {
            BUTTON::InputHDMI3
        } else if u == String::from_str("INPUTHDMI4") {
            BUTTON::InputHDMI4
        } else if u == String::from_str("INPUTAV1") {
            BUTTON::InputAV1
        } else if u == String::from_str("INSTANTREPLAY") {
            BUTTON::InstantReplay
        } else if u == String::from_str("LEFT") {
            BUTTON::Left
        } else if u == String::from_str("PLAY") {
            BUTTON::Play
        } else if u == String::from_str("REV") {
            BUTTON::Rev
        } else if u == String::from_str("RIGHT") {
            BUTTON::Right
        } else if u == String::from_str("SEARCH") {
            BUTTON::Search
        } else if u == String::from_str("SELECT") {
            BUTTON::Select
        } else if u == String::from_str("UP") {
            BUTTON::Up
        } else if u == String::from_str("VOLUMEDOWN") {
            BUTTON::VolumeDown
        } else if u == String::from_str("VOLUMEMUTE") {
            BUTTON::VolumeMute
        } else if u == String::from_str("VOLUMEUP") {
            BUTTON::VolumeUp
        } else if u == String::from_str("POWEROFF") {
            BUTTON::PowerOff
        } else {
            BUTTON::PowerOn
        }
    }
}

/// The endpoint a button press posts to: `keypress/{name}`.
pub open spec fn button_endpoint_spec(b: BUTTON) -> Seq<char> {
    "keypress/"@ + b.name_spec()
}

/// Builds the endpoint a button press posts to.
pub fn button_endpoint(b: &BUTTON) -> (r: String)
    ensures
        r@ == button_endpoint_spec(*b),
{
    let mut r = String::from_str("keypress/");
    let name = b.to_string();
    r.append(name.as_str());
    r
}

/// Whether a byte rides through percent-encoding untouched: the ASCII
/// alphanumerics and `-`, `.`, `_`, `~`.
pub open spec fn is_unreserved_byte(b: u8) -> bool {
    (48 <= b && b <= 57) || (65 <= b && b <= 90) || (97 <= b && b <= 122) || b == 45 || b == 46
        || b == 95 || b == 126
}

/// The upper-case character for one hexadecimal digit value.
pub open spec fn hex_upper_digit(d: nat) -> char {
    if d < 10 {
        (d + 48) as char
    } else {
        (d + 55) as char
    }
}

/// Percent-encoding of a byte string: unreserved bytes stand as their
/// characters, every other byte as `%` and two upper-case hex digits.
pub open spec fn percent_encode_bytes(bs: Seq<u8>) -> Seq<char>
    decreases bs.len(),
{
    if bs.len() == 0 {
        Seq::empty()
    } else if is_unreserved_byte(bs[0]) {
        seq![bs[0] as char] + percent_encode_bytes(bs.skip(1))
    } else {
        seq!['%', hex_upper_digit(bs[0] as nat / 16), hex_upper_digit(bs[0] as nat % 16)]
            + percent_encode_bytes(bs.skip(1))
    }
}

/// Relies on `urlencoding::encode`: percent-encodes every byte of the
/// UTF-8 form except ASCII alphanumerics and `-`, `.`, `_`, `~`, writing
/// upper-case hex digits.
#[verifier::external_body]
fn urlencode(s: &str) -> (r: String)
    ensures
        r@ == percent_encode_bytes(encode_utf8(s@)),
{
    urlencoding::encode(s).into_owned()
}

/// The endpoint a literal key press posts to: `keypress/Lit_` and the
/// percent-encoded UTF-8 bytes of the character.
pub open spec fn key_endpoint_spec(key: char) -> Seq<char> {
    "keypress/Lit_"@ + percent_encode_bytes(encode_utf8(seq![key]))
}

/// Builds the endpoint a literal key press posts to.
pub fn key_endpoint(key: char) -> (r: String)
    ensures
        r@ == key_endpoint_spec(key),
{
    let mut s = String::new();
    push_char(&mut s, key);
    assert(s@ =~= seq![key]);
    let enc = urlencode(s.as_str());
    let mut r = String::from_str("keypress/Lit_");
    r.append(enc.as_str());
    r
}

/// The endpoints a run of button presses posts to, in order.
pub fn button_endpoints(buttons: &Vec<BUTTON>) -> (r: Vec<String>)
    ensures
        r@.len() == buttons@.len(),
        forall|i: int| 0 <= i < r@.len() ==> r@[i]@ == button_endpoint_spec(buttons@[i]),
{
    let mut r: Vec<String> = Vec::new();
    let mut i: usize = 0;
    while i < buttons.len()
        invariant
            i <= buttons@.len(),
            r@.len() == i,
            forall|j: int| 0 <= j < i ==> r@[j]@ == button_endpoint_spec(buttons@[j]),
        decreases buttons@.len() - i,
    {
        r.push(button_endpoint(&buttons[i]));
        i = i + 1;
    }
    r
}

/// The endpoints a run of literal key presses posts to, one per
/// character of the input, in order.
pub fn key_endpoints(input: &str) -> (r: Vec<String>)
    ensures
        r@.len() == input@.len(),
        forall|i: int| 0 <= i < r@.len() ==> r@[i]@ == key_endpoint_spec(input@[i]),
{
    let n = input.unicode_len();
    let mut r: Vec<String> = Vec::new();
    let mut i: usize = 0;
    while i < n
        invariant
            i <= n,
            n == input@.len(),
            r@.len() == i,
            forall|j: int| 0 <= j < i ==> r@[j]@ == key_endpoint_spec(input@[j]),
        decreases n - i,
    {
        r.push(key_endpoint(input.get_char(i)));
        i = i + 1;
    }
    r
}

/// Whether one press worked: true on any response, the stringified
/// status otherwise.
pub fn press_result(response: Result<String, u16>) -> (r: Result<bool, String>)
    ensures
        response matches Ok(_) ==> r matches Ok(b) && b,
        response matches Err(code) ==> r matches Err(e) && e@ == status_text_spec(code),
{
    match response {
        Ok(_) => Ok(true),
        Err(code) => Err(status_text(code)),
    }
}

/// The index and status of the first failed press, if any.
pub open spec fn first_failure(rs: Seq<Result<String, u16>>) -> Option<(int, u16)>
    decreases rs.len(),
{
    if rs.len() == 0 {
        None
    } else {
        match rs[0] {
            Err(c) => Some((0, c)),
            Ok(_) => match first_failure(rs.skip(1)) {
                None => None,
                Some((i, c)) => Some((i + 1, c)),
            },
        }
    }
}

/// When every press up to `i` worked and the one at `i` failed, that is
/// the first failure.
proof fn lemma_first_failure_at(rs: Seq<Result<String, u16>>, i: int, c: u16)
    requires
        0 <= i < rs.len(),
        forall|j: int| 0 <= j < i ==> rs[j] is Ok,
        rs[i] == Result::<String, u16>::Err(c),
    ensures
        first_failure(rs) == Some((i, c)),
    decreases i,
{
    if i == 0 {
    } else {
        assert(rs[0] is Ok);
        assert(rs.skip(1)[i - 1] == rs[i]);
        assert(forall|j: int| 0 <= j < i - 1 ==> rs.skip(1)[j] == rs[j + 1] && rs[j + 1] is Ok);
        lemma_first_failure_at(rs.skip(1), i - 1, c);
    }
}

/// When every press worked there is no first failure.
proof fn lemma_first_failure_none(rs: Seq<Result<String, u16>>)
    requires
        forall|j: int| 0 <= j < rs.len() ==> rs[j] is Ok,
    ensures
        first_failure(rs) is None,
    decreases rs.len(),
{
    if rs.len() > 0 {
        assert(forall|j: int| 0 <= j < rs.skip(1).len() ==> rs.skip(1)[j] == rs[j + 1] && rs[j + 1]
            is Ok);
        lemma_first_failure_none(rs.skip(1));
    }
}

/// A run of presses succeeds exactly when every press in it succeeds;
/// otherwise it fails at the first failing index, with that press's own
/// status.
pub proof fn lemma_presses_stop_at_first_failure(rs: Seq<Result<String, u16>>)
    ensures
        first_failure(rs) is None <==> (forall|j: int| 0 <= j < rs.len() ==> rs[j] is Ok),
        first_failure(rs) matches Some((i, c)) ==> 0 <= i < rs.len() && rs[i] == Result::<
            String,
            u16,
        >::Err(c) && (forall|j: int| 0 <= j < i ==> rs[j] is Ok),
    decreases rs.len(),
{
    if rs.len() > 0 {
        assert(forall|j: int| 0 <= j < rs.skip(1).len() ==> rs.skip(1)[j] == rs[j + 1]);
        lemma_presses_stop_at_first_failure(rs.skip(1));
        if rs[0] is Ok {
            match first_failure(rs.skip(1)) {
                Some((i, c)) => {
                    assert(rs[i + 1] == rs.skip(1)[i]);
                    assert forall|j: int| 0 <= j < i + 1 implies rs[j] is Ok by {
                        if j > 0 {
                            assert(rs.skip(1)[j - 1] == rs[j]);
                        }
                    }
                },
                None => {
                    assert forall|j: int| 0 <= j < rs.len() implies rs[j] is Ok by {
                        if j > 0 {
                            assert(rs.skip(1)[j - 1] == rs[j]);
                        }
                    }
                },
            }
        }
    }
}

/// Folds the results of a run of presses into what the run reports: true
/// when every press worked, the stringified status of the first failure
/// otherwise. The run stops at that press, so later entries do not occur.
pub fn presses_outcome(results: &Vec<Result<String, u16>>) -> (r: Result<bool, String>)
    ensures
        first_failure(results@) is None ==> (r matches Ok(b) && b),
        first_failure(results@) matches Some((i, c)) ==> r matches Err(e) && e@
            == status_text_spec(c),
{
    let mut i: usize = 0;
    while i < results.len()
        invariant
            i <= results@.len(),
            forall|j: int| 0 <= j < i ==> results@[j] is Ok,
        decreases results@.len() - i,
    {
        match &results[i] {
            Ok(_) => {},
            Err(code) => {
                let c = *code;
                proof {
                    lemma_first_failure_at(results@, i as int, c);
                }
                return Err(status_text(c));
            },
        }
        i = i + 1;
    }
    proof {
        lemma_first_failure_none(results@);
    }
    Ok(true)
}

/// Parsing is insensitive to the case of its input: a string and its
/// upper-cased form name the same button.
pub proof fn lemma_button_parse_case_insensitive(s: Seq<char>)
    ensures
        BUTTON::parse_spec(upper_seq(s)) == BUTTON::parse_spec(s),
{
    crate::strutil::lemma_upper_seq_idempotent(s);
}

/// Two strings differing at one index are different.
proof fn seq_ne_at(a: Seq<char>, b: Seq<char>, i: int)
    requires
        0 <= i < a.len(),
        i < b.len(),
        a[i] != b[i],
    ensures
        a != b,
{
}

/// Round trip: every button's canonical spelling parses back to that
/// button.
#[verifier::rlimit(100)]
pub proof fn lemma_button_round_trip(b: BUTTON)
    ensures
        BUTTON::parse_spec(b.name_spec()) == b,
{
    reveal_strlit("Back");
    reveal_strlit("BACK");
    reveal_strlit("Backspace");
    reveal_strlit("BACKSPACE");
    reveal_strlit("ChannelUp");
    reveal_strlit("CHANNELUP");
    reveal_strlit("ChannelDown");
    reveal_strlit("CHANNELDOWN");
    reveal_strlit("Down");
    reveal_strlit("DOWN");
    reveal_strlit("Enter");
    reveal_strlit("ENTER");
    reveal_strlit("FindRemote");
    reveal_strlit("FINDREMOTE");
    reveal_strlit("Fwd");
    reveal_strlit("FWD");
    reveal_strlit("Home");
    reveal_strlit("HOME");
    reveal_strlit("Info");
    reveal_strlit("INFO");
    reveal_strlit("InputTuner");
    reveal_strlit("INPUTTUNER");
    reveal_strlit("InputHDMI1");
    reveal_strlit("INPUTHDMI1");
    reveal_strlit("InputHDMI2");
    reveal_strlit("INPUTHDMI2");
    reveal_strlit("InputHDMI3");
    reveal_strlit("INPUTHDMI3");
    reveal_strlit("InputHDMI4");
    reveal_strlit("INPUTHDMI4");
    reveal_strlit("InputAV1");
    reveal_strlit("INPUTAV1");
    reveal_strlit("InstantReplay");
    reveal_strlit("INSTANTREPLAY");
    reveal_strlit("Left");
    reveal_strlit("LEFT");
    reveal_strlit("Play");
    reveal_strlit("PLAY");
    reveal_strlit("Rev");
    reveal_strlit("REV");
    reveal_strlit("Right");
    reveal_strlit("RIGHT");
    reveal_strlit("Search");
    reveal_strlit("SEARCH");
    reveal_strlit("Select");
    reveal_strlit("SELECT");
    reveal_strlit("Up");
    reveal_strlit("UP");
    reveal_strlit("VolumeDown");
    reveal_strlit("VOLUMEDOWN");
    reveal_strlit("VolumeMute");
    reveal_strlit("VOLUMEMUTE");
    reveal_strlit("VolumeUp");
    reveal_strlit("VOLUMEUP");
    reveal_strlit("PowerOff");
    reveal_strlit("POWEROFF");
    reveal_strlit("PowerOn");
    reveal_strlit("POWERON");
    match b {
        BUTTON::Back => {
            assert(upper_seq("Back"@) =~= "BACK"@);
            assert(BUTTON::parse_spec("Back"@) == BUTTON::Back);
        },
        BUTTON::Backspace => {
            assert(upper_seq("Backspace"@) =~= "BACKSPACE"@);
            assert(BUTTON::parse_spec("Backspace"@) == BUTTON::Backspace);
        },
        BUTTON::ChannelUp => {
            assert(upper_seq("ChannelUp"@) =~= "CHANNELUP"@);
            assert("CHANNELUP"@[0] == 'C' && "BACKSPACE"@[0] == 'B');
            seq_ne_at("CHANNELUP"@, "BACKSPACE"@, 0);
            assert(BUTTON::parse_spec("ChannelUp"@) == BUTTON::ChannelUp);
        },
        BUTTON::ChannelDown => {
            assert(upper_seq("ChannelDown"@) =~= "CHANNELDOWN"@);
            assert(BUTTON::parse_spec("ChannelDown"@) == BUTTON::ChannelDown);
        },
        BUTTON::Down => {
            assert(upper_seq("Down"@) =~= "DOWN"@);
            assert("DOWN"@[0] == 'D' && "BACK"@[0] == 'B');
            seq_ne_at("DOWN"@, "BACK"@, 0);
            assert(BUTTON::parse_spec("Down"@) == BUTTON::Down);
        },
        BUTTON::Enter => {
            assert(upper_seq("Enter"@) =~= "ENTER"@);
            assert(BUTTON::parse_spec("Enter"@) == BUTTON::Enter);
        },
        BUTTON::FindRemote => {
            assert(upper_seq("FindRemote"@) =~= "FINDREMOTE"@);
            assert(BUTTON::parse_spec("FindRemote"@) == BUTTON::FindRemote);
        },
        BUTTON::Fwd => {
            assert(upper_seq("Fwd"@) =~= "FWD"@);
            assert(BUTTON::parse_spec("Fwd"@) == BUTTON::Fwd);
        },
        BUTTON::Home => {
            assert(upper_seq("Home"@) =~= "HOME"@);
            assert("HOME"@[0] == 'H' && "BACK"@[0] == 'B');
            seq_ne_at("HOME"@, "BACK"@, 0);
            assert("HOME"@[0] == 'H' && "DOWN"@[0] == 'D');
            seq_ne_at("HOME"@, "DOWN"@, 0);
            assert(BUTTON::parse_spec("Home"@) == BUTTON::Home);
        },
        BUTTON::Info => {
            assert(upper_seq("Info"@) =~= "INFO"@);
            assert("INFO"@[0] == 'I' && "BACK"@[0] == 'B');
            seq_ne_at("INFO"@, "BACK"@, 0);
            assert("INFO"@[0] == 'I' && "DOWN"@[0] == 'D');
            seq_ne_at("INFO"@, "DOWN"@, 0);
            assert("INFO"@[0] == 'I' && "HOME"@[0] == 'H');
            seq_ne_at("INFO"@, "HOME"@, 0);
            assert(BUTTON::parse_spec("Info"@) == BUTTON::Info);
        },
        BUTTON::InputTuner => {
            assert(upper_seq("InputTuner"@) =~= "INPUTTUNER"@);
            assert("INPUTTUNER"@[0] == 'I' && "FINDREMOTE"@[0] == 'F');
            seq_ne_at("INPUTTUNER"@, "FINDREMOTE"@, 0);
            assert(BUTTON::parse_spec("InputTuner"@) == BUTTON::InputTuner);
        },
        BUTTON::InputHDMI1 => {
            assert(upper_seq("InputHDMI1"@) =~= "INPUTHDMI1"@);
            assert("INPUTHDMI1"@[0] == 'I' && "FINDREMOTE"@[0] == 'F');
            seq_ne_at("INPUTHDMI1"@, "FINDREMOTE"@, 0);
            assert("INPUTHDMI1"@[5] == 'H' && "INPUTTUNER"@[5] == 'T');
            seq_ne_at("INPUTHDMI1"@, "INPUTTUNER"@, 5);
            assert(BUTTON::parse_spec("InputHDMI1"@) == BUTTON::InputHDMI1);
        },
        BUTTON::InputHDMI2 => {
            assert(upper_seq("InputHDMI2"@) =~= "INPUTHDMI2"@);
            assert("INPUTHDMI2"@[0] == 'I' && "FINDREMOTE"@[0] == 'F');
            seq_ne_at("INPUTHDMI2"@, "FINDREMOTE"@, 0);
            assert("INPUTHDMI2"@[5] == 'H' && "INPUTTUNER"@[5] == 'T');
            seq_ne_at("INPUTHDMI2"@, "INPUTTUNER"@, 5);
            assert("INPUTHDMI2"@[9] == '2' && "INPUTHDMI1"@[9] == '1');
            seq_ne_at("INPUTHDMI2"@, "INPUTHDMI1"@, 9);
            assert(BUTTON::parse_spec("InputHDMI2"@) == BUTTON::InputHDMI2);
        },
        BUTTON::InputHDMI3 => {
            assert(upper_seq("InputHDMI3"@) =~= "INPUTHDMI3"@);
            assert("INPUTHDMI3"@[0] == 'I' && "FINDREMOTE"@[0] == 'F');
            seq_ne_at("INPUTHDMI3"@, "FINDREMOTE"@, 0);
            assert("INPUTHDMI3"@[5] == 'H' && "INPUTTUNER"@[5] == 'T');
            seq_ne_at("INPUTHDMI3"@, "INPUTTUNER"@, 5);
            assert("INPUTHDMI3"@[9] == '3' && "INPUTHDMI1"@[9] == '1');
            seq_ne_at("INPUTHDMI3"@, "INPUTHDMI1"@, 9);
            assert("INPUTHDMI3"@[9] == '3' && "INPUTHDMI2"@[9] == '2');
            seq_ne_at("INPUTHDMI3"@, "INPUTHDMI2"@, 9);
            assert(BUTTON::parse_spec("InputHDMI3"@) == BUTTON::InputHDMI3);
        },
        BUTTON::InputHDMI4 => {
            assert(upper_seq("InputHDMI4"@) =~= "INPUTHDMI4"@);
            assert("INPUTHDMI4"@[0] == 'I' && "FINDREMOTE"@[0] == 'F');
            seq_ne_at("INPUTHDMI4"@, "FINDREMOTE"@, 0);
            assert("INPUTHDMI4"@[5] == 'H' && "INPUTTUNER"@[5] == 'T');
            seq_ne_at("INPUTHDMI4"@, "INPUTTUNER"@, 5);
            assert("INPUTHDMI4"@[9] == '4' && "INPUTHDMI1"@[9] == '1');
            seq_ne_at("INPUTHDMI4"@, "INPUTHDMI1"@, 9);
            assert("INPUTHDMI4"@[9] == '4' && "INPUTHDMI2"@[9] == '2');
            seq_ne_at("INPUTHDMI4"@, "INPUTHDMI2"@, 9);
            assert("INPUTHDMI4"@[9] == '4' && "INPUTHDMI3"@[9] == '3');
            seq_ne_at("INPUTHDMI4"@, "INPUTHDMI3"@, 9);
            assert(BUTTON::parse_spec("InputHDMI4"@) == BUTTON::InputHDMI4);
        },
        BUTTON::InputAV1 => {
            assert(upper_seq("InputAV1"@) =~= "INPUTAV1"@);
            assert(BUTTON::parse_spec("InputAV1"@) == BUTTON::InputAV1);
        },
        BUTTON::InstantReplay => {
            assert(upper_seq("InstantReplay"@) =~= "INSTANTREPLAY"@);
            assert(BUTTON::parse_spec("InstantReplay"@) == BUTTON::InstantReplay);
        },
        BUTTON::Left => {
            assert(upper_seq("Left"@) =~= "LEFT"@);
            assert("LEFT"@[0] == 'L' && "BACK"@[0] == 'B');
            seq_ne_at("LEFT"@, "BACK"@, 0);
            assert("LEFT"@[0] == 'L' && "DOWN"@[0] == 'D');
            seq_ne_at("LEFT"@, "DOWN"@, 0);
            assert("LEFT"@[0] == 'L' && "HOME"@[0] == 'H');
            seq_ne_at("LEFT"@, "HOME"@, 0);
            assert("LEFT"@[0] == 'L' && "INFO"@[0] == 'I');
            seq_ne_at("LEFT"@, "INFO"@, 0);
            assert(BUTTON::parse_spec("Left"@) == BUTTON::Left);
        },
        BUTTON::Play => {
            assert(upper_seq("Play"@) =~= "PLAY"@);
            assert("PLAY"@[0] == 'P' && "BACK"@[0] == 'B');
            seq_ne_at("PLAY"@, "BACK"@, 0);
            assert("PLAY"@[0] == 'P' && "DOWN"@[0] == 'D');
            seq_ne_at("PLAY"@, "DOWN"@, 0);
            assert("PLAY"@[0] == 'P' && "HOME"@[0] == 'H');
            seq_ne_at("PLAY"@, "HOME"@, 0);
            assert("PLAY"@[0] == 'P' && "INFO"@[0] == 'I');
            seq_ne_at("PLAY"@, "INFO"@, 0);
            assert("PLAY"@[0] == 'P' && "LEFT"@[0] == 'L');
            seq_ne_at("PLAY"@, "LEFT"@, 0);
            assert(BUTTON::parse_spec("Play"@) == BUTTON::Play);
        },
        BUTTON::Rev => {
            assert(upper_seq("Rev"@) =~= "REV"@);
            assert("REV"@[0] == 'R' && "FWD"@[0] == 'F');
            seq_ne_at("REV"@, "FWD"@, 0);
            assert(BUTTON::parse_spec("Rev"@) == BUTTON::Rev);
        },
        BUTTON::Right => {
            assert(upper_seq("Right"@) =~= "RIGHT"@);
            assert("RIGHT"@[0] == 'R' && "ENTER"@[0] == 'E');
            seq_ne_at("RIGHT"@, "ENTER"@, 0);
            assert(BUTTON::parse_spec("Right"@) == BUTTON::Right);
        },
        BUTTON::Search => {
            assert(upper_seq("Search"@) =~= "SEARCH"@);
            assert(BUTTON::parse_spec("Search"@) == BUTTON::Search);
        },
        BUTTON::Select => {
            assert(upper_seq("Select"@) =~= "SELECT"@);
            assert("SELECT"@[2] == 'L' && "SEARCH"@[2] == 'A');
            seq_ne_at("SELECT"@, "SEARCH"@, 2);
            assert(BUTTON::parse_spec("Select"@) == BUTTON::Select);
        },
        BUTTON::Up => {
            assert(upper_seq("Up"@) =~= "UP"@);
            assert(BUTTON::parse_spec("Up"@) == BUTTON::Up);
        },
        BUTTON::VolumeDown => {
            assert(upper_seq("VolumeDown"@) =~= "VOLUMEDOWN"@);
            assert("VOLUMEDOWN"@[0] == 'V' && "FINDREMOTE"@[0] == 'F');
            seq_ne_at("VOLUMEDOWN"@, "FINDREMOTE"@, 0);
            assert("VOLUMEDOWN"@[0] == 'V' && "INPUTTUNER"@[0] == 'I');
            seq_ne_at("VOLUMEDOWN"@, "INPUTTUNER"@, 0);
            assert("VOLUMEDOWN"@[0] == 'V' && "INPUTHDMI1"@[0] == 'I');
            seq_ne_at("VOLUMEDOWN"@, "INPUTHDMI1"@, 0);
            assert("VOLUMEDOWN"@[0] == 'V' && "INPUTHDMI2"@[0] == 'I');
            seq_ne_at("VOLUMEDOWN"@, "INPUTHDMI2"@, 0);
            assert("VOLUMEDOWN"@[0] == 'V' && "INPUTHDMI3"@[0] == 'I');
            seq_ne_at("VOLUMEDOWN"@, "INPUTHDMI3"@, 0);
            assert("VOLUMEDOWN"@[0] == 'V' && "INPUTHDMI4"@[0] == 'I');
            seq_ne_at("VOLUMEDOWN"@, "INPUTHDMI4"@, 0);
            assert(BUTTON::parse_spec("VolumeDown"@) == BUTTON::VolumeDown);
        },
        BUTTON::VolumeMute => {
            assert(upper_seq("VolumeMute"@) =~= "VOLUMEMUTE"@);
            assert("VOLUMEMUTE"@[0] == 'V' && "FINDREMOTE"@[0] == 'F');
            seq_ne_at("VOLUMEMUTE"@, "FINDREMOTE"@, 0);
            assert("VOLUMEMUTE"@[0] == 'V' && "INPUTTUNER"@[0] == 'I');
            seq_ne_at("VOLUMEMUTE"@, "INPUTTUNER"@, 0);
            assert("VOLUMEMUTE"@[0] == 'V' && "INPUTHDMI1"@[0] == 'I');
            seq_ne_at("VOLUMEMUTE"@, "INPUTHDMI1"@, 0);
            assert("VOLUMEMUTE"@[0] == 'V' && "INPUTHDMI2"@[0] == 'I');
            seq_ne_at("VOLUMEMUTE"@, "INPUTHDMI2"@, 0);
            assert("VOLUMEMUTE"@[0] == 'V' && "INPUTHDMI3"@[0] == 'I');
            seq_ne_at("VOLUMEMUTE"@, "INPUTHDMI3"@, 0);
            assert("VOLUMEMUTE"@[0] == 'V' && "INPUTHDMI4"@[0] == 'I');
            seq_ne_at("VOLUMEMUTE"@, "INPUTHDMI4"@, 0);
            assert("VOLUMEMUTE"@[6] == 'M' && "VOLUMEDOWN"@[6] == 'D');
            seq_ne_at("VOLUMEMUTE"@, "VOLUMEDOWN"@, 6);
            assert(BUTTON::parse_spec("VolumeMute"@) == BUTTON::VolumeMute);
        },
        BUTTON::VolumeUp => {
            assert(upper_seq("VolumeUp"@) =~= "VOLUMEUP"@);
            assert("VOLUMEUP"@[0] == 'V' && "INPUTAV1"@[0] == 'I');
            seq_ne_at("VOLUMEUP"@, "INPUTAV1"@, 0);
            assert(BUTTON::parse_spec("VolumeUp"@) == BUTTON::VolumeUp);
        },
        BUTTON::PowerOff => {
            assert(upper_seq("PowerOff"@) =~= "POWEROFF"@);
            assert("POWEROFF"@[0] == 'P' && "INPUTAV1"@[0] == 'I');
            seq_ne_at("POWEROFF"@, "INPUTAV1"@, 0);
            assert("POWEROFF"@[0] == 'P' && "VOLUMEUP"@[0] == 'V');
            seq_ne_at("POWEROFF"@, "VOLUMEUP"@, 0);
            assert(BUTTON::parse_spec("PowerOff"@) == BUTTON::PowerOff);
        },
        BUTTON::PowerOn => {
            assert(upper_seq("PowerOn"@) =~= "POWERON"@);
            assert(BUTTON::parse_spec("PowerOn"@) == BUTTON::PowerOn);
        },
    }
}

} // verus!
