//! The transport-facing decision layer. The HTTP calls themselves happen
//! outside the library; each observed outcome comes back as an
//! [`HTTPEVENT`], and the functions here turn events into the results the
//! public operations report, including the retry rule of the waking POST.

use vstd::prelude::*;
use crate::strutil::dec_rep;
use crate::strutil::u64_to_string;

verus! {

/// The timeout that `query/...` requests carry, in seconds.
pub const QUERY_TIMEOUT_SECS: u64 = 3;

/// The timeout that `keypress/...` requests carry, in seconds.
pub const KEYPRESS_TIMEOUT_SECS: u64 = 5;

/// The timeout that `launch/...` requests carry, in seconds.
pub const LAUNCH_TIMEOUT_SECS: u64 = 3;

/// The status that stands for a request timeout.
pub const STATUS_REQUEST_TIMEOUT: u16 = 408;

/// The status reported when nothing better is known.
pub const STATUS_BAD_REQUEST: u16 = 400;

/// The status reported when a Wake-on-LAN send fails inside a waking POST.
pub const STATUS_TEAPOT: u16 = 418;

/// What one HTTP request was observed to do: a response body, a timeout,
/// a failure with a server status, or a failure without one.
#[derive(Clone, Debug)]
#[allow(non_camel_case_types)]
pub enum HTTPEVENT {
    /// The request succeeded; the body may be empty.
    BODY(String),
    /// The network wait exceeded the per-call budget.
    TIMEOUT,
    /// The request failed and the server supplied a status.
    ERRORSTATUS(u16),
    /// The request failed with no server status available.
    ERRORNOSTATUS,
}

/// What a GET reports: the body on success, `408` for a timeout, the
/// server status otherwise, or `400` when none is available.
pub open spec fn get_outcome_spec(ev: HTTPEVENT) -> Result<String, u16> {
    match ev {
        HTTPEVENT::BODY(b) => Ok(b),
        HTTPEVENT::TIMEOUT => Err(STATUS_REQUEST_TIMEOUT),
        HTTPEVENT::ERRORSTATUS(s) => Err(s),
        HTTPEVENT::ERRORNOSTATUS => Err(STATUS_BAD_REQUEST),
    }
}

/// Turns an observed GET event into the reported result.
pub fn get_outcome(ev: HTTPEVENT) -> (r: Result<String, u16>)
    ensures
        r == get_outcome_spec(ev),
{
    match ev {
        HTTPEVENT::BODY(b) => Ok(b),
        HTTPEVENT::TIMEOUT => Err(408),
        HTTPEVENT::ERRORSTATUS(s) => Err(s),
        HTTPEVENT::ERRORNOSTATUS => Err(400),
    }
}

/// What a POST reports: the body on success, the server status on
/// failure, or `400` when none is available. A timeout carries no server
/// status, so it reports `400` too.
pub open spec fn post_outcome_spec(ev: HTTPEVENT) -> Result<String, u16> {
    match ev {
        HTTPEVENT::BODY(b) => Ok(b),
        HTTPEVENT::TIMEOUT => Err(STATUS_BAD_REQUEST),
        HTTPEVENT::ERRORSTATUS(s) => Err(s),
        HTTPEVENT::ERRORNOSTATUS => Err(STATUS_BAD_REQUEST),
    }
}

/// Turns an observed POST event into the reported result.
pub fn post_outcome(ev: HTTPEVENT) -> (r: Result<String, u16>)
    ensures
        r == post_outcome_spec(ev),
{
    match ev {
        HTTPEVENT::BODY(b) => Ok(b),
        HTTPEVENT::TIMEOUT => Err(400),
        HTTPEVENT::ERRORSTATUS(s) => Err(s),
        HTTPEVENT::ERRORNOSTATUS => Err(400),
    }
}

/// What a waking POST does after its first attempt: report a result, or
/// wake the device and retry.
#[derive(Debug)]
#[allow(non_camel_case_types)]
pub enum WAKINGSTEP {
    /// The attempt settled the call with this result.
    DONE(Result<String, u16>),
    /// The attempt timed out: send a Wake-on-LAN packet, then retry once.
    WAKE,
}

/// The decision after the first attempt of a waking POST: only a timeout
/// triggers the wake; any other failure reports its status, or `400`.
pub open spec fn waking_step_spec(ev: HTTPEVENT) -> WAKINGSTEP {
    match ev {
        HTTPEVENT::BODY(b) => WAKINGSTEP::DONE(Ok(b)),
        HTTPEVENT::TIMEOUT => WAKINGSTEP::WAKE,
        HTTPEVENT::ERRORSTATUS(s) => WAKINGSTEP::DONE(Err(s)),
        HTTPEVENT::ERRORNOSTATUS => WAKINGSTEP::DONE(Err(STATUS_BAD_REQUEST)),
    }
}

/// Decides what a waking POST does after its first attempt.
pub fn waking_step(ev: HTTPEVENT) -> (r: WAKINGSTEP)
    ensures
        r == waking_step_spec(ev),
{
    match ev {
        HTTPEVENT::BODY(b) => WAKINGSTEP::DONE(Ok(b)),
        HTTPEVENT::TIMEOUT => WAKINGSTEP::WAKE,
        HTTPEVENT::ERRORSTATUS(s) => WAKINGSTEP::DONE(Err(s)),
        HTTPEVENT::ERRORNOSTATUS => WAKINGSTEP::DONE(Err(400)),
    }
}

/// The whole waking POST, as a function of what was observed: the first
/// attempt's event, whether the Wake-on-LAN send succeeded, and the retry's
/// event. The wake and the retry happen only on a timeout; a failed wake
/// reports `418`.
pub open spec fn waking_result_spec(first: HTTPEVENT, wol_ok: bool, second: HTTPEVENT) -> Result<
    String,
    u16,
> {
    match waking_step_spec(first) {
        WAKINGSTEP::DONE(r) => r,
        WAKINGSTEP::WAKE => if wol_ok {
            post_outcome_spec(second)
        } else {
            Err(STATUS_TEAPOT)
        },
    }
}

/// The result of a waking POST whose first attempt timed out: the wake is
/// sent exactly once, and when it succeeds the call is retried exactly
/// once and reports the retry's own result; when the wake fails the call
/// reports `418` with no retry.
pub proof fn lemma_waking_retry(first: HTTPEVENT, second: HTTPEVENT)
    requires
        first is TIMEOUT,
    ensures
        waking_step_spec(first) is WAKE,
        waking_result_spec(first, true, second) == post_outcome_spec(second),
        waking_result_spec(first, false, second) == Result::<String, u16>::Err(STATUS_TEAPOT),
{
}

/// Settles a waking POST once the wake was attempted: the retry's result
/// when the wake was sent, `418` otherwise.
pub fn waking_after_wake(wol_ok: bool, retry: HTTPEVENT) -> (r: Result<String, u16>)
    ensures
        r == waking_result_spec(HTTPEVENT::TIMEOUT, wol_ok, retry),
{
    if wol_ok {
        post_outcome(retry)
    } else {
        Err(418)
    }
}

/// The reason phrase of each status the transport's printed status lines
/// know; the placeholder used for anything else.
pub open spec fn status_reason_spec(code: u16) -> Seq<char> {
    if code == 100 {
        "Continue"@
    } else if code == 101 {
        "Switching Protocols"@
    } else if code == 102 {
        "Processing"@
    } else if code == 200 {
        "OK"@
    } else if code == 201 {
        "Created"@
    } else if code == 202 {
        "Accepted"@
    } else if code == 203 {
        "Non Authoritative Information"@
    } else if code == 204 {
        "No Content"@
    } else if code == 205 {
        "Reset Content"@
    } else if code == 206 {
        "Partial Content"@
    } else if code == 207 {
        "Multi-Status"@
    } else if code == 208 {
        "Already Reported"@
    } else if code == 226 {
        "IM Used"@
    } else if code == 300 {
        "Multiple Choices"@
    } else if code == 301 {
        "Moved Permanently"@
    } else if code == 302 {
        "Found"@
    } else if code == 303 {
        "See Other"@
    } else if code == 304 {
        "Not Modified"@
    } else if code == 305 {
        "Use Proxy"@
    } else if code == 307 {
        "Temporary Redirect"@
    } else if code == 308 {
        "Permanent Redirect"@
    } else if code == 400 {
        "Bad Request"@
    } else if code == 401 {
        "Unauthorized"@
    } else if code == 402 {
        "Payment Required"@
    } else if code == 403 {
        "Forbidden"@
    } else if code == 404 {
        "Not Found"@
    } else if code == 405 {
        "Method Not Allowed"@
    } else if code == 406 {
        "Not Acceptable"@
    } else if code == 407 {
        "Proxy Authentication Required"@
    } else if code == 408 {
        "Request Timeout"@
    } else if code == 409 {
        "Conflict"@
    } else if code == 410 {
        "Gone"@
    } else if code == 411 {
        "Length Required"@
    } else if code == 412 {
        "Precondition Failed"@
    } else if code == 413 {
        "Payload Too Large"@
    } else if code == 414 {
        "URI Too Long"@
    } else if code == 415 {
        "Unsupported Media Type"@
    } else if code == 416 {
        "Range Not Satisfiable"@
    } else if code == 417 {
        "Expectation Failed"@
    } else if code == 418 {
        "I'm a teapot"@
    } else if code == 421 {
        "Misdirected Request"@
    } else if code == 422 {
        "Unprocessable Entity"@
    } else if code == 423 {
        "Locked"@
    } else if code == 424 {
        "Failed Dependency"@
    } else if code == 426 {
        "Upgrade Required"@
    } else if code == 428 {
        "Precondition Required"@
    } else if code == 429 {
        "Too Many Requests"@
    } else if code == 431 {
        "Request Header Fields Too Large"@
    } else if code == 451 {
        "Unavailable For Legal Reasons"@
    } else if code == 500 {
        "Internal Server Error"@
    } else if code == 501 {
        "Not Implemented"@
    } else if code == 502 {
        "Bad Gateway"@
    } else if code == 503 {
        "Service Unavailable"@
    } else if code == 504 {
        "Gateway Timeout"@
    } else if code == 505 {
        "HTTP Version Not Supported"@
    } else if code == 506 {
        "Variant Also Negotiates"@
    } else if code == 507 {
        "Insufficient Storage"@
    } else if code == 508 {
        "Loop Detected"@
    } else if code == 510 {
        "Not Extended"@
    } else if code == 511 {
        "Network Authentication Required"@
    } else {
        "<unknown status code>"@
    }
}

/// The reason phrase for one status code, matching `status_reason_spec`.
fn status_reason(code: u16) -> (r: &'static str)
    ensures
        r@ == status_reason_spec(code),
{
    if code == 100 {
        "Continue"
    } else if code == 101 {
        "Switching Protocols"
    } else if code == 102 {
        "Processing"
    } else if code == 200 {
        "OK"
    } else if code == 201 {
        "Created"
    } else if code == 202 {
        "Accepted"
    } else if code == 203 {
        "Non Authoritative Information"
    } else if code == 204 {
        "No Content"
    } else if code == 205 {
        "Reset Content"
    } else if code == 206 {
        "Partial Content"
    } else if code == 207 {
        "Multi-Status"
    } else if code == 208 {
        "Already Reported"
    } else if code == 226 {
        "IM Used"
    } else if code == 300 {
        "Multiple Choices"
    } else if code == 301 {
        "Moved Permanently"
    } else if code == 302 {
        "Found"
    } else if code == 303 {
        "See Other"
    } else if code == 304 {
        "Not Modified"
    } else if code == 305 {
        "Use Proxy"
    } else if code == 307 {
        "Temporary Redirect"
    } else if code == 308 {
        "Permanent Redirect"
    } else if code == 400 {
        "Bad Request"
    } else if code == 401 {
        "Unauthorized"
    } else if code == 402 {
        "Payment Required"
    } else if code == 403 {
        "Forbidden"
    } else if code == 404 {
        "Not Found"
    } else if code == 405 {
        "Method Not Allowed"
    } else if code == 406 {
        "Not Acceptable"
    } else if code == 407 {
        "Proxy Authentication Required"
    } else if code == 408 {
        "Request Timeout"
    } else if code == 409 {
        "Conflict"
    } else if code == 410 {
        "Gone"
    } else if code == 411 {
        "Length Required"
    } else if code == 412 {
        "Precondition Failed"
    } else if code == 413 {
        "Payload Too Large"
    } else if code == 414 {
        "URI Too Long"
    } else if code == 415 {
        "Unsupported Media Type"
    } else if code == 416 {
        "Range Not Satisfiable"
    } else if code == 417 {
        "Expectation Failed"
    } else if code == 418 {
        "I'm a teapot"
    } else if code == 421 {
        "Misdirected Request"
    } else if code == 422 {
        "Unprocessable Entity"
    } else if code == 423 {
        "Locked"
    } else if code == 424 {
        "Failed Dependency"
    } else if code == 426 {
        "Upgrade Required"
    } else if code == 428 {
        "Precondition Required"
    } else if code == 429 {
        "Too Many Requests"
    } else if code == 431 {
        "Request Header Fields Too Large"
    } else if code == 451 {
        "Unavailable For Legal Reasons"
    } else if code == 500 {
        "Internal Server Error"
    } else if code == 501 {
        "Not Implemented"
    } else if code == 502 {
        "Bad Gateway"
    } else if code == 503 {
        "Service Unavailable"
    } else if code == 504 {
        "Gateway Timeout"
    } else if code == 505 {
        "HTTP Version Not Supported"
    } else if code == 506 {
        "Variant Also Negotiates"
    } else if code == 507 {
        "Insufficient Storage"
    } else if code == 508 {
        "Loop Detected"
    } else if code == 510 {
        "Not Extended"
    } else if code == 511 {
        "Network Authentication Required"
    } else {
        "<unknown status code>"
    }
}

/// A status as it is printed: the code, a space, and the reason phrase.
pub open spec fn status_text_spec(code: u16) -> Seq<char> {
    dec_rep(code as nat) + seq![' '] + status_reason_spec(code)
}

/// Renders a status the way the transport layer stringifies failures,
/// `408 Request Timeout` for instance.
pub fn status_text(code: u16) -> (r: String)
    ensures
        r@ == status_text_spec(code),
{
    let mut r = u64_to_string(code as u64);
    crate::strutil::push_char(&mut r, ' ');
    r.append(status_reason(code));
    assert(r@ =~= status_text_spec(code));
    r
}

/// The URL of an endpoint on a device: `http://{ipv4}:8060/{endpoint}`.
pub open spec fn url_of_spec(ipv4: Seq<char>, endpoint: Seq<char>) -> Seq<char> {
    "http://"@ + ipv4 + ":8060/"@ + endpoint
}

/// Builds the fixed-shape URL of a device endpoint.
pub fn url_of(ipv4: &str, endpoint: &str) -> (r: String)
    ensures
        r@ == url_of_spec(ipv4@, endpoint@),
{
    let mut r = String::from_str("http://");
    r.append(ipv4);
    r.append(":8060/");
    r.append(endpoint);
    assert(r@ =~= url_of_spec(ipv4@, endpoint@));
    r
}

} // verus!
