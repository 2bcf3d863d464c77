//! Local-network discovery over SSDP: the M-SEARCH request, the reader
//! for HTTP-over-UDP responses, and the deduplication rule that keeps the
//! first sighting of each responder.
//!
//! The sockets live outside the library; each received datagram comes
//! back here as text, and each unique responder is then materialized into
//! a device and enriched.

use vstd::prelude::*;
use crate::strutil::dec_rep;
use crate::strutil::digits_val;
use crate::strutil::push_decimal;
use crate::strutil::upper_seq;
use crate::strutil::to_upper;
use crate::xml::find_from;
use crate::xml::find_char;
use crate::xml::trim_spec;
use crate::xml::trim_bounds;
use crate::xml::substring_to_string;
use crate::xml::lemma_find_from;

verus! {

/// The M-SEARCH datagram for the given response window, in seconds.
pub open spec fn m_search_spec(mx: nat) -> Seq<char> {
    "M-SEARCH * HTTP/1.1\r\nHOST: 239.255.255.250:1900\r\nMAN: \"ssdp:discover\"\r\nST: roku:ecp\r\nMX: "@
        + dec_rep(mx) + "\r\n\r\n"@
}

/// Builds the M-SEARCH datagram that discovery multicasts.
pub fn m_search(mx_secs: u64) -> (r: String)
    ensures
        r@ == m_search_spec(mx_secs as nat),
{
    let mut r = String::from_str(
        "M-SEARCH * HTTP/1.1\r\nHOST: 239.255.255.250:1900\r\nMAN: \"ssdp:discover\"\r\nST: roku:ecp\r\nMX: ",
    );
    push_decimal(mx_secs, &mut r);
    r.append("\r\n\r\n");
    r
}

/// One responder, as its reply names it: the address and port from its
/// `LOCATION` header and the unique service name from its `USN` header.
#[derive(Clone, Debug)]
pub struct SsdpResponder {
    /// The IPv4 address inside the `LOCATION` URL.
    pub ipv4: String,
    /// The port inside the `LOCATION` URL.
    pub port: u16,
    /// The `USN` header's value, carrying the device UUID.
    pub usn: String,
}

/// The mathematical content of one responder record.
pub open spec fn responder_view(r: SsdpResponder) -> (Seq<char>, u16, Seq<char>) {
    (r.ipv4@, r.port, r.usn@)
}

/// The views of a sequence of responder records.
pub open spec fn responders_view(v: Seq<SsdpResponder>) -> Seq<(Seq<char>, u16, Seq<char>)> {
    v.map_values(|r: SsdpResponder| responder_view(r))
}

/// The value of the first header named `name` (case-insensitively) in the
/// lines of `s`: the text after the colon, trimmed. Lines are separated
/// by `\n`; a trailing `\r` is trimmed with the rest.
pub open spec fn header_value(s: Seq<char>, i: int, name: Seq<char>) -> Option<Seq<char>>
    decreases s.len() - i,
{
    if i < 0 || i >= s.len() {
        None
    } else {
        let eol = find_from(s, i, '\n');
        let line = s.subrange(i, eol);
        let next = if eol + 1 > s.len() {
            s.len() as int
        } else {
            eol + 1
        };
        if line.len() > name.len() && upper_seq(line.take(name.len() as int)) == name && line[name.len() as int]
            == ':' {
            Some(trim_spec(line.skip(name.len() as int + 1)))
        } else {
            header_value(s, next, name)
        }
    }
}

/// Reads the first header named `name` out of a response, mirroring
/// `header_value`. The name is given in upper case.
pub fn find_header(s: &str, name: &str) -> (r: Option<String>)
    requires
        name@.len() >= 1,
    ensures
        r is Some <==> header_value(s@, 0, name@) is Some,
        r matches Some(v) ==> v@ == header_value(s@, 0, name@).unwrap(),
{
    let n = s.unicode_len();
    let nl = name.unicode_len();
    let mut i: usize = 0;
    while i < n
        invariant
            0 <= i <= n,
            n == s@.len(),
            nl == name@.len(),
            nl >= 1,
            header_value(s@, 0, name@) == header_value(s@, i as int, name@),
        decreases n - i,
    {
        proof {
            lemma_find_from(s@, i as int, '\n');
        }
        let eol = find_char(s, i, n, '\n');
        let ghost line = s@.subrange(i as int, eol as int);
        let mut is_match = false;
        if eol - i > nl {
            let head = substring_to_string(s, i, i + nl);
            let up = to_upper(head.as_str());
            let colon = s.get_char(i + nl);
            assert(head@ =~= line.take(nl as int));
            assert(line[nl as int] == colon);
            let nm = name.to_owned();
            if up == nm && colon == ':' {
                is_match = true;
            }
        } else {
            assert(!(line.len() > name@.len()));
        }
        if is_match {
            let (a, b) = trim_bounds(s, i + nl + 1, eol);
            assert(line.skip(nl + 1) =~= s@.subrange(i + nl + 1, eol as int));
            let v = substring_to_string(s, a, b);
            return Some(v);
        }
        if eol >= n {
            assert(header_value(s@, i as int, name@) == header_value(s@, n as int, name@));
            assert(header_value(s@, n as int, name@) is None);
            return None;
        }
        assert(header_value(s@, i as int, name@) == header_value(s@, eol + 1, name@));
        i = eol + 1;
    }
    assert(header_value(s@, i as int, name@) is None);
    None
}

/// The address and port inside a `LOCATION` URL of the shape
/// `http://{host}:{port}/`: the host up to the colon, the decimal port up
/// to the first slash or the end. Nothing when the shape does not hold,
/// the host is empty, or the port is no 16-bit number.
pub open spec fn parse_location_spec(u: Seq<char>) -> Option<(Seq<char>, u16)> {
    if u.len() < 7 || u.take(7) != "http://"@ {
        None
    } else {
        let ci = find_from(u, 7, ':');
        if ci >= u.len() {
            None
        } else {
            let host = u.subrange(7, ci);
            let si = find_from(u, ci + 1, '/');
            let ptxt = u.subrange(ci + 1, si);
            if ptxt.len() == 0 || host.len() == 0 {
                None
            } else {
                match digits_val(ptxt, 0) {
                    None => None,
                    Some(v) => if v <= 65535 {
                        Some((host, v as u16))
                    } else {
                        None
                    },
                }
            }
        }
    }
}

/// Parses the decimal digits in `[from, to)`; nothing when a non-digit
/// stands there or the value passes 16 bits.
fn parse_port_range(s: &str, from: usize, to: usize) -> (r: Option<u16>)
    requires
        from <= to <= s@.len(),
    ensures
        match digits_val(s@.subrange(from as int, to as int), 0) {
            None => r is None,
            Some(v) => if v <= 65535 {
                r matches Some(p) && p == v
            } else {
                r is None
            },
        },
{
    let ghost digits = s@.subrange(from as int, to as int);
    let mut acc: u64 = 0;
    let mut p = from;
    assert(s@.subrange(p as int, to as int) =~= digits);
    while p < to
        invariant
            from <= p <= to <= s@.len(),
            acc <= 0xffff_ffff,
            digits == s@.subrange(from as int, to as int),
            digits_val(digits, 0) == digits_val(s@.subrange(p as int, to as int), acc as nat),
        decreases to - p,
    {
        let ghost rest = s@.subrange(p as int, to as int);
        let c = s.get_char(p);
        assert(rest[0] == c);
        if c < '0' || c > '9' {
            assert(digits_val(rest, acc as nat) is None);
            return None;
        }
        let d: u64 = (c as u8 - 48) as u64;
        let acc2: u64 = acc * 10 + d;
        proof {
            assert(rest.skip(1) =~= s@.subrange(p + 1, to as int));
        }
        if acc2 > 0xffff_ffff {
            proof {
                assert(digits_val(rest, acc as nat) == digits_val(
                    s@.subrange(p + 1, to as int),
                    acc2 as nat,
                ));
                crate::strutil::lemma_digits_val_ge(s@.subrange(p + 1, to as int), acc2 as nat);
            }
            return None;
        }
        acc = acc2;
        p = p + 1;
    }
    assert(s@.subrange(to as int, to as int) =~= Seq::<char>::empty());
    assert(digits_val(digits, 0) == Some(acc as nat));
    if acc <= 65535 {
        Some(acc as u16)
    } else {
        None
    }
}

/// Parses a `LOCATION` URL, mirroring `parse_location_spec`.
pub fn parse_location(u: &str) -> (r: Option<(String, u16)>)
    ensures
        r is Some <==> parse_location_spec(u@) is Some,
        r matches Some(hp) ==> parse_location_spec(u@) matches Some(sp) && hp.0@ == sp.0 && hp.1
            == sp.1,
{
    let n = u.unicode_len();
    if n < 7 {
        return None;
    }
    let head = substring_to_string(u, 0, 7);
    assert(head@ =~= u@.take(7));
    if !(head == String::from_str("http://")) {
        return None;
    }
    proof {
        lemma_find_from(u@, 7, ':');
    }
    let ci = find_char(u, 7, n, ':');
    if ci >= n {
        return None;
    }
    proof {
        lemma_find_from(u@, ci + 1, '/');
    }
    let si = find_char(u, ci + 1, n, '/');
    if si == ci + 1 || ci == 7 {
        return None;
    }
    let host = substring_to_string(u, 7, ci);
    match parse_port_range(u, ci + 1, si) {
        None => None,
        Some(p) => Some((host, p)),
    }
}

/// What a discovery response names, when it names anything: the address
/// and port from its `LOCATION` header and its `USN` value.
pub open spec fn ssdp_response_spec(s: Seq<char>) -> Option<(Seq<char>, u16, Seq<char>)> {
    match header_value(s, 0, "LOCATION"@) {
        None => None,
        Some(loc) => match parse_location_spec(loc) {
            None => None,
            Some(hp) => match header_value(s, 0, "USN"@) {
                None => None,
                Some(usn) => Some((hp.0, hp.1, usn)),
            },
        },
    }
}

/// Reads one received datagram: the responder it names, or nothing when
/// the `LOCATION` or `USN` header is missing or malformed.
pub fn parse_ssdp_response(text: &str) -> (r: Option<SsdpResponder>)
    ensures
        r is Some <==> ssdp_response_spec(text@) is Some,
        r matches Some(resp) ==> ssdp_response_spec(text@) matches Some(v) && responder_view(resp)
            == v,
{
    proof {
        reveal_strlit("LOCATION");
        reveal_strlit("USN");
    }
    let loc = match find_header(text, "LOCATION") {
        None => {
            return None;
        },
        Some(v) => v,
    };
    let hp = match parse_location(loc.as_str()) {
        None => {
            return None;
        },
        Some(v) => v,
    };
    let usn = match find_header(text, "USN") {
        None => {
            return None;
        },
        Some(v) => v,
    };
    Some(SsdpResponder { ipv4: hp.0, port: hp.1, usn })
}

/// Whether two responders name the same device: the same unique service
/// name, or the same address and port.
pub open spec fn is_dup(
    a: (Seq<char>, u16, Seq<char>),
    b: (Seq<char>, u16, Seq<char>),
) -> bool {
    a.2 == b.2 || (a.0 == b.0 && a.1 == b.1)
}

/// Whether some kept responder already names the same device as `x`.
pub open spec fn has_dup(acc: Seq<(Seq<char>, u16, Seq<char>)>, x: (Seq<char>, u16, Seq<char>)) -> bool {
    exists|k: int| 0 <= k < acc.len() && is_dup(acc[k], x)
}

/// One step of deduplication: keep `x` unless a kept responder already
/// names its device.
pub open spec fn dedup_step(
    acc: Seq<(Seq<char>, u16, Seq<char>)>,
    x: (Seq<char>, u16, Seq<char>),
) -> Seq<(Seq<char>, u16, Seq<char>)> {
    if has_dup(acc, x) {
        acc
    } else {
        acc.push(x)
    }
}

/// The kept responders after reading the first `n` of `s`.
pub open spec fn dedup_upto(s: Seq<(Seq<char>, u16, Seq<char>)>, n: int) -> Seq<
    (Seq<char>, u16, Seq<char>),
>
    decreases n,
{
    if n <= 0 {
        Seq::empty()
    } else {
        dedup_step(dedup_upto(s, n - 1), s[n - 1])
    }
}

/// The responders with duplicates dropped, first sightings kept, in
/// first-seen order.
pub open spec fn dedup_spec(s: Seq<(Seq<char>, u16, Seq<char>)>) -> Seq<
    (Seq<char>, u16, Seq<char>),
> {
    dedup_upto(s, s.len() as int)
}

/// Whether a responder naming the same device as `x` is already kept.
fn contains_dup(kept: &Vec<SsdpResponder>, x: &SsdpResponder) -> (r: bool)
    ensures
        r == has_dup(responders_view(kept@), responder_view(*x)),
{
    let mut j: usize = 0;
    while j < kept.len()
        invariant
            j <= kept@.len(),
            forall|k: int| 0 <= k < j ==> !is_dup(responders_view(kept@)[k], responder_view(*x)),
        decreases kept@.len() - j,
    {
        let same_usn = kept[j].usn == x.usn;
        let same_addr = kept[j].ipv4 == x.ipv4 && kept[j].port == x.port;
        if same_usn || same_addr {
            assert(is_dup(responders_view(kept@)[j as int], responder_view(*x)));
            return true;
        }
        j = j + 1;
    }
    false
}

/// Drops every responder whose device an earlier kept responder already
/// names; first-seen order is preserved.
pub fn dedup_responders(found: Vec<SsdpResponder>) -> (r: Vec<SsdpResponder>)
    ensures
        responders_view(r@) == dedup_spec(responders_view(found@)),
{
    let ghost full = responders_view(found@);
    let mut r: Vec<SsdpResponder> = Vec::new();
    let mut idx: usize = 0;
    assert(responders_view(r@) =~= dedup_upto(full, 0));
    while idx < found.len()
        invariant
            idx <= found@.len(),
            full == responders_view(found@),
            responders_view(r@) == dedup_upto(full, idx as int),
        decreases found@.len() - idx,
    {
        assert(full[idx as int] == responder_view(found@[idx as int]));
        if !contains_dup(&r, &found[idx]) {
            let item = SsdpResponder {
                ipv4: found[idx].ipv4.clone(),
                port: found[idx].port,
                usn: found[idx].usn.clone(),
            };
            assert(responder_view(item) == responder_view(found@[idx as int]));
            r.push(item);
            assert(responders_view(r@) =~= dedup_upto(full, idx + 1));
        }
        idx = idx + 1;
    }
    r
}

/// No two kept responders name the same device.
pub open spec fn no_dups(d: Seq<(Seq<char>, u16, Seq<char>)>) -> bool {
    forall|k: int, l: int| 0 <= k < l < d.len() ==> !is_dup(d[k], d[l])
}

/// Each kept responder extends what was kept before it, and nothing kept
/// names a device twice.
proof fn lemma_dedup_upto_clean(s: Seq<(Seq<char>, u16, Seq<char>)>, n: int)
    requires
        n <= s.len(),
    ensures
        no_dups(dedup_upto(s, n)),
    decreases n,
{
    if n > 0 {
        lemma_dedup_upto_clean(s, n - 1);
        let prev = dedup_upto(s, n - 1);
        let x = s[n - 1];
        if !has_dup(prev, x) {
            let d = prev.push(x);
            assert forall|k: int, l: int| 0 <= k < l < d.len() implies !is_dup(d[k], d[l]) by {
                if l == d.len() - 1 {
                    assert(d[k] == prev[k]);
                    assert(!is_dup(prev[k], x));
                } else {
                    assert(d[k] == prev[k] && d[l] == prev[l]);
                }
            }
        }
    }
}

/// Deduplicating a clean sequence keeps every element.
proof fn lemma_dedup_of_clean(d: Seq<(Seq<char>, u16, Seq<char>)>, n: int)
    requires
        0 <= n <= d.len(),
        no_dups(d),
    ensures
        dedup_upto(d, n) == d.take(n),
    decreases n,
{
    if n == 0 {
        assert(dedup_upto(d, 0) =~= d.take(0));
    } else {
        lemma_dedup_of_clean(d, n - 1);
        let prev = d.take(n - 1);
        let x = d[n - 1];
        assert(!has_dup(prev, x)) by {
            if has_dup(prev, x) {
                let k = choose|k: int| 0 <= k < prev.len() && is_dup(prev[k], x);
                assert(prev[k] == d[k]);
                assert(is_dup(d[k], d[n - 1]));
            }
        }
        assert(dedup_upto(d, n) == prev.push(x));
        assert(prev.push(x) =~= d.take(n));
    }
}

/// Discovery is idempotent under the dedup rule: deduplicating what
/// deduplication kept changes nothing, so running over the same responder
/// set twice yields the same list.
pub proof fn lemma_dedup_idempotent(s: Seq<(Seq<char>, u16, Seq<char>)>)
    ensures
        dedup_spec(dedup_spec(s)) == dedup_spec(s),
{
    lemma_dedup_upto_clean(s, s.len() as int);
    let d = dedup_spec(s);
    lemma_dedup_of_clean(d, d.len() as int);
    assert(d.take(d.len() as int) =~= d);
}

} // verus!
