//! MAC addresses: parsing the colon-separated hex form that devices report,
//! formatting the canonical `xx:xx:xx:xx:xx:xx` form, and the round-trip
//! between the two.

use vstd::prelude::*;
use crate::strutil::lower_seq;
use crate::strutil::lower_char;
use crate::strutil::push_char;

verus! {

/// Whether `c` is a hexadecimal digit.
pub open spec fn is_hex_char(c: char) -> bool {
    ('0' <= c && c <= '9') || ('a' <= c && c <= 'f') || ('A' <= c && c <= 'F')
}

/// The value of one hexadecimal digit.
pub open spec fn hex_val(c: char) -> nat {
    if '0' <= c && c <= '9' {
        (c as nat - 48) as nat
    } else if 'a' <= c && c <= 'f' {
        (c as nat - 87) as nat
    } else if 'A' <= c && c <= 'F' {
        (c as nat - 55) as nat
    } else {
        0
    }
}

/// The lower-case character for one hexadecimal digit value.
pub open spec fn hex_digit(d: nat) -> char {
    if d < 10 {
        (d + 48) as char
    } else {
        (d + 87) as char
    }
}

/// The value of a chunk of one or two hexadecimal digits.
pub open spec fn chunk_val(cur: Seq<char>) -> nat {
    if cur.len() == 1 {
        hex_val(cur[0])
    } else if cur.len() == 2 {
        hex_val(cur[0]) * 16 + hex_val(cur[1])
    } else {
        0
    }
}

/// Whether an accumulated chunk is a complete octet: one or two digits.
pub open spec fn chunk_ok(cur: Seq<char>) -> bool {
    1 <= cur.len() <= 2
}

/// One pass over a MAC string: `cur` holds the digits of the chunk being
/// read, `acc` the octets already read. Exactly six chunks of one or two
/// hexadecimal digits are accepted; anything else is rejected.
pub open spec fn scan_mac(s: Seq<char>, i: int, cur: Seq<char>, acc: Seq<u8>) -> Option<Seq<u8>>
    decreases s.len() - i,
{
    if i < 0 || i >= s.len() {
        if chunk_ok(cur) && acc.len() == 5 {
            Some(acc.push(chunk_val(cur) as u8))
        } else {
            None
        }
    } else if s[i] == ':' {
        if chunk_ok(cur) && acc.len() < 5 {
            scan_mac(s, i + 1, Seq::empty(), acc.push(chunk_val(cur) as u8))
        } else {
            None
        }
    } else if is_hex_char(s[i]) && cur.len() < 2 {
        scan_mac(s, i + 1, cur.push(s[i]), acc)
    } else {
        None
    }
}

/// The six octets of a colon-separated MAC string, or nothing when the
/// string is not six colon-separated chunks of one or two hex digits.
pub open spec fn mac_parse_spec(s: Seq<char>) -> Option<Seq<u8>> {
    scan_mac(s, 0, Seq::empty(), Seq::empty())
}

/// Parses a colon-separated MAC string into its six octets.
pub fn parse_mac(s: &str) -> (r: Option<[u8; 6]>)
    ensures
        r is Some <==> mac_parse_spec(s@) is Some,
        r matches Some(m) ==> m@ == mac_parse_spec(s@).unwrap(),
{
    let n = s.unicode_len();
    let mut acc: Vec<u8> = Vec::new();
    let mut cur_val: u16 = 0;
    let ghost mut cur: Seq<char> = Seq::empty();
    let mut cur_len: usize = 0;
    let mut i: usize = 0;
    while i < n
        invariant
            i <= n,
            n == s@.len(),
            cur_len == cur.len(),
            cur_len <= 2,
            cur_val == chunk_val(cur),
            cur.len() == 1 ==> is_hex_char(cur[0]),
            cur.len() == 2 ==> is_hex_char(cur[0]) && is_hex_char(cur[1]),
            acc@.len() <= 5,
            mac_parse_spec(s@) == scan_mac(s@, i as int, cur, acc@),
        decreases n - i,
    {
        let c = s.get_char(i);
        if c == ':' {
            if cur_len >= 1 && acc.len() < 5 {
                acc.push(cur_val as u8);
                cur_val = 0;
                cur_len = 0;
                proof {
                    cur = Seq::empty();
                }
            } else {
                return None;
            }
        } else {
            let v: u16 = if '0' <= c && c <= '9' {
                (c as u8 - 48) as u16
            } else if 'a' <= c && c <= 'f' {
                (c as u8 - 87) as u16
            } else if 'A' <= c && c <= 'F' {
                (c as u8 - 55) as u16
            } else {
                return None;
            };
            if cur_len >= 2 {
                return None;
            }
            cur_val = cur_val * 16 + v;
            cur_len = cur_len + 1;
            proof {
                cur = cur.push(c);
            }
        }
        i = i + 1;
    }
    if cur_len >= 1 && acc.len() == 5 {
        acc.push(cur_val as u8);
        let m: [u8; 6] = [acc[0], acc[1], acc[2], acc[3], acc[4], acc[5]];
        assert(m@ =~= acc@);
        Some(m)
    } else {
        None
    }
}

/// Splits a well-formed colon-separated MAC string into its six octets.
pub fn split_mac(input: &str) -> (r: [u8; 6])
    requires
        mac_parse_spec(input@) is Some,
    ensures
        r@ == mac_parse_spec(input@).unwrap(),
{
    parse_mac(input).unwrap()
}

/// The two lower-case hexadecimal digits of one octet.
pub open spec fn hex2(b: u8) -> Seq<char> {
    seq![hex_digit(b as nat / 16), hex_digit(b as nat % 16)]
}

/// The canonical `xx:xx:xx:xx:xx:xx` form of six octets.
pub open spec fn format_mac_spec(m: Seq<u8>) -> Seq<char> {
    hex2(m[0]) + seq![':'] + hex2(m[1]) + seq![':'] + hex2(m[2]) + seq![':'] + hex2(m[3])
        + seq![':'] + hex2(m[4]) + seq![':'] + hex2(m[5])
}

/// Appends the two lower-case hex digits of one octet.
fn push_hex2(b: u8, out: &mut String)
    ensures
        final(out)@ == old(out)@ + hex2(b),
{
    let hi = b / 16;
    let lo = b % 16;
    let c1: char = if hi < 10 {
        (hi + 48) as char
    } else {
        (hi + 87) as char
    };
    let c2: char = if lo < 10 {
        (lo + 48) as char
    } else {
        (lo + 87) as char
    };
    push_char(out, c1);
    push_char(out, c2);
    assert(final(out)@ =~= old(out)@ + hex2(b));
}

/// Renders six octets in the canonical lower-case colon-separated form.
pub fn format_mac(m: &[u8; 6]) -> (r: String)
    ensures
        r@ == format_mac_spec(m@),
{
    let mut r = String::new();
    push_hex2(m[0], &mut r);
    push_char(&mut r, ':');
    push_hex2(m[1], &mut r);
    push_char(&mut r, ':');
    push_hex2(m[2], &mut r);
    push_char(&mut r, ':');
    push_hex2(m[3], &mut r);
    push_char(&mut r, ':');
    push_hex2(m[4], &mut r);
    push_char(&mut r, ':');
    push_hex2(m[5], &mut r);
    assert(r@ =~= format_mac_spec(m@));
    r
}

/// A MAC string in the canonical shape: seventeen characters, a colon at
/// every third position and a hexadecimal digit everywhere else.
pub open spec fn mac_canonical(s: Seq<char>) -> bool {
    s.len() == 17 && (forall|i: int|
        0 <= i < 17 ==> if i % 3 == 2 {
            s[i] == ':'
        } else {
            is_hex_char(#[trigger] s[i])
        })
}

/// Formatting the value of a two-digit chunk gives the chunk back, in lower
/// case.
proof fn lemma_hex2_chunk(c1: char, c2: char)
    requires
        is_hex_char(c1),
        is_hex_char(c2),
    ensures
        hex2((hex_val(c1) * 16 + hex_val(c2)) as u8) == seq![lower_char(c1), lower_char(c2)],
{
    let v1 = hex_val(c1);
    let v2 = hex_val(c2);
    assert(v1 < 16 && v2 < 16);
    let b = (v1 * 16 + v2) as u8;
    assert(v1 * 16 + v2 < 256) by (nonlinear_arith)
        requires
            v1 < 16 && v2 < 16,
    ;
    assert(b as nat == v1 * 16 + v2);
    assert(b as nat / 16 == v1 && b as nat % 16 == v2) by (nonlinear_arith)
        requires
            b as nat == v1 * 16 + v2 && v1 < 16 && v2 < 16,
    ;
    assert(hex_digit(v1) == lower_char(c1));
    assert(hex_digit(v2) == lower_char(c2));
    assert(hex2(b) =~= seq![lower_char(c1), lower_char(c2)]);
}

/// One chunk of a colon-separated MAC string: one or two hexadecimal
/// digits.
pub open spec fn chunk_wf(c: Seq<char>) -> bool {
    (c.len() == 1 && is_hex_char(c[0])) || (c.len() == 2 && is_hex_char(c[0]) && is_hex_char(
        c[1],
    ))
}

/// Six chunks, each one or two hexadecimal digits: the shape every MAC
/// string the parser accepts decomposes into.
pub open spec fn mac_chunks_wf(cs: Seq<Seq<char>>) -> bool {
    cs.len() == 6 && (forall|k: int| 0 <= k < 6 ==> chunk_wf(#[trigger] cs[k]))
}

/// Six chunks joined with colons.
pub open spec fn join_mac(cs: Seq<Seq<char>>) -> Seq<char> {
    cs[0] + seq![':'] + cs[1] + seq![':'] + cs[2] + seq![':'] + cs[3] + seq![':'] + cs[4]
        + seq![':'] + cs[5]
}

/// One chunk in lower case, zero-padded to two digits.
pub open spec fn pad2_lower(c: Seq<char>) -> Seq<char> {
    if c.len() == 1 {
        seq!['0', lower_char(c[0])]
    } else {
        lower_seq(c)
    }
}

/// Reading two hexadecimal digits advances the scan by two characters.
proof fn lemma_scan_two(s: Seq<char>, i: int, acc: Seq<u8>)
    requires
        0 <= i,
        i + 1 < s.len(),
        is_hex_char(s[i]),
        is_hex_char(s[i + 1]),
    ensures
        scan_mac(s, i, Seq::empty(), acc) == scan_mac(s, i + 2, seq![s[i], s[i + 1]], acc),
{
    assert(Seq::<char>::empty().push(s[i]) =~= seq![s[i]]);
    assert(seq![s[i]].push(s[i + 1]) =~= seq![s[i], s[i + 1]]);
    assert(scan_mac(s, i, Seq::empty(), acc) == scan_mac(s, i + 1, seq![s[i]], acc));
    assert(scan_mac(s, i + 1, seq![s[i]], acc) == scan_mac(s, i + 2, seq![s[i], s[i + 1]], acc));
}

/// Reading one chunk of one or two hexadecimal digits advances the scan
/// past it.
proof fn lemma_scan_chunk(s: Seq<char>, i: int, acc: Seq<u8>, c: Seq<char>)
    requires
        0 <= i,
        chunk_wf(c),
        i + c.len() <= s.len(),
        forall|j: int| 0 <= j < c.len() ==> s[i + j] == c[j],
    ensures
        scan_mac(s, i, Seq::empty(), acc) == scan_mac(s, i + c.len(), c, acc),
{
    if c.len() == 1 {
        assert(s[i] == c[0]);
        assert(Seq::<char>::empty().push(s[i]) =~= c);
    } else {
        assert(s[i] == c[0] && s[i + 1] == c[1]);
        assert(Seq::<char>::empty().push(s[i]) =~= seq![c[0]]);
        assert(seq![c[0]].push(s[i + 1]) =~= c);
        assert(scan_mac(s, i, Seq::empty(), acc) == scan_mac(s, i + 1, seq![c[0]], acc));
    }
}

/// Formatting the value of a one-digit chunk zero-pads it.
proof fn lemma_hex1(c: char)
    requires
        is_hex_char(c),
    ensures
        hex2(hex_val(c) as u8) == seq!['0', lower_char(c)],
{
    let v = hex_val(c);
    assert(v < 16);
    let b = v as u8;
    assert(b as nat / 16 == 0 && b as nat % 16 == v);
    assert(hex_digit(v) == lower_char(c));
    assert(hex2(b) =~= seq!['0', lower_char(c)]);
}

/// Formatting the value of any chunk gives its zero-padded lower-case
/// form.
proof fn lemma_chunk_format(c: Seq<char>)
    requires
        chunk_wf(c),
    ensures
        hex2(chunk_val(c) as u8) == pad2_lower(c),
{
    if c.len() == 1 {
        lemma_hex1(c[0]);
    } else {
        lemma_hex2_chunk(c[0], c[1]);
        assert(seq![lower_char(c[0]), lower_char(c[1])] =~= lower_seq(c));
    }
}

/// General round trip: every MAC string of six colon-separated chunks of
/// one or two hexadecimal digits splits into six octets, and formatting
/// the octets back to canonical form gives the lower-cased input with
/// each chunk zero-padded to two digits.
#[verifier::rlimit(60)]
pub proof fn lemma_mac_round_trip_general(cs: Seq<Seq<char>>)
    requires
        mac_chunks_wf(cs),
    ensures
        mac_parse_spec(join_mac(cs)) is Some,
        format_mac_spec(mac_parse_spec(join_mac(cs)).unwrap()) == pad2_lower(cs[0]) + seq![':']
            + pad2_lower(cs[1]) + seq![':'] + pad2_lower(cs[2]) + seq![':'] + pad2_lower(cs[3])
            + seq![':'] + pad2_lower(cs[4]) + seq![':'] + pad2_lower(cs[5]),
{
    let c0 = cs[0];
    let c1 = cs[1];
    let c2 = cs[2];
    let c3 = cs[3];
    let c4 = cs[4];
    let c5 = cs[5];
    let s = join_mac(cs);
    let o1: int = c0.len() as int + 1;
    let o2: int = o1 + c1.len() as int + 1;
    let o3: int = o2 + c2.len() as int + 1;
    let o4: int = o3 + c3.len() as int + 1;
    let o5: int = o4 + c4.len() as int + 1;
    let e = Seq::<char>::empty();
    let ea = Seq::<u8>::empty();
    let b0 = chunk_val(c0) as u8;
    let b1 = chunk_val(c1) as u8;
    let b2 = chunk_val(c2) as u8;
    let b3 = chunk_val(c3) as u8;
    let b4 = chunk_val(c4) as u8;
    let b5 = chunk_val(c5) as u8;
    assert(s.len() == o5 + c5.len());
    assert(forall|j: int| 0 <= j < c0.len() ==> s[j] == c0[j]);
    assert(s[o1 - 1] == ':');
    assert(forall|j: int| 0 <= j < c1.len() ==> s[o1 + j] == c1[j]);
    assert(s[o2 - 1] == ':');
    assert(forall|j: int| 0 <= j < c2.len() ==> s[o2 + j] == c2[j]);
    assert(s[o3 - 1] == ':');
    assert(forall|j: int| 0 <= j < c3.len() ==> s[o3 + j] == c3[j]);
    assert(s[o4 - 1] == ':');
    assert(forall|j: int| 0 <= j < c4.len() ==> s[o4 + j] == c4[j]);
    assert(s[o5 - 1] == ':');
    assert(forall|j: int| 0 <= j < c5.len() ==> s[o5 + j] == c5[j]);
    lemma_scan_chunk(s, 0, ea, c0);
    assert(ea.push(b0) =~= seq![b0]);
    assert(scan_mac(s, o1 - 1, c0, ea) == scan_mac(s, o1, e, seq![b0]));
    lemma_scan_chunk(s, o1, seq![b0], c1);
    assert(seq![b0].push(b1) =~= seq![b0, b1]);
    assert(scan_mac(s, o2 - 1, c1, seq![b0]) == scan_mac(s, o2, e, seq![b0, b1]));
    lemma_scan_chunk(s, o2, seq![b0, b1], c2);
    assert(seq![b0, b1].push(b2) =~= seq![b0, b1, b2]);
    assert(scan_mac(s, o3 - 1, c2, seq![b0, b1]) == scan_mac(s, o3, e, seq![b0, b1, b2]));
    lemma_scan_chunk(s, o3, seq![b0, b1, b2], c3);
    assert(seq![b0, b1, b2].push(b3) =~= seq![b0, b1, b2, b3]);
    assert(scan_mac(s, o4 - 1, c3, seq![b0, b1, b2]) == scan_mac(s, o4, e, seq![b0, b1, b2, b3]));
    lemma_scan_chunk(s, o4, seq![b0, b1, b2, b3], c4);
    assert(seq![b0, b1, b2, b3].push(b4) =~= seq![b0, b1, b2, b3, b4]);
    assert(scan_mac(s, o5 - 1, c4, seq![b0, b1, b2, b3]) == scan_mac(
        s,
        o5,
        e,
        seq![b0, b1, b2, b3, b4],
    ));
    lemma_scan_chunk(s, o5, seq![b0, b1, b2, b3, b4], c5);
    let m = seq![b0, b1, b2, b3, b4, b5];
    assert(seq![b0, b1, b2, b3, b4].push(b5) =~= m);
    assert(scan_mac(s, o5 + c5.len(), c5, seq![b0, b1, b2, b3, b4]) == Some(m));
    assert(mac_parse_spec(s) == Some(m));
    lemma_chunk_format(c0);
    lemma_chunk_format(c1);
    lemma_chunk_format(c2);
    lemma_chunk_format(c3);
    lemma_chunk_format(c4);
    lemma_chunk_format(c5);
    assert(format_mac_spec(m) =~= pad2_lower(c0) + seq![':'] + pad2_lower(c1) + seq![':']
        + pad2_lower(c2) + seq![':'] + pad2_lower(c3) + seq![':'] + pad2_lower(c4) + seq![':']
        + pad2_lower(c5));
}

/// Round trip for canonical MAC strings: splitting a `xx:xx:xx:xx:xx:xx`
/// string into octets and formatting the octets again gives the lower-case
/// form of the input. (A string with one-digit chunks also splits, but its
/// canonical form is longer than the input, so it is left out here.)
#[verifier::rlimit(60)]
pub proof fn lemma_mac_round_trip(s: Seq<char>)
    requires
        mac_canonical(s),
    ensures
        mac_parse_spec(s) is Some,
        format_mac_spec(mac_parse_spec(s).unwrap()) == lower_seq(s),
{
    let e = Seq::<char>::empty();
    let ea = Seq::<u8>::empty();
    let b0 = (hex_val(s[0]) * 16 + hex_val(s[1])) as u8;
    let b1 = (hex_val(s[3]) * 16 + hex_val(s[4])) as u8;
    let b2 = (hex_val(s[6]) * 16 + hex_val(s[7])) as u8;
    let b3 = (hex_val(s[9]) * 16 + hex_val(s[10])) as u8;
    let b4 = (hex_val(s[12]) * 16 + hex_val(s[13])) as u8;
    let b5 = (hex_val(s[15]) * 16 + hex_val(s[16])) as u8;
    lemma_scan_two(s, 0, ea);
    assert(ea.push(b0) =~= seq![b0]);
    assert(scan_mac(s, 2, seq![s[0], s[1]], ea) == scan_mac(s, 3, e, seq![b0]));
    lemma_scan_two(s, 3, seq![b0]);
    assert(seq![b0].push(b1) =~= seq![b0, b1]);
    assert(scan_mac(s, 5, seq![s[3], s[4]], seq![b0]) == scan_mac(s, 6, e, seq![b0, b1]));
    lemma_scan_two(s, 6, seq![b0, b1]);
    assert(seq![b0, b1].push(b2) =~= seq![b0, b1, b2]);
    assert(scan_mac(s, 8, seq![s[6], s[7]], seq![b0, b1]) == scan_mac(s, 9, e, seq![b0, b1, b2]));
    lemma_scan_two(s, 9, seq![b0, b1, b2]);
    assert(seq![b0, b1, b2].push(b3) =~= seq![b0, b1, b2, b3]);
    assert(scan_mac(s, 11, seq![s[9], s[10]], seq![b0, b1, b2]) == scan_mac(
        s,
        12,
        e,
        seq![b0, b1, b2, b3],
    ));
    lemma_scan_two(s, 12, seq![b0, b1, b2, b3]);
    assert(seq![b0, b1, b2, b3].push(b4) =~= seq![b0, b1, b2, b3, b4]);
    assert(scan_mac(s, 14, seq![s[12], s[13]], seq![b0, b1, b2, b3]) == scan_mac(
        s,
        15,
        e,
        seq![b0, b1, b2, b3, b4],
    ));
    lemma_scan_two(s, 15, seq![b0, b1, b2, b3, b4]);
    let m = seq![b0, b1, b2, b3, b4, b5];
    assert(seq![b0, b1, b2, b3, b4].push(b5) =~= m);
    assert(scan_mac(s, 17, seq![s[15], s[16]], seq![b0, b1, b2, b3, b4]) == Some(m));
    assert(mac_parse_spec(s) == Some(m));
    lemma_hex2_chunk(s[0], s[1]);
    lemma_hex2_chunk(s[3], s[4]);
    lemma_hex2_chunk(s[6], s[7]);
    lemma_hex2_chunk(s[9], s[10]);
    lemma_hex2_chunk(s[12], s[13]);
    lemma_hex2_chunk(s[15], s[16]);
    assert(lower_char(':') == ':');
    assert(format_mac_spec(m) =~= lower_seq(s));
}

} // verus!
