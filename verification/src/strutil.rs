//! Small string helpers shared by the rest of the library: ASCII case
//! mapping, decimal rendering of integers, and a trusted wrapper around
//! `String::push`.

use vstd::prelude::*;

verus! {

/// ASCII upper-casing of one character; everything else is left alone.
pub open spec fn upper_char(c: char) -> char {
    if 'a' <= c && c <= 'z' {
        ((c as u8) - 32) as char
    } else {
        c
    }
}

/// ASCII lower-casing of one character; everything else is left alone.
pub open spec fn lower_char(c: char) -> char {
    if 'A' <= c && c <= 'Z' {
        ((c as u8) + 32) as char
    } else {
        c
    }
}

/// ASCII upper-casing, character by character.
pub open spec fn upper_seq(s: Seq<char>) -> Seq<char> {
    Seq::new(s.len(), |i: int| upper_char(s[i]))
}

/// ASCII lower-casing, character by character.
pub open spec fn lower_seq(s: Seq<char>) -> Seq<char> {
    Seq::new(s.len(), |i: int| lower_char(s[i]))
}

/// Upper-casing twice is the same as upper-casing once, so parsers that
/// upper-case their input are insensitive to the case of that input.
pub proof fn lemma_upper_seq_idempotent(s: Seq<char>)
    ensures
        upper_seq(upper_seq(s)) == upper_seq(s),
{
    assert forall|i: int| 0 <= i < s.len() implies upper_char(upper_char(s[i])) == upper_char(
        s[i],
    ) by {
        let c = s[i];
        if 'a' <= c && c <= 'z' {
            assert(upper_char(c) == ((c as u8) - 32) as char);
        }
    }
    assert(upper_seq(upper_seq(s)) =~= upper_seq(s));
}

/// Relies on `String::push`: appends one character to the string.
#[verifier::external_body]
pub(crate) fn push_char(s: &mut String, c: char)
    ensures
        final(s)@ == old(s)@.push(c),
{
    s.push(c);
}

/// Upper-cases the ASCII letters of a string.
pub fn to_upper(s: &str) -> (r: String)
    ensures
        r@ == upper_seq(s@),
{
    let n = s.unicode_len();
    let mut r = String::new();
    let mut i: usize = 0;
    while i < n
        invariant
            i <= n,
            n == s@.len(),
            r@ == upper_seq(s@.subrange(0, i as int)),
        decreases n - i,
    {
        let c = s.get_char(i);
        let u: char = if 'a' <= c && c <= 'z' {
            ((c as u8) - 32) as char
        } else {
            c
        };
        assert(u == upper_char(s@[i as int]));
        push_char(&mut r, u);
        i = i + 1;
        assert(r@ =~= upper_seq(s@.subrange(0, i as int)));
    }
    assert(s@.subrange(0, n as int) =~= s@);
    r
}

/// The decimal digits of `n`, most significant first.
pub open spec fn dec_rep(n: nat) -> Seq<char>
    decreases n,
{
    if n < 10 {
        seq![dec_digit(n % 10)]
    } else {
        dec_rep(n / 10).push(dec_digit(n % 10))
    }
}

/// The character for one decimal digit.
pub open spec fn dec_digit(d: nat) -> char {
    (d + 48) as char
}

/// Appends the decimal representation of `n` to `out`.
pub fn push_decimal(n: u64, out: &mut String)
    ensures
        final(out)@ == old(out)@ + dec_rep(n as nat),
    decreases n,
{
    if n < 10 {
        push_char(out, (n as u8 + 48) as char);
        assert(final(out)@ =~= old(out)@ + dec_rep(n as nat));
    } else {
        push_decimal(n / 10, out);
        push_char(out, ((n % 10) as u8 + 48) as char);
        assert(final(out)@ =~= old(out)@ + dec_rep(n as nat));
    }
}

/// The decimal representation of `n` as a fresh string.
pub fn u64_to_string(n: u64) -> (r: String)
    ensures
        r@ == dec_rep(n as nat),
{
    let mut r = String::new();
    push_decimal(n, &mut r);
    assert(r@ =~= dec_rep(n as nat));
    r
}

/// The decimal representation of a signed number: a minus sign when it is
/// negative, then the digits of its magnitude.
pub open spec fn dec_rep_signed(n: int) -> Seq<char> {
    if n < 0 {
        seq!['-'] + dec_rep((-n) as nat)
    } else {
        dec_rep(n as nat)
    }
}

/// The decimal representation of `n` as a fresh string.
pub fn i32_to_string(n: i32) -> (r: String)
    ensures
        r@ == dec_rep_signed(n as int),
{
    let mut r = String::new();
    if n < 0 {
        push_char(&mut r, '-');
        let m: u64 = (-(n as i64)) as u64;
        push_decimal(m, &mut r);
        assert(r@ =~= dec_rep_signed(n as int));
    } else {
        push_decimal(n as u64, &mut r);
    }
    r
}

/// The value of a run of decimal digits, folded onto `acc`; nothing when a
/// non-digit occurs.
pub open spec fn digits_val(t: Seq<char>, acc: nat) -> Option<nat>
    decreases t.len(),
{
    if t.len() == 0 {
        Some(acc)
    } else if '0' <= t[0] && t[0] <= '9' {
        digits_val(t.skip(1), acc * 10 + ((t[0] as nat - 48) as nat))
    } else {
        None
    }
}

/// Folding digits onto `acc` never shrinks the value.
pub proof fn lemma_digits_val_ge(t: Seq<char>, acc: nat)
    ensures
        digits_val(t, acc) matches Some(v) ==> v >= acc,
    decreases t.len(),
{
    if t.len() > 0 && '0' <= t[0] && t[0] <= '9' {
        let acc2: nat = acc * 10 + ((t[0] as nat - 48) as nat);
        assert(acc * 10 == acc * 9 + acc);
        lemma_digits_val_ge(t.skip(1), acc2);
    }
}

/// A decimal signed 32-bit value: an optional sign, then digits, rejected
/// when any other character occurs or the value does not fit.
pub open spec fn parse_i32_spec(t: Seq<char>) -> Option<int> {
    if t.len() == 0 {
        None
    } else if t[0] == '-' {
        if t.len() == 1 {
            None
        } else {
            match digits_val(t.skip(1), 0) {
                Some(v) => if v <= 0x8000_0000 {
                    Some(-(v as int))
                } else {
                    None
                },
                None => None,
            }
        }
    } else if t[0] == '+' {
        if t.len() == 1 {
            None
        } else {
            match digits_val(t.skip(1), 0) {
                Some(v) => if v <= 0x7fff_ffff {
                    Some(v as int)
                } else {
                    None
                },
                None => None,
            }
        }
    } else {
        match digits_val(t, 0) {
            Some(v) => if v <= 0x7fff_ffff {
                Some(v as int)
            } else {
                None
            },
            None => None,
        }
    }
}

/// Parses a decimal signed 32-bit integer, as device application
/// identifiers are written.
pub fn parse_i32(t: &str) -> (r: Option<i32>)
    ensures
        r is Some <==> parse_i32_spec(t@) is Some,
        r matches Some(v) ==> v as int == parse_i32_spec(t@).unwrap(),
{
    let n = t.unicode_len();
    if n == 0 {
        return None;
    }
    let first = t.get_char(0);
    let neg = first == '-';
    let start: usize = if first == '-' || first == '+' {
        1
    } else {
        0
    };
    if n - start == 0 {
        return None;
    }
    let ghost digits = t@.skip(start as int);
    let mut acc: u64 = 0;
    let mut p = start;
    assert(t@.skip(0) =~= t@);
    assert(t@.skip(p as int) =~= digits);
    while p < n
        invariant
            start <= p <= n,
            n == t@.len(),
            start < n,
            start <= 1,
            acc <= 0xffff_ffff,
            start == 1 ==> (t@[0] == '-' || t@[0] == '+'),
            start == 0 ==> t@[0] != '-' && t@[0] != '+',
            digits == t@.skip(start as int),
            digits_val(digits, 0) == digits_val(t@.skip(p as int), acc as nat),
        decreases n - p,
    {
        let ghost rest = t@.skip(p as int);
        let c = t.get_char(p);
        assert(rest[0] == c);
        if c < '0' || c > '9' {
            proof {
                assert(t@.skip(0) =~= t@);
                assert(digits_val(rest, acc as nat) is None);
                assert(digits_val(digits, 0) is None);
                assert(parse_i32_spec(t@) is None);
            }
            return None;
        }
        let d: u64 = (c as u8 - 48) as u64;
        let acc2: u64 = acc * 10 + d;
        proof {
            assert(rest.skip(1) =~= t@.skip(p + 1));
        }
        if acc2 > 0xffff_ffff {
            proof {
                assert(t@.skip(0) =~= t@);
                assert(digits_val(rest, acc as nat) == digits_val(t@.skip(p + 1), acc2 as nat));
                lemma_digits_val_ge(t@.skip(p + 1), acc2 as nat);
                assert(digits_val(digits, 0) matches Some(v) ==> v > 0xffff_ffff);
                assert(parse_i32_spec(t@) is None);
            }
            return None;
        }
        acc = acc2;
        p = p + 1;
    }
    assert(t@.skip(n as int) =~= Seq::<char>::empty());
    assert(digits_val(digits, 0) == Some(acc as nat));
    if neg {
        if acc > 0x8000_0000 {
            None
        } else if acc == 0x8000_0000 {
            Some(i32::MIN)
        } else {
            Some(-(acc as i32))
        }
    } else {
        if acc > 0x7fff_ffff {
            None
        } else {
            Some(acc as i32)
        }
    }
}

} // verus!
