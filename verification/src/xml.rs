//! A small streaming reader for the flat XML that ECP devices serve, and
//! the two scrapers built on it: the key/value map of `query/device-info`
//! and the application list of `query/apps`.
//!
//! Text nodes are whitespace-trimmed; the five predefined XML entities are
//! unescaped; a document that ends inside a tag is malformed and rejected.

use vstd::prelude::*;
use crate::strutil::push_char;

verus! {

/// The whitespace characters that trimming removes.
pub open spec fn is_ws(c: char) -> bool {
    c == ' ' || c == '\t' || c == '\r' || c == '\n'
}

/// How many characters stand before the next `c`, starting at `i`; reaches
/// to the end of the string when `c` does not occur.
pub open spec fn dist_to(s: Seq<char>, i: int, c: char) -> nat
    decreases s.len() - i,
{
    if i < 0 || i >= s.len() {
        0
    } else if s[i] == c {
        0
    } else {
        1 + dist_to(s, i + 1, c)
    }
}

/// The index of the next `c` at or after `i`, or the length of the string.
pub open spec fn find_from(s: Seq<char>, i: int, c: char) -> int {
    i + dist_to(s, i, c)
}

/// What `find_from` returns: the first occurrence of `c`, or the end.
pub proof fn lemma_find_from(s: Seq<char>, i: int, c: char)
    requires
        0 <= i <= s.len(),
    ensures
        i <= find_from(s, i, c) <= s.len(),
        find_from(s, i, c) < s.len() ==> s[find_from(s, i, c)] == c,
        forall|j: int| i <= j < find_from(s, i, c) ==> s[j] != c,
    decreases s.len() - i,
{
    if i < s.len() && s[i] != c {
        lemma_find_from(s, i + 1, c);
    }
}

/// The exec counterpart of `find_from`.
pub fn find_char(s: &str, i: usize, n: usize, c: char) -> (r: usize)
    requires
        i <= n,
        n == s@.len(),
    ensures
        r == find_from(s@, i as int, c),
        i <= r <= n,
        r < n ==> s@[r as int] == c,
    decreases n - i,
{
    proof {
        lemma_find_from(s@, i as int, c);
    }
    if i >= n {
        i
    } else if s.get_char(i) == c {
        i
    } else {
        find_char(s, i + 1, n, c)
    }
}

/// Whether `c` ends a tag name: whitespace, `/` or `>`.
pub open spec fn is_name_end(c: char) -> bool {
    is_ws(c) || c == '/' || c == '>'
}

/// How many characters of tag name stand at `i`.
pub open spec fn name_dist(s: Seq<char>, i: int) -> nat
    decreases s.len() - i,
{
    if i < 0 || i >= s.len() {
        0
    } else if is_name_end(s[i]) {
        0
    } else {
        1 + name_dist(s, i + 1)
    }
}

/// The index where the tag name that starts at `i` ends.
pub open spec fn name_end_from(s: Seq<char>, i: int) -> int {
    i + name_dist(s, i)
}

/// What `name_end_from` returns.
pub proof fn lemma_name_end_from(s: Seq<char>, i: int)
    requires
        0 <= i <= s.len(),
    ensures
        i <= name_end_from(s, i) <= s.len(),
        name_end_from(s, i) < s.len() ==> is_name_end(s[name_end_from(s, i)]),
        forall|j: int| i <= j < name_end_from(s, i) ==> !is_name_end(s[j]),
    decreases s.len() - i,
{
    if i < s.len() && !is_name_end(s[i]) {
        lemma_name_end_from(s, i + 1);
    }
}

/// The exec counterpart of `name_end_from`.
pub fn name_end_char(s: &str, i: usize, n: usize) -> (r: usize)
    requires
        i <= n,
        n == s@.len(),
    ensures
        r == name_end_from(s@, i as int),
        i <= r <= n,
    decreases n - i,
{
    proof {
        lemma_name_end_from(s@, i as int);
    }
    if i >= n {
        i
    } else {
        let c = s.get_char(i);
        if c == ' ' || c == '\t' || c == '\r' || c == '\n' || c == '/' || c == '>' {
            i
        } else {
            name_end_char(s, i + 1, n)
        }
    }
}

/// A string without its leading whitespace.
pub open spec fn trim_start(s: Seq<char>) -> Seq<char>
    decreases s.len(),
{
    if s.len() > 0 && is_ws(s[0]) {
        trim_start(s.drop_first())
    } else {
        s
    }
}

/// A string without its trailing whitespace.
pub open spec fn trim_end(s: Seq<char>) -> Seq<char>
    decreases s.len(),
{
    if s.len() > 0 && is_ws(s.last()) {
        trim_end(s.drop_last())
    } else {
        s
    }
}

/// A string without leading or trailing whitespace.
pub open spec fn trim_spec(s: Seq<char>) -> Seq<char> {
    trim_end(trim_start(s))
}

/// Trimming a range of a string is taking the sub-range from its first
/// non-whitespace character to just past its last one.
proof fn lemma_trim_start_range(s: Seq<char>, i: int, a: int, e: int)
    requires
        0 <= i <= a <= e <= s.len(),
        forall|j: int| i <= j < a ==> is_ws(s[j]),
        a < e ==> !is_ws(s[a]),
    ensures
        trim_start(s.subrange(i, e)) == s.subrange(a, e),
    decreases a - i,
{
    if i < a {
        assert(s.subrange(i, e).drop_first() =~= s.subrange(i + 1, e));
        lemma_trim_start_range(s, i + 1, a, e);
    } else {
        let t = s.subrange(i, e);
        if t.len() > 0 {
            assert(t[0] == s[a]);
        }
    }
}

/// The mirrored fact for trailing whitespace.
proof fn lemma_trim_end_range(s: Seq<char>, a: int, b: int, e: int)
    requires
        0 <= a <= b <= e <= s.len(),
        forall|j: int| b <= j < e ==> is_ws(s[j]),
        a < b ==> !is_ws(s[b - 1]),
    ensures
        trim_end(s.subrange(a, e)) == s.subrange(a, b),
    decreases e - b,
{
    if b < e {
        assert(s.subrange(a, e).drop_last() =~= s.subrange(a, e - 1));
        lemma_trim_end_range(s, a, b, e - 1);
    } else {
        let t = s.subrange(a, e);
        if t.len() > 0 {
            assert(t.last() == s[b - 1]);
        }
    }
}

/// Whether the character at `idx` is whitespace.
pub fn ws_at(s: &str, idx: usize) -> (r: bool)
    requires
        idx < s@.len(),
    ensures
        r == is_ws(s@[idx as int]),
{
    let c = s.get_char(idx);
    c == ' ' || c == '\t' || c == '\r' || c == '\n'
}

/// The trimmed bounds of the range `[i, e)` of `s`: the trimmed text is
/// `s@.subrange(a, b)`.
pub fn trim_bounds(s: &str, i: usize, e: usize) -> (r: (usize, usize))
    requires
        i <= e <= s@.len(),
    ensures
        i <= r.0 <= r.1 <= e,
        s@.subrange(r.0 as int, r.1 as int) == trim_spec(s@.subrange(i as int, e as int)),
{
    let mut a = i;
    while a < e && ws_at(s, a)
        invariant
            i <= a <= e <= s@.len(),
            forall|j: int| i <= j < a ==> is_ws(s@[j]),
        decreases e - a,
    {
        a = a + 1;
    }
    let mut b = e;
    while b > a && ws_at(s, b - 1)
        invariant
            a <= b <= e <= s@.len(),
            forall|j: int| b <= j < e ==> is_ws(s@[j]),
        decreases b,
    {
        b = b - 1;
    }
    proof {
        lemma_trim_start_range(s@, i as int, a as int, e as int);
        lemma_trim_end_range(s@, a as int, b as int, e as int);
    }
    (a, b)
}

/// The text with the five predefined XML entities replaced by their
/// characters; an ampersand that starts no known entity is kept as it is.
pub open spec fn unescape(s: Seq<char>) -> Seq<char>
    decreases s.len(),
{
    if s.len() == 0 {
        s
    } else if s[0] == '&' && s.len() >= 5 && s[1] == 'a' && s[2] == 'm' && s[3] == 'p' && s[4]
        == ';' {
        seq!['&'] + unescape(s.skip(5))
    } else if s[0] == '&' && s.len() >= 4 && s[1] == 'l' && s[2] == 't' && s[3] == ';' {
        seq!['<'] + unescape(s.skip(4))
    } else if s[0] == '&' && s.len() >= 4 && s[1] == 'g' && s[2] == 't' && s[3] == ';' {
        seq!['>'] + unescape(s.skip(4))
    } else if s[0] == '&' && s.len() >= 6 && s[1] == 'q' && s[2] == 'u' && s[3] == 'o' && s[4]
        == 't' && s[5] == ';' {
        seq!['"'] + unescape(s.skip(6))
    } else if s[0] == '&' && s.len() >= 6 && s[1] == 'a' && s[2] == 'p' && s[3] == 'o' && s[4]
        == 's' && s[5] == ';' {
        seq!['\''] + unescape(s.skip(6))
    } else {
        seq![s[0]] + unescape(s.skip(1))
    }
}

/// Unescapes the range `[i, e)` of `s` into a fresh string.
pub fn unescape_range(s: &str, i: usize, e: usize) -> (r: String)
    requires
        i <= e <= s@.len(),
    ensures
        r@ == unescape(s@.subrange(i as int, e as int)),
{
    let ghost whole = s@.subrange(i as int, e as int);
    let mut out = String::new();
    let mut p = i;
    assert(out@ + unescape(s@.subrange(p as int, e as int)) =~= unescape(whole));
    while p < e
        invariant
            i <= p <= e <= s@.len(),
            whole == s@.subrange(i as int, e as int),
            unescape(whole) == out@ + unescape(s@.subrange(p as int, e as int)),
        decreases e - p,
    {
        let ghost rest = s@.subrange(p as int, e as int);
        let c = s.get_char(p);
        assert(rest[0] == c);
        let mut step: usize = 1;
        let mut rep: char = c;
        if c == '&' {
            if e - p > 4 && s.get_char(p + 1) == 'a' && s.get_char(p + 2) == 'm' && s.get_char(
                p + 3,
            ) == 'p' && s.get_char(p + 4) == ';' {
                step = 5;
                rep = '&';
            } else if e - p > 3 && s.get_char(p + 1) == 'l' && s.get_char(p + 2) == 't'
                && s.get_char(p + 3) == ';' {
                step = 4;
                rep = '<';
            } else if e - p > 3 && s.get_char(p + 1) == 'g' && s.get_char(p + 2) == 't'
                && s.get_char(p + 3) == ';' {
                step = 4;
                rep = '>';
            } else if e - p > 5 && s.get_char(p + 1) == 'q' && s.get_char(p + 2) == 'u'
                && s.get_char(p + 3) == 'o' && s.get_char(p + 4) == 't' && s.get_char(p + 5)
                == ';' {
                step = 6;
                rep = '"';
            } else if e - p > 5 && s.get_char(p + 1) == 'a' && s.get_char(p + 2) == 'p'
                && s.get_char(p + 3) == 'o' && s.get_char(p + 4) == 's' && s.get_char(p + 5)
                == ';' {
                step = 6;
                rep = '\'';
            }
        }
        assert(unescape(rest) == seq![rep] + unescape(rest.skip(step as int)));
        push_char(&mut out, rep);
        p = p + step;
        assert(rest.skip(step as int) =~= s@.subrange(p as int, e as int));
        assert(unescape(whole) == out@ + unescape(s@.subrange(p as int, e as int)));
    }
    assert(s@.subrange(e as int, e as int) =~= Seq::<char>::empty());
    assert(unescape(Seq::<char>::empty()) =~= Seq::<char>::empty());
    assert(out@ =~= unescape(whole));
    out
}

/// The text with every no-break space (U+00A0) removed.
pub open spec fn strip_nbsp(s: Seq<char>) -> Seq<char>
    decreases s.len(),
{
    if s.len() == 0 {
        s
    } else if s[0] == '\u{a0}' {
        strip_nbsp(s.skip(1))
    } else {
        seq![s[0]] + strip_nbsp(s.skip(1))
    }
}

/// Removes every no-break space from a string.
pub fn strip_nbsp_str(s: &str) -> (r: String)
    ensures
        r@ == strip_nbsp(s@),
{
    let n = s.unicode_len();
    let mut out = String::new();
    let mut p: usize = 0;
    assert(s@.skip(0) =~= s@);
    assert(out@ + strip_nbsp(s@.skip(0)) =~= strip_nbsp(s@));
    while p < n
        invariant
            p <= n,
            n == s@.len(),
            strip_nbsp(s@) == out@ + strip_nbsp(s@.skip(p as int)),
        decreases n - p,
    {
        let ghost rest = s@.skip(p as int);
        let c = s.get_char(p);
        assert(rest[0] == c);
        if c != '\u{a0}' {
            push_char(&mut out, c);
        }
        p = p + 1;
        assert(rest.skip(1) =~= s@.skip(p as int));
        assert(strip_nbsp(s@) == out@ + strip_nbsp(s@.skip(p as int)));
    }
    assert(s@.skip(n as int) =~= Seq::<char>::empty());
    assert(out@ =~= strip_nbsp(s@));
    out
}

/// Whether `a` and the literal `lit` hold the same characters.
pub fn eq_lit(a: &String, lit: &str) -> (r: bool)
    ensures
        r == (a@ == lit@),
{
    let l = String::from_str(lit);
    *a == l
}

/// The range `[from, to)` of `s` as a fresh string.
pub fn substring_to_string(s: &str, from: usize, to: usize) -> (r: String)
    requires
        from <= to <= s@.len(),
    ensures
        r@ == s@.subrange(from as int, to as int),
{
    s.substring_char(from, to).to_owned()
}

/// The views of a sequence of key/value strings.
pub open spec fn pairs_view(v: Seq<(String, String)>) -> Seq<(Seq<char>, Seq<char>)> {
    v.map_values(|p: (String, String)| (p.0@, p.1@))
}

/// The synthetic container tags of a device-info document, whose text is
/// not data.
pub open spec fn container_tag(tag: Seq<char>) -> bool {
    tag == "?xml"@ || tag == "device-info"@
}

/// The key/value pairs read from `s` starting at `i`, while inside the
/// element named `tag`; in document order, repeated keys kept. Nothing when
/// the document ends inside a tag.
pub open spec fn info_pairs(s: Seq<char>, i: int, tag: Seq<char>) -> Option<
    Seq<(Seq<char>, Seq<char>)>,
>
    decreases s.len() - i,
{
    let lt = find_from(s, i, '<');
    let text = trim_spec(s.subrange(i, lt));
    let emitted: Seq<(Seq<char>, Seq<char>)> = if text.len() > 0 && !container_tag(tag) {
        seq![(tag, unescape(text))]
    } else {
        Seq::empty()
    };
    if lt >= s.len() {
        Some(emitted)
    } else if lt + 1 >= s.len() {
        None
    } else if s[lt + 1] == '/' {
        let gt = find_from(s, lt, '>');
        if gt >= s.len() {
            None
        } else {
            match info_pairs(s, gt + 1, tag) {
                Some(rest) => Some(emitted + rest),
                None => None,
            }
        }
    } else {
        let ne = name_end_from(s, lt + 1);
        let name = s.subrange(lt + 1, ne);
        let gt = find_from(s, ne, '>');
        if gt >= s.len() {
            None
        } else {
            match info_pairs(s, gt + 1, name) {
                Some(rest) => Some(emitted + rest),
                None => None,
            }
        }
    }
}

/// The flat key/value mapping of a whole device-info document.
pub open spec fn device_info_spec(s: Seq<char>) -> Option<Seq<(Seq<char>, Seq<char>)>> {
    info_pairs(s, 0, Seq::empty())
}

/// Reads pairs from `i` on into `out`, mirroring `info_pairs`.
fn scrape_info_at(s: &str, n: usize, i: usize, tag: &String, out: &mut Vec<(String, String)>) -> (ok:
    bool)
    requires
        i <= n,
        n == s@.len(),
    ensures
        ok <==> info_pairs(s@, i as int, tag@) is Some,
        ok ==> pairs_view(final(out)@) == pairs_view(old(out)@) + info_pairs(
            s@,
            i as int,
            tag@,
        ).unwrap(),
    decreases n - i,
{
    proof {
        lemma_find_from(s@, i as int, '<');
    }
    let ghost pairs0 = pairs_view(out@);
    let lt = find_char(s, i, n, '<');
    let ghost text = trim_spec(s@.subrange(i as int, lt as int));
    let ghost emitted: Seq<(Seq<char>, Seq<char>)> = if text.len() > 0 && !container_tag(tag@) {
        seq![(tag@, unescape(text))]
    } else {
        Seq::<(Seq<char>, Seq<char>)>::empty()
    };
    let (a, b) = trim_bounds(s, i, lt);
    if b > a {
        let skip = eq_lit(tag, "?xml") || eq_lit(tag, "device-info");
        if !skip {
            let value = unescape_range(s, a, b);
            out.push((tag.clone(), value));
        }
    }
    assert(pairs_view(out@) =~= pairs0 + emitted);
    if n - lt == 0 {
        assert(info_pairs(s@, i as int, tag@) == Some(emitted));
        true
    } else if n - lt == 1 {
        assert(info_pairs(s@, i as int, tag@) is None);
        false
    } else if s.get_char(lt + 1) == '/' {
        proof {
            lemma_find_from(s@, lt as int, '>');
        }
        let gt = find_char(s, lt, n, '>');
        if gt >= n {
            assert(info_pairs(s@, i as int, tag@) is None);
            false
        } else {
            let ok = scrape_info_at(s, n, gt + 1, tag, out);
            proof {
                if ok {
                    let rest = info_pairs(s@, gt + 1, tag@).unwrap();
                    assert(pairs_view(out@) =~= pairs0 + (emitted + rest));
                }
            }
            ok
        }
    } else {
        proof {
            lemma_name_end_from(s@, lt + 1);
        }
        let ne = name_end_char(s, lt + 1, n);
        let name = substring_to_string(s, lt + 1, ne);
        proof {
            lemma_find_from(s@, ne as int, '>');
        }
        let gt = find_char(s, ne, n, '>');
        if gt >= n {
            assert(info_pairs(s@, i as int, tag@) is None);
            false
        } else {
            let ok = scrape_info_at(s, n, gt + 1, &name, out);
            proof {
                if ok {
                    let rest = info_pairs(s@, gt + 1, name@).unwrap();
                    assert(pairs_view(out@) =~= pairs0 + (emitted + rest));
                }
            }
            ok
        }
    }
}

/// Scrapes a device-info document into its flat key/value pairs, in
/// document order. Nothing when the document is malformed: it ends inside
/// a tag.
pub fn scrape_device_info(xml: &str) -> (r: Option<Vec<(String, String)>>)
    ensures
        r is Some <==> device_info_spec(xml@) is Some,
        r matches Some(v) ==> pairs_view(v@) == device_info_spec(xml@).unwrap(),
{
    let n = xml.unicode_len();
    let mut out: Vec<(String, String)> = Vec::new();
    let tag = String::new();
    let ok = scrape_info_at(xml, n, 0, &tag, &mut out);
    if ok {
        assert(pairs_view(out@) =~= device_info_spec(xml@).unwrap());
        Some(out)
    } else {
        None
    }
}

/// The value under `k`, later entries overwriting earlier ones.
pub open spec fn lookup_pairs(ps: Seq<(Seq<char>, Seq<char>)>, k: Seq<char>) -> Option<Seq<char>>
    decreases ps.len(),
{
    if ps.len() == 0 {
        None
    } else if ps.last().0 == k {
        Some(ps.last().1)
    } else {
        lookup_pairs(ps.drop_last(), k)
    }
}

/// Looks a key up in scraped pairs; the last occurrence wins, as later
/// values overwrite earlier ones in a flat mapping.
pub fn info_get(pairs: &Vec<(String, String)>, key: &str) -> (r: Option<String>)
    ensures
        r is Some <==> lookup_pairs(pairs_view(pairs@), key@) is Some,
        r matches Some(v) ==> v@ == lookup_pairs(pairs_view(pairs@), key@).unwrap(),
{
    let mut j = pairs.len();
    assert(pairs_view(pairs@).take(j as int) =~= pairs_view(pairs@));
    while j > 0
        invariant
            j <= pairs@.len(),
            lookup_pairs(pairs_view(pairs@), key@) == lookup_pairs(
                pairs_view(pairs@).take(j as int),
                key@,
            ),
        decreases j,
    {
        let ghost pre = pairs_view(pairs@).take(j as int);
        assert(pre.last() == (pairs@[j - 1].0@, pairs@[j - 1].1@));
        if eq_lit(&pairs[j - 1].0, key) {
            assert(lookup_pairs(pre, key@) == Some(pairs@[j - 1].1@));
            return Some(pairs[j - 1].1.clone());
        }
        assert(pre.drop_last() =~= pairs_view(pairs@).take(j - 1));
        j = j - 1;
    }
    assert(pairs_view(pairs@).take(0) =~= Seq::<(Seq<char>, Seq<char>)>::empty());
    None
}

/// Whether `c` ends an attribute name: whitespace or `=`.
pub open spec fn is_attr_name_end(c: char) -> bool {
    is_ws(c) || c == '='
}

/// How many characters of attribute name stand at `i`, bounded by `end`.
pub open spec fn attr_name_dist(s: Seq<char>, i: int, end: int) -> nat
    decreases end - i,
{
    if i < 0 || i >= end || i >= s.len() {
        0
    } else if is_attr_name_end(s[i]) {
        0
    } else {
        1 + attr_name_dist(s, i + 1, end)
    }
}

/// How many characters stand before the closing quote `q`, bounded by `end`.
pub open spec fn quote_dist(s: Seq<char>, i: int, end: int, q: char) -> nat
    decreases end - i,
{
    if i < 0 || i >= end || i >= s.len() {
        0
    } else if s[i] == q {
        0
    } else {
        1 + quote_dist(s, i + 1, end, q)
    }
}

/// The value of the attribute named `name` among the attributes written in
/// `[i, end)`: pairs in the shape `name="value"` or `name='value'`,
/// separated by whitespace. Nothing when the name does not occur or the
/// text does not have that shape.
pub open spec fn find_attr(s: Seq<char>, i: int, end: int, name: Seq<char>) -> Option<Seq<char>>
    decreases end - i,
{
    if i < 0 || i >= end {
        None
    } else if is_ws(s[i]) || s[i] == '/' {
        find_attr(s, i + 1, end, name)
    } else {
        let ae = i + attr_name_dist(s, i, end);
        if ae >= end || s[ae] != '=' || ae + 1 >= end {
            None
        } else {
            let q = s[ae + 1];
            if q != '"' && q != '\'' {
                None
            } else {
                let ve = ae + 2 + quote_dist(s, ae + 2, end, q);
                if ve >= end {
                    None
                } else if s.subrange(i, ae) == name {
                    Some(s.subrange(ae + 2, ve))
                } else {
                    find_attr(s, ve + 1, end, name)
                }
            }
        }
    }
}

/// The exec counterpart of `attr_name_dist`, as an end index.
pub fn attr_name_end_exec(s: &str, i: usize, end: usize) -> (r: usize)
    requires
        i <= end <= s@.len(),
    ensures
        r == i + attr_name_dist(s@, i as int, end as int),
        i <= r <= end,
    decreases end - i,
{
    if i >= end {
        i
    } else {
        let c = s.get_char(i);
        if c == ' ' || c == '\t' || c == '\r' || c == '\n' || c == '=' {
            i
        } else {
            attr_name_end_exec(s, i + 1, end)
        }
    }
}

/// The exec counterpart of `quote_dist`, as an end index.
pub fn quote_end_exec(s: &str, i: usize, end: usize, q: char) -> (r: usize)
    requires
        i <= end <= s@.len(),
    ensures
        r == i + quote_dist(s@, i as int, end as int, q),
        i <= r <= end,
    decreases end - i,
{
    if i >= end {
        i
    } else if s.get_char(i) == q {
        i
    } else {
        quote_end_exec(s, i + 1, end, q)
    }
}

/// Whether the range `[from, to)` of `s` holds the characters of `lit`.
pub fn range_eq_lit(s: &str, from: usize, to: usize, lit: &str) -> (r: bool)
    requires
        from <= to <= s@.len(),
    ensures
        r == (s@.subrange(from as int, to as int) == lit@),
{
    let sub = substring_to_string(s, from, to);
    let l = String::from_str(lit);
    sub == l
}

/// Looks the attribute `name` up among the attributes written in
/// `[i, end)`, mirroring `find_attr`.
pub fn find_attr_exec(s: &str, i: usize, end: usize, name: &str) -> (r: Option<String>)
    requires
        i <= end <= s@.len(),
    ensures
        r is Some <==> find_attr(s@, i as int, end as int, name@) is Some,
        r matches Some(v) ==> v@ == find_attr(s@, i as int, end as int, name@).unwrap(),
    decreases end - i,
{
    if i >= end {
        return None;
    }
    let c = s.get_char(i);
    if c == ' ' || c == '\t' || c == '\r' || c == '\n' || c == '/' {
        return find_attr_exec(s, i + 1, end, name);
    }
    let ae = attr_name_end_exec(s, i, end);
    if ae >= end {
        return None;
    }
    if s.get_char(ae) != '=' {
        return None;
    }
    if end - ae < 2 {
        return None;
    }
    let q = s.get_char(ae + 1);
    if q != '"' && q != '\'' {
        return None;
    }
    let ve = quote_end_exec(s, ae + 2, end, q);
    if ve >= end {
        return None;
    }
    if range_eq_lit(s, i, ae, name) {
        Some(substring_to_string(s, ae + 2, ve))
    } else {
        find_attr_exec(s, ve + 1, end, name)
    }
}

} // verus!
