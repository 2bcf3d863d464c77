//! The application records that `query/apps` reports, and the scraper that
//! reads them out of the response document.

use vstd::prelude::*;
use crate::xml::find_from;
use crate::xml::name_end_from;
use crate::xml::find_attr;
use crate::xml::trim_spec;
use crate::xml::unescape;
use crate::xml::strip_nbsp;
use crate::xml::lemma_find_from;
use crate::xml::lemma_name_end_from;
use crate::strutil::parse_i32_spec;

verus! {

/// One application installed on a device, as reported by `query/apps`.
#[derive(Clone, Debug)]
pub struct App {
    /// The identifier the device assigned; used in `launch/{id}`.
    pub id: i32,
    /// The short classifier from the `type` attribute.
    pub apptype: String,
    /// The free-form version string.
    pub version: String,
    /// The display name, with every no-break space removed.
    pub name: String,
    /// The icon blob; never filled by the scraper.
    pub icon: Option<Vec<u8>>,
}

/// The mathematical content of one application record: identifier,
/// classifier, version and name.
pub open spec fn app_view(a: App) -> (int, Seq<char>, Seq<char>, Seq<char>) {
    (a.id as int, a.apptype@, a.version@, a.name@)
}

/// The views of a sequence of application records.
pub open spec fn apps_view(v: Seq<App>) -> Seq<(int, Seq<char>, Seq<char>, Seq<char>)> {
    v.map_values(|a: App| app_view(a))
}

/// The tags of an apps document that are containers, not records.
pub open spec fn apps_container_tag(tag: Seq<char>) -> bool {
    tag == "?xml"@ || tag == "apps"@
}

/// The application records read from `s` starting at `i`. While `read`
/// holds, the text of the current element completes the record `cur`.
/// Each `<app>` element must carry a parsable decimal `id` attribute; its
/// `type` and `version` attributes default to empty. Nothing when the
/// document is malformed.
pub open spec fn apps_scan(
    s: Seq<char>,
    i: int,
    read: bool,
    cur: (int, Seq<char>, Seq<char>, Seq<char>),
) -> Option<Seq<(int, Seq<char>, Seq<char>, Seq<char>)>>
    decreases s.len() - i,
{
    let lt = find_from(s, i, '<');
    let text = trim_spec(s.subrange(i, lt));
    let emitted: Seq<(int, Seq<char>, Seq<char>, Seq<char>)> = if text.len() > 0 && read {
        seq![(cur.0, cur.1, cur.2, strip_nbsp(unescape(text)))]
    } else {
        Seq::empty()
    };
    let read2 = if text.len() > 0 {
        false
    } else {
        read
    };
    if lt >= s.len() {
        Some(emitted)
    } else if lt + 1 >= s.len() {
        None
    } else if s[lt + 1] == '/' {
        let gt = find_from(s, lt, '>');
        if gt >= s.len() {
            None
        } else {
            match apps_scan(s, gt + 1, read2, cur) {
                Some(rest) => Some(emitted + rest),
                None => None,
            }
        }
    } else {
        let ne = name_end_from(s, lt + 1);
        let name = s.subrange(lt + 1, ne);
        let gt = find_from(s, ne, '>');
        if gt >= s.len() {
            None
        } else if apps_container_tag(name) {
            match apps_scan(s, gt + 1, read2, cur) {
                Some(rest) => Some(emitted + rest),
                None => None,
            }
        } else {
            match find_attr(s, ne, gt, "id"@) {
                None => None,
                Some(idtxt) => match parse_i32_spec(idtxt) {
                    None => None,
                    Some(id) => {
                        let at = match find_attr(s, ne, gt, "type"@) {
                            Some(v) => v,
                            None => Seq::empty(),
                        };
                        let ver = match find_attr(s, ne, gt, "version"@) {
                            Some(v) => v,
                            None => Seq::empty(),
                        };
                        match apps_scan(s, gt + 1, true, (id, at, ver, Seq::empty())) {
                            Some(rest) => Some(emitted + rest),
                            None => None,
                        }
                    },
                },
            }
        }
    }
}

/// The application records of a whole apps document.
pub open spec fn apps_spec(s: Seq<char>) -> Option<Seq<(int, Seq<char>, Seq<char>, Seq<char>)>> {
    apps_scan(s, 0, false, (0, Seq::empty(), Seq::empty(), Seq::empty()))
}

/// Reads records from `i` on into `out`, mirroring `apps_scan`.
fn scrape_apps_at(
    s: &str,
    n: usize,
    i: usize,
    read: bool,
    cur: &App,
    out: &mut Vec<App>,
) -> (ok: bool)
    requires
        i <= n,
        n == s@.len(),
        cur.icon is None,
        forall|k: int| 0 <= k < old(out)@.len() ==> (#[trigger] old(out)@[k]).icon is None,
    ensures
        ok <==> apps_scan(s@, i as int, read, app_view(*cur)) is Some,
        ok ==> apps_view(final(out)@) == apps_view(old(out)@) + apps_scan(
            s@,
            i as int,
            read,
            app_view(*cur),
        ).unwrap(),
        forall|k: int| 0 <= k < final(out)@.len() ==> (#[trigger] final(out)@[k]).icon is None,
    decreases n - i,
{
    proof {
        lemma_find_from(s@, i as int, '<');
    }
    let ghost apps0 = apps_view(out@);
    let lt = crate::xml::find_char(s, i, n, '<');
    let ghost text = trim_spec(s@.subrange(i as int, lt as int));
    let ghost emitted: Seq<(int, Seq<char>, Seq<char>, Seq<char>)> = if text.len() > 0 && read {
        seq![(cur.id as int, cur.apptype@, cur.version@, strip_nbsp(unescape(text)))]
    } else {
        Seq::empty()
    };
    let (a, b) = crate::xml::trim_bounds(s, i, lt);
    let mut read2 = read;
    if b > a {
        if read {
            let value = crate::xml::unescape_range(s, a, b);
            let name = crate::xml::strip_nbsp_str(value.as_str());
            let rec = App {
                id: cur.id,
                apptype: cur.apptype.clone(),
                version: cur.version.clone(),
                name,
                icon: None,
            };
            out.push(rec);
        }
        read2 = false;
    }
    assert(apps_view(out@) =~= apps0 + emitted);
    if n - lt == 0 {
        assert(apps_scan(s@, i as int, read, app_view(*cur)) == Some(emitted));
        true
    } else if n - lt == 1 {
        assert(apps_scan(s@, i as int, read, app_view(*cur)) is None);
        false
    } else if s.get_char(lt + 1) == '/' {
        proof {
            lemma_find_from(s@, lt as int, '>');
        }
        let gt = crate::xml::find_char(s, lt, n, '>');
        if gt >= n {
            assert(apps_scan(s@, i as int, read, app_view(*cur)) is None);
            false
        } else {
            let ok = scrape_apps_at(s, n, gt + 1, read2, cur, out);
            proof {
                if ok {
                    let rest = apps_scan(s@, gt + 1, read2, app_view(*cur)).unwrap();
                    assert(apps_view(out@) =~= apps0 + (emitted + rest));
                }
            }
            ok
        }
    } else {
        proof {
            lemma_name_end_from(s@, lt + 1);
        }
        let ne = crate::xml::name_end_char(s, lt + 1, n);
        proof {
            lemma_find_from(s@, ne as int, '>');
        }
        let gt = crate::xml::find_char(s, ne, n, '>');
        if gt >= n {
            assert(apps_scan(s@, i as int, read, app_view(*cur)) is None);
            false
        } else if crate::xml::range_eq_lit(s, lt + 1, ne, "?xml") || crate::xml::range_eq_lit(
            s,
            lt + 1,
            ne,
            "apps",
        ) {
            let ok = scrape_apps_at(s, n, gt + 1, read2, cur, out);
            proof {
                if ok {
                    let rest = apps_scan(s@, gt + 1, read2, app_view(*cur)).unwrap();
                    assert(apps_view(out@) =~= apps0 + (emitted + rest));
                }
            }
            ok
        } else {
            let idtxt = match crate::xml::find_attr_exec(s, ne, gt, "id") {
                Some(v) => v,
                None => {
                    assert(apps_scan(s@, i as int, read, app_view(*cur)) is None);
                    return false;
                },
            };
            let id = match crate::strutil::parse_i32(idtxt.as_str()) {
                Some(v) => v,
                None => {
                    assert(apps_scan(s@, i as int, read, app_view(*cur)) is None);
                    return false;
                },
            };
            let at = match crate::xml::find_attr_exec(s, ne, gt, "type") {
                Some(v) => v,
                None => String::new(),
            };
            let ver = match crate::xml::find_attr_exec(s, ne, gt, "version") {
                Some(v) => v,
                None => String::new(),
            };
            let next = App { id, apptype: at, version: ver, name: String::new(), icon: None };
            let ok = scrape_apps_at(s, n, gt + 1, true, &next, out);
            proof {
                if ok {
                    let rest = apps_scan(s@, gt + 1, true, app_view(next)).unwrap();
                    assert(apps_view(out@) =~= apps0 + (emitted + rest));
                }
            }
            ok
        }
    }
}

/// Scrapes an apps document into its application records, in document
/// order, icons left unfilled. Nothing when the document is malformed: it
/// ends inside a tag, or an `<app>` element has no parsable `id`.
pub fn scrape_apps(xml: &str) -> (r: Option<Vec<App>>)
    ensures
        r is Some <==> apps_spec(xml@) is Some,
        r matches Some(v) ==> apps_view(v@) == apps_spec(xml@).unwrap(),
        r matches Some(v) ==> forall|k: int| 0 <= k < v@.len() ==> (#[trigger] v@[k]).icon is None,
{
    let n = xml.unicode_len();
    let mut out: Vec<App> = Vec::new();
    let seed = App {
        id: 0,
        apptype: String::new(),
        version: String::new(),
        name: String::new(),
        icon: None,
    };
    let ok = scrape_apps_at(xml, n, 0, false, &seed, &mut out);
    if ok {
        assert(apps_view(out@) =~= apps_spec(xml@).unwrap());
        Some(out)
    } else {
        None
    }
}

} // verus!
