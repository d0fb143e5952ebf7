//! The HTTP API's decisions, apart from the transport: which static asset a
//! path serves, and which addresses identify the client.
use vstd::prelude::*;
use crate::text::{chars_of, find_char, string_of_range, trim_bounds};

pub mod download;
pub mod meta;
pub mod uploads;

verus! {

/// What `mime_guess::from_path(path).first_or_octet_stream()` names for `path`.
pub uninterp spec fn mime_guess_of(path: Seq<char>) -> Seq<char>;

/// The MIME type that `mime_guess` guesses from the extension of `path`
/// (`from_path(..).first_or_octet_stream()`), as text. The guess depends on the
/// path alone; which type a given extension maps to is not stated here.
#[verifier::external_body]
fn guess_mime(path: &str) -> (m: String)
    ensures
        m@ == mime_guess_of(path@),
{
    mime_guess::from_path(path).first_or_octet_stream().to_string()
}

/// The security headers sent with every page of the web UI, as (name, value):
/// a Content-Security-Policy that allows scripts, styles and fonts from the
/// site itself only (inline styles aside), no plugins and no framing, plus
/// `nosniff`, `DENY` framing and no referrer.
pub fn page_security_headers() -> (h: Vec<(&'static str, &'static str)>)
    ensures
        h@.len() == 4,
        h@[0].0@ == "Content-Security-Policy"@,
        h@[0].1@ == "default-src 'self'; script-src 'self'; style-src 'self' 'unsafe-inline'; font-src 'self'; connect-src 'self' https: http: blob:; img-src 'self' data: blob:; object-src 'none'; frame-ancestors 'none';"@,
        h@[1].0@ == "X-Content-Type-Options"@ && h@[1].1@ == "nosniff"@,
        h@[2].0@ == "X-Frame-Options"@ && h@[2].1@ == "DENY"@,
        h@[3].0@ == "Referrer-Policy"@ && h@[3].1@ == "no-referrer"@,
{
    let mut h: Vec<(&'static str, &'static str)> = Vec::new();
    h.push(
        (
            "Content-Security-Policy",
            "default-src 'self'; script-src 'self'; style-src 'self' 'unsafe-inline'; font-src 'self'; connect-src 'self' https: http: blob:; img-src 'self' data: blob:; object-src 'none'; frame-ancestors 'none';",
        ),
    );
    h.push(("X-Content-Type-Options", "nosniff"));
    h.push(("X-Frame-Options", "DENY"));
    h.push(("Referrer-Policy", "no-referrer"));
    h
}

/// `path` without its leading `/` characters.
pub open spec fn strip_leading_slashes(p: Seq<char>) -> Seq<char>
    decreases p.len(),
{
    if p.len() > 0 && p[0] == '/' {
        strip_leading_slashes(p.drop_first())
    } else {
        p
    }
}

/// An asset to serve: its path relative to the asset root, and its type.
#[derive(Debug, Clone)]
pub struct AssetPlan {
    pub file: String,
    pub mime: String,
}

/// The asset path a request path names: `index.html` for the root; the file
/// itself when it exists; the app shell for any other non-API path (client-side
/// routes such as `/f/{id}`); nothing for unknown API paths.
pub open spec fn spec_asset_file(rel: Seq<char>, exists: bool) -> Option<Seq<char>> {
    if rel.len() == 0 || rel == "index.html"@ {
        Some("index.html"@)
    } else if exists {
        Some(rel)
    } else if !(rel.len() >= 4 && rel.take(4) == seq!['a', 'p', 'i', '/']) {
        Some("index.html"@)
    } else {
        None
    }
}

/// The request path relative to the asset root: leading slashes removed.
pub fn relative_asset_path(path: &str) -> (r: String)
    ensures
        r@ == strip_leading_slashes(path@),
{
    let cs = chars_of(path);
    assert(cs@.subrange(0, cs@.len() as int) =~= path@);
    let mut i: usize = 0;
    while i < cs.len() && cs[i] == '/'
        invariant
            0 <= i <= cs@.len(),
            strip_leading_slashes(path@) == strip_leading_slashes(cs@.subrange(i as int, cs@.len() as int)),
            cs@ == path@,
        decreases cs.len() - i,
    {
        assert(cs@.subrange(i as int, cs@.len() as int).drop_first() =~= cs@.subrange(
            i + 1,
            cs@.len() as int,
        ));
        i = i + 1;
    }
    assert(cs@.subrange(0, cs@.len() as int) =~= path@);
    string_of_range(&cs, i, cs.len())
}

/// The asset to serve for the relative path `rel`, given whether such an asset
/// exists; the app shell is served as `text/html`, other files by their guessed type.
pub fn asset_plan(rel: &str, exists: bool) -> (r: Option<AssetPlan>)
    ensures
        match spec_asset_file(rel@, exists) {
            None => r is None,
            Some(f) => r matches Some(p) && p.file@ == f && p.mime@ == if f == rel@ && f
                != "index.html"@ {
                mime_guess_of(rel@)
            } else {
                "text/html"@
            },
        },
{
    let cs = chars_of(rel);
    if cs.len() == 0 || crate::text::str_eq(rel, "index.html") {
        return Some(AssetPlan { file: String::from_str("index.html"), mime: String::from_str("text/html") });
    }
    if exists {
        return Some(AssetPlan { file: String::from_str(rel), mime: guess_mime(rel) });
    }
    let is_api = cs.len() >= 4 && cs[0] == 'a' && cs[1] == 'p' && cs[2] == 'i' && cs[3] == '/';
    proof {
        if rel@.len() >= 4 && rel@.take(4) == seq!['a', 'p', 'i', '/'] {
            assert(rel@.take(4)[0] == rel@[0]);
            assert(rel@.take(4)[1] == rel@[1]);
            assert(rel@.take(4)[2] == rel@[2]);
            assert(rel@.take(4)[3] == rel@[3]);
        }
        if is_api {
            assert(rel@.take(4) =~= seq!['a', 'p', 'i', '/']);
        }
    }
    if !is_api {
        Some(AssetPlan { file: String::from_str("index.html"), mime: String::from_str("text/html") })
    } else {
        None
    }
}

/// The first entry of a comma-separated list.
pub open spec fn first_list_entry(v: Seq<char>) -> Seq<char> {
    let k = crate::text::index_of(v, ',');
    if k < 0 {
        v
    } else {
        v.take(k)
    }
}

/// The client addresses to try, in order, behind a trusted proxy: the trimmed
/// `CF-Connecting-IP` value, then the trimmed first `X-Forwarded-For` entry.
/// Without a trusted proxy there are none and the peer address is used.
pub fn client_ip_candidates(trust_proxy: bool, cf_connecting_ip: Option<&str>, forwarded_for: Option<&str>) -> (r: Vec<String>)
    ensures
        !trust_proxy ==> r@.len() == 0,
        trust_proxy ==> r@.map_values(|s: String| s@) == (match cf_connecting_ip {
            Some(v) => seq![crate::text::trim(v@)],
            None => Seq::empty(),
        }) + (match forwarded_for {
            Some(v) => seq![crate::text::trim(first_list_entry(v@))],
            None => Seq::empty(),
        }),
{
    let mut r: Vec<String> = Vec::new();
    if !trust_proxy {
        return r;
    }
    if let Some(v) = cf_connecting_ip {
        let cs = chars_of(v);
        let (lo, hi) = trim_bounds(&cs, 0, cs.len());
        assert(cs@.subrange(0, cs@.len() as int) =~= v@);
        r.push(string_of_range(&cs, lo, hi));
    }
    let ghost after_cf = r@.map_values(|s: String| s@);
    assert(after_cf =~= match cf_connecting_ip {
        Some(v) => seq![crate::text::trim(v@)],
        None => Seq::<Seq<char>>::empty(),
    });
    if let Some(v) = forwarded_for {
        let cs = chars_of(v);
        let end = match find_char(&cs, 0, cs.len(), ',') {
            Some(k) => k,
            None => cs.len(),
        };
        proof {
            if end < cs@.len() {
                crate::text::lemma_index_of(cs@, ',', end as int);
                assert(cs@.subrange(0, end as int) =~= cs@.take(end as int));
            } else {
                crate::text::lemma_index_of(cs@, ',', -1);
                assert(cs@.subrange(0, end as int) =~= cs@);
            }
        }
        let (lo, hi) = trim_bounds(&cs, 0, end);
        r.push(string_of_range(&cs, lo, hi));
    }
    assert(r@.map_values(|s: String| s@) =~= after_cf + (match forwarded_for {
        Some(v) => seq![crate::text::trim(first_list_entry(v@))],
        None => Seq::<Seq<char>>::empty(),
    }));
    r
}

} // verus!
