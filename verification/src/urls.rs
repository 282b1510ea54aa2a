//! The library's model of an absolute URL.
//!
//! An [`ApiUrl`] holds, as plain values, exactly what the route-joining and
//! classification logic reads from a URL: its scheme, the text before the
//! path, the path segments, the decoded query pairs, and the raw query and
//! fragment text.  Parsing a URL string into this model is delegated to the
//! `url` crate through one trusted function; everything that is computed
//! *from* the model — classification, joining, percent-encoding, rendering —
//! is verified.

use vstd::prelude::*;
use vstd::string::StringSliceAdditionalSpecFns;
use crate::text::push_char;
use crate::text::push_str;
use crate::text::str_eq;

verus! {

// ---------------------------------------------------------------------------
// Percent-encoding and form-encoding, byte by byte.
// ---------------------------------------------------------------------------

/// The uppercase hexadecimal digit for `n`, for `n < 16`.
pub open spec fn upper_hex_digit(n: int) -> char
    recommends
        0 <= n < 16,
{
    if n < 10 {
        ((n + 0x30) as u8) as char
    } else {
        ((n + 0x37) as u8) as char
    }
}

/// The three characters `%XY` that percent-encode the byte `b`.
pub open spec fn percent_encoded_byte(b: u8) -> Seq<char> {
    seq!['%', upper_hex_digit(b as int / 16), upper_hex_digit(b as int % 16)]
}

/// Appends `%XY` for the byte `b`.
fn push_percent_byte(out: &mut String, b: u8)
    ensures
        final(out)@ == old(out)@ + percent_encoded_byte(b),
{
    push_char(out, '%');
    let hi: u8 = b / 16;
    let lo: u8 = b % 16;
    let hc: char = if hi < 10 {
        (hi + 0x30) as char
    } else {
        (hi + 0x37) as char
    };
    let lc: char = if lo < 10 {
        (lo + 0x30) as char
    } else {
        (lo + 0x37) as char
    };
    push_char(out, hc);
    push_char(out, lc);
    proof {
        assert(final(out)@ =~= old(out)@ + percent_encoded_byte(b));
    }
}

/// Whether the byte `b` is percent-encoded when appended as a path segment.
///
/// This is the escape set that the `url` crate applies when a segment is
/// pushed onto a URL's path: every non-ASCII byte, the C0 controls and
/// delete, space, `"`, `<`, `>`, `` ` ``, `#`, `?`, `{`, `}`, `/` and `%`,
/// and additionally `\` when the scheme is one of the six special schemes.
pub open spec fn path_segment_escaped(special: bool, b: u8) -> bool {
    b >= 0x80 || b <= 0x1f || b == 0x7f || b == 0x20 || b == 0x22 || b == 0x3c || b == 0x3e
        || b == 0x60 || b == 0x23 || b == 0x3f || b == 0x7b || b == 0x7d || b == 0x2f || b == 0x25
        || (special && b == 0x5c)
}

/// How one byte of a pushed path segment is rendered: tab, line feed and
/// carriage return are removed, escaped bytes are percent-encoded, and every
/// other byte stands for itself.
pub open spec fn path_segment_encoded_byte(special: bool, b: u8) -> Seq<char> {
    if b == 9 || b == 10 || b == 13 {
        Seq::empty()
    } else if path_segment_escaped(special, b) {
        percent_encoded_byte(b)
    } else {
        seq![b as char]
    }
}

/// The rendering of a whole pushed path segment, from its UTF-8 bytes.
pub open spec fn path_segment_encoded(special: bool, bs: Seq<u8>) -> Seq<char>
    decreases bs.len(),
{
    if bs.len() == 0 {
        Seq::empty()
    } else {
        path_segment_encoded_byte(special, bs[0]) + path_segment_encoded(special, bs.drop_first())
    }
}

/// Percent-encodes `s` as one new path segment.
pub fn encode_path_segment(special: bool, s: &str) -> (r: String)
    ensures
        r@ == path_segment_encoded(special, s.spec_bytes()),
{
    let bytes = s.as_bytes();
    let ghost bs = s.spec_bytes();
    let mut out = String::new();
    let n = bytes.len();
    let mut i: usize = 0;
    proof {
        assert(bs.skip(0) =~= bs);
        assert(out@ + path_segment_encoded(special, bs) =~= path_segment_encoded(special, bs));
    }
    while i < n
        invariant
            bytes@ == bs,
            n == bs.len(),
            i <= n,
            out@ + path_segment_encoded(special, bs.skip(i as int)) == path_segment_encoded(
                special,
                bs,
            ),
        decreases n - i,
    {
        let b = bytes[i];
        proof {
            assert(bs.skip(i as int).drop_first() =~= bs.skip(i as int + 1));
        }
        let ghost prev = out@;
        if b == 9 || b == 10 || b == 13 {
            proof {
                assert(prev + (Seq::<char>::empty() + path_segment_encoded(
                    special,
                    bs.skip(i as int + 1),
                )) =~= prev + path_segment_encoded(special, bs.skip(i as int + 1)));
            }
        } else if b >= 0x80 || b <= 0x1f || b == 0x7f || b == 0x20 || b == 0x22 || b == 0x3c
            || b == 0x3e || b == 0x60 || b == 0x23 || b == 0x3f || b == 0x7b || b == 0x7d
            || b == 0x2f || b == 0x25 || (special && b == 0x5c) {
            push_percent_byte(&mut out, b);
            proof {
                assert(out@ + path_segment_encoded(special, bs.skip(i as int + 1)) =~= prev + (
                percent_encoded_byte(b) + path_segment_encoded(special, bs.skip(i as int + 1))));
            }
        } else {
            push_char(&mut out, b as char);
            proof {
                assert(out@ + path_segment_encoded(special, bs.skip(i as int + 1)) =~= prev + (
                seq![b as char] + path_segment_encoded(special, bs.skip(i as int + 1))));
            }
        }
        i = i + 1;
    }
    proof {
        assert(bs.skip(n as int) =~= Seq::<u8>::empty());
        assert(out@ + path_segment_encoded(special, Seq::<u8>::empty()) =~= out@);
    }
    out
}

/// Whether the byte `b` passes through form-urlencoding unchanged:
/// ASCII alphanumerics and `*`, `-`, `.`, `_`.
pub open spec fn form_unchanged(b: u8) -> bool {
    b == 0x2a || b == 0x2d || b == 0x2e || b == 0x5f || (0x30 <= b && b <= 0x39) || (0x41 <= b
        && b <= 0x5a) || (0x61 <= b && b <= 0x7a)
}

/// How one byte is form-urlencoded: kept, space as `+`, or percent-encoded.
pub open spec fn form_encoded_byte(b: u8) -> Seq<char> {
    if form_unchanged(b) {
        seq![b as char]
    } else if b == 0x20 {
        seq!['+']
    } else {
        percent_encoded_byte(b)
    }
}

/// The form-urlencoding of a byte string.
pub open spec fn form_encoded(bs: Seq<u8>) -> Seq<char>
    decreases bs.len(),
{
    if bs.len() == 0 {
        Seq::empty()
    } else {
        form_encoded_byte(bs[0]) + form_encoded(bs.drop_first())
    }
}

/// Form-urlencodes `s`, as a query key or value is encoded.
pub fn encode_form_component(s: &str) -> (r: String)
    ensures
        r@ == form_encoded(s.spec_bytes()),
{
    let bytes = s.as_bytes();
    let ghost bs = s.spec_bytes();
    let mut out = String::new();
    let n = bytes.len();
    let mut i: usize = 0;
    proof {
        assert(bs.skip(0) =~= bs);
        assert(out@ + form_encoded(bs) =~= form_encoded(bs));
    }
    while i < n
        invariant
            bytes@ == bs,
            n == bs.len(),
            i <= n,
            out@ + form_encoded(bs.skip(i as int)) == form_encoded(bs),
        decreases n - i,
    {
        let b = bytes[i];
        proof {
            assert(bs.skip(i as int).drop_first() =~= bs.skip(i as int + 1));
        }
        let ghost prev = out@;
        if b == 0x2a || b == 0x2d || b == 0x2e || b == 0x5f || (0x30 <= b && b <= 0x39) || (0x41
            <= b && b <= 0x5a) || (0x61 <= b && b <= 0x7a) {
            push_char(&mut out, b as char);
            proof {
                assert(out@ + form_encoded(bs.skip(i as int + 1)) =~= prev + (seq![b as char]
                    + form_encoded(bs.skip(i as int + 1))));
            }
        } else if b == 0x20 {
            push_char(&mut out, '+');
            proof {
                assert(out@ + form_encoded(bs.skip(i as int + 1)) =~= prev + (seq!['+']
                    + form_encoded(bs.skip(i as int + 1))));
            }
        } else {
            push_percent_byte(&mut out, b);
            proof {
                assert(out@ + form_encoded(bs.skip(i as int + 1)) =~= prev + (percent_encoded_byte(
                    b,
                ) + form_encoded(bs.skip(i as int + 1))));
            }
        }
        i = i + 1;
    }
    proof {
        assert(bs.skip(n as int) =~= Seq::<u8>::empty());
        assert(out@ + form_encoded(Seq::<u8>::empty()) =~= out@);
    }
    out
}

// ---------------------------------------------------------------------------
// Query-string rendering from key/optional-value items.
// ---------------------------------------------------------------------------

/// The rendering of one query item: `key` or `key=value`, each form-encoded.
pub open spec fn rendered_item(k: Seq<char>, v: Option<Seq<char>>) -> Seq<char> {
    match v {
        Some(vv) => form_encoded(vstd::utf8::encode_utf8(k)) + seq!['='] + form_encoded(
            vstd::utf8::encode_utf8(vv),
        ),
        None => form_encoded(vstd::utf8::encode_utf8(k)),
    }
}

/// The rendering of the items after the first, each preceded by `&`.
pub open spec fn rendered_items_rest(items: Seq<(Seq<char>, Option<Seq<char>>)>) -> Seq<char>
    decreases items.len(),
{
    if items.len() == 0 {
        Seq::empty()
    } else {
        seq!['&'] + rendered_item(items[0].0, items[0].1) + rendered_items_rest(items.drop_first())
    }
}

/// The rendering of a whole query string from its items.
pub open spec fn rendered_query(items: Seq<(Seq<char>, Option<Seq<char>>)>) -> Seq<char> {
    if items.len() == 0 {
        Seq::empty()
    } else {
        rendered_item(items[0].0, items[0].1) + rendered_items_rest(items.drop_first())
    }
}

/// Appends the rendering of one query item to `out`.
fn push_item(out: &mut String, k: &String, v: &Option<String>)
    ensures
        final(out)@ == old(out)@ + rendered_item(k@, v.deep_view()),
{
    let ek = encode_form_component(k.as_str());
    push_str(out, ek.as_str());
    match v {
        Some(vv) => {
            let ev = encode_form_component(vv.as_str());
            push_char(out, '=');
            push_str(out, ev.as_str());
            proof {
                assert(final(out)@ =~= old(out)@ + rendered_item(k@, v.deep_view()));
            }
        },
        None => {
            proof {
                assert(final(out)@ =~= old(out)@ + rendered_item(k@, v.deep_view()));
            }
        },
    }
}

/// Renders a full query string from its items.
pub fn render_query(items: &Vec<(String, Option<String>)>) -> (r: String)
    ensures
        r@ == rendered_query(items.deep_view()),
{
    let ghost iv = items.deep_view();
    let mut out = String::new();
    if items.len() == 0 {
        return out;
    }
    push_item(&mut out, &items[0].0, &items[0].1);
    proof {
        assert(iv[0] == (items[0].0@, items[0].1.deep_view()));
    }
    let n = items.len();
    let mut i: usize = 1;
    while i < n
        invariant
            1 <= i <= n,
            n == items.len(),
            iv == items.deep_view(),
            iv.len() == n,
            out@ + rendered_items_rest(iv.skip(i as int)) == rendered_query(iv),
        decreases n - i,
    {
        proof {
            assert(iv.skip(i as int).drop_first() =~= iv.skip(i as int + 1));
            assert(iv[i as int] == (items[i as int].0@, items[i as int].1.deep_view()));
        }
        let ghost prev = out@;
        push_char(&mut out, '&');
        push_item(&mut out, &items[i].0, &items[i].1);
        proof {
            assert(out@ + rendered_items_rest(iv.skip(i as int + 1)) =~= prev + (seq!['&']
                + rendered_item(iv.skip(i as int)[0].0, iv.skip(i as int)[0].1)
                + rendered_items_rest(iv.skip(i as int + 1))));
        }
        i = i + 1;
    }
    proof {
        assert(iv.skip(n as int) =~= Seq::<(Seq<char>, Option<Seq<char>>)>::empty());
        assert(out@ + rendered_items_rest(Seq::<(Seq<char>, Option<Seq<char>>)>::empty()) =~= out@);
    }
    out
}

// ---------------------------------------------------------------------------
// The URL model.
// ---------------------------------------------------------------------------

/// The mathematical value of an [`ApiUrl`].
#[verifier::ext_equal]
pub ghost struct ApiUrlV {
    /// The URL's scheme, lowercase.
    pub scheme: Seq<char>,
    /// Everything before the path: scheme, separator, and authority.
    pub origin: Seq<char>,
    /// The path segments, in URL text form (percent-encoded as parsed).
    pub segments: Seq<Seq<char>>,
    /// The query pairs, percent-decoded; a key without `=` has an empty value.
    pub pairs: Seq<(Seq<char>, Seq<char>)>,
    /// The raw query text, without the leading `?`, if a query is present.
    pub query_raw: Option<Seq<char>>,
    /// The raw fragment text, without the leading `#`, if one is present.
    pub fragment: Option<Seq<char>>,
}

/// An absolute URL with a rooted path, held as plain values.
#[derive(Debug)]
pub struct ApiUrl {
    /// The URL's scheme, lowercase.
    pub scheme: String,
    /// Everything before the path: scheme, separator, and authority.
    pub origin: String,
    /// The path segments, in URL text form (percent-encoded as parsed).
    pub segments: Vec<String>,
    /// The query pairs, percent-decoded; a key without `=` has an empty value.
    pub pairs: Vec<(String, String)>,
    /// The raw query text, without the leading `?`, if a query is present.
    pub query_raw: Option<String>,
    /// The raw fragment text, without the leading `#`, if one is present.
    pub fragment: Option<String>,
}

impl View for ApiUrl {
    type V = ApiUrlV;

    open spec fn view(&self) -> ApiUrlV {
        ApiUrlV {
            scheme: self.scheme@,
            origin: self.origin@,
            segments: self.segments.deep_view(),
            pairs: self.pairs.deep_view(),
            query_raw: self.query_raw.deep_view(),
            fragment: self.fragment.deep_view(),
        }
    }
}

/// Copies a vector of strings.
pub fn clone_strings(v: &Vec<String>) -> (r: Vec<String>)
    ensures
        r.deep_view() == v.deep_view(),
{
    let mut r: Vec<String> = Vec::new();
    let n = v.len();
    let mut i: usize = 0;
    while i < n
        invariant
            n == v.len(),
            i <= n,
            r.len() == i,
            forall|k: int| 0 <= k < i ==> r.deep_view()[k] == v.deep_view()[k],
        decreases n - i,
    {
        r.push(v[i].clone());
        i = i + 1;
    }
    proof {
        assert(r.deep_view() =~= v.deep_view());
    }
    r
}

/// Copies a vector of string pairs.
pub fn clone_pairs(v: &Vec<(String, String)>) -> (r: Vec<(String, String)>)
    ensures
        r.deep_view() == v.deep_view(),
{
    let mut r: Vec<(String, String)> = Vec::new();
    let n = v.len();
    let mut i: usize = 0;
    while i < n
        invariant
            n == v.len(),
            i <= n,
            r.len() == i,
            forall|k: int| 0 <= k < i ==> r.deep_view()[k] == v.deep_view()[k],
        decreases n - i,
    {
        r.push((v[i].0.clone(), v[i].1.clone()));
        i = i + 1;
    }
    proof {
        assert(r.deep_view() =~= v.deep_view());
    }
    r
}

impl Clone for ApiUrl {
    /// Copies the URL; the copy has the same model value.
    fn clone(&self) -> (r: Self)
        ensures
            r@ == self@,
    {
        ApiUrl {
            scheme: self.scheme.clone(),
            origin: self.origin.clone(),
            segments: clone_strings(&self.segments),
            pairs: clone_pairs(&self.pairs),
            query_raw: match &self.query_raw {
                Some(q) => Some(q.clone()),
                None => None,
            },
            fragment: match &self.fragment {
                Some(f) => Some(f.clone()),
                None => None,
            },
        }
    }
}

/// The rendering of a path from its segments: `/` before each segment.
pub open spec fn rendered_path(segs: Seq<Seq<char>>) -> Seq<char>
    decreases segs.len(),
{
    if segs.len() == 0 {
        Seq::empty()
    } else {
        seq!['/'] + segs[0] + rendered_path(segs.drop_first())
    }
}

/// The full text of a URL model: origin, path, `?query`, `#fragment`.
pub open spec fn rendered_url(u: ApiUrlV) -> Seq<char> {
    u.origin + rendered_path(u.segments) + (match u.query_raw {
        Some(q) => seq!['?'] + q,
        None => Seq::empty(),
    }) + (match u.fragment {
        Some(f) => seq!['#'] + f,
        None => Seq::empty(),
    })
}

impl ApiUrl {
    /// Renders the URL as text.
    pub fn as_str(&self) -> (r: String)
        ensures
            r@ == rendered_url(self@),
    {
        let mut out = String::new();
        push_str(&mut out, self.origin.as_str());
        let ghost segs = self.segments.deep_view();
        let n = self.segments.len();
        let mut i: usize = 0;
        proof {
            assert(segs.skip(0) =~= segs);
            assert(out@ =~= self.origin@);
        }
        while i < n
            invariant
                n == self.segments.len(),
                segs == self.segments.deep_view(),
                segs.len() == n,
                i <= n,
                out@ + rendered_path(segs.skip(i as int)) == self.origin@ + rendered_path(segs),
            decreases n - i,
        {
            proof {
                assert(segs.skip(i as int).drop_first() =~= segs.skip(i as int + 1));
                assert(segs[i as int] == self.segments[i as int]@);
            }
            let ghost prev = out@;
            push_char(&mut out, '/');
            push_str(&mut out, self.segments[i].as_str());
            proof {
                assert(out@ + rendered_path(segs.skip(i as int + 1)) =~= prev + (seq!['/']
                    + segs.skip(i as int)[0] + rendered_path(segs.skip(i as int + 1))));
            }
            i = i + 1;
        }
        proof {
            assert(segs.skip(n as int) =~= Seq::<Seq<char>>::empty());
            assert(out@ + rendered_path(Seq::<Seq<char>>::empty()) =~= out@);
        }
        match &self.query_raw {
            Some(q) => {
                push_char(&mut out, '?');
                push_str(&mut out, q.as_str());
            },
            None => {},
        }
        match &self.fragment {
            Some(f) => {
                push_char(&mut out, '#');
                push_str(&mut out, f.as_str());
            },
            None => {},
        }
        proof {
            assert(out@ =~= rendered_url(self@));
        }
        out
    }
}

/// Whether `s` is one of the six special schemes of the URL standard,
/// whose path segments escape the backslash as well.
pub open spec fn special_scheme(s: Seq<char>) -> bool {
    s == "http"@ || s == "https"@ || s == "ws"@ || s == "wss"@ || s == "ftp"@ || s == "file"@
}

/// Whether the scheme string is special.
pub fn is_special_scheme(s: &str) -> (r: bool)
    ensures
        r == special_scheme(s@),
{
    str_eq(s, "http") || str_eq(s, "https") || str_eq(s, "ws") || str_eq(s, "wss") || str_eq(
        s,
        "ftp",
    ) || str_eq(s, "file")
}

// ---------------------------------------------------------------------------
// Parsing, through the url crate.
// ---------------------------------------------------------------------------

// What parsing `bytes` as an absolute URL with a rooted path yields: the
// model of the parsed URL, or None when the bytes are not UTF-8, do not
// parse as a URL, or parse to a URL whose path does not start with `/`.
// The result is a function of the bytes alone.
pub uninterp spec fn url_model_of(bytes: Seq<u8>) -> Option<ApiUrlV>;

/// Relies on `url::Url::parse` and on `url::Url`'s component accessors:
/// `scheme` is the lowercase scheme; the slice up to `Position::BeforePath`
/// is everything before the path; `path_segments` is `Some` exactly when the
/// path starts with `/` and then yields the `/`-separated segments in URL
/// text form; `query_pairs` yields the percent-decoded query pairs in order,
/// a key without `=` paired with an empty value; `query` and `fragment` are
/// the raw query and fragment text.  Errors are reported as text.
#[verifier::external_body]
pub(crate) fn parse_url_bytes(bytes: &[u8]) -> (r: Result<ApiUrl, String>)
    ensures
        match r {
            Ok(u) => url_model_of(bytes@) == Some(u@),
            Err(_) => url_model_of(bytes@) is None,
        },
{
    let text = core::str::from_utf8(bytes).map_err(|e| e.to_string())?;
    let u = url::Url::parse(text).map_err(|e| e.to_string())?;
    let segments = u.path_segments().ok_or("URL has no rooted path")?;
    Ok(ApiUrl {
        scheme: u.scheme().to_string(),
        origin: u[..url::Position::BeforePath].to_string(),
        segments: segments.map(str::to_string).collect(),
        pairs: u.query_pairs().map(|(k, v)| (k.into_owned(), v.into_owned())).collect(),
        query_raw: u.query().map(str::to_string),
        fragment: u.fragment().map(str::to_string),
    })
}

/// Parses a URL string into the library's model.
pub fn parse_url(s: &str) -> (r: Result<ApiUrl, String>)
    ensures
        match r {
            Ok(u) => url_model_of(s.spec_bytes()) == Some(u@),
            Err(_) => url_model_of(s.spec_bytes()) is None,
        },
{
    parse_url_bytes(s.as_bytes())
}

} // verus!
