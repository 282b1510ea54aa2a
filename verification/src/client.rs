//! The client capability and the link-header discovery protocol.
//!
//! A [`Client`] is the minimal interface a transport must implement: resolve
//! a logical route to an absolute URL, and send one request.  On top of
//! those two operations, the free functions here discover the API root and a
//! resource's canonical representation by probing a URL and scanning the
//! response's `link` headers.
//!
//! A `link` header occurrence matches a relation when it holds the text
//! `<`…`>; rel="…"` for that relation; as with a leftmost-first, greedy
//! pattern match, the scan takes the first `<` from which the relation text
//! can be reached and captures up to the last occurrence of the relation
//! text.

use vstd::prelude::*;
use vstd::string::StringSliceAdditionalSpecFns;
use crate::error::ApiError;
use crate::request::Method;
use crate::request::Request;
use crate::root::RootRoute;
use crate::root::RootRouteV;
use crate::root::has_rest_route;
use crate::urls::ApiUrl;
use crate::urls::url_model_of;

verus! {

/// One response header: a name and a value of raw bytes.
#[derive(Debug)]
pub struct Header {
    /// The header's name.
    pub name: String,
    /// The header's value, as raw bytes.
    pub value: Vec<u8>,
}

/// The mathematical value of a [`Header`].
#[verifier::ext_equal]
pub ghost struct HeaderV {
    pub name: Seq<char>,
    pub value: Seq<u8>,
}

impl View for Header {
    type V = HeaderV;

    open spec fn view(&self) -> HeaderV {
        HeaderV { name: self.name@, value: self.value@ }
    }
}

impl DeepView for Header {
    type V = HeaderV;

    open spec fn deep_view(&self) -> HeaderV {
        self@
    }
}

/// One response: a status code, the headers in order — a name may repeat —
/// and the raw body bytes.
#[derive(Debug)]
pub struct Response {
    /// The HTTP status code.
    pub status: u16,
    /// The headers, in order of arrival; the same name may appear several
    /// times, each occurrence carrying one value.
    pub headers: Vec<Header>,
    /// The raw response body.
    pub body: Vec<u8>,
}

/// The mathematical value of a [`Response`].
#[verifier::ext_equal]
pub ghost struct ResponseV {
    pub status: u16,
    pub headers: Seq<HeaderV>,
    pub body: Seq<u8>,
}

impl View for Response {
    type V = ResponseV;

    open spec fn view(&self) -> ResponseV {
        ResponseV { status: self.status, headers: self.headers.deep_view(), body: self.body@ }
    }
}

/// A client that can communicate with a WordPress instance.
pub trait Client {
    /// The errors which may occur for this client.
    type Error;

    /// Resolves a logical endpoint route to a full URL, under whichever
    /// addressing convention the instance uses.
    fn route_url(&self, route: &str) -> Result<ApiUrl, ApiError<Self::Error>>;

    /// Performs one request/response exchange.
    fn send_request(&self, request: Request) -> Result<Response, ApiError<Self::Error>>;
}

// ---------------------------------------------------------------------------
// Scanning link headers.
// ---------------------------------------------------------------------------

/// Whether `n` is the header name `link`, compared without regard to ASCII
/// case.
pub open spec fn is_link_name(n: Seq<char>) -> bool {
    n.len() == 4 && (n[0] == 'l' || n[0] == 'L') && (n[1] == 'i' || n[1] == 'I') && (n[2] == 'n'
        || n[2] == 'N') && (n[3] == 'k' || n[3] == 'K')
}

/// Whether the header name is `link`, in any ASCII case.
pub fn is_link_header(name: &str) -> (r: bool)
    ensures
        r == is_link_name(name@),
{
    if name.unicode_len() != 4 {
        return false;
    }
    let c0 = name.get_char(0);
    let c1 = name.get_char(1);
    let c2 = name.get_char(2);
    let c3 = name.get_char(3);
    (c0 == 'l' || c0 == 'L') && (c1 == 'i' || c1 == 'I') && (c2 == 'n' || c2 == 'N') && (c3 == 'k'
        || c3 == 'K')
}

/// Whether a header value decodes as text: every byte is visible ASCII,
/// space, or horizontal tab.
pub open spec fn is_header_text(v: Seq<u8>) -> bool {
    forall|i: int| 0 <= i < v.len() ==> (32 <= v[i] < 127 || v[i] == 9)
}

/// Whether every byte of the value decodes as text.
pub fn header_text_ok(v: &Vec<u8>) -> (r: bool)
    ensures
        r == is_header_text(v@),
{
    let n = v.len();
    let mut i: usize = 0;
    while i < n
        invariant
            n == v.len(),
            i <= n,
            forall|k: int| 0 <= k < i ==> (32 <= v@[k] < 127 || v@[k] == 9),
        decreases n - i,
    {
        let b = v[i];
        if !(32 <= b && b < 127 || b == 9) {
            return false;
        }
        i = i + 1;
    }
    true
}

/// Whether the marker `m` occurs in `h` at position `j`.
pub open spec fn marker_at(h: Seq<u8>, m: Seq<u8>, j: int) -> bool {
    0 <= j && j + m.len() <= h.len() && h.subrange(j, j + m.len()) == m
}

/// The last position `<= j` at which the marker occurs, if any.
pub open spec fn last_marker_from(h: Seq<u8>, m: Seq<u8>, j: int) -> Option<int>
    decreases j + 1,
{
    if j < 0 {
        None
    } else if marker_at(h, m, j) {
        Some(j)
    } else {
        last_marker_from(h, m, j - 1)
    }
}

/// The first position `>= i` and `< limit` holding `<`, if any.
pub open spec fn first_open_before(h: Seq<u8>, limit: int, i: int) -> Option<int>
    decreases limit - i,
{
    if i < 0 || i >= limit || limit > h.len() {
        None
    } else if h[i] == 0x3c {
        Some(i)
    } else {
        first_open_before(h, limit, i + 1)
    }
}

/// What a leftmost-first, greedy match of `<`…`marker` captures in `h`:
/// the text between the first `<` before the marker's last occurrence and
/// that occurrence, if both exist.
pub open spec fn link_capture(h: Seq<u8>, m: Seq<u8>) -> Option<Seq<u8>> {
    match last_marker_from(h, m, h.len() - m.len()) {
        None => None,
        Some(j) => match first_open_before(h, j, 0) {
            None => None,
            Some(i) => Some(h.subrange(i + 1, j)),
        },
    }
}

/// What one header occurrence contributes: nothing when its bytes do not
/// decode as text or the relation does not match, the captured URL text
/// otherwise.
pub open spec fn candidate_of(v: Seq<u8>, m: Seq<u8>) -> Option<Seq<u8>> {
    if is_header_text(v) {
        link_capture(v, m)
    } else {
        None
    }
}

/// The capture of the first `link` header occurrence that matches the
/// relation marker, scanning the headers in order.
pub open spec fn first_link_capture(hs: Seq<HeaderV>, m: Seq<u8>) -> Option<Seq<u8>>
    decreases hs.len(),
{
    if hs.len() == 0 {
        None
    } else if is_link_name(hs[0].name) && candidate_of(hs[0].value, m) is Some {
        candidate_of(hs[0].value, m)
    } else {
        first_link_capture(hs.drop_first(), m)
    }
}

/// Whether the marker occurs in `h` at position `j`.
fn matches_at(h: &Vec<u8>, m: &[u8], j: usize) -> (r: bool)
    requires
        j + m@.len() <= h@.len(),
    ensures
        r == marker_at(h@, m@, j as int),
{
    let hl = h.len();
    let ml = m.len();
    let mut k: usize = 0;
    while k < ml
        invariant
            hl == h@.len(),
            ml == m@.len(),
            j + ml <= hl,
            k <= ml,
            forall|t: int| 0 <= t < k ==> h@[j + t] == m@[t],
        decreases ml - k,
    {
        if h[j + k] != m[k] {
            proof {
                assert(h@.subrange(j as int, j + m@.len())[k as int] != m@[k as int]);
            }
            return false;
        }
        k = k + 1;
    }
    proof {
        assert(h@.subrange(j as int, j + m@.len()) =~= m@);
    }
    true
}

/// Where `last_marker_from` finds the marker, the marker really is there.
proof fn lemma_last_marker_bounds(h: Seq<u8>, m: Seq<u8>, j0: int, j: int)
    requires
        last_marker_from(h, m, j0) == Some(j),
    ensures
        marker_at(h, m, j),
        j <= j0,
    decreases j0 + 1,
{
    if j0 >= 0 && !marker_at(h, m, j0) {
        lemma_last_marker_bounds(h, m, j0 - 1, j);
    }
}

/// Where `first_open_before` finds a `<`, it lies in range.
proof fn lemma_first_open_bounds(h: Seq<u8>, limit: int, i0: int, i: int)
    requires
        first_open_before(h, limit, i0) == Some(i),
    ensures
        i0 <= i < limit,
        limit <= h.len(),
        h[i] == 0x3c,
    decreases limit - i0,
{
    if !(i0 < 0 || i0 >= limit || limit > h.len()) && h[i0] != 0x3c {
        lemma_first_open_bounds(h, limit, i0 + 1, i);
    }
}

/// The last position at which the marker occurs in `h`, if any.
fn find_last_marker(h: &Vec<u8>, m: &[u8]) -> (r: Option<usize>)
    ensures
        match r {
            Some(j) => last_marker_from(h@, m@, h@.len() - m@.len()) == Some(j as int),
            None => last_marker_from(h@, m@, h@.len() - m@.len()) is None,
        },
{
    let hl = h.len();
    let ml = m.len();
    if ml > hl {
        return None;
    }
    if ml == 0 {
        proof {
            assert(h@.subrange(h@.len() as int, h@.len() as int) =~= m@);
        }
        return Some(hl);
    }
    let start = hl - ml;
    let mut c: usize = 0;
    while c <= start
        invariant
            ml == m@.len(),
            hl == h@.len(),
            1 <= ml <= hl,
            start == hl - ml,
            c <= start + 1,
            last_marker_from(h@, m@, start as int) == last_marker_from(
                h@,
                m@,
                start as int - c as int,
            ),
        decreases start + 1 - c,
    {
        let jj = start - c;
        if matches_at(h, m, jj) {
            return Some(jj);
        }
        c = c + 1;
    }
    None
}

/// The first `<` strictly before `limit`, if any.
fn find_first_open(h: &Vec<u8>, limit: usize) -> (r: Option<usize>)
    requires
        limit <= h@.len(),
    ensures
        match r {
            Some(i) => first_open_before(h@, limit as int, 0) == Some(i as int),
            None => first_open_before(h@, limit as int, 0) is None,
        },
{
    let mut i: usize = 0;
    while i < limit
        invariant
            limit <= h@.len(),
            i <= limit,
            first_open_before(h@, limit as int, 0) == first_open_before(
                h@,
                limit as int,
                i as int,
            ),
        decreases limit - i,
    {
        if h[i] == 0x3c {
            return Some(i);
        }
        i = i + 1;
    }
    None
}

/// Copies `h[from..to]` into a fresh vector.
fn copy_range(h: &Vec<u8>, from: usize, to: usize) -> (r: Vec<u8>)
    requires
        from <= to <= h@.len(),
    ensures
        r@ == h@.subrange(from as int, to as int),
{
    let mut out: Vec<u8> = Vec::new();
    let mut i: usize = from;
    while i < to
        invariant
            from <= i <= to <= h@.len(),
            out@ == h@.subrange(from as int, i as int),
        decreases to - i,
    {
        out.push(h[i]);
        proof {
            assert(out@ =~= h@.subrange(from as int, i as int + 1));
        }
        i = i + 1;
    }
    out
}

/// The capture of the relation marker in one header value, if its bytes
/// decode as text and the relation matches.
fn capture_in_value(v: &Vec<u8>, m: &[u8]) -> (r: Option<Vec<u8>>)
    ensures
        match r {
            Some(cap) => candidate_of(v@, m@) == Some(cap@),
            None => candidate_of(v@, m@) is None,
        },
{
    if !header_text_ok(v) {
        return None;
    }
    let j = match find_last_marker(v, m) {
        Some(j) => j,
        None => return None,
    };
    proof {
        lemma_last_marker_bounds(v@, m@, v@.len() - m@.len(), j as int);
    }
    let i = match find_first_open(v, j) {
        Some(i) => i,
        None => return None,
    };
    proof {
        lemma_first_open_bounds(v@, j as int, 0, i as int);
    }
    Some(copy_range(v, i + 1, j))
}

/// The capture of the first matching `link` header occurrence, in header
/// order.
pub fn find_link(headers: &Vec<Header>, m: &[u8]) -> (r: Option<Vec<u8>>)
    ensures
        match r {
            Some(cap) => first_link_capture(headers.deep_view(), m@) == Some(cap@),
            None => first_link_capture(headers.deep_view(), m@) is None,
        },
{
    let ghost hv = headers.deep_view();
    let n = headers.len();
    let mut i: usize = 0;
    proof {
        assert(hv.skip(0) =~= hv);
    }
    while i < n
        invariant
            n == headers.len(),
            hv == headers.deep_view(),
            hv.len() == n,
            i <= n,
            first_link_capture(hv, m@) == first_link_capture(hv.skip(i as int), m@),
        decreases n - i,
    {
        proof {
            assert(hv.skip(i as int).drop_first() =~= hv.skip(i as int + 1));
            assert(hv.skip(i as int)[0] == headers@[i as int]@);
        }
        if is_link_header(headers[i].name.as_str()) {
            match capture_in_value(&headers[i].value, m) {
                Some(cap) => {
                    return Some(cap);
                },
                None => {},
            }
        }
        i = i + 1;
    }
    proof {
        assert(hv.skip(n as int) =~= Seq::<HeaderV>::empty());
    }
    None
}

// ---------------------------------------------------------------------------
// Discovery.
// ---------------------------------------------------------------------------

/// The relation text of the root-route link: `>; rel="https://api.w.org/"`.
pub open spec fn root_link_marker() -> Seq<u8> {
    ">; rel=\"https://api.w.org/\"".spec_bytes()
}

/// The relation text of the resource link:
/// `>; rel="alternate"; type="application/json"`.
pub open spec fn resource_link_marker() -> Seq<u8> {
    ">; rel=\"alternate\"; type=\"application/json\"".spec_bytes()
}

/// Reads the discovery target out of a probe response: the URL captured
/// from the first matching `link` header, parsed; a discovery error naming
/// the probed URL when no occurrence matches.
pub fn discovery_target<E>(probe: &ApiUrl, resp: &Response, root_relation: bool) -> (r: Result<
    ApiUrl,
    ApiError<E>,
>)
    ensures
        ({
            let m = if root_relation {
                root_link_marker()
            } else {
                resource_link_marker()
            };
            match first_link_capture(resp@.headers, m) {
                None => if root_relation {
                    r matches Err(ApiError::RootRouteDiscovery { url }) && url@ == probe@
                } else {
                    r matches Err(ApiError::ResourceDiscovery { url }) && url@ == probe@
                },
                Some(cap) => match url_model_of(cap) {
                    Some(u) => r matches Ok(target) && target@ == u,
                    None => r matches Err(ApiError::UrlParse { .. }),
                },
            }
        }),
{
    let marker: &[u8] = if root_relation {
        ">; rel=\"https://api.w.org/\"".as_bytes()
    } else {
        ">; rel=\"alternate\"; type=\"application/json\"".as_bytes()
    };
    let cap = match find_link(&resp.headers, marker) {
        Some(cap) => cap,
        None => {
            return if root_relation {
                Err(ApiError::RootRouteDiscovery { url: probe.clone() })
            } else {
                Err(ApiError::ResourceDiscovery { url: probe.clone() })
            };
        },
    };
    match crate::urls::parse_url_bytes(cap.as_slice()) {
        Ok(u) => Ok(u),
        Err(detail) => Err(ApiError::UrlParse { detail }),
    }
}

/// Sends the HEAD probe for discovery.
fn send_probe<C: Client>(client: &C, probe: &ApiUrl) -> Result<Response, ApiError<C::Error>> {
    client.send_request(
        Request { method: Method::Head, url: probe.clone(), body: Vec::new() },
    )
}

/// Discovers the API root route behind an already parsed probe URL, with
/// one HEAD request, and classifies it.
pub fn discover_root_route_at<C: Client>(client: &C, probe: &ApiUrl) -> (r: Result<
    RootRoute,
    ApiError<C::Error>,
>)
    ensures
        r matches Ok(root) ==> ((root@ matches RootRouteV::Default(u) ==> has_rest_route(u)) && (
        root@ matches RootRouteV::PrettyPermalinks(u) ==> !has_rest_route(u))),
{
    let resp = match send_probe(client, probe) {
        Ok(resp) => resp,
        Err(e) => return Err(e),
    };
    match discovery_target(probe, &resp, true) {
        Ok(target) => Ok(RootRoute::from(target)),
        Err(e) => Err(e),
    }
}

/// Discovers a resource's canonical API URL behind an already parsed probe
/// URL, with one HEAD request.
pub fn discover_resource_at<C: Client>(client: &C, probe: &ApiUrl) -> (r: Result<
    ApiUrl,
    ApiError<C::Error>,
>)
    ensures
        r matches Ok(u) ==> exists|cap: Seq<u8>| url_model_of(cap) == Some(u@),
{
    let resp = match send_probe(client, probe) {
        Ok(resp) => resp,
        Err(e) => return Err(e),
    };
    let out = discovery_target(probe, &resp, false);
    proof {
        match &out {
            Ok(u) => {
                let cap = first_link_capture(resp@.headers, resource_link_marker()).unwrap();
                assert(url_model_of(cap) == Some(u@));
            },
            Err(_) => {},
        }
    }
    out
}

/// Discovers the API root route for a WordPress instance: probes `url`
/// with one HEAD request and classifies the URL announced by the
/// root-route `link` relation.
pub fn discover_root_route<C: Client>(client: &C, url: &str) -> (r: Result<
    RootRoute,
    ApiError<C::Error>,
>)
    ensures
        url_model_of(url.spec_bytes()) is None ==> r matches Err(ApiError::UrlParse { .. }),
        r matches Ok(root) ==> ((root@ matches RootRouteV::Default(u) ==> has_rest_route(u)) && (
        root@ matches RootRouteV::PrettyPermalinks(u) ==> !has_rest_route(u))),
{
    let probe = match crate::urls::parse_url(url) {
        Ok(u) => u,
        Err(detail) => return Err(ApiError::UrlParse { detail }),
    };
    discover_root_route_at(client, &probe)
}

/// Discovers a resource's canonical API URL: probes `url` with one HEAD
/// request and returns the URL announced by the resource `link` relation.
pub fn discover_resource<C: Client>(client: &C, url: &str) -> (r: Result<
    ApiUrl,
    ApiError<C::Error>,
>)
    ensures
        url_model_of(url.spec_bytes()) is None ==> r matches Err(ApiError::UrlParse { .. }),
        r matches Ok(u) ==> exists|cap: Seq<u8>| url_model_of(cap) == Some(u@),
{
    let probe = match crate::urls::parse_url(url) {
        Ok(u) => u,
        Err(detail) => return Err(ApiError::UrlParse { detail }),
    };
    discover_resource_at(client, &probe)
}

} // verus!
