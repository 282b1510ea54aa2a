//! The API root route: a classified entry-point URL and the route-joining
//! algorithm.
//!
//! A [`RootRoute`] is built from a discovered entry-point URL and records
//! which of the two addressing conventions the site uses.  The classification
//! looks at exactly one signal: whether the URL's query string has a
//! parameter named `rest_route`.  [`RootRoute::join`] turns a logical
//! endpoint route into an absolute URL under the recorded convention.

use vstd::prelude::*;
use vstd::string::StringSliceAdditionalSpecFns;
use crate::text::push_char;
use crate::text::str_eq;
use crate::urls::ApiUrl;
use crate::urls::ApiUrlV;
use crate::urls::clone_strings;
use crate::urls::encode_path_segment;
use crate::urls::is_special_scheme;
use crate::urls::path_segment_encoded;
use crate::urls::render_query;
use crate::urls::rendered_query;
use crate::urls::special_scheme;

verus! {

/// An API entry-point URL, classified by its addressing convention.
#[derive(Debug)]
pub enum RootRoute {
    /// The root of an instance without pretty permalinks: endpoint routes
    /// are carried as the value of the `rest_route` query parameter.
    Default(ApiUrl),
    /// The root of an instance with pretty permalinks: endpoint routes are
    /// appended to the URL's path.
    PrettyPermalinks(ApiUrl),
}

/// The mathematical value of a [`RootRoute`].
#[verifier::ext_equal]
pub ghost enum RootRouteV {
    Default(ApiUrlV),
    PrettyPermalinks(ApiUrlV),
}

impl View for RootRoute {
    type V = RootRouteV;

    open spec fn view(&self) -> RootRouteV {
        match self {
            RootRoute::Default(u) => RootRouteV::Default(u@),
            RootRoute::PrettyPermalinks(u) => RootRouteV::PrettyPermalinks(u@),
        }
    }
}

impl Clone for RootRoute {
    /// Copies the root route; the copy has the same value.
    fn clone(&self) -> (r: Self)
        ensures
            r@ == self@,
    {
        match self {
            RootRoute::Default(u) => RootRoute::Default(u.clone()),
            RootRoute::PrettyPermalinks(u) => RootRoute::PrettyPermalinks(u.clone()),
        }
    }
}

/// The entry-point URL inside a root route.
pub open spec fn root_url(rv: RootRouteV) -> ApiUrlV {
    match rv {
        RootRouteV::Default(u) => u,
        RootRouteV::PrettyPermalinks(u) => u,
    }
}

/// Whether some query pair of `u` has the key `rest_route`.
pub open spec fn has_rest_route(u: ApiUrlV) -> bool {
    exists|k: int| 0 <= k < u.pairs.len() && u.pairs[k].0 == "rest_route"@
}

/// Whether some query pair of the URL has the key `rest_route`.
pub fn contains_rest_route(u: &ApiUrl) -> (r: bool)
    ensures
        r == has_rest_route(u@),
{
    let n = u.pairs.len();
    let mut i: usize = 0;
    while i < n
        invariant
            n == u.pairs.len(),
            i <= n,
            forall|k: int| 0 <= k < i ==> u@.pairs[k].0 != "rest_route"@,
        decreases n - i,
    {
        if str_eq(u.pairs[i].0.as_str(), "rest_route") {
            proof {
                assert(u@.pairs[i as int].0 == "rest_route"@);
            }
            return true;
        }
        i = i + 1;
    }
    false
}

impl From<ApiUrl> for RootRoute {
    /// Classifies an entry-point URL: `Default` exactly when its query
    /// string has a parameter named `rest_route`.
    fn from(url: ApiUrl) -> (r: Self) {
        if contains_rest_route(&url) {
            RootRoute::Default(url)
        } else {
            RootRoute::PrettyPermalinks(url)
        }
    }
}

impl vstd::std_specs::convert::FromSpecImpl<ApiUrl> for RootRoute {
    open spec fn obeys_from_spec() -> bool {
        true
    }

    open spec fn from_spec(url: ApiUrl) -> RootRoute {
        if has_rest_route(url@) {
            RootRoute::Default(url)
        } else {
            RootRoute::PrettyPermalinks(url)
        }
    }
}

/// Classification law: a base URL is classified `Default` exactly when its
/// query string has a parameter named `rest_route` — whatever its position,
/// its value, and the other parameters — and `PrettyPermalinks` otherwise.
pub proof fn lemma_classification(url: ApiUrl)
    ensures
        (<RootRoute as vstd::std_specs::convert::FromSpec<ApiUrl>>::from_spec(url) matches
            RootRoute::Default(_)) <==> has_rest_route(url@),
        (<RootRoute as vstd::std_specs::convert::FromSpec<ApiUrl>>::from_spec(url) matches
            RootRoute::PrettyPermalinks(_)) <==> !has_rest_route(url@),
{
}

// ---------------------------------------------------------------------------
// Joining a route under the Default convention: rebuild the query string.
// ---------------------------------------------------------------------------

/// The query pairs after a join: every pair keeps its place; a pair keyed
/// `rest_route` takes the route as its new value.
pub open spec fn replaced_pairs(pairs: Seq<(Seq<char>, Seq<char>)>, route: Seq<char>) -> Seq<
    (Seq<char>, Seq<char>),
> {
    pairs.map_values(
        |p: (Seq<char>, Seq<char>)|
            if p.0 == "rest_route"@ {
                (p.0, route)
            } else {
                p
            },
    )
}

/// How each pair is re-emitted into the rebuilt query string: the
/// `rest_route` pair with the route as value, a pair with an empty value as
/// key-only, and every other pair unchanged.
pub open spec fn default_items(pairs: Seq<(Seq<char>, Seq<char>)>, route: Seq<char>) -> Seq<
    (Seq<char>, Option<Seq<char>>),
> {
    pairs.map_values(
        |p: (Seq<char>, Seq<char>)|
            if p.0 == "rest_route"@ {
                (p.0, Some(route))
            } else if p.1.len() == 0 {
                (p.0, None)
            } else {
                (p.0, Some(p.1))
            },
    )
}

/// The result of joining `route` under the Default convention: the path is
/// untouched; the query is rebuilt from the old pairs in order, form-encoded,
/// with the route as the new `rest_route` value.
pub open spec fn joined_default(u: ApiUrlV, route: Seq<char>) -> ApiUrlV {
    ApiUrlV {
        pairs: replaced_pairs(u.pairs, route),
        query_raw: Some(rendered_query(default_items(u.pairs, route))),
        ..u
    }
}

// ---------------------------------------------------------------------------
// Joining a route under the PrettyPermalinks convention: extend the path.
// ---------------------------------------------------------------------------

/// The route without a single leading slash, if it has one.
pub open spec fn strip_leading_slash(route: Seq<char>) -> Seq<char> {
    if route.len() > 0 && route[0] == '/' {
        route.drop_first()
    } else {
        route
    }
}

/// Splits `s` on `/`, with `cur` as the segment read so far.
pub open spec fn split_acc(s: Seq<char>, cur: Seq<char>) -> Seq<Seq<char>>
    decreases s.len(),
{
    if s.len() == 0 {
        seq![cur]
    } else if s[0] == '/' {
        seq![cur] + split_acc(s.drop_first(), Seq::empty())
    } else {
        split_acc(s.drop_first(), cur.push(s[0]))
    }
}

/// The `/`-delimited components of a route, after stripping one leading
/// slash.
pub open spec fn route_components(route: Seq<char>) -> Seq<Seq<char>> {
    split_acc(strip_leading_slash(route), Seq::empty())
}

/// The new path segments contributed by the route components: `.` and `..`
/// are ignored, every other component is percent-encoded as a path segment.
pub open spec fn encoded_components(special: bool, comps: Seq<Seq<char>>) -> Seq<Seq<char>>
    decreases comps.len(),
{
    if comps.len() == 0 {
        Seq::empty()
    } else {
        let rest = encoded_components(special, comps.drop_first());
        if comps[0] == "."@ || comps[0] == ".."@ {
            rest
        } else {
            seq![path_segment_encoded(special, vstd::utf8::encode_utf8(comps[0]))] + rest
        }
    }
}

/// The base path treated as a directory: a final empty segment (a trailing
/// slash) is dropped.
pub open spec fn without_trailing_empty(segs: Seq<Seq<char>>) -> Seq<Seq<char>> {
    if segs.len() > 0 && segs[segs.len() - 1].len() == 0 {
        segs.drop_last()
    } else {
        segs
    }
}

/// The result of joining `route` under the PrettyPermalinks convention: the
/// query and fragment are untouched; the path, with a trailing slash
/// dropped, gains one segment per route component.
pub open spec fn joined_pretty(u: ApiUrlV, route: Seq<char>) -> ApiUrlV {
    ApiUrlV {
        segments: without_trailing_empty(u.segments) + encoded_components(
            special_scheme(u.scheme),
            route_components(route),
        ),
        ..u
    }
}

/// The result of joining `route` onto a root route.
pub open spec fn joined(rv: RootRouteV, route: Seq<char>) -> ApiUrlV {
    match rv {
        RootRouteV::Default(u) => joined_default(u, route),
        RootRouteV::PrettyPermalinks(u) => joined_pretty(u, route),
    }
}

/// Joining is pure and deterministic: the joined URL is a function of the
/// root route's value and the route text alone, so identical inputs always
/// yield an identical URL.
pub proof fn lemma_join_deterministic(a: RootRouteV, b: RootRouteV, ra: Seq<char>, rb: Seq<char>)
    requires
        a == b,
        ra == rb,
    ensures
        joined(a, ra) == joined(b, rb),
{
}

/// Splitting distributes over a `/` between two texts.
proof fn lemma_split_acc_concat(a: Seq<char>, b: Seq<char>, cur: Seq<char>)
    ensures
        split_acc(a + seq!['/'] + b, cur) == split_acc(a, cur) + split_acc(b, Seq::empty()),
    decreases a.len(),
{
    let whole = a + seq!['/'] + b;
    if a.len() == 0 {
        assert(whole[0] == '/');
        assert(whole.drop_first() =~= b);
        assert(split_acc(whole, cur) =~= seq![cur] + split_acc(b, Seq::empty()));
        assert(split_acc(a, cur) =~= seq![cur]);
        assert(seq![cur] + split_acc(b, Seq::empty()) =~= split_acc(a, cur) + split_acc(
            b,
            Seq::empty(),
        ));
    } else {
        assert(whole[0] == a[0]);
        assert(whole.drop_first() =~= a.drop_first() + seq!['/'] + b);
        if a[0] == '/' {
            lemma_split_acc_concat(a.drop_first(), b, Seq::empty());
            assert(split_acc(whole, cur) =~= seq![cur] + (split_acc(a.drop_first(), Seq::empty())
                + split_acc(b, Seq::empty())));
            assert(seq![cur] + (split_acc(a.drop_first(), Seq::empty()) + split_acc(
                b,
                Seq::empty(),
            )) =~= split_acc(a, cur) + split_acc(b, Seq::empty()));
        } else {
            lemma_split_acc_concat(a.drop_first(), b, cur.push(a[0]));
        }
    }
}

/// Encoding route components distributes over concatenation.
proof fn lemma_encoded_components_concat(special: bool, c1: Seq<Seq<char>>, c2: Seq<Seq<char>>)
    ensures
        encoded_components(special, c1 + c2) == encoded_components(special, c1)
            + encoded_components(special, c2),
    decreases c1.len(),
{
    if c1.len() == 0 {
        assert(c1 + c2 =~= c2);
        assert(encoded_components(special, c1) + encoded_components(special, c2)
            =~= encoded_components(special, c2));
    } else {
        assert((c1 + c2)[0] == c1[0]);
        assert((c1 + c2).drop_first() =~= c1.drop_first() + c2);
        lemma_encoded_components_concat(special, c1.drop_first(), c2);
        if c1[0] == "."@ || c1[0] == ".."@ {
        } else {
            assert(seq![path_segment_encoded(special, vstd::utf8::encode_utf8(c1[0]))] + (
            encoded_components(special, c1.drop_first()) + encoded_components(special, c2)) =~= (
            seq![path_segment_encoded(special, vstd::utf8::encode_utf8(c1[0]))]
                + encoded_components(special, c1.drop_first())) + encoded_components(special, c2));
        }
    }
}

/// Splitting always yields at least one component.
proof fn lemma_split_acc_nonempty(s: Seq<char>, cur: Seq<char>)
    ensures
        split_acc(s, cur).len() >= 1,
    decreases s.len(),
{
    if s.len() > 0 {
        if s[0] == '/' {
            lemma_split_acc_nonempty(s.drop_first(), Seq::empty());
        } else {
            lemma_split_acc_nonempty(s.drop_first(), cur.push(s[0]));
        }
    }
}

/// Where the last component is kept, it is the last encoded segment.
proof fn lemma_encoded_components_last(special: bool, cs: Seq<Seq<char>>)
    requires
        cs.len() > 0,
        cs.last() != "."@,
        cs.last() != ".."@,
    ensures
        encoded_components(special, cs).len() > 0,
        encoded_components(special, cs).last() == path_segment_encoded(
            special,
            vstd::utf8::encode_utf8(cs.last()),
        ),
    decreases cs.len(),
{
    if cs.len() == 1 {
        assert(encoded_components(special, cs.drop_first()) =~= Seq::<Seq<char>>::empty());
    } else {
        assert(cs.drop_first().last() == cs.last());
        lemma_encoded_components_last(special, cs.drop_first());
    }
}

/// Joining the concatenation of two route fragments equals joining them in
/// sequence, under the PrettyPermalinks convention.  Both fragments must
/// start with a slash, and the first must end in a component that survives
/// the join as a nonempty segment — not `.` or `..`, and not rendered empty
/// — so that no trailing-slash normalization intervenes between the two
/// joins.
pub proof fn lemma_join_pretty_sequential(u: ApiUrlV, r1: Seq<char>, r2: Seq<char>)
    requires
        r1.len() > 0 && r1[0] == '/',
        r2.len() > 0 && r2[0] == '/',
        route_components(r1).last() != "."@,
        route_components(r1).last() != ".."@,
        path_segment_encoded(
            special_scheme(u.scheme),
            vstd::utf8::encode_utf8(route_components(r1).last()),
        ).len() > 0,
    ensures
        joined_pretty(u, r1 + r2) == joined_pretty(joined_pretty(u, r1), r2),
{
    let special = special_scheme(u.scheme);
    let a = strip_leading_slash(r1);
    let b = strip_leading_slash(r2);
    assert((r1 + r2)[0] == '/');
    assert(strip_leading_slash(r1 + r2) =~= a + seq!['/'] + b);
    lemma_split_acc_concat(a, b, Seq::empty());
    let c1 = route_components(r1);
    let c2 = route_components(r2);
    lemma_split_acc_nonempty(a, Seq::empty());
    assert(route_components(r1 + r2) == c1 + c2);
    lemma_encoded_components_concat(special, c1, c2);
    lemma_encoded_components_last(special, c1);
    let s1 = without_trailing_empty(u.segments) + encoded_components(special, c1);
    assert(s1.last() == encoded_components(special, c1).last());
    assert(without_trailing_empty(s1) =~= s1);
    assert(without_trailing_empty(u.segments) + encoded_components(special, c1 + c2) =~= s1
        + encoded_components(special, c2));
    assert(joined_pretty(u, r1 + r2) =~= joined_pretty(joined_pretty(u, r1), r2));
}

impl RootRoute {
    /// The root route's URL as text.
    pub fn as_str(&self) -> (r: String)
        ensures
            r@ == crate::urls::rendered_url(root_url(self@)),
    {
        match self {
            RootRoute::Default(u) => u.as_str(),
            RootRoute::PrettyPermalinks(u) => u.as_str(),
        }
    }

    /// Joins an endpoint route onto the root route.
    pub fn join(&self, route: &str) -> (r: ApiUrl)
        ensures
            r@ == joined(self@, route@),
    {
        match self {
            RootRoute::Default(u) => {
                let ghost pv = u@.pairs;
                let n = u.pairs.len();
                let mut items: Vec<(String, Option<String>)> = Vec::new();
                let mut new_pairs: Vec<(String, String)> = Vec::new();
                let mut i: usize = 0;
                while i < n
                    invariant
                        n == u.pairs.len(),
                        pv == u@.pairs,
                        pv.len() == n,
                        i <= n,
                        items.len() == i,
                        new_pairs.len() == i,
                        forall|k: int|
                            0 <= k < i ==> items.deep_view()[k] == default_items(pv, route@)[k],
                        forall|k: int|
                            0 <= k < i ==> new_pairs.deep_view()[k] == replaced_pairs(
                                pv,
                                route@,
                            )[k],
                    decreases n - i,
                {
                    let k = u.pairs[i].0.clone();
                    let v = u.pairs[i].1.clone();
                    proof {
                        assert(pv[i as int] == (u.pairs[i as int].0@, u.pairs[i as int].1@));
                    }
                    let ghost kv = k@;
                    let ghost vv = v@;
                    let ghost prev_items = items.deep_view();
                    let ghost prev_pairs = new_pairs.deep_view();
                    if str_eq(k.as_str(), "rest_route") {
                        items.push((k.clone(), Some(route.to_owned())));
                        new_pairs.push((k, route.to_owned()));
                        proof {
                            assert(items.deep_view() =~= prev_items.push((kv, Some(route@))));
                            assert(new_pairs.deep_view() =~= prev_pairs.push((kv, route@)));
                        }
                    } else if v.as_str().is_empty() {
                        items.push((k.clone(), None));
                        new_pairs.push((k, v));
                        proof {
                            assert(items.deep_view() =~= prev_items.push(
                                (kv, Option::<Seq<char>>::None),
                            ));
                            assert(new_pairs.deep_view() =~= prev_pairs.push((kv, vv)));
                        }
                    } else {
                        items.push((k.clone(), Some(v.clone())));
                        new_pairs.push((k, v));
                        proof {
                            assert(items.deep_view() =~= prev_items.push((kv, Some(vv))));
                            assert(new_pairs.deep_view() =~= prev_pairs.push((kv, vv)));
                        }
                    }
                    i = i + 1;
                }
                proof {
                    assert(items.deep_view() =~= default_items(pv, route@));
                    assert(new_pairs.deep_view() =~= replaced_pairs(pv, route@));
                }
                let q = render_query(&items);
                let r = ApiUrl {
                    scheme: u.scheme.clone(),
                    origin: u.origin.clone(),
                    segments: clone_strings(&u.segments),
                    pairs: new_pairs,
                    query_raw: Some(q),
                    fragment: match &u.fragment {
                        Some(f) => Some(f.clone()),
                        None => None,
                    },
                };
                proof {
                    assert(r@ =~= joined(self@, route@));
                }
                r
            },
            RootRoute::PrettyPermalinks(u) => {
                let ghost special = special_scheme(u@.scheme);
                let mut segs = clone_strings(&u.segments);
                if segs.len() > 0 && segs[segs.len() - 1].as_str().is_empty() {
                    segs.pop();
                }
                proof {
                    assert(segs.deep_view() =~= without_trailing_empty(u@.segments));
                }
                let ghost base = segs.deep_view();
                let is_special = is_special_scheme(u.scheme.as_str());
                let rn = route.unicode_len();
                let trimmed = if rn > 0 && route.get_char(0) == '/' {
                    route.substring_char(1, rn)
                } else {
                    route
                };
                proof {
                    assert(trimmed@ =~= strip_leading_slash(route@));
                }
                let ghost tv = trimmed@;
                let tn = trimmed.unicode_len();
                let mut cur = String::new();
                let mut i: usize = 0;
                proof {
                    assert(tv.skip(0) =~= tv);
                }
                while i < tn
                    invariant
                        is_special == special,
                        trimmed@ == tv,
                        tn == tv.len(),
                        i <= tn,
                        segs.deep_view() + encoded_components(
                            special,
                            split_acc(tv.skip(i as int), cur@),
                        ) == base + encoded_components(special, split_acc(tv, Seq::empty())),
                    decreases tn - i,
                {
                    let c = trimmed.get_char(i);
                    proof {
                        assert(tv.skip(i as int).drop_first() =~= tv.skip(i as int + 1));
                        assert(tv.skip(i as int)[0] == c);
                    }
                    if c == '/' {
                        let ghost pre = segs.deep_view();
                        let ghost oldcur = cur@;
                        let ghost rest = split_acc(tv.skip(i as int + 1), Seq::empty());
                        proof {
                            assert(split_acc(tv.skip(i as int), oldcur) == seq![oldcur] + rest);
                            assert((seq![oldcur] + rest)[0] == oldcur);
                            assert((seq![oldcur] + rest).drop_first() =~= rest);
                        }
                        if !(str_eq(cur.as_str(), ".") || str_eq(cur.as_str(), "..")) {
                            let e = encode_path_segment(is_special, cur.as_str());
                            segs.push(e);
                            proof {
                                let ghost ev = path_segment_encoded(
                                    special,
                                    vstd::utf8::encode_utf8(oldcur),
                                );
                                assert(segs.deep_view() =~= pre + seq![ev]);
                                assert(encoded_components(special, seq![oldcur] + rest) == seq![ev]
                                    + encoded_components(special, rest));
                                assert((pre + seq![ev]) + encoded_components(special, rest) =~= pre
                                    + (seq![ev] + encoded_components(special, rest)));
                            }
                        } else {
                            proof {
                                assert(encoded_components(special, seq![oldcur] + rest)
                                    == encoded_components(special, rest));
                            }
                        }
                        cur = String::new();
                    } else {
                        push_char(&mut cur, c);
                    }
                    i = i + 1;
                }
                let ghost oldcur = cur@;
                proof {
                    assert(tv.skip(tn as int) =~= Seq::<char>::empty());
                    assert(split_acc(Seq::<char>::empty(), oldcur) == seq![oldcur]);
                    assert(seq![oldcur].drop_first() =~= Seq::<Seq<char>>::empty());
                    assert(encoded_components(special, Seq::<Seq<char>>::empty())
                        == Seq::<Seq<char>>::empty());
                }
                let ghost pre = segs.deep_view();
                if !(str_eq(cur.as_str(), ".") || str_eq(cur.as_str(), "..")) {
                    let e = encode_path_segment(is_special, cur.as_str());
                    segs.push(e);
                    proof {
                        let ghost ev = path_segment_encoded(special, vstd::utf8::encode_utf8(
                            oldcur,
                        ));
                        assert(segs.deep_view() =~= pre + seq![ev]);
                        assert(encoded_components(special, seq![oldcur]) =~= seq![ev]);
                        assert((pre + seq![ev]) =~= pre + encoded_components(special, seq![oldcur]));
                    }
                } else {
                    proof {
                        assert(encoded_components(special, seq![oldcur]) =~= Seq::<Seq<char>>::empty());
                        assert(pre + Seq::<Seq<char>>::empty() =~= pre);
                    }
                }
                proof {
                    assert(segs.deep_view() =~= base + encoded_components(
                        special,
                        split_acc(tv, Seq::empty()),
                    ));
                }
                let r = ApiUrl {
                    scheme: u.scheme.clone(),
                    origin: u.origin.clone(),
                    segments: segs,
                    pairs: crate::urls::clone_pairs(&u.pairs),
                    query_raw: match &u.query_raw {
                        Some(q) => Some(q.clone()),
                        None => None,
                    },
                    fragment: match &u.fragment {
                        Some(f) => Some(f.clone()),
                        None => None,
                    },
                };
                proof {
                    assert(r@ =~= joined(self@, route@));
                }
                r
            },
        }
    }
}

} // verus!
