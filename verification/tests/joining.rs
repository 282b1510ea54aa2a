//! Tests for root-route classification and route joining.

use wp_api::RootRoute;
use wp_api::urls::parse_url;

#[test]
fn from_url_pretty_permalinks() {
    let root: RootRoute = parse_url("http://example.com/wp-json/").unwrap().into();
    assert!(matches!(root, RootRoute::PrettyPermalinks(_)));
}

#[test]
fn from_url_default() {
    let root: RootRoute = parse_url("http://example.com/?rest_route=/").unwrap().into();
    assert!(matches!(root, RootRoute::Default(_)));
}

#[test]
fn from_url_rest_route_anywhere() {
    let root: RootRoute = parse_url("http://example.com/?a=1&rest_route=x&b=2").unwrap().into();
    assert!(matches!(root, RootRoute::Default(_)));
    let root: RootRoute = parse_url("http://example.com/?a=rest_route").unwrap().into();
    assert!(matches!(root, RootRoute::PrettyPermalinks(_)));
}

#[test]
fn join_pretty_permalinks() {
    let root: RootRoute = parse_url("http://example.com/wp-json/").unwrap().into();
    let url = root.join("/wp/v2/posts/1");
    assert_eq!(url.as_str(), "http://example.com/wp-json/wp/v2/posts/1")
}

#[test]
fn join_default() {
    let root: RootRoute = parse_url("http://example.com/?rest_route=/").unwrap().into();
    let url = root.join("/wp/v2/posts/1");
    assert_eq!(url.as_str(), "http://example.com/?rest_route=%2Fwp%2Fv2%2Fposts%2F1")
}

#[test]
fn join_default_preserves_other_params() {
    let root: RootRoute = parse_url("http://example.com/?a=1&rest_route=/&b=&c=x%20y")
        .unwrap()
        .into();
    let url = root.join("/r");
    assert_eq!(url.as_str(), "http://example.com/?a=1&rest_route=%2Fr&b&c=x+y")
}

#[test]
fn join_default_is_deterministic() {
    let root: RootRoute = parse_url("http://example.com/?rest_route=/").unwrap().into();
    let once = root.join("/wp/v2/posts/1");
    let twice = root.join("/wp/v2/posts/1");
    assert_eq!(once.as_str(), twice.as_str());
}

#[test]
fn join_pretty_without_trailing_slash() {
    let root: RootRoute = parse_url("http://example.com/wp-json").unwrap().into();
    let url = root.join("/a/b");
    assert_eq!(url.as_str(), "http://example.com/wp-json/a/b")
}

#[test]
fn join_pretty_at_site_root() {
    let root: RootRoute = parse_url("http://example.com/").unwrap().into();
    let url = root.join("/a");
    assert_eq!(url.as_str(), "http://example.com/a")
}

#[test]
fn join_pretty_sequential_fragments() {
    let root: RootRoute = parse_url("http://example.com/wp-json/").unwrap().into();
    let combined = root.join("/wp/v2/posts/1");

    let halfway: RootRoute = root.join("/wp/v2").into();
    let sequential = halfway.join("/posts/1");

    assert_eq!(combined.as_str(), sequential.as_str());
}

#[test]
fn join_pretty_encodes_segments() {
    let root: RootRoute = parse_url("http://example.com/base/").unwrap().into();
    let url = root.join("/a b/c%d");
    assert_eq!(url.as_str(), "http://example.com/base/a%20b/c%25d")
}

#[test]
fn root_route_as_str_is_the_parsed_url() {
    let root: RootRoute = parse_url("http://EXAMPLE.com/wp-json").unwrap().into();
    assert_eq!(root.as_str(), "http://example.com/wp-json");
}
