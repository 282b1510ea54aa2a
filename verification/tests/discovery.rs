//! Tests for root-route and resource discovery over `link` headers.

use wp_api::client::{Client, Header, Response};
use wp_api::request::Request;
use wp_api::{ApiError, ApiUrl};

#[derive(Debug)]
struct DiscoveryError;

struct DiscoveryClient {
    links: Vec<Vec<u8>>,
}

impl DiscoveryClient {
    fn new(link: &str) -> Self {
        Self { links: vec![link.as_bytes().to_vec()] }
    }

    fn with_links(links: &[&[u8]]) -> Self {
        Self { links: links.iter().map(|l| l.to_vec()).collect() }
    }
}

impl Client for DiscoveryClient {
    type Error = DiscoveryError;

    fn route_url(&self, _route: &str) -> Result<ApiUrl, ApiError<DiscoveryError>> {
        Err(ApiError::Client { source: DiscoveryError })
    }

    fn send_request(&self, _request: Request) -> Result<Response, ApiError<DiscoveryError>> {
        Ok(Response {
            status: 200,
            headers: self
                .links
                .iter()
                .map(|l| Header { name: "link".to_string(), value: l.clone() })
                .collect(),
            body: Vec::new(),
        })
    }
}

#[test]
fn discover_root_route() {
    let client = DiscoveryClient::new("<http://example.com/wp-json/>; rel=\"https://api.w.org/\"");

    let root_route = wp_api::client::discover_root_route(&client, "http://example.com").unwrap();

    assert_eq!(root_route.as_str(), "http://example.com/wp-json/");
}

#[test]
fn discover_resource() {
    let client = DiscoveryClient::new(
        "<http://example.com/wp-json/wp/v2/posts/1>; rel=\"alternate\"; type=\"application/json\"",
    );

    let resource = wp_api::client::discover_resource(&client, "http://example.com").unwrap();

    assert_eq!(resource.as_str(), "http://example.com/wp-json/wp/v2/posts/1");
}

#[test]
fn discovery_picks_the_matching_occurrence() {
    let client = DiscoveryClient::with_links(&[
        b"<http://example.com/wp-json/>; rel=\"https://api.w.org/\"",
        b"<http://example.com/wp-json/wp/v2/posts/1>; rel=\"alternate\"; type=\"application/json\"",
        b"<http://example.com/?p=1>; rel=\"shortlink\"",
    ]);

    let resource = wp_api::client::discover_resource(&client, "http://example.com").unwrap();
    assert_eq!(resource.as_str(), "http://example.com/wp-json/wp/v2/posts/1");

    let root = wp_api::client::discover_root_route(&client, "http://example.com").unwrap();
    assert_eq!(root.as_str(), "http://example.com/wp-json/");
}

#[test]
fn discovery_failure_names_the_probed_url() {
    let client = DiscoveryClient::new("<http://example.com/?p=1>; rel=\"shortlink\"");

    let err = wp_api::client::discover_root_route(&client, "http://example.com")
        .expect_err("expected ApiError::RootRouteDiscovery");
    if let ApiError::RootRouteDiscovery { url } = err {
        assert_eq!(url.as_str(), "http://example.com/");
    } else {
        panic!("unexpected error: {:?}", err);
    }

    let err = wp_api::client::discover_resource(&client, "http://example.com")
        .expect_err("expected ApiError::ResourceDiscovery");
    if let ApiError::ResourceDiscovery { url } = err {
        assert_eq!(url.as_str(), "http://example.com/");
    } else {
        panic!("unexpected error: {:?}", err);
    }
}

#[test]
fn discovery_skips_undecodable_occurrences() {
    let client = DiscoveryClient::with_links(&[
        b"<http://bad.example/>; rel=\"https://api.w.org/\"\xff",
        b"<http://example.com/wp-json/>; rel=\"https://api.w.org/\"",
    ]);

    let root = wp_api::client::discover_root_route(&client, "http://example.com").unwrap();
    assert_eq!(root.as_str(), "http://example.com/wp-json/");
}

#[test]
fn discovery_capture_is_greedy_from_the_first_angle() {
    let client =
        DiscoveryClient::new("preamble <http://example.com/wp-json/>; rel=\"https://api.w.org/\"");

    let root = wp_api::client::discover_root_route(&client, "http://example.com").unwrap();
    assert_eq!(root.as_str(), "http://example.com/wp-json/");
}

#[test]
fn discovery_rejects_probe_url_that_does_not_parse() {
    let client = DiscoveryClient::new("<http://example.com/wp-json/>; rel=\"https://api.w.org/\"");

    let err = wp_api::client::discover_root_route(&client, "not a url").expect_err("expected ApiError::UrlParse");
    assert!(matches!(err, ApiError::UrlParse { .. }));
}
