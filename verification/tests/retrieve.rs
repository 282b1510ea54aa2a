//! Tests for the post-retrieval endpoint.

use wp_api::client::{Client, Response};
use wp_api::endpoints::posts::RetrievePost;
use wp_api::request::Request;
use wp_api::{ApiError, ApiUrl, Endpoint, JsonValue, Query};

#[derive(Debug)]
struct MockClientError;

struct MockClient {
    status: u16,
    body: Vec<u8>,
}

impl Client for MockClient {
    type Error = MockClientError;

    fn route_url(&self, route: &str) -> Result<ApiUrl, ApiError<MockClientError>> {
        let url = format!("test://test/{}", route.trim_start_matches('/'));
        wp_api::urls::parse_url(&url).map_err(|detail| ApiError::UrlParse { detail })
    }

    fn send_request(&self, _request: Request) -> Result<Response, ApiError<MockClientError>> {
        Ok(Response { status: self.status, headers: Vec::new(), body: self.body.clone() })
    }
}

#[test]
fn basic() {
    let endpoint = RetrievePost::builder().id(123).build().unwrap();
    let client = MockClient { status: 200, body: br#"{"id":123}"#.to_vec() };

    let response: JsonValue = endpoint.query(&client).unwrap();

    assert_eq!(
        response,
        JsonValue::Obj(vec![("id".to_string(), JsonValue::Num("123".to_string()))])
    );
}

#[test]
fn retrieve_post_route() {
    let endpoint = RetrievePost::builder().id(123).build().unwrap();
    assert_eq!(endpoint.route(), "/wp/v2/posts/123");

    let endpoint = RetrievePost::builder().id(0).build().unwrap();
    assert_eq!(endpoint.route(), "/wp/v2/posts/0");

    let endpoint = RetrievePost::builder().id(4294967295).build().unwrap();
    assert_eq!(endpoint.route(), "/wp/v2/posts/4294967295");
}

#[test]
fn retrieve_post_builder_needs_an_id() {
    assert!(RetrievePost::builder().build().is_err());
}
