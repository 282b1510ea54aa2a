//! Tests for the query pipeline's response interpretation.

use wp_api::client::{Client, Response};
use wp_api::endpoint::{query_endpoint, Endpoint};
use wp_api::request::{Method, Request, RequestBuilder};
use wp_api::{ApiError, ApiUrl, JsonValue, Query};

#[derive(Debug)]
struct MockClientError;

struct MockClient {
    status: u16,
    body: Vec<u8>,
}

impl MockClient {
    fn with_response(status: u16, body: &[u8]) -> Self {
        Self { status, body: body.to_vec() }
    }
}

impl Client for MockClient {
    type Error = MockClientError;

    fn route_url(&self, route: &str) -> Result<ApiUrl, ApiError<MockClientError>> {
        let url = format!("test://test/{}", route.trim_start_matches('/'));
        wp_api::urls::parse_url(&url).map_err(|detail| ApiError::UrlParse { detail })
    }

    fn send_request(&self, _request: Request) -> Result<Response, ApiError<MockClientError>> {
        Ok(Response { status: self.status, headers: Vec::new(), body: self.body.clone() })
    }
}

struct MockEndpoint;

impl Endpoint for MockEndpoint {
    fn method(&self) -> Method {
        Method::Get
    }

    fn route(&self) -> String {
        "/mock".to_string()
    }
}

#[test]
fn endpoint_non_json_response() {
    let client = MockClient::with_response(200, b"not json");

    let result = query_endpoint(&MockEndpoint, &client);

    let err = result.expect_err("expected ApiError::WordPressInternal");
    if let ApiError::WordPressInternal { status, data } = err {
        assert_eq!(status, 200);
        assert_eq!(String::from_utf8(data).expect("unexpected data"), "not json");
    } else {
        panic!("unexpected error: {:?}", err);
    }
}

#[test]
fn endpoint_empty_response() {
    let client = MockClient::with_response(200, b"");

    let result = query_endpoint(&MockEndpoint, &client);

    let err = result.expect_err("expected ApiError::WordPressInternal");
    if let ApiError::WordPressInternal { status, data } = err {
        assert_eq!(status, 200);
        assert_eq!(String::from_utf8(data).expect("unexpected data"), "");
    } else {
        panic!("unexpected error: {:?}", err);
    }
}

/// Non-JSON response error takes precedence over error status.
#[test]
fn endpoint_non_json_error_status_response() {
    let client = MockClient::with_response(404, b"not json");

    let result = query_endpoint(&MockEndpoint, &client);

    let err = result.expect_err("expected ApiError::WordPressInternal");
    if let ApiError::WordPressInternal { status, data } = err {
        assert_eq!(status, 404);
        assert_eq!(String::from_utf8(data).expect("unexpected data"), "not json");
    } else {
        panic!("unexpected error: {:?}", err);
    }
}

#[test]
fn endpoint_error_response() {
    let body =
        br#"{"code":"rest_post_invalid_id","message":"Invalid post ID.","data":{"status":404}}"#;
    let client = MockClient::with_response(404, body);

    let result = query_endpoint(&MockEndpoint, &client);

    let err = result.expect_err("expected ApiError::WordPress");
    if let ApiError::WordPress { message, code, .. } = err {
        assert_eq!(code, "rest_post_invalid_id");
        assert_eq!(message, "Invalid post ID.");
    } else {
        panic!("unexpected error: {:?}", err);
    }
}

#[test]
fn endpoint_unrecognized_error_response() {
    let client = MockClient::with_response(404, br#"{"bob":"loblaw"}"#);

    let result = query_endpoint(&MockEndpoint, &client);

    let err = result.expect_err("expected ApiError::WordPressUnrecognized");
    if let ApiError::WordPressUnrecognized { json } = err {
        assert_eq!(
            json,
            JsonValue::Obj(vec![("bob".to_string(), JsonValue::Str("loblaw".to_string()))])
        );
    } else {
        panic!("unexpected error: {:?}", err);
    }
}

fn mock_request_builder(client: &MockClient) -> RequestBuilder {
    RequestBuilder::new().url(client.route_url("/mock").unwrap())
}

#[test]
fn request_non_json_response() {
    let client = MockClient::with_response(200, b"not json");

    let result: Result<JsonValue, _> = mock_request_builder(&client).query(&client);

    let err = result.expect_err("expected ApiError::WordPressInternal");
    if let ApiError::WordPressInternal { status, data } = err {
        assert_eq!(status, 200);
        assert_eq!(String::from_utf8(data).expect("unexpected data"), "not json");
    } else {
        panic!("unexpected error: {:?}", err);
    }
}

#[test]
fn request_empty_response() {
    let client = MockClient::with_response(200, b"");

    let result: Result<JsonValue, _> = mock_request_builder(&client).query(&client);

    let err = result.expect_err("expected ApiError::WordPressInternal");
    if let ApiError::WordPressInternal { status, data } = err {
        assert_eq!(status, 200);
        assert_eq!(String::from_utf8(data).expect("unexpected data"), "");
    } else {
        panic!("unexpected error: {:?}", err);
    }
}

/// Non-JSON response error takes precedence over error status.
#[test]
fn request_non_json_error_status_response() {
    let client = MockClient::with_response(404, b"not json");

    let result: Result<JsonValue, _> = mock_request_builder(&client).query(&client);

    let err = result.expect_err("expected ApiError::WordPressInternal");
    if let ApiError::WordPressInternal { status, data } = err {
        assert_eq!(status, 404);
        assert_eq!(String::from_utf8(data).expect("unexpected data"), "not json");
    } else {
        panic!("unexpected error: {:?}", err);
    }
}

#[test]
fn request_error_response() {
    let body =
        br#"{"code":"rest_post_invalid_id","message":"Invalid post ID.","data":{"status":404}}"#;
    let client = MockClient::with_response(404, body);

    let result: Result<JsonValue, _> = mock_request_builder(&client).query(&client);

    let err = result.expect_err("expected ApiError::WordPress");
    if let ApiError::WordPress { message, code, .. } = err {
        assert_eq!(code, "rest_post_invalid_id");
        assert_eq!(message, "Invalid post ID.");
    } else {
        panic!("unexpected error: {:?}", err);
    }
}

#[test]
fn request_unrecognized_error_response() {
    let client = MockClient::with_response(404, br#"{"bob":"loblaw"}"#);

    let result: Result<JsonValue, _> = mock_request_builder(&client).query(&client);

    let err = result.expect_err("expected ApiError::WordPressUnrecognized");
    if let ApiError::WordPressUnrecognized { json } = err {
        assert_eq!(
            json,
            JsonValue::Obj(vec![("bob".to_string(), JsonValue::Str("loblaw".to_string()))])
        );
    } else {
        panic!("unexpected error: {:?}", err);
    }
}

#[test]
fn request_success_response() {
    let client = MockClient::with_response(200, br#"{"id":7,"ok":true}"#);

    let result: Result<JsonValue, _> = mock_request_builder(&client).query(&client);

    assert_eq!(
        result.unwrap(),
        JsonValue::Obj(vec![
            ("id".to_string(), JsonValue::Num("7".to_string())),
            ("ok".to_string(), JsonValue::Bool(true)),
        ])
    );
}

struct FailingClient;

impl Client for FailingClient {
    type Error = MockClientError;

    fn route_url(&self, _route: &str) -> Result<ApiUrl, ApiError<MockClientError>> {
        Err(ApiError::client(MockClientError))
    }

    fn send_request(&self, _request: Request) -> Result<Response, ApiError<MockClientError>> {
        Err(ApiError::client(MockClientError))
    }
}

#[test]
fn transport_failure_propagates_unchanged() {
    let result = query_endpoint(&MockEndpoint, &FailingClient);
    assert!(matches!(result, Err(ApiError::Client { source: MockClientError })));
}

#[test]
fn request_builder_without_url_fails() {
    let client = MockClient::with_response(200, b"{}");

    let result: Result<JsonValue, _> = RequestBuilder::new().query(&client);

    assert!(matches!(result, Err(ApiError::UrlParse { .. })));
}
