//! The endpoint capability: what one REST API endpoint must provide.

use vstd::prelude::*;
use crate::client::Client;
use crate::error::ApiError;
use crate::json::JsonValue;
use crate::json::json_of_bytes;
use crate::query::run_request;
use crate::request::Method;
use crate::request::Request;

verus! {

/// The necessary information for a single REST API endpoint.
pub trait Endpoint {
    /// HTTP method for the endpoint.
    fn method(&self) -> Method;

    /// Route for the endpoint.
    fn route(&self) -> String;
}

/// Queries an endpoint: resolves its route through the client, sends one
/// request with the endpoint's method, and interprets the response.
pub fn query_endpoint<EP: Endpoint, C: Client>(endpoint: &EP, client: &C) -> (r: Result<
    JsonValue,
    ApiError<C::Error>,
>)
    ensures
        r matches Ok(v) ==> exists|b: Seq<u8>| json_of_bytes(b) == Some(v@),
{
    let route = endpoint.route();
    let url = match client.route_url(route.as_str()) {
        Ok(u) => u,
        Err(e) => return Err(e),
    };
    let request = Request { method: endpoint.method(), url, body: Vec::new() };
    run_request(client, request)
}

} // verus!
