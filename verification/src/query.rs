//! The generic query pipeline: send one request, interpret the response.

use vstd::prelude::*;
use crate::client::Client;
use crate::client::Response;
use crate::error::ApiError;
use crate::error::error_fields;
use crate::json::JsonValue;
use crate::json::json_of_bytes;
use crate::json::parse_json;
use crate::request::Request;

verus! {

/// A query that can be performed against a client.
pub trait Query<T, C: Client> {
    /// Performs the query using the passed client.
    fn query(&self, client: &C) -> Result<T, ApiError<C::Error>>;
}

/// Whether a status code indicates success.
pub open spec fn status_success(status: u16) -> bool {
    200 <= status < 300
}

/// Interprets one response, in this order: a body that is not one
/// well-formed JSON document — an empty body included — is an internal
/// error carrying the literal status code and the raw bytes, whatever the
/// status; a JSON body on a non-success status is classified as an
/// application or unrecognized error; a JSON body on a success status is
/// the result.
pub fn interpret_response<E>(resp: &Response) -> (r: Result<JsonValue, ApiError<E>>)
    ensures
        match json_of_bytes(resp@.body) {
            None => r matches Err(ApiError::WordPressInternal { status, data }) && status
                == resp@.status && data@ == resp@.body,
            Some(j) => if status_success(resp@.status) {
                r matches Ok(v) && v@ == j
            } else {
                match error_fields(j) {
                    Some(fields) => r matches Err(ApiError::WordPress { message, code, data })
                        && message@ == fields.0 && code@ == fields.1 && data@ == fields.2,
                    None => r matches Err(ApiError::WordPressUnrecognized { json }) && json@ == j,
                }
            },
        },
{
    let json = match parse_json(resp.body.as_slice()) {
        Some(v) => v,
        None => {
            return Err(ApiError::server_error(resp.status, &resp.body));
        },
    };
    if !(200 <= resp.status && resp.status < 300) {
        return Err(ApiError::from_json(json));
    }
    Ok(json)
}

/// Sends one request through the client and interprets the response; a
/// transport failure propagates unchanged, with no further interpretation.
pub fn run_request<C: Client>(client: &C, request: Request) -> (r: Result<
    JsonValue,
    ApiError<C::Error>,
>)
    ensures
        r matches Ok(v) ==> exists|b: Seq<u8>| json_of_bytes(b) == Some(v@),
{
    let resp = match client.send_request(request) {
        Ok(resp) => resp,
        Err(e) => return Err(e),
    };
    let out = interpret_response(&resp);
    proof {
        match &out {
            Ok(v) => {
                assert(json_of_bytes(resp@.body) == Some(v@));
            },
            Err(_) => {},
        }
    }
    out
}

} // verus!
