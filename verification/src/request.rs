//! Request descriptors and the request builder.

use vstd::prelude::*;
use crate::client::Client;
use crate::error::ApiError;
use crate::json::JsonValue;
use crate::query::Query;
use crate::query::run_request;
use crate::urls::ApiUrl;
use crate::urls::ApiUrlV;

verus! {

/// An HTTP method.
#[derive(Clone, Copy, PartialEq, Eq, Structural, Debug)]
pub enum Method {
    Get,
    Head,
    Post,
    Put,
    Delete,
}

/// One request: a method, a resolved absolute URL, and body bytes.
#[derive(Debug)]
pub struct Request {
    /// The HTTP method.
    pub method: Method,
    /// The resolved absolute target URL.
    pub url: ApiUrl,
    /// The request body; empty when the request carries none.
    pub body: Vec<u8>,
}

/// The mathematical value of a [`Request`].
#[verifier::ext_equal]
pub ghost struct RequestV {
    pub method: Method,
    pub url: ApiUrlV,
    pub body: Seq<u8>,
}

impl View for Request {
    type V = RequestV;

    open spec fn view(&self) -> RequestV {
        RequestV { method: self.method, url: self.url@, body: self.body@ }
    }
}

/// Collects the parts of a request before it is built.
pub struct RequestBuilder {
    method: Option<Method>,
    url: Option<ApiUrl>,
    body: Option<Vec<u8>>,
}

/// The mathematical value of a [`RequestBuilder`].
#[verifier::ext_equal]
pub ghost struct RequestBuilderV {
    pub method: Option<Method>,
    pub url: Option<ApiUrlV>,
    pub body: Option<Seq<u8>>,
}

impl View for RequestBuilder {
    type V = RequestBuilderV;

    closed spec fn view(&self) -> RequestBuilderV {
        RequestBuilderV {
            method: self.method,
            url: match &self.url {
                Some(u) => Some(u@),
                None => None,
            },
            body: match &self.body {
                Some(b) => Some(b@),
                None => None,
            },
        }
    }
}

impl RequestBuilder {
    /// A builder with nothing set.
    pub fn new() -> (r: Self)
        ensures
            r@ == (RequestBuilderV { method: None, url: None, body: None }),
    {
        RequestBuilder { method: None, url: None, body: None }
    }

    /// Sets the request's method.
    pub fn method(self, method: Method) -> (r: Self)
        ensures
            r@ == (RequestBuilderV { method: Some(method), ..self@ }),
    {
        RequestBuilder { method: Some(method), ..self }
    }

    /// Sets the request's target URL.
    pub fn url(self, url: ApiUrl) -> (r: Self)
        ensures
            r@ == (RequestBuilderV { url: Some(url@), ..self@ }),
    {
        RequestBuilder { url: Some(url), ..self }
    }

    /// Sets the request's body.
    pub fn body(self, body: Vec<u8>) -> (r: Self)
        ensures
            r@ == (RequestBuilderV { body: Some(body@), ..self@ }),
    {
        RequestBuilder { body: Some(body), ..self }
    }

    /// Builds the request: the method defaults to GET and the body to empty;
    /// a builder without a URL yields an error.
    pub fn build<E>(&self) -> (r: Result<Request, ApiError<E>>)
        ensures
            match self@.url {
                Some(u) => r matches Ok(req) && req@ == (RequestV {
                    method: match self@.method {
                        Some(m) => m,
                        None => Method::Get,
                    },
                    url: u,
                    body: match self@.body {
                        Some(b) => b,
                        None => Seq::<u8>::empty(),
                    },
                }),
                None => r matches Err(ApiError::UrlParse { .. }),
            },
    {
        let url = match &self.url {
            Some(u) => u.clone(),
            None => {
                return Err(ApiError::UrlParse { detail: "no target URL was set".to_owned() });
            },
        };
        let method = match &self.method {
            Some(m) => *m,
            None => Method::Get,
        };
        let body = match &self.body {
            Some(b) => {
                let c = b.clone();
                proof {
                    assert(c@ =~= b@);
                }
                c
            },
            None => Vec::new(),
        };
        Ok(Request { method, url, body })
    }
}

impl<C: Client> Query<JsonValue, C> for RequestBuilder {
    /// Builds the request, sends it, and interprets the response.
    fn query(&self, client: &C) -> Result<JsonValue, ApiError<C::Error>> {
        let req = match self.build() {
            Ok(r) => r,
            Err(e) => return Err(e),
        };
        run_request(client, req)
    }
}

} // verus!
