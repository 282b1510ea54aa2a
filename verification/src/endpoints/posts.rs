//! The posts endpoints.

use vstd::prelude::*;
use crate::client::Client;
use crate::endpoint::Endpoint;
use crate::endpoint::query_endpoint;
use crate::error::ApiError;
use crate::json::JsonValue;
use crate::query::Query;
use crate::request::Method;
use crate::text::push_decimal;

verus! {

/// Retrieves one post by its identifier.
pub struct RetrievePost {
    id: u32,
}

impl RetrievePost {
    /// The post's identifier.
    pub closed spec fn spec_id(&self) -> u32 {
        self.id
    }

    /// A builder with no identifier set.
    pub fn builder() -> (r: RetrievePostBuilder)
        ensures
            r@ is None,
    {
        RetrievePostBuilder { id: None }
    }
}

/// The error of building a [`RetrievePost`] without an identifier.
#[derive(Debug)]
pub struct RetrievePostBuilderError;

/// Collects the fields of a [`RetrievePost`].
pub struct RetrievePostBuilder {
    id: Option<u32>,
}

impl View for RetrievePostBuilder {
    type V = Option<u32>;

    closed spec fn view(&self) -> Option<u32> {
        self.id
    }
}

impl RetrievePostBuilder {
    /// Sets the post identifier.
    pub fn id(self, id: u32) -> (r: Self)
        ensures
            r@ == Some(id),
    {
        RetrievePostBuilder { id: Some(id) }
    }

    /// Builds the endpoint; a builder without an identifier yields an
    /// error.
    pub fn build(&self) -> (r: Result<RetrievePost, RetrievePostBuilderError>)
        ensures
            match self@ {
                Some(id) => r matches Ok(p) && p.spec_id() == id,
                None => r is Err,
            },
    {
        match self.id {
            Some(id) => Ok(RetrievePost { id }),
            None => Err(RetrievePostBuilderError),
        }
    }
}

impl Endpoint for RetrievePost {
    /// Retrieval uses GET.
    fn method(&self) -> Method {
        Method::Get
    }

    /// The route `/wp/v2/posts/` followed by the identifier in decimal.
    fn route(&self) -> String {
        let mut s = "/wp/v2/posts/".to_owned();
        push_decimal(self.id, &mut s);
        s
    }
}

impl<C: Client> Query<JsonValue, C> for RetrievePost {
    /// Queries the endpoint through the client.
    fn query(&self, client: &C) -> Result<JsonValue, ApiError<C::Error>> {
        query_endpoint(self, client)
    }
}

} // verus!
