//! Querying a resource through its web-page URL.

use vstd::prelude::*;
use crate::client::Client;
use crate::client::discover_resource_at;
use crate::error::ApiError;
use crate::json::JsonValue;
use crate::query::Query;
use crate::request::Method;
use crate::request::RequestBuilder;
use crate::urls::ApiUrl;

verus! {

/// URL to the web page for a resource.
pub struct Document(pub ApiUrl);

impl<C: Client> Query<JsonValue, C> for Document {
    /// Discovers the resource's canonical API URL and queries it with GET.
    fn query(&self, client: &C) -> Result<JsonValue, ApiError<C::Error>> {
        let url = match discover_resource_at(client, &self.0) {
            Ok(u) => u,
            Err(e) => return Err(e),
        };
        RequestBuilder::new().method(Method::Get).url(url).query(client)
    }
}

} // verus!
