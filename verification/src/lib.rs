//! A client library for the WordPress REST API.
//!
//! The library models API entry-point URLs, classifies them into the two
//! addressing conventions (`rest_route` query parameter vs. pretty
//! permalinks), joins logical endpoint routes onto them, discovers the API
//! root through `link` response headers, and interprets query responses into
//! typed successes or a classified error.

pub mod client;
pub mod document;
pub mod endpoint;
pub mod endpoints;
pub mod error;
pub mod json;
pub mod query;
pub mod request;
pub mod root;
pub mod text;
pub mod urls;

pub use client::Client;
pub use document::Document;
pub use endpoint::Endpoint;
pub use error::ApiError;
pub use json::JsonValue;
pub use query::Query;
pub use root::RootRoute;
pub use urls::ApiUrl;
