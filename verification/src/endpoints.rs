//! The catalogue of concrete endpoints.

pub mod posts;
