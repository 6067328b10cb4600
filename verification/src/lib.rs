//! Client library for a microblogging service's OAuth 1.0a REST API.
//!
//! The verified core covers the query-string codec, the OAuth token
//! exchange (response parsing, authorization-URL construction, request
//! parameter building), the typed domain actions' request shapes, and a
//! JSON decoder that turns timeline responses into typed records.
//! The signed HTTP transport itself is an outside capability; callers
//! perform the network round trip and hand the response body back in.

pub mod actions;
mod chars;
pub mod error;
pub mod flow;
pub mod json;
pub mod query;
pub mod timeline;
