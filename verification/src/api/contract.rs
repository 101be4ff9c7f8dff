//! The shared error responses of the API document.

use vstd::prelude::*;
use crate::error::ErrorCode;
use crate::openapi::document::SchemaType;

verus! {

/// An error response that operations refer to by name.
#[derive(Clone, Copy, Debug)]
pub struct SharedResponse {
    pub name: &'static str,
    pub description: &'static str,
    pub header: &'static str,
    pub header_type: SchemaType,
    pub content_type: &'static str,
    /// The schema of the content, by its name.
    pub schema: &'static str,
    /// The example envelope.
    pub code: ErrorCode,
    pub message: &'static str,
}

/// The shared 429 of the request rate limiter.
pub struct RateLimited;

impl RateLimited {
    /// The response.
    pub fn response() -> (r: SharedResponse)
        ensures
            r.name@ == "RateLimited"@,
            r.description@
                == "Per-API-key (management) or per-subscriber (widget) rate limit."@,
            r.header@ == "retry-after"@,
            r.header_type == SchemaType::Integer,
            r.content_type@ == "application/json"@,
            r.schema@ == "Error"@,
            r.code == ErrorCode::RateLimited,
            r.message@ == "rate limit exceeded"@,
    {
        SharedResponse {
            name: "RateLimited",
            description: "Per-API-key (management) or per-subscriber (widget) rate limit.",
            header: "retry-after",
            header_type: SchemaType::Integer,
            content_type: "application/json",
            schema: "Error",
            code: ErrorCode::RateLimited,
            message: "rate limit exceeded",
        }
    }
}

/// The shared 429 of the live-stream connection cap. Distinct from
/// `RateLimited`: a different code and no relation to the request rate limiter.
pub struct TooManyConnections;

impl TooManyConnections {
    /// The response.
    pub fn response() -> (r: SharedResponse)
        ensures
            r.name@ == "TooManyConnections"@,
            r.description@ == "Per-subscriber live-stream connection cap reached."@,
            r.header@ == "retry-after"@,
            r.header_type == SchemaType::Integer,
            r.content_type@ == "application/json"@,
            r.schema@ == "Error"@,
            r.code == ErrorCode::TooManyConnections,
            r.message@ == "too many concurrent streams for this subscriber"@,
    {
        SharedResponse {
            name: "TooManyConnections",
            description: "Per-subscriber live-stream connection cap reached.",
            header: "retry-after",
            header_type: SchemaType::Integer,
            content_type: "application/json",
            schema: "Error",
            code: ErrorCode::TooManyConnections,
            message: "too many concurrent streams for this subscriber",
        }
    }
}

} // verus!
