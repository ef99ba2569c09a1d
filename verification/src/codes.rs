//! HTTP status codes used by the server, with their wire descriptions.
use vstd::prelude::*;

verus! {

/// The closed set of status codes this server produces. `NotSent` marks a
/// response that no handler has filled in yet.
#[derive(Copy, Clone, PartialEq, Eq, Structural, Debug)]
pub enum HttpCode {
    NotSent,
    OK,
    TemporaryRedirect,
    BadRequest,
    NotFound,
    MethodNotAllowed,
    RequestEntityTooLarge,
    RequestHeaderFieldsTooLarge,
    GatewayTimeout,
}

/// The numeric code and reason phrase that the status line carries.
pub open spec fn spec_description(code: HttpCode) -> (Seq<char>, Seq<char>) {
    match code {
        HttpCode::NotSent => ("0"@, "Not Sent"@),
        HttpCode::OK => ("200"@, "OK"@),
        HttpCode::TemporaryRedirect => ("307"@, "Temporary Redirect"@),
        HttpCode::BadRequest => ("400"@, "Bad Request"@),
        HttpCode::NotFound => ("404"@, "Not Found"@),
        HttpCode::MethodNotAllowed => ("405"@, "Method Not Allowed"@),
        HttpCode::RequestEntityTooLarge => ("413"@, "Request Entity Too Large"@),
        HttpCode::RequestHeaderFieldsTooLarge => ("431"@, "Request Header Fields Too Large"@),
        HttpCode::GatewayTimeout => ("504"@, "Gateway Timeout"@),
    }
}

impl HttpCode {
    /// Numeric code and reason phrase, as written on the status line.
    pub fn get_description(&self) -> (r: (&'static str, &'static str))
        ensures
            (r.0@, r.1@) == spec_description(*self),
    {
        match self {
            HttpCode::NotSent => ("0", "Not Sent"),
            HttpCode::OK => ("200", "OK"),
            HttpCode::TemporaryRedirect => ("307", "Temporary Redirect"),
            HttpCode::BadRequest => ("400", "Bad Request"),
            HttpCode::NotFound => ("404", "Not Found"),
            HttpCode::MethodNotAllowed => ("405", "Method Not Allowed"),
            HttpCode::RequestEntityTooLarge => ("413", "Request Entity Too Large"),
            HttpCode::RequestHeaderFieldsTooLarge => ("431", "Request Header Fields Too Large"),
            HttpCode::GatewayTimeout => ("504", "Gateway Timeout"),
        }
    }
}

} // verus!
