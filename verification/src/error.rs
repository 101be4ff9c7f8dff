//! The error envelope: a stable code and a human-readable message.

use vstd::prelude::*;

verus! {

/// The stable, machine-readable error codes.
#[derive(Clone, Copy, Debug, PartialEq, Eq, Structural)]
pub enum ErrorCode {
    InvalidRequest,
    Unauthorized,
    Forbidden,
    NotFound,
    Conflict,
    RateLimited,
    TooManyConnections,
    Internal,
}

impl ErrorCode {
    /// The code as it stands in the envelope.
    pub open spec fn text(self) -> Seq<char> {
        match self {
            ErrorCode::InvalidRequest => "invalid_request"@,
            ErrorCode::Unauthorized => "unauthorized"@,
            ErrorCode::Forbidden => "forbidden"@,
            ErrorCode::NotFound => "not_found"@,
            ErrorCode::Conflict => "conflict"@,
            ErrorCode::RateLimited => "rate_limited"@,
            ErrorCode::TooManyConnections => "too_many_connections"@,
            ErrorCode::Internal => "internal"@,
        }
    }

    /// The code as it stands in the envelope.
    pub fn as_str(self) -> (r: &'static str)
        ensures
            r@ == self.text(),
            self is InvalidRequest ==> r@ == "invalid_request"@,
            self is Unauthorized ==> r@ == "unauthorized"@,
            self is Forbidden ==> r@ == "forbidden"@,
            self is NotFound ==> r@ == "not_found"@,
            self is Conflict ==> r@ == "conflict"@,
            self is RateLimited ==> r@ == "rate_limited"@,
            self is TooManyConnections ==> r@ == "too_many_connections"@,
            self is Internal ==> r@ == "internal"@,
    {
        match self {
            ErrorCode::InvalidRequest => "invalid_request",
            ErrorCode::Unauthorized => "unauthorized",
            ErrorCode::Forbidden => "forbidden",
            ErrorCode::NotFound => "not_found",
            ErrorCode::Conflict => "conflict",
            ErrorCode::RateLimited => "rate_limited",
            ErrorCode::TooManyConnections => "too_many_connections",
            ErrorCode::Internal => "internal",
        }
    }

    /// The HTTP status that goes with the code.
    pub open spec fn status_code(self) -> u16 {
        match self {
            ErrorCode::InvalidRequest => 400,
            ErrorCode::Unauthorized => 401,
            ErrorCode::Forbidden => 403,
            ErrorCode::NotFound => 404,
            ErrorCode::Conflict => 409,
            ErrorCode::RateLimited => 429,
            ErrorCode::TooManyConnections => 429,
            ErrorCode::Internal => 500,
        }
    }

    /// The HTTP status that goes with the code.
    pub fn status(self) -> (r: u16)
        ensures
            r == self.status_code(),
            r == 400 <==> self is InvalidRequest,
            r == 401 <==> self is Unauthorized,
            r == 403 <==> self is Forbidden,
            r == 404 <==> self is NotFound,
            r == 409 <==> self is Conflict,
            r == 429 <==> self is RateLimited || self is TooManyConnections,
            r == 500 <==> self is Internal,
    {
        match self {
            ErrorCode::InvalidRequest => 400,
            ErrorCode::Unauthorized => 401,
            ErrorCode::Forbidden => 403,
            ErrorCode::NotFound => 404,
            ErrorCode::Conflict => 409,
            ErrorCode::RateLimited => 429,
            ErrorCode::TooManyConnections => 429,
            ErrorCode::Internal => 500,
        }
    }
}

/// A refused request.
#[derive(Debug)]
pub struct ApiError {
    pub code: ErrorCode,
    pub message: String,
}

impl ApiError {
    /// Whether this error carries that code and message.
    pub open spec fn is(self, code: ErrorCode, message: Seq<char>) -> bool {
        self.code == code && self.message@ == message
    }

    /// A malformed request.
    pub fn bad_request(message: &str) -> (r: ApiError)
        ensures
            r.is(ErrorCode::InvalidRequest, message@),
            r.code is InvalidRequest && r.message@ == message@,
    {
        ApiError { code: ErrorCode::InvalidRequest, message: message.to_owned() }
    }

    /// No such resource.
    pub fn not_found(message: &str) -> (r: ApiError)
        ensures
            r.is(ErrorCode::NotFound, message@),
            r.code is NotFound && r.message@ == message@,
    {
        ApiError { code: ErrorCode::NotFound, message: message.to_owned() }
    }

    /// An unexpected failure. The detail is never returned.
    pub fn internal() -> (r: ApiError)
        ensures
            r.is(ErrorCode::Internal, "internal error"@),
            r.code is Internal && r.message@ == "internal error"@,
    {
        ApiError { code: ErrorCode::Internal, message: "internal error".to_owned() }
    }
}

/// Each code has its own text, and the status tells the codes apart but for
/// the two that refuse for load.
pub proof fn codes_are_told_apart(a: ErrorCode, b: ErrorCode)
    ensures
        a.text() == b.text() <==> a == b,
        a.status_code() == b.status_code() <==> a == b || (a.status_code() == 429
            && b.status_code() == 429),
        a.status_code() >= 500 <==> a is Internal,
        a.status_code() == 429 <==> a is RateLimited || a is TooManyConnections,
{
    reveal_strlit("invalid_request");
    reveal_strlit("unauthorized");
    reveal_strlit("forbidden");
    reveal_strlit("not_found");
    reveal_strlit("conflict");
    reveal_strlit("rate_limited");
    reveal_strlit("too_many_connections");
    reveal_strlit("internal");
    let (s, t) = (a.text(), b.text());
    assert(s.len() == match a {
        ErrorCode::InvalidRequest => 15int,
        ErrorCode::Unauthorized | ErrorCode::RateLimited => 12,
        ErrorCode::Forbidden | ErrorCode::NotFound => 9,
        ErrorCode::Conflict | ErrorCode::Internal => 8,
        ErrorCode::TooManyConnections => 20,
    });
    assert(t.len() == match b {
        ErrorCode::InvalidRequest => 15int,
        ErrorCode::Unauthorized | ErrorCode::RateLimited => 12,
        ErrorCode::Forbidden | ErrorCode::NotFound => 9,
        ErrorCode::Conflict | ErrorCode::Internal => 8,
        ErrorCode::TooManyConnections => 20,
    });
    if s == t {
        assert(s[0] == t[0]);
    }
}

/// A malformed request is the caller's fault, an unknown caller or a missing
/// capability is told apart, and so are what is missing, what conflicts, what
/// comes too often and what the server failed at.
pub proof fn which_status_goes_with_a_code(code: ErrorCode)
    ensures
        code is InvalidRequest <==> code.status_code() == 400,
        code is Unauthorized <==> code.status_code() == 401,
        code is Forbidden <==> code.status_code() == 403,
        code is NotFound <==> code.status_code() == 404,
        code is Conflict <==> code.status_code() == 409,
        code is RateLimited || code is TooManyConnections <==> code.status_code() == 429,
        code is Internal <==> code.status_code() == 500,
        code is InvalidRequest ==> code.text() == "invalid_request"@,
        code is Unauthorized ==> code.text() == "unauthorized"@,
        code is Forbidden ==> code.text() == "forbidden"@,
        code is NotFound ==> code.text() == "not_found"@,
        code is Conflict ==> code.text() == "conflict"@,
        code is RateLimited ==> code.text() == "rate_limited"@,
        code is TooManyConnections ==> code.text() == "too_many_connections"@,
        code is Internal ==> code.text() == "internal"@,
{
}

/// An error is told by its code and its message.
pub proof fn what_an_error_says(e: ApiError, code: ErrorCode, message: Seq<char>)
    ensures
        e.is(code, message) <==> e.code == code && e.message@ == message,
{
}

} // verus!
