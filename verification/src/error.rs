use vstd::prelude::*;
use vstd::string::*;

verus! {

broadcast use vstd::string::group_string_axioms;

/// Machine-readable error codes sent to clients in `error` frames.
#[derive(Debug, Clone, Copy, PartialEq, Eq, Structural)]
pub enum ErrorCode {
    TokenExpired,
    TokenInvalid,
    Unauthorized,
    NotSubscribed,
    StreamNotFound,
    RateLimited,
    BadRequest,
    Internal,
}

impl ErrorCode {
    /// The wire name of a code.
    pub open spec fn wire_name(self) -> Seq<char> {
        match self {
            ErrorCode::TokenExpired => "TOKEN_EXPIRED"@,
            ErrorCode::TokenInvalid => "TOKEN_INVALID"@,
            ErrorCode::Unauthorized => "UNAUTHORIZED"@,
            ErrorCode::NotSubscribed => "NOT_SUBSCRIBED"@,
            ErrorCode::StreamNotFound => "STREAM_NOT_FOUND"@,
            ErrorCode::RateLimited => "RATE_LIMITED"@,
            ErrorCode::BadRequest => "BAD_REQUEST"@,
            ErrorCode::Internal => "INTERNAL"@,
        }
    }

    pub fn as_str(&self) -> (s: &'static str)
        ensures
            s@ == self.wire_name(),
    {
        match self {
            ErrorCode::TokenExpired => "TOKEN_EXPIRED",
            ErrorCode::TokenInvalid => "TOKEN_INVALID",
            ErrorCode::Unauthorized => "UNAUTHORIZED",
            ErrorCode::NotSubscribed => "NOT_SUBSCRIBED",
            ErrorCode::StreamNotFound => "STREAM_NOT_FOUND",
            ErrorCode::RateLimited => "RATE_LIMITED",
            ErrorCode::BadRequest => "BAD_REQUEST",
            ErrorCode::Internal => "INTERNAL",
        }
    }
}

impl ErrorCode {
    /// The HTTP status that answers a request refused with this code.
    pub open spec fn spec_http_status(self) -> u16 {
        match self {
            ErrorCode::TokenExpired | ErrorCode::TokenInvalid => 401,
            ErrorCode::Unauthorized => 403,
            ErrorCode::NotSubscribed | ErrorCode::StreamNotFound => 404,
            ErrorCode::RateLimited => 429,
            ErrorCode::BadRequest => 400,
            ErrorCode::Internal => 500,
        }
    }

    pub fn http_status(&self) -> (s: u16)
        ensures
            s == self.spec_http_status(),
    {
        match self {
            ErrorCode::TokenExpired | ErrorCode::TokenInvalid => 401,
            ErrorCode::Unauthorized => 403,
            ErrorCode::NotSubscribed | ErrorCode::StreamNotFound => 404,
            ErrorCode::RateLimited => 429,
            ErrorCode::BadRequest => 400,
            ErrorCode::Internal => 500,
        }
    }
}

pub struct HeraldError {
    pub code: ErrorCode,
    pub message: String,
}

impl HeraldError {
    pub fn new(code: ErrorCode, message: &str) -> (e: HeraldError)
        ensures
            e.code == code,
            e.message@ == message@,
    {
        HeraldError { code, message: String::from_str(message) }
    }

    pub fn to_display_string(&self) -> (s: String)
        ensures
            s@ == self.code.wire_name() + ": "@ + self.message@,
    {
        let mut s = String::from_str(self.code.as_str());
        s.append(": ");
        s.append(self.message.as_str());
        s
    }
}

} // verus!
