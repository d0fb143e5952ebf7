//! The API's error envelope: a stable machine code, an HTTP status and a message.
use vstd::prelude::*;
use crate::text::{push_decimal, push_str_chars};

verus! {

pub const BAD_REQUEST: u16 = 400;
pub const UNAUTHORIZED: u16 = 401;
pub const NOT_FOUND: u16 = 404;
pub const CONFLICT: u16 = 409;
pub const PAYLOAD_TOO_LARGE: u16 = 413;
pub const UNPROCESSABLE_ENTITY: u16 = 422;
pub const TOO_MANY_REQUESTS: u16 = 429;
pub const INTERNAL_SERVER_ERROR: u16 = 500;
pub const BAD_GATEWAY: u16 = 502;
pub const SERVICE_UNAVAILABLE: u16 = 503;
pub const INSUFFICIENT_STORAGE: u16 = 507;

/// An API failure: `code` is the stable machine-readable name, `status` the HTTP
/// status, `message` the human-readable text sent to the client. `detail` is
/// for the server log only and never goes to the client; it is empty except on
/// internal errors.
#[derive(Debug, Clone)]
pub struct ApiError {
    pub code: &'static str,
    pub status: u16,
    pub message: String,
    pub detail: String,
}

/// The abstract content of an `ApiError` as a client sees it: code, status, message.
pub type ApiErrorView = (Seq<char>, u16, Seq<char>);

impl View for ApiError {
    type V = ApiErrorView;

    open spec fn view(&self) -> ApiErrorView {
        (self.code@, self.status, self.message@)
    }
}

pub open spec fn invalid_token_view() -> ApiErrorView {
    ("invalid_token"@, UNAUTHORIZED, "invalid upload token"@)
}

pub open spec fn not_found_view() -> ApiErrorView {
    ("not_found"@, NOT_FOUND, "upload not found"@)
}

pub open spec fn part_out_of_order_view() -> ApiErrorView {
    ("part_out_of_order"@, CONFLICT, "part number out of order"@)
}

pub open spec fn already_complete_view() -> ApiErrorView {
    ("already_complete"@, CONFLICT, "upload is already complete"@)
}

pub open spec fn not_complete_view() -> ApiErrorView {
    ("not_complete"@, CONFLICT, "upload has no parts yet"@)
}

pub open spec fn part_too_large_view() -> ApiErrorView {
    ("part_too_large"@, PAYLOAD_TOO_LARGE, "part exceeds chunk size"@)
}

pub open spec fn upload_too_large_view() -> ApiErrorView {
    ("upload_too_large"@, PAYLOAD_TOO_LARGE, "file exceeds configured max upload size"@)
}

pub open spec fn no_expiry_view() -> ApiErrorView {
    ("no_expiry"@, UNPROCESSABLE_ENTITY, "upload must have a ttl_seconds or max_downloads"@)
}

pub open spec fn rate_limited_view() -> ApiErrorView {
    ("rate_limited"@, TOO_MANY_REQUESTS, "rate limit exceeded"@)
}

pub open spec fn in_flight_limit_view() -> ApiErrorView {
    ("in_flight_limit"@, TOO_MANY_REQUESTS, "too many bytes in flight, try again later"@)
}

pub open spec fn storage_low_view(free: u64) -> ApiErrorView {
    (
        "storage_low"@,
        INSUFFICIENT_STORAGE,
        "storage low: "@ + crate::text::decimal_string(free as nat) + " bytes free"@,
    )
}

pub open spec fn invalid_etag_view() -> ApiErrorView {
    ("invalid_etag"@, CONFLICT, "one or more part etags are invalid"@)
}

pub open spec fn bad_request_view(m: Seq<char>) -> ApiErrorView {
    ("bad_request"@, BAD_REQUEST, m)
}

pub open spec fn validation_view(m: Seq<char>) -> ApiErrorView {
    ("validation"@, UNPROCESSABLE_ENTITY, m)
}

pub open spec fn storage_error_view(m: Seq<char>) -> ApiErrorView {
    ("storage_error"@, BAD_GATEWAY, m)
}

pub open spec fn upstream_view(m: Seq<char>) -> ApiErrorView {
    ("storage_error"@, SERVICE_UNAVAILABLE, m)
}

/// An internal failure as the client sees it: the same generic text whatever went wrong.
pub open spec fn internal_view() -> ApiErrorView {
    ("internal"@, INTERNAL_SERVER_ERROR, "internal server error"@)
}

impl ApiError {
    fn new(code: &'static str, status: u16, message: String) -> (e: ApiError)
        ensures
            e@ == (code@, status, message@),
            e.detail@ == Seq::<char>::empty(),
    {
        ApiError { code, status, message, detail: String::new() }
    }

    pub fn bad_request(m: String) -> (e: ApiError)
        ensures
            e@ == bad_request_view(m@),
    {
        Self::new("bad_request", BAD_REQUEST, m)
    }

    pub fn invalid_token() -> (e: ApiError)
        ensures
            e@ == invalid_token_view(),
    {
        Self::new("invalid_token", UNAUTHORIZED, String::from_str("invalid upload token"))
    }

    pub fn not_found() -> (e: ApiError)
        ensures
            e@ == not_found_view(),
    {
        Self::new("not_found", NOT_FOUND, String::from_str("upload not found"))
    }

    pub fn part_out_of_order() -> (e: ApiError)
        ensures
            e@ == part_out_of_order_view(),
    {
        Self::new("part_out_of_order", CONFLICT, String::from_str("part number out of order"))
    }

    pub fn already_complete() -> (e: ApiError)
        ensures
            e@ == already_complete_view(),
    {
        Self::new("already_complete", CONFLICT, String::from_str("upload is already complete"))
    }

    pub fn not_complete() -> (e: ApiError)
        ensures
            e@ == not_complete_view(),
    {
        Self::new("not_complete", CONFLICT, String::from_str("upload has no parts yet"))
    }

    pub fn part_too_large() -> (e: ApiError)
        ensures
            e@ == part_too_large_view(),
    {
        Self::new("part_too_large", PAYLOAD_TOO_LARGE, String::from_str("part exceeds chunk size"))
    }

    pub fn upload_too_large() -> (e: ApiError)
        ensures
            e@ == upload_too_large_view(),
    {
        Self::new(
            "upload_too_large",
            PAYLOAD_TOO_LARGE,
            String::from_str("file exceeds configured max upload size"),
        )
    }

    pub fn no_expiry() -> (e: ApiError)
        ensures
            e@ == no_expiry_view(),
    {
        Self::new(
            "no_expiry",
            UNPROCESSABLE_ENTITY,
            String::from_str("upload must have a ttl_seconds or max_downloads"),
        )
    }

    pub fn rate_limited() -> (e: ApiError)
        ensures
            e@ == rate_limited_view(),
    {
        Self::new("rate_limited", TOO_MANY_REQUESTS, String::from_str("rate limit exceeded"))
    }

    pub fn in_flight_limit() -> (e: ApiError)
        ensures
            e@ == in_flight_limit_view(),
    {
        Self::new(
            "in_flight_limit",
            TOO_MANY_REQUESTS,
            String::from_str("too many bytes in flight, try again later"),
        )
    }

    pub fn storage_low(free: u64) -> (e: ApiError)
        ensures
            e@ == storage_low_view(free),
    {
        let mut m = String::from_str("storage low: ");
        push_decimal(&mut m, free);
        push_str_chars(&mut m, " bytes free");
        Self::new("storage_low", INSUFFICIENT_STORAGE, m)
    }

    pub fn invalid_etag() -> (e: ApiError)
        ensures
            e@ == invalid_etag_view(),
    {
        Self::new("invalid_etag", CONFLICT, String::from_str("one or more part etags are invalid"))
    }

    pub fn validation(m: String) -> (e: ApiError)
        ensures
            e@ == validation_view(m@),
    {
        Self::new("validation", UNPROCESSABLE_ENTITY, m)
    }

    pub fn storage_error(m: String) -> (e: ApiError)
        ensures
            e@ == storage_error_view(m@),
    {
        Self::new("storage_error", BAD_GATEWAY, m)
    }

    pub fn upstream(m: String) -> (e: ApiError)
        ensures
            e@ == upstream_view(m@),
    {
        Self::new("storage_error", SERVICE_UNAVAILABLE, m)
    }

    /// An internal failure: the client gets a generic message, and `m`, the
    /// detail of what went wrong, is kept for the server log.
    pub fn internal(m: String) -> (e: ApiError)
        ensures
            e@ == internal_view(),
            e.detail@ == m@,
    {
        ApiError {
            code: "internal",
            status: INTERNAL_SERVER_ERROR,
            message: String::from_str("internal server error"),
            detail: m,
        }
    }

    /// The text that `Display` shows: `[code] message`.
    pub fn display_text(&self) -> (s: String)
        ensures
            s@ == seq!['['] + self.code@ + seq![']', ' '] + self.message@,
    {
        let mut s = String::new();
        s.push('[');
        push_str_chars(&mut s, self.code);
        s.push(']');
        s.push(' ');
        push_str_chars(&mut s, self.message.as_str());
        assert(s@ =~= seq!['['] + self.code@ + seq![']', ' '] + self.message@);
        s
    }
}

} // verus!
