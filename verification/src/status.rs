//! HTTP status codes, held as their numbers.

use vstd::prelude::*;
use crate::text::{decimal, decimal_string};

verus! {

pub const OK: u16 = 200;
pub const CREATED: u16 = 201;
pub const MOVED_PERMANENTLY: u16 = 301;
pub const SEE_OTHER: u16 = 303;
pub const TEMPORARY_REDIRECT: u16 = 307;
pub const PERMANENT_REDIRECT: u16 = 308;
pub const BAD_REQUEST: u16 = 400;
pub const UNAUTHORIZED: u16 = 401;
pub const FORBIDDEN: u16 = 403;
pub const NOT_FOUND: u16 = 404;
pub const METHOD_NOT_ALLOWED: u16 = 405;
pub const UNPROCESSABLE_ENTITY: u16 = 422;
pub const INTERNAL_SERVER_ERROR: u16 = 500;

/// A number that HTTP accepts as a status code: three digits, from 100 to
/// 999.
pub open spec fn valid_status(code: u16) -> bool {
    100 <= code <= 999
}

/// The status is a server error (500 to 599).
pub fn is_server_error(code: u16) -> (r: bool)
    ensures
        r == (500 <= code < 600),
{
    500 <= code && code < 600
}

/// The status is a client error (400 to 499).
pub fn is_client_error(code: u16) -> (r: bool)
    ensures
        r == (400 <= code < 500),
{
    400 <= code && code < 500
}

/// The status is a redirection (300 to 399).
pub fn is_redirection(code: u16) -> (r: bool)
    ensures
        r == (300 <= code < 400),
{
    300 <= code && code < 400
}

/// The reason phrase that the `http` crate registers for a status code.
pub uninterp spec fn canonical_reason_phrase(code: u16) -> Option<Seq<char>>;

/// Calls `http::StatusCode::canonical_reason` (through `axum::http`) on the
/// status built from `code`. Claims: the result is the registered phrase
/// for `code`, a fixed function of the code.
#[verifier::external_body]
fn canonical_reason(code: u16) -> (r: Option<&'static str>)
    requires
        valid_status(code),
    ensures
        match r {
            Some(s) => canonical_reason_phrase(code) == Some(s@),
            None => canonical_reason_phrase(code) is None,
        },
{
    axum::http::StatusCode::from_u16(code).ok().and_then(|s| s.canonical_reason())
}

/// How a status code is written: its number, a space, and its reason
/// phrase (or "<unknown status code>").
pub open spec fn status_line(code: u16) -> Seq<char> {
    decimal(code as nat) + " "@ + match canonical_reason_phrase(code) {
        Some(p) => p,
        None => "<unknown status code>"@,
    }
}

/// The status code written as its number and reason phrase.
pub fn status_text(code: u16) -> (s: String)
    requires
        valid_status(code),
    ensures
        s@ == status_line(code),
{
    let mut s = decimal_string(code as u64);
    s.append(" ");
    match canonical_reason(code) {
        Some(p) => s.append(p),
        None => s.append("<unknown status code>"),
    }
    s
}

} // verus!
