//! The data of the example application: its query, login request, token
//! answer and token claims.

use vstd::prelude::*;

verus! {

/// The query of the item list: a text to look for and a page size.
#[derive(Debug)]
pub struct ListItemsQuery {
    pub q: Option<String>,
    pub limit: Option<i32>,
}

/// A page size is valid when absent or from 1 to 100.
pub open spec fn limit_valid(limit: Option<i32>) -> bool {
    match limit {
        Some(l) => 1 <= l <= 100,
        None => true,
    }
}

impl ListItemsQuery {
    /// Whether the query validates: its page size, if given, is from 1 to
    /// 100.
    pub fn validate(&self) -> (r: bool)
        ensures
            r == limit_valid(self.limit),
    {
        match self.limit {
            Some(l) => 1 <= l && l <= 100,
            None => true,
        }
    }

    /// The page size used: the one given, else 10.
    pub fn page_size(&self) -> (r: i32)
        ensures
            r == match self.limit {
                Some(l) => l,
                None => 10i32,
            },
    {
        match self.limit {
            Some(l) => l,
            None => 10,
        }
    }
}

/// A login request.
#[derive(Debug)]
pub struct LoginRequest {
    pub username: String,
}

/// The answer to a login: a token and its type.
#[derive(Debug)]
pub struct TokenResponse {
    pub access_token: String,
    pub token_type: String,
}

impl TokenResponse {
    /// A bearer token answer.
    pub fn bearer(access_token: String) -> (r: Self)
        ensures
            r.access_token == access_token,
            r.token_type@ == "Bearer"@,
    {
        TokenResponse { access_token, token_type: String::from_str("Bearer") }
    }
}

/// The claims of a user's token: who, and until when (seconds since the
/// epoch).
#[derive(Debug)]
pub struct UserClaims {
    pub sub: String,
    pub exp: u64,
}

/// How long a login token lives, in seconds.
pub const TOKEN_LIFETIME: u64 = 3600;

impl UserClaims {
    /// The claims of a token issued to `sub` at `now` (seconds since the
    /// epoch): it expires an hour later.
    pub fn issued(sub: String, now: u64) -> (r: Self)
        requires
            now + TOKEN_LIFETIME <= u64::MAX,
        ensures
            r.sub == sub,
            r.exp == now + TOKEN_LIFETIME,
    {
        UserClaims { sub, exp: now + TOKEN_LIFETIME }
    }
}

} // verus!
