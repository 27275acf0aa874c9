//! The claims a session token carries and the checks made on a request's
//! token.  Signing and decoding tokens is done by the server's runtime.

use vstd::prelude::*;

use crate::clock::{
    days_later, now_timestamp, timestamp_days_later, EARLIEST_TIMESTAMP, LATEST_TIMESTAMP,
};

verus! {

/// What a session token says: whose it is and until when (seconds since
/// the epoch) it is valid.
#[derive(Debug)]
pub struct Claims {
    pub sub: u128,
    pub username: String,
    pub exp: i64,
}

/// The query string of a websocket request that carries its token.
#[derive(Debug)]
pub struct WsQuery {
    pub token: String,
}

/// The claims of a request whose token was accepted.
#[derive(Debug)]
pub struct JwtClaims(pub Claims);

/// How long a token is valid, in days.
pub const TOKEN_LIFETIME_DAYS: u64 = 10;

/// The claims for user `sub` issued at time `now`: they expire
/// [`TOKEN_LIFETIME_DAYS`] days later; none where the calendar cannot hold
/// that instant.
pub open spec fn claims_issued_at(sub: u128, username: String, now: i64) -> Option<Claims> {
    match timestamp_days_later(now, TOKEN_LIFETIME_DAYS) {
        Some(exp) => Some(Claims { sub, username, exp }),
        None => None,
    }
}

impl Claims {
    /// The claims for user `sub` issued at time `now`.
    pub fn issued_at(sub: u128, username: String, now: i64) -> (r: Option<Claims>)
        ensures
            r == claims_issued_at(sub, username, now),
            r matches Some(c) ==> c.exp == now + TOKEN_LIFETIME_DAYS * 86400,
            r is Some <==> now + TOKEN_LIFETIME_DAYS * 86400 <= LATEST_TIMESTAMP
                && now >= EARLIEST_TIMESTAMP,
    {
        match days_later(now, TOKEN_LIFETIME_DAYS) {
            Some(exp) => Some(Claims { sub, username, exp }),
            None => None,
        }
    }

    /// The claims for user `sub` issued now, as [`Self::issued_at`] gives
    /// them for the time read from the clock: they expire ten days after it.
    pub fn new(sub: u128, username: String) -> (r: Option<Claims>)
        ensures
            exists|now: i64|
                {
                    &&& 0 <= now <= LATEST_TIMESTAMP
                    &&& r == #[trigger] claims_issued_at(sub, username, now)
                    &&& r matches Some(c) ==> c.exp == now + TOKEN_LIFETIME_DAYS * 86400
                },
    {
        let now = now_timestamp();
        Claims::issued_at(sub, username, now)
    }
}

/// Why a request's token is refused.
#[derive(Debug, Clone, Copy, PartialEq, Eq, Structural)]
pub enum AuthError {
    /// The request carries no token.
    MissingToken,
    /// The server has no secret to check tokens with.
    MissingSecret,
    /// The token does not decode with the server's secret.
    InvalidToken,
    /// The token's validity ended.
    Expired,
}

impl AuthError {
    pub open spec fn text(&self) -> Seq<char> {
        match self {
            AuthError::MissingToken => "JWT Token is not provided"@,
            AuthError::MissingSecret => "Error loading JWT secret key"@,
            AuthError::InvalidToken => "Invalid JWT token"@,
            AuthError::Expired => "Token has expired, please sign in again"@,
        }
    }

    /// The text a refused request is answered with.
    pub fn message(&self) -> (m: String)
        ensures
            m@ == self.text(),
    {
        match self {
            AuthError::MissingToken => String::from_str("JWT Token is not provided"),
            AuthError::MissingSecret => String::from_str("Error loading JWT secret key"),
            AuthError::InvalidToken => String::from_str("Invalid JWT token"),
            AuthError::Expired => String::from_str("Token has expired, please sign in again"),
        }
    }
}

/// The token a request carries: the one of its query string when that
/// parses, else the one of its `Authorization` header; a missing token is
/// refused.
pub fn select_token(query_token: Option<String>, header_token: Option<String>) -> (r: Result<
    String,
    AuthError,
>)
    ensures
        r == match query_token {
            Some(t) => Ok(t),
            None => match header_token {
                Some(t) => Ok(t),
                None => Err(AuthError::MissingToken),
            },
        },
{
    match query_token {
        Some(t) => Ok(t),
        None => match header_token {
            Some(t) => Ok(t),
            None => Err(AuthError::MissingToken),
        },
    }
}

/// Decoded claims are accepted at time `now` unless `now` is past their
/// expiry.
pub fn check_expiry(claims: Claims, now: i64) -> (r: Result<JwtClaims, AuthError>)
    ensures
        now > claims.exp ==> r == Err::<JwtClaims, AuthError>(AuthError::Expired),
        now <= claims.exp ==> r == Ok::<JwtClaims, AuthError>(JwtClaims(claims)),
{
    if now > claims.exp {
        return Err(AuthError::Expired);
    }
    Ok(JwtClaims(claims))
}

} // verus!
