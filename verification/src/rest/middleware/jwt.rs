//! JWT middleware (go-zero `WithJwt`): bearer tokens signed with HS256.
use vstd::prelude::*;
use std::sync::Arc;
use jsonwebtoken::{decode, Algorithm, DecodingKey, Validation};
use crate::text::{chars_of, slice, starts_with, starts_with_str, string_of};

verus! {

/// The shared state of the JWT middleware: the signing secret.
pub fn state(secret: String) -> (s: Arc<String>)
    ensures
        *s == secret,
{
    Arc::new(secret)
}

/// What a request carries in its `Authorization` header.
#[derive(Debug, Clone)]
pub enum AuthHeader {
    /// No such header.
    Missing,
    /// A header whose value is not visible ASCII text.
    Opaque,
    /// A header with this text.
    Text(String),
}

/// Why a request is answered `401 Unauthorized`.
#[derive(Debug, Clone, Copy, PartialEq, Eq, Structural)]
pub enum AuthRejection {
    MissingAuthorization,
    InvalidAuthorization,
    InvalidScheme,
    InvalidToken,
}

impl AuthRejection {
    pub open spec fn message_spec(self) -> Seq<char> {
        match self {
            AuthRejection::MissingAuthorization => "missing Authorization"@,
            AuthRejection::InvalidAuthorization => "invalid Authorization"@,
            AuthRejection::InvalidScheme => "invalid Authorization scheme"@,
            AuthRejection::InvalidToken => "invalid token"@,
        }
    }

    /// The body of the `401` answer.
    pub fn message(&self) -> (s: &'static str)
        ensures
            s@ == self.message_spec(),
    {
        match self {
            AuthRejection::MissingAuthorization => "missing Authorization",
            AuthRejection::InvalidAuthorization => "invalid Authorization",
            AuthRejection::InvalidScheme => "invalid Authorization scheme",
            AuthRejection::InvalidToken => "invalid token",
        }
    }
}

/// The token of an `Authorization: Bearer <token>` header (scheme `Bearer ` or `bearer `).
pub open spec fn bearer_spec(h: AuthHeader) -> Result<Seq<char>, AuthRejection> {
    match h {
        AuthHeader::Missing => Err(AuthRejection::MissingAuthorization),
        AuthHeader::Opaque => Err(AuthRejection::InvalidAuthorization),
        AuthHeader::Text(t) => if starts_with(t@, "Bearer "@) {
            Ok(t@.subrange(7, t@.len() as int))
        } else if starts_with(t@, "bearer "@) {
            Ok(t@.subrange(7, t@.len() as int))
        } else {
            Err(AuthRejection::InvalidScheme)
        },
    }
}

/// The bearer token of an `Authorization` header.
pub fn bearer_token(h: &AuthHeader) -> (r: Result<String, AuthRejection>)
    ensures
        match r {
            Ok(t) => bearer_spec(*h) == Ok::<Seq<char>, AuthRejection>(t@),
            Err(e) => bearer_spec(*h) == Err::<Seq<char>, AuthRejection>(e),
        },
{
    match h {
        AuthHeader::Missing => Err(AuthRejection::MissingAuthorization),
        AuthHeader::Opaque => Err(AuthRejection::InvalidAuthorization),
        AuthHeader::Text(t) => {
            let v = chars_of(t.as_str());
            proof {
                reveal_strlit("Bearer ");
                reveal_strlit("bearer ");
            }
            if starts_with_str(&v, "Bearer ") || starts_with_str(&v, "bearer ") {
                let tok = slice(&v, 7, v.len());
                Ok(string_of(&tok))
            } else {
                Err(AuthRejection::InvalidScheme)
            }
        },
    }
}

/// The `exp` claim of a token, as the middleware's claims type (`exp: Option<u64>`)
/// reads it.
#[derive(Debug, Clone, Copy, PartialEq, Eq, Structural)]
pub enum ExpClaim {
    /// No `exp` field.
    Absent,
    /// `exp` is `null`.
    Null,
    /// `exp` is an unsigned integer that fits in 64 bits.
    Unsigned(u64),
    /// `exp` is anything else (a float, a negative number, text, ...).
    Other,
}

/// `jsonwebtoken::decode` with an HS256 key from `secret` and expiry checking:
/// `None` when it refuses the token (signature, format, or an `exp` in the past),
/// else the shape of the decoded claims' `exp` field. Whether it refuses depends on
/// the current time, so nothing is stated of the result.
#[verifier::external_body]
fn hs256_decode_exp(token: &str, secret: &str) -> Option<ExpClaim> {
    let mut validation = Validation::new(Algorithm::HS256);
    validation.validate_exp = true;
    let key = DecodingKey::from_secret(secret.as_bytes());
    match decode::<serde_json::Value>(token, &key, &validation) {
        Err(_) => None,
        Ok(data) => Some(match data.claims.get("exp") {
            None => ExpClaim::Absent,
            Some(serde_json::Value::Null) => ExpClaim::Null,
            Some(serde_json::Value::Number(n)) => match n.as_u64() {
                Some(e) => ExpClaim::Unsigned(e),
                None => ExpClaim::Other,
            },
            Some(_) => ExpClaim::Other,
        }),
    }
}

/// Whether a token is accepted, given what the decoder gave: it must have decoded,
/// and its claims must read into `exp: Option<u64>` (absent, `null`, or an unsigned
/// 64-bit integer).
pub open spec fn token_accepted_spec(c: Option<ExpClaim>) -> bool {
    match c {
        None => false,
        Some(ExpClaim::Other) => false,
        Some(_) => true,
    }
}

/// Whether a token is accepted, given what the decoder gave (see `token_accepted_spec`).
pub fn token_accepted(c: Option<ExpClaim>) -> (b: bool)
    ensures
        b == token_accepted_spec(c),
{
    match c {
        None => false,
        Some(ExpClaim::Other) => false,
        Some(_) => true,
    }
}

/// The middleware's answer for a header, given whether its bearer token passed verification.
pub open spec fn verdict_spec(h: AuthHeader, accepted: bool) -> Result<(), AuthRejection> {
    match bearer_spec(h) {
        Err(e) => Err(e),
        Ok(_) => if accepted {
            Ok(())
        } else {
            Err(AuthRejection::InvalidToken)
        },
    }
}

/// The middleware's answer once the token has been checked: the header's own
/// rejection, else `InvalidToken` unless the token was accepted.
pub fn verdict(h: &AuthHeader, accepted: bool) -> (r: Result<(), AuthRejection>)
    ensures
        r == verdict_spec(*h, accepted),
{
    bearer_token(h)?;
    if accepted {
        Ok(())
    } else {
        Err(AuthRejection::InvalidToken)
    }
}

/// The middleware's decision: the header must carry a bearer token, the token must
/// pass HS256 verification with `secret`, and its `exp` claim must be absent, `null`
/// or an unsigned integer (`token_accepted`). Verification depends on the clock, so
/// the answer for a well-formed header is either one.
pub fn authorize(h: &AuthHeader, secret: &str) -> (r: Result<(), AuthRejection>)
    ensures
        r == verdict_spec(*h, true) || r == verdict_spec(*h, false),
        match bearer_spec(*h) {
            Err(e) => r == Err::<(), AuthRejection>(e),
            Ok(_) => r is Ok || r == Err::<(), AuthRejection>(AuthRejection::InvalidToken),
        },
{
    let accepted = match bearer_token(h) {
        Ok(token) => token_accepted(hs256_decode_exp(token.as_str(), secret)),
        Err(_) => false,
    };
    verdict(h, accepted)
}

} // verus!
