//! Signed identity tokens: a subject and an expiry, signed with a process-wide
//! secret. Validity is a function of the signature and the expiry alone.

use vstd::prelude::*;
use vstd::string::StringExecFns;

verus! {

/// How long an issued token stays valid, in seconds (24 hours).
pub const TOKEN_LIFETIME_SECS: i64 = 86400;

/// The claims a token carries.
#[derive(Debug)]
pub struct Claims {
    /// The user the token was issued for.
    pub sub: String,
    /// The instant after which the token is no longer accepted, in Unix seconds.
    pub exp: u64,
}

/// The signing configuration, read once at startup and passed to the codec.
#[derive(Debug)]
pub struct TokenConfig {
    pub secret: String,
}

/// Why a token could not be issued or was not accepted.
#[derive(Debug, Clone, Copy, PartialEq, Eq, Structural)]
pub enum TokenError {
    /// The signature does not match the configured secret.
    InvalidToken,
    /// The token's expiry has passed.
    Expired,
    /// The token cannot be parsed, or lacks a subject or an expiry.
    Malformed,
    /// No token could be produced for these claims.
    Encoding,
}

/// What decoding a token with a secret yields, signature checked and the expiry
/// not yet compared with any clock: the `sub` and `exp` claims where present.
pub uninterp spec fn jwt_claims_read(secret: Seq<char>, token: Seq<char>) -> Result<
    (Option<Seq<char>>, Option<u64>),
    TokenError,
>;

/// A successful decoding that found both claims.
pub open spec fn both_claims(sub: Seq<char>, exp: u64) -> Result<(Option<Seq<char>>, Option<u64>), TokenError> {
    Ok((Some(sub), Some(exp)))
}

pub open spec fn text_view(o: Option<String>) -> Option<Seq<char>> {
    match o {
        Some(t) => Some(t@),
        None => None,
    }
}

pub open spec fn reading_view(r: Result<(Option<String>, Option<u64>), TokenError>) -> Result<
    (Option<Seq<char>>, Option<u64>),
    TokenError,
> {
    match r {
        Ok((sub, exp)) => Ok((text_view(sub), exp)),
        Err(e) => Err(e),
    }
}

/// The verdict on a decoded token at instant `now`: both claims must be present,
/// and the expiry must not have passed.
pub open spec fn claims_verdict(
    reading: Result<(Option<Seq<char>>, Option<u64>), TokenError>,
    now: i64,
) -> Result<(Seq<char>, u64), TokenError> {
    match reading {
        Err(e) => Err(e),
        Ok((Some(sub), Some(exp))) => if (exp as int) < now {
            Err(TokenError::Expired)
        } else {
            Ok((sub, exp))
        },
        Ok(_) => Err(TokenError::Malformed),
    }
}

pub open spec fn claims_result_view(r: Result<Claims, TokenError>) -> Result<
    (Seq<char>, u64),
    TokenError,
> {
    match r {
        Ok(c) => Ok((c.sub@, c.exp)),
        Err(e) => Err(e),
    }
}

/// The expiry of a token issued at `now`, where it is a valid timestamp.
pub open spec fn token_expiry(now: i64) -> Option<u64> {
    let exp: int = now + TOKEN_LIFETIME_SECS;
    if 0 <= exp <= i64::MAX {
        Some(exp as u64)
    } else {
        None
    }
}

/// `token` is what issuing for `sub` at instant `issued_at` under `secret` yields:
/// it decodes under that secret to `sub` and the expiry 24 hours later.
pub open spec fn issued_for(secret: Seq<char>, sub: Seq<char>, issued_at: i64, token: Seq<char>) -> bool {
    &&& token_expiry(issued_at) is Some
    &&& jwt_claims_read(secret, token) == both_claims(sub, token_expiry(issued_at).unwrap())
}

/// `r` is what issuing for `sub` at instant `now` under `secret` yields: a token
/// issued then where its expiry is a valid timestamp, `Encoding` otherwise.
pub open spec fn issue_outcome(secret: Seq<char>, sub: Seq<char>, now: i64, r: Result<String, TokenError>) -> bool {
    match r {
        Ok(t) => issued_for(secret, sub, now, t@),
        Err(e) => e == TokenError::Encoding && token_expiry(now) is None,
    }
}

/// Relies on jsonwebtoken::decode with the default validation (HS256, `exp`
/// required) and the expiry check switched off: the outcome depends on the token
/// and the secret alone. A signature that does not match, or a token for another
/// algorithm, is `InvalidToken`; any other failure is `Malformed`. On success the
/// `sub` claim is read as a string and the `exp` claim as an unsigned integer.
#[verifier::external_body]
fn read_signed_claims(secret: &str, token: &str) -> (r: Result<(Option<String>, Option<u64>), TokenError>)
    ensures
        reading_view(r) == jwt_claims_read(secret@, token@),
{
    let mut validation = jsonwebtoken::Validation::default();
    validation.validate_exp = false;
    let key = jsonwebtoken::DecodingKey::from_secret(secret.as_bytes());
    match jsonwebtoken::decode::<serde_json::Value>(token, &key, &validation) {
        Ok(data) => Ok((data.claims["sub"].as_str().map(String::from), data.claims["exp"].as_u64())),
        Err(e) => match e.kind() {
            jsonwebtoken::errors::ErrorKind::InvalidSignature => Err(TokenError::InvalidToken),
            jsonwebtoken::errors::ErrorKind::InvalidAlgorithm => Err(TokenError::InvalidToken),
            _ => Err(TokenError::Malformed),
        },
    }
}

/// Relies on jsonwebtoken::encode with the default header (HS256) over the claims
/// object `{"sub": sub, "exp": exp}`. With an HMAC key and that header, encoding
/// always succeeds (serialising the map cannot fail, and HMAC signing returns
/// `Ok` for any key), and the token is signed with `secret`, so decoding it with
/// the same secret gives both claims back.
#[verifier::external_body]
fn sign_claims(secret: &str, sub: &str, exp: u64) -> (r: Option<String>)
    ensures
        r is Some,
        r is Some ==> jwt_claims_read(secret@, r.unwrap()@) == both_claims(sub@, exp),
{
    let mut claims = serde_json::Map::new();
    claims.insert(String::from("sub"), serde_json::Value::from(sub));
    claims.insert(String::from("exp"), serde_json::Value::from(exp));
    let key = jsonwebtoken::EncodingKey::from_secret(secret.as_bytes());
    jsonwebtoken::encode(&jsonwebtoken::Header::default(), &claims, &key).ok()
}

/// Relies on chrono::Utc::now: the current time in Unix seconds.
#[verifier::external_body]
pub(crate) fn unix_time_now() -> (r: i64) {
    chrono::Utc::now().timestamp()
}

impl TokenConfig {
    /// The configuration for a secret given at startup. Where none was given the
    /// fixed placeholder `secret` is used: a known weakness, kept deliberately.
    pub fn from_setting(value: Option<String>) -> (r: TokenConfig)
        ensures
            value matches Some(v) ==> r.secret == v,
            value is None ==> r.secret@ == "secret"@,
    {
        match value {
            Some(v) => TokenConfig { secret: v },
            None => TokenConfig { secret: String::from_str("secret") },
        }
    }
}

/// The expiry of a token issued at `now`.
pub fn expiry_after(now: i64) -> (r: Option<u64>)
    ensures
        r == token_expiry(now),
{
    if now > i64::MAX - TOKEN_LIFETIME_SECS {
        None
    } else {
        let exp: i64 = now + TOKEN_LIFETIME_SECS;
        if exp < 0 {
            None
        } else {
            Some(exp as u64)
        }
    }
}

/// Issues a token for `user_id` at instant `now`, valid for 24 hours.
pub fn issue_token_at(config: &TokenConfig, user_id: &str, now: i64) -> (r: Result<String, TokenError>)
    ensures
        issue_outcome(config.secret@, user_id@, now, r),
{
    match expiry_after(now) {
        None => Err(TokenError::Encoding),
        Some(exp) => match sign_claims(config.secret.as_str(), user_id, exp) {
            Some(t) => Ok(t),
            None => Err(TokenError::Encoding),
        },
    }
}

/// Issues a token for `user_id`, valid for 24 hours from now.
pub fn create_token(config: &TokenConfig, user_id: &str) -> (r: Result<String, TokenError>)
    ensures
        exists|now: i64| #[trigger] issue_outcome(config.secret@, user_id@, now, r),
{
    let now: i64 = unix_time_now();
    issue_token_at(config, user_id, now)
}

/// Judges a decoded token at instant `now`: the decoding failure if there was
/// one, `Malformed` where a claim is missing, `Expired` where the expiry lies
/// before `now`, and the claims otherwise.
pub fn check_claims(reading: Result<(Option<String>, Option<u64>), TokenError>, now: i64) -> (r: Result<Claims, TokenError>)
    ensures
        claims_result_view(r) == claims_verdict(reading_view(reading), now),
{
    match reading {
        Err(e) => Err(e),
        Ok((Some(sub), Some(exp))) => {
            if (exp as i128) < (now as i128) {
                Err(TokenError::Expired)
            } else {
                Ok(Claims { sub, exp })
            }
        },
        Ok(_) => Err(TokenError::Malformed),
    }
}

/// Verifies `token` at instant `now` against the configured secret.
pub fn verify_token_at(config: &TokenConfig, token: &str, now: i64) -> (r: Result<Claims, TokenError>)
    ensures
        claims_result_view(r) == claims_verdict(jwt_claims_read(config.secret@, token@), now),
{
    let reading = read_signed_claims(config.secret.as_str(), token);
    check_claims(reading, now)
}

/// Verifies `token` now against the configured secret. No lookup of the subject
/// is made: a token for a deleted user still verifies.
pub fn verify_token(config: &TokenConfig, token: &str) -> (r: Result<Claims, TokenError>)
    ensures
        exists|now: i64|
            claims_result_view(r) == claims_verdict(jwt_claims_read(config.secret@, token@), now),
{
    let now: i64 = unix_time_now();
    verify_token_at(config, token, now)
}

/// A token issued for a subject verifies, under the same secret and until its
/// expiry, to that same subject.
pub proof fn lemma_issued_token_verifies(
    secret: Seq<char>,
    sub: Seq<char>,
    issued_at: i64,
    token: Seq<char>,
    now: i64,
)
    requires
        issued_for(secret, sub, issued_at, token),
        now <= issued_at + TOKEN_LIFETIME_SECS,
    ensures
        claims_verdict(jwt_claims_read(secret, token), now) == Ok::<(Seq<char>, u64), TokenError>(
            (sub, token_expiry(issued_at).unwrap()),
        ),
{
}

/// A token whose signature does not match the secret is rejected as invalid,
/// whatever its expiry.
pub proof fn lemma_signature_mismatch_rejected(secret: Seq<char>, token: Seq<char>, now: i64)
    requires
        jwt_claims_read(secret, token) == Err::<(Option<Seq<char>>, Option<u64>), TokenError>(
            TokenError::InvalidToken,
        ),
    ensures
        claims_verdict(jwt_claims_read(secret, token), now) == Err::<(Seq<char>, u64), TokenError>(
            TokenError::InvalidToken,
        ),
{
}

/// A token whose expiry lies in the past is rejected as expired.
pub proof fn lemma_expired_token_rejected(
    secret: Seq<char>,
    token: Seq<char>,
    sub: Seq<char>,
    exp: u64,
    now: i64,
)
    requires
        jwt_claims_read(secret, token) == both_claims(sub, exp),
        (exp as int) < now,
    ensures
        claims_verdict(jwt_claims_read(secret, token), now) == Err::<(Seq<char>, u64), TokenError>(
            TokenError::Expired,
        ),
{
}

} // verus!
