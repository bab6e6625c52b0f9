//! Turns an inbound credential into a verified user identity. Every failure,
//! whether the credential is missing, of the wrong scheme or rejected, collapses
//! into the single outcome `Unauthenticated`.

use vstd::prelude::*;
use vstd::string::StrSliceExecFns;

use crate::error::ApiError;
use crate::token::{
    TokenConfig, claims_verdict, jwt_claims_read, unix_time_now, verify_token_at,
};

verus! {

/// The identity established for a request.
#[derive(Debug)]
pub struct AuthUser {
    pub user_id: String,
}

/// `s` begins with `p`.
pub open spec fn has_prefix(s: Seq<char>, p: Seq<char>) -> bool {
    s.len() >= p.len() && s.subrange(0, p.len() as int) == p
}

/// The token of a credential of the form `Bearer <token>`.
pub open spec fn bearer_of(h: Seq<char>) -> Option<Seq<char>> {
    if has_prefix(h, "Bearer "@) {
        Some(h.subrange("Bearer "@.len() as int, h.len() as int))
    } else {
        None
    }
}

/// The identity that a credential establishes at instant `now`.
pub open spec fn identity_of(secret: Seq<char>, header: Option<Seq<char>>, now: i64) -> Result<
    Seq<char>,
    ApiError,
> {
    match header {
        None => Err(ApiError::Unauthenticated),
        Some(h) => match bearer_of(h) {
            None => Err(ApiError::Unauthenticated),
            Some(t) => match claims_verdict(jwt_claims_read(secret, t), now) {
                Ok((sub, _)) => Ok(sub),
                Err(_) => Err(ApiError::Unauthenticated),
            },
        },
    }
}

pub open spec fn auth_result_view(r: Result<AuthUser, ApiError>) -> Result<Seq<char>, ApiError> {
    match r {
        Ok(u) => Ok(u.user_id@),
        Err(e) => Err(e),
    }
}

pub open spec fn header_view(h: Option<&str>) -> Option<Seq<char>> {
    match h {
        Some(t) => Some(t@),
        None => None,
    }
}

/// The token of a credential of the form `Bearer <token>`, if it has that form.
pub fn bearer_token(header: &str) -> (r: Option<&str>)
    ensures
        r is Some <==> bearer_of(header@) is Some,
        r is Some ==> r.unwrap()@ == bearer_of(header@).unwrap(),
{
    let scheme = "Bearer ";
    let n = header.unicode_len();
    let m = scheme.unicode_len();
    if n < m {
        return None;
    }
    let mut i: usize = 0;
    while i < m
        invariant
            m == scheme@.len(),
            n == header@.len(),
            m <= n,
            0 <= i <= m,
            scheme@ == "Bearer "@,
            forall|j: int| 0 <= j < i ==> header@[j] == scheme@[j],
        decreases m - i,
    {
        if header.get_char(i) != scheme.get_char(i) {
            proof {
                assert(header@.subrange(0, m as int)[i as int] != scheme@[i as int]);
            }
            return None;
        }
        i += 1;
    }
    proof {
        assert(header@.subrange(0, m as int) =~= scheme@);
    }
    Some(header.substring_char(m, n))
}

impl AuthUser {
    /// The identity established by the credential header `header` at instant `now`.
    pub fn from_header_at(config: &TokenConfig, header: Option<&str>, now: i64) -> (r: Result<AuthUser, ApiError>)
        ensures
            auth_result_view(r) == identity_of(config.secret@, header_view(header), now),
    {
        match header {
            None => Err(ApiError::Unauthenticated),
            Some(h) => match bearer_token(h) {
                None => Err(ApiError::Unauthenticated),
                Some(t) => match verify_token_at(config, t, now) {
                    Ok(claims) => Ok(AuthUser { user_id: claims.sub }),
                    Err(_) => Err(ApiError::Unauthenticated),
                },
            },
        }
    }

    /// The identity established by the credential header `header` now.
    pub fn from_header(config: &TokenConfig, header: Option<&str>) -> (r: Result<AuthUser, ApiError>)
        ensures
            exists|now: i64|
                auth_result_view(r) == identity_of(config.secret@, header_view(header), now),
            r matches Err(e) ==> e == ApiError::Unauthenticated,
            header is None ==> r is Err,
            header matches Some(h) && bearer_of(h@) is None ==> r is Err,
    {
        let now: i64 = unix_time_now();
        AuthUser::from_header_at(config, header, now)
    }
}

} // verus!
