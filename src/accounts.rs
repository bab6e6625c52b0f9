//! Registration and login: the two places where identity tokens are issued.

use vstd::prelude::*;

use crate::error::ApiError;
use crate::fresh::{new_record_id, now_rfc3339};
use crate::models::{AuthResponse, CreateUser, LoginRequest, User};
use crate::store::{
    Store, StoreView, find_user_by_email, find_user_by_id, first_index, first_of, user_email_is,
    user_id_is,
};
use crate::identity::has_prefix;
use crate::token::{TokenConfig, issue_token_at, issued_for, token_expiry, unix_time_now};

verus! {

/// Whether a password matches a stored hash; `None` where the hash is not a
/// well-formed bcrypt hash.
pub uninterp spec fn bcrypt_verdict(password: Seq<char>, hash: Seq<char>) -> Option<bool>;

/// Relies on bcrypt::hash at bcrypt::DEFAULT_COST (12): a salted hash of the
/// password, formatted as `$2b$12$`, the 22-character salt and the 31-character
/// digest. The salt is random, so nothing more is stated of the result; it is
/// absent only where the random source fails.
#[verifier::external_body]
fn hash_password(password: &str) -> (r: Option<String>)
    ensures
        r is Some ==> bcrypt_shaped(r.unwrap()@),
{
    bcrypt::hash(password, bcrypt::DEFAULT_COST).ok()
}

/// Relies on bcrypt::verify: whether `password` hashes to `hash` under the cost
/// and salt that `hash` records, or an error where `hash` is malformed. The
/// outcome depends on the two arguments alone.
#[verifier::external_body]
fn check_password(password: &str, hash: &str) -> (r: Option<bool>)
    ensures
        r == bcrypt_verdict(password@, hash@),
{
    bcrypt::verify(password, hash).ok()
}

/// The account record that registering `req` yields.
pub open spec fn user_record(req: CreateUser, id: String, password_hash: String, now: String) -> User {
    User {
        id,
        email: req.email,
        name: req.name,
        password_hash,
        avatar: None,
        phone: None,
        created_at: now,
        updated_at: now,
    }
}

/// The outcome of registering `req`: the store refuses an email or an
/// identifier already in use.
pub open spec fn register_result(s: StoreView, req: CreateUser, id: String, password_hash: String, now: String) -> Result<User, ApiError> {
    if first_index(s.users, user_email_is(req.email@)) is Some || first_index(
        s.users,
        user_id_is(id@),
    ) is Some {
        Err(ApiError::StorageFailure)
    } else {
        Ok(user_record(req, id, password_hash, now))
    }
}

/// The account that the credentials of `req` log into, before a token is issued.
pub open spec fn login_check(s: StoreView, req: LoginRequest) -> Result<User, ApiError> {
    match first_of(s.users, user_email_is(req.email@)) {
        None => Err(ApiError::Unauthenticated),
        Some(u) => match bcrypt_verdict(req.password@, u.password_hash@) {
            None => Err(ApiError::StorageFailure),
            Some(false) => Err(ApiError::Unauthenticated),
            Some(true) => Ok(u),
        },
    }
}

/// `r` is what logging in with `req` at instant `now` may yield: the outcome of
/// the credential check, with a token issued at `now` for the account on success.
pub open spec fn login_outcome(
    s: StoreView,
    secret: Seq<char>,
    req: LoginRequest,
    now: i64,
    r: Result<AuthResponse, ApiError>,
) -> bool {
    match login_check(s, req) {
        Err(e) => r == Err::<AuthResponse, ApiError>(e),
        Ok(u) => match r {
            Ok(resp) => resp.user == u && issued_for(secret, u.id@, now, resp.token@),
            Err(e) => e == ApiError::StorageFailure && token_expiry(now) is None,
        },
    }
}

/// The store after registering `req`: the account added where it was accepted.
pub open spec fn after_register(s: StoreView, req: CreateUser, id: String, password_hash: String, now: String) -> StoreView {
    match register_result(s, req, id, password_hash, now) {
        Ok(u) => s.with_users(s.users.push(u)),
        Err(_) => s,
    }
}

/// `r` is what registering `req` yields under identifier `id`, hash
/// `password_hash`, creation time `now` and token issuance at `issued_at`: the
/// refusal of the store, or the new account with a token issued for it, where
/// the token's expiry is a valid timestamp.
pub open spec fn register_outcome(
    s: StoreView,
    secret: Seq<char>,
    req: CreateUser,
    id: String,
    password_hash: String,
    now: String,
    issued_at: i64,
    r: Result<AuthResponse, ApiError>,
) -> bool {
    match register_result(s, req, id, password_hash, now) {
        Err(e) => r == Err::<AuthResponse, ApiError>(e),
        Ok(u) => match r {
            Ok(resp) => resp.user == u && issued_for(secret, u.id@, issued_at, resp.token@),
            Err(e) => e == ApiError::StorageFailure && token_expiry(issued_at) is None,
        },
    }
}

/// The form of a bcrypt hash at the default cost: `$2b$12$` followed by the
/// encoded salt and digest, 60 characters in all.
pub open spec fn bcrypt_shaped(h: Seq<char>) -> bool {
    h.len() == 60 && has_prefix(h, "$2b$12$"@)
}

impl Store {
    /// Adds the account of `req` under identifier `id`, with the stored hash
    /// `password_hash` and creation time `now`.
    pub fn register_with(&mut self, req: &CreateUser, id: String, password_hash: String, now: String) -> (r: Result<User, ApiError>)
        ensures
            r == register_result(old(self)@, *req, id, password_hash, now),
            r matches Ok(u) ==> final(self)@ == old(self)@.with_users(old(self)@.users.push(u)),
            r is Err ==> final(self)@ == old(self)@,
    {
        if find_user_by_email(&self.users, &req.email).is_some() || find_user_by_id(
            &self.users,
            &id,
        ).is_some() {
            return Err(ApiError::StorageFailure);
        }
        let user = User {
            id,
            email: req.email.clone(),
            name: req.name.clone(),
            password_hash,
            avatar: None,
            phone: None,
            created_at: now.clone(),
            updated_at: now,
        };
        let out = user.clone();
        self.users.push(user);
        Ok(out)
    }

    /// Adds the account of `req` under identifier `id`, with the stored hash
    /// `password_hash` and creation time `now`, and issues it a token at instant
    /// `issued_at`.
    pub fn register_at(
        &mut self,
        config: &TokenConfig,
        req: &CreateUser,
        id: String,
        password_hash: String,
        now: String,
        issued_at: i64,
    ) -> (r: Result<AuthResponse, ApiError>)
        ensures
            register_outcome(old(self)@, config.secret@, *req, id, password_hash, now, issued_at, r),
            final(self)@ == after_register(old(self)@, *req, id, password_hash, now),
    {
        let user = match self.register_with(req, id, password_hash, now) {
            Ok(u) => u,
            Err(e) => {
                return Err(e);
            },
        };
        match issue_token_at(config, user.id.as_str(), issued_at) {
            Ok(token) => Ok(AuthResponse { token, user }),
            Err(_) => Err(ApiError::StorageFailure),
        }
    }

    /// Registers an account for `req` and issues it a token. Any failure of the
    /// store, of hashing or of signing is a `StorageFailure`. Either nothing
    /// changes and an error is returned, or the account is added exactly as
    /// `register_at` does for some fresh identifier, a bcrypt hash of the
    /// password, and the current time.
    pub fn register(&mut self, config: &TokenConfig, req: &CreateUser) -> (r: Result<AuthResponse, ApiError>)
        ensures
            r matches Err(e) ==> e == ApiError::StorageFailure,
            first_index(old(self)@.users, user_email_is(req.email@)) is Some ==> r is Err
                && final(self)@ == old(self)@,
            (r is Err && final(self)@ == old(self)@) || exists|
                id: String,
                hash: String,
                now: String,
                issued_at: i64,
            |
                bcrypt_shaped(hash@) && #[trigger] register_outcome(
                    old(self)@,
                    config.secret@,
                    *req,
                    id,
                    hash,
                    now,
                    issued_at,
                    r,
                ) && final(self)@ == after_register(old(self)@, *req, id, hash, now),
    {
        if find_user_by_email(&self.users, &req.email).is_some() {
            return Err(ApiError::StorageFailure);
        }
        let hash = match hash_password(req.password.as_str()) {
            Some(h) => h,
            None => {
                return Err(ApiError::StorageFailure);
            },
        };
        let id = new_record_id();
        let now = now_rfc3339();
        let issued_at: i64 = unix_time_now();
        self.register_at(config, req, id, hash, now, issued_at)
    }

    /// Logs in with the credentials of `req` at instant `now`: an unknown email
    /// or a wrong password is `Unauthenticated`.
    pub fn login_at(&self, config: &TokenConfig, req: &LoginRequest, now: i64) -> (r: Result<AuthResponse, ApiError>)
        ensures
            login_outcome(self@, config.secret@, *req, now, r),
    {
        let k: usize = match find_user_by_email(&self.users, &req.email) {
            Some(k) => k,
            None => {
                return Err(ApiError::Unauthenticated);
            },
        };
        let user = &self.users[k];
        match check_password(req.password.as_str(), user.password_hash.as_str()) {
            None => Err(ApiError::StorageFailure),
            Some(false) => Err(ApiError::Unauthenticated),
            Some(true) => match issue_token_at(config, user.id.as_str(), now) {
                Ok(token) => Ok(AuthResponse { token, user: user.clone() }),
                Err(_) => Err(ApiError::StorageFailure),
            },
        }
    }

    /// Logs in with the credentials of `req` now.
    pub fn login(&self, config: &TokenConfig, req: &LoginRequest) -> (r: Result<AuthResponse, ApiError>)
        ensures
            exists|now: i64| #[trigger] login_outcome(self@, config.secret@, *req, now, r),
    {
        let now: i64 = unix_time_now();
        self.login_at(config, req, now)
    }
}

} // verus!
