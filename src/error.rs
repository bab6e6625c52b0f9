use vstd::prelude::*;

verus! {

/// The coarse outcome classes that every failure of the core collapses into.
#[derive(Debug, Clone, Copy, PartialEq, Eq, Structural)]
pub enum ApiError {
    /// Missing, malformed, badly signed or expired credential.
    Unauthenticated,
    /// Authenticated, but lacking the required role, ownership or identity.
    Forbidden,
    /// A referenced budget, invitation or user does not exist.
    NotFound,
    /// The invitee is already a member of the budget.
    Conflict,
    /// An invalid state transition or request, such as acting on a settled invitation.
    BadRequest,
    /// The underlying store refused or failed an operation.
    StorageFailure,
}

pub open spec fn status_code_of(e: ApiError) -> u16 {
    match e {
        ApiError::Unauthenticated => 401,
        ApiError::Forbidden => 403,
        ApiError::NotFound => 404,
        ApiError::Conflict => 409,
        ApiError::BadRequest => 400,
        ApiError::StorageFailure => 500,
    }
}

impl ApiError {
    /// The HTTP status code under which this error is reported.
    pub fn status_code(&self) -> (r: u16)
        ensures
            r == status_code_of(*self),
    {
        match self {
            ApiError::Unauthenticated => 401,
            ApiError::Forbidden => 403,
            ApiError::NotFound => 404,
            ApiError::Conflict => 409,
            ApiError::BadRequest => 400,
            ApiError::StorageFailure => 500,
        }
    }
}

} // verus!
