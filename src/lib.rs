//! Access control for a shared-budget service: signed identity tokens,
//! bearer-credential extraction, role-based membership checks and the
//! invitation lifecycle that admits new members into a group budget.

pub mod accounts;
pub mod error;
mod fresh;
pub mod identity;
pub mod invitations;
pub mod membership;
pub mod models;
pub mod store;
pub mod token;

pub use error::ApiError;
pub use identity::AuthUser;
pub use models::{BudgetType, InvitationStatus, Role};
pub use store::Store;
pub use token::{Claims, TokenConfig, TokenError};
