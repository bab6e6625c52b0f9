//! The records of the service and the closed vocabularies they use.

use vstd::prelude::*;
use vstd::string::StringExecFns;

verus! {

/// The role a member holds in a group budget. Roles are compared exactly:
/// no role implies another.
#[derive(Debug, Clone, Copy, PartialEq, Eq, Structural)]
pub enum Role {
    Owner,
    Admin,
    Member,
}

pub open spec fn role_name(r: Role) -> Seq<char> {
    match r {
        Role::Owner => "owner"@,
        Role::Admin => "admin"@,
        Role::Member => "member"@,
    }
}

pub open spec fn role_named(s: Seq<char>) -> Option<Role> {
    if s == "owner"@ {
        Some(Role::Owner)
    } else if s == "admin"@ {
        Some(Role::Admin)
    } else if s == "member"@ {
        Some(Role::Member)
    } else {
        None
    }
}

impl Role {
    /// The stored name of the role: `owner`, `admin` or `member`.
    pub fn name(&self) -> (r: String)
        ensures
            r@ == role_name(*self),
    {
        match self {
            Role::Owner => String::from_str("owner"),
            Role::Admin => String::from_str("admin"),
            Role::Member => String::from_str("member"),
        }
    }

    /// The role with the given stored name, if there is one.
    pub fn from_name(s: &String) -> (r: Option<Role>)
        ensures
            r == role_named(s@),
    {
        if *s == String::from_str("owner") {
            Some(Role::Owner)
        } else if *s == String::from_str("admin") {
            Some(Role::Admin)
        } else if *s == String::from_str("member") {
            Some(Role::Member)
        } else {
            None
        }
    }
}

/// The state of an invitation. `Accepted` and `Rejected` are terminal.
#[derive(Debug, Clone, Copy, PartialEq, Eq, Structural)]
pub enum InvitationStatus {
    Pending,
    Accepted,
    Rejected,
}

pub open spec fn status_name(s: InvitationStatus) -> Seq<char> {
    match s {
        InvitationStatus::Pending => "pending"@,
        InvitationStatus::Accepted => "accepted"@,
        InvitationStatus::Rejected => "rejected"@,
    }
}

pub open spec fn status_named(s: Seq<char>) -> Option<InvitationStatus> {
    if s == "pending"@ {
        Some(InvitationStatus::Pending)
    } else if s == "accepted"@ {
        Some(InvitationStatus::Accepted)
    } else if s == "rejected"@ {
        Some(InvitationStatus::Rejected)
    } else {
        None
    }
}

impl InvitationStatus {
    /// The stored name of the status: `pending`, `accepted` or `rejected`.
    pub fn name(&self) -> (r: String)
        ensures
            r@ == status_name(*self),
    {
        match self {
            InvitationStatus::Pending => String::from_str("pending"),
            InvitationStatus::Accepted => String::from_str("accepted"),
            InvitationStatus::Rejected => String::from_str("rejected"),
        }
    }

    /// The status with the given stored name, if there is one.
    pub fn from_name(s: &String) -> (r: Option<InvitationStatus>)
        ensures
            r == status_named(s@),
    {
        if *s == String::from_str("pending") {
            Some(InvitationStatus::Pending)
        } else if *s == String::from_str("accepted") {
            Some(InvitationStatus::Accepted)
        } else if *s == String::from_str("rejected") {
            Some(InvitationStatus::Rejected)
        } else {
            None
        }
    }
}

/// Whether a budget is shared through memberships or belongs to its creator alone.
#[derive(Debug, Clone, Copy, PartialEq, Eq, Structural)]
pub enum BudgetType {
    Personal,
    Group,
}

pub open spec fn budget_type_named(s: Seq<char>) -> Option<BudgetType> {
    if s == "personal"@ {
        Some(BudgetType::Personal)
    } else if s == "group"@ {
        Some(BudgetType::Group)
    } else {
        None
    }
}

impl BudgetType {
    /// The stored name of the type: `personal` or `group`.
    pub fn name(&self) -> (r: String)
        ensures
            r@ == (match *self {
                BudgetType::Personal => "personal"@,
                BudgetType::Group => "group"@,
            }),
    {
        match self {
            BudgetType::Personal => String::from_str("personal"),
            BudgetType::Group => String::from_str("group"),
        }
    }

    /// The budget type with the given stored name, if there is one.
    pub fn from_name(s: &String) -> (r: Option<BudgetType>)
        ensures
            r == budget_type_named(s@),
    {
        if *s == String::from_str("personal") {
            Some(BudgetType::Personal)
        } else if *s == String::from_str("group") {
            Some(BudgetType::Group)
        } else {
            None
        }
    }
}

/// A copy of an optional text field.
pub fn copy_text(o: &Option<String>) -> (r: Option<String>)
    ensures
        r == *o,
{
    match o {
        Some(t) => Some(t.clone()),
        None => None,
    }
}

/// A user account. The core reads only `id` and `email`.
#[derive(Debug)]
pub struct User {
    pub id: String,
    /// Unique among users.
    pub email: String,
    pub name: String,
    pub password_hash: String,
    pub avatar: Option<String>,
    pub phone: Option<String>,
    pub created_at: String,
    pub updated_at: String,
}

impl Clone for User {
    fn clone(&self) -> (r: Self)
        ensures
            r == *self,
    {
        User {
            id: self.id.clone(),
            email: self.email.clone(),
            name: self.name.clone(),
            password_hash: self.password_hash.clone(),
            avatar: copy_text(&self.avatar),
            phone: copy_text(&self.phone),
            created_at: self.created_at.clone(),
            updated_at: self.updated_at.clone(),
        }
    }
}

/// A budget. A personal budget is authorized through `user_id`, its creator;
/// a group budget through its membership records.
#[derive(Debug)]
pub struct Budget {
    pub id: String,
    pub user_id: String,
    pub name: String,
    pub budget_type: BudgetType,
    /// Stored as 0 (inactive) or 1 (active).
    pub is_active: i32,
    pub created_at: String,
    pub updated_at: String,
}

impl Clone for Budget {
    fn clone(&self) -> (r: Self)
        ensures
            r == *self,
    {
        Budget {
            id: self.id.clone(),
            user_id: self.user_id.clone(),
            name: self.name.clone(),
            budget_type: self.budget_type,
            is_active: self.is_active,
            created_at: self.created_at.clone(),
            updated_at: self.updated_at.clone(),
        }
    }
}

/// The request to create a budget.
#[derive(Debug)]
pub struct CreateBudget {
    pub name: String,
    pub budget_type: BudgetType,
}

/// The request to change a budget; absent fields stay as they are.
#[derive(Debug)]
pub struct UpdateBudget {
    pub name: Option<String>,
    pub is_active: Option<i32>,
}

/// A role-bearing relationship between a user and a group budget.
#[derive(Debug)]
pub struct BudgetMember {
    pub id: String,
    pub budget_id: String,
    pub user_id: String,
    pub role: Role,
    pub created_at: String,
}

impl Clone for BudgetMember {
    fn clone(&self) -> (r: Self)
        ensures
            r == *self,
    {
        BudgetMember {
            id: self.id.clone(),
            budget_id: self.budget_id.clone(),
            user_id: self.user_id.clone(),
            role: self.role,
            created_at: self.created_at.clone(),
        }
    }
}

/// The request to invite a user, named by email, into a budget.
#[derive(Debug)]
pub struct InviteMemberRequest {
    pub email: String,
    /// `admin` or `member`; `owner` is never assignable by invitation.
    pub role: String,
}

/// A membership joined with the member's profile, for presentation.
#[derive(Debug)]
pub struct BudgetMemberWithUser {
    pub id: String,
    pub budget_id: String,
    pub user_id: String,
    pub role: Role,
    pub created_at: String,
    pub user_name: String,
    pub user_email: String,
    pub user_avatar: Option<String>,
}

/// A saved template of categories owned by a user.
#[derive(Debug)]
pub struct BudgetProfile {
    pub id: String,
    pub user_id: String,
    pub name: String,
    pub created_at: String,
}

/// An offer of membership at a role, settled by the invitee.
#[derive(Debug)]
pub struct BudgetInvitation {
    pub id: String,
    pub budget_id: String,
    pub inviter_id: String,
    pub invitee_email: String,
    pub role: Role,
    pub status: InvitationStatus,
    pub created_at: String,
}

impl Clone for BudgetInvitation {
    fn clone(&self) -> (r: Self)
        ensures
            r == *self,
    {
        BudgetInvitation {
            id: self.id.clone(),
            budget_id: self.budget_id.clone(),
            inviter_id: self.inviter_id.clone(),
            invitee_email: self.invitee_email.clone(),
            role: self.role,
            status: self.status,
            created_at: self.created_at.clone(),
        }
    }
}

/// An invitation joined with the budget's and the inviter's names, for display.
#[derive(Debug)]
pub struct BudgetInvitationWithDetails {
    pub id: String,
    pub budget_id: String,
    pub budget_name: String,
    pub inviter_id: String,
    pub inviter_name: String,
    pub invitee_email: String,
    pub role: Role,
    pub status: InvitationStatus,
    pub created_at: String,
}

/// The request to register an account.
#[derive(Debug)]
pub struct CreateUser {
    pub email: String,
    pub name: String,
    pub password: String,
}

/// The request to log in.
#[derive(Debug)]
pub struct LoginRequest {
    pub email: String,
    pub password: String,
}

/// A freshly issued token with the account it was issued for.
#[derive(Debug)]
pub struct AuthResponse {
    pub token: String,
    pub user: User,
}

} // verus!
