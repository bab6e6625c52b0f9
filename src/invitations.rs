//! The invitation lifecycle: an owner invites an existing user by email, and
//! the invitee accepts (becoming a member) or rejects. `Pending` is the only
//! state from which an invitation moves; `Accepted` and `Rejected` are final.

use vstd::prelude::*;

use crate::error::ApiError;
use crate::fresh::{new_record_id, now_rfc3339};
use crate::identity::AuthUser;
use crate::models::{
    BudgetInvitation, BudgetInvitationWithDetails, BudgetMember, InvitationStatus,
    InviteMemberRequest, Role, Budget, User, role_named,
};
use crate::store::{
    Store, StoreView, budget_id_is, find_budget, find_invitation, find_user_by_email,
    find_user_by_id, first_index, first_of, holds_role, in_budget, invitation_id_is, is_first,
    lemma_first_index_is, lemma_push_keeps_unique, member_id_taken, member_id_used, user_id_is,
};

verus! {

/// Some user has email `email`.
pub open spec fn email_registered(users: Seq<User>, email: Seq<char>) -> bool {
    exists|i: int| 0 <= i < users.len() && #[trigger] users[i].email@ == email
}

/// Some user has identifier `id` and email `email`.
pub open spec fn user_with(users: Seq<User>, id: Seq<char>, email: Seq<char>) -> bool {
    exists|i: int| 0 <= i < users.len() && #[trigger] users[i].id@ == id && users[i].email@ == email
}

/// A membership of budget `b` belongs to a user with email `email`.
pub open spec fn member_by_email(s: StoreView, b: Seq<char>, email: Seq<char>) -> bool {
    exists|j: int|
        0 <= j < s.members.len() && #[trigger] s.members[j].budget_id@ == b && user_with(
            s.users,
            s.members[j].user_id@,
            email,
        )
}

/// The role an invitation may carry: `admin` or `member`, never `owner`.
pub open spec fn invitable_role(name: Seq<char>) -> Option<Role> {
    match role_named(name) {
        Some(Role::Admin) => Some(Role::Admin),
        Some(Role::Member) => Some(Role::Member),
        _ => None,
    }
}

/// The outcome of inviting `req.email` into budget `b` on behalf of `caller`.
pub open spec fn invite_result(
    s: StoreView,
    caller: String,
    b: String,
    req: InviteMemberRequest,
    id: String,
    now: String,
) -> Result<BudgetInvitation, ApiError> {
    if !holds_role(s.members, b@, caller@, Role::Owner) {
        Err(ApiError::Forbidden)
    } else if !email_registered(s.users, req.email@) {
        Err(ApiError::NotFound)
    } else if member_by_email(s, b@, req.email@) {
        Err(ApiError::Conflict)
    } else {
        match invitable_role(req.role@) {
            None => Err(ApiError::BadRequest),
            Some(role) => if first_index(s.invitations, invitation_id_is(id@)) is Some {
                Err(ApiError::StorageFailure)
            } else {
                Ok(
                BudgetInvitation {
                    id,
                    budget_id: b,
                    inviter_id: caller,
                    invitee_email: req.email,
                    role,
                    status: InvitationStatus::Pending,
                    created_at: now,
                },
            )
            },
        }
    }
}

/// A pending invitation addressed to `email`, joined with its budget's and its
/// inviter's names.
pub open spec fn pending_row(
    inv: BudgetInvitation,
    budgets: Seq<Budget>,
    users: Seq<User>,
    email: Seq<char>,
) -> Option<BudgetInvitationWithDetails> {
    if inv.invitee_email@ == email && inv.status == InvitationStatus::Pending {
        match (first_of(budgets, budget_id_is(inv.budget_id@)), first_of(users, user_id_is(inv.inviter_id@))) {
            (Some(b), Some(u)) => Some(
                BudgetInvitationWithDetails {
                    id: inv.id,
                    budget_id: inv.budget_id,
                    budget_name: b.name,
                    inviter_id: inv.inviter_id,
                    inviter_name: u.name,
                    invitee_email: inv.invitee_email,
                    role: inv.role,
                    status: inv.status,
                    created_at: inv.created_at,
                },
            ),
            _ => None,
        }
    } else {
        None
    }
}

pub open spec fn pending_rows_of(budgets: Seq<Budget>, users: Seq<User>, email: Seq<char>) -> spec_fn(BudgetInvitation) -> Option<BudgetInvitationWithDetails> {
    |inv: BudgetInvitation| pending_row(inv, budgets, users, email)
}

/// The pending invitations addressed to the email of user `caller`; `NotFound`
/// where the caller has no account (a token may outlive its user).
pub open spec fn my_invitations_result(s: StoreView, caller: Seq<char>) -> Result<
    Seq<BudgetInvitationWithDetails>,
    ApiError,
> {
    match first_of(s.users, user_id_is(caller)) {
        None => Err(ApiError::NotFound),
        Some(u) => Ok(s.invitations.filter_map(pending_rows_of(s.budgets, s.users, u.email@))),
    }
}

/// The checks shared by accepting and rejecting: the invitation exists, is
/// pending, and is addressed to the caller's own email; a caller without an
/// account gets `NotFound`. Yields its position.
pub open spec fn settle_check(s: StoreView, caller: Seq<char>, inv_id: Seq<char>) -> Result<int, ApiError> {
    match first_index(s.invitations, invitation_id_is(inv_id)) {
        None => Err(ApiError::NotFound),
        Some(k) => if s.invitations[k].status != InvitationStatus::Pending {
            Err(ApiError::BadRequest)
        } else {
            match first_of(s.users, user_id_is(caller)) {
                None => Err(ApiError::NotFound),
                Some(u) => if u.email@ != s.invitations[k].invitee_email@ {
                    Err(ApiError::Forbidden)
                } else {
                    Ok(k)
                },
            }
        },
    }
}

pub open spec fn with_status(inv: BudgetInvitation, status: InvitationStatus) -> BudgetInvitation {
    BudgetInvitation { status, ..inv }
}

/// The outcome of accepting invitation `inv_id` as `caller`: the membership it
/// creates, under identifier `member_id` and creation time `now`.
pub open spec fn accept_result(s: StoreView, caller: String, inv_id: Seq<char>, member_id: String, now: String) -> Result<BudgetMember, ApiError> {
    match settle_check(s, caller@, inv_id) {
        Err(e) => Err(e),
        Ok(k) => if in_budget(s.members, s.invitations[k].budget_id@, caller@) {
            Err(ApiError::Conflict)
        } else if member_id_used(s.members, member_id@) {
            Err(ApiError::StorageFailure)
        } else {
            Ok(
                BudgetMember {
                    id: member_id,
                    budget_id: s.invitations[k].budget_id,
                    user_id: caller,
                    role: s.invitations[k].role,
                    created_at: now,
                },
            )
        },
    }
}

/// The store after accepting: the membership added and the invitation accepted,
/// both or neither.
pub open spec fn after_accept(s: StoreView, caller: String, inv_id: Seq<char>, member_id: String, now: String) -> StoreView {
    match (settle_check(s, caller@, inv_id), accept_result(s, caller, inv_id, member_id, now)) {
        (Ok(k), Ok(m)) => s.with_members(s.members.push(m)).with_invitations(
            s.invitations.update(k, with_status(s.invitations[k], InvitationStatus::Accepted)),
        ),
        _ => s,
    }
}

/// The outcome of rejecting invitation `inv_id` as `caller`.
pub open spec fn reject_result(s: StoreView, caller: Seq<char>, inv_id: Seq<char>) -> Result<(), ApiError> {
    match settle_check(s, caller, inv_id) {
        Err(e) => Err(e),
        Ok(_) => Ok(()),
    }
}

/// The store after rejecting: only the invitation's status changes.
pub open spec fn after_reject(s: StoreView, caller: Seq<char>, inv_id: Seq<char>) -> StoreView {
    match settle_check(s, caller, inv_id) {
        Ok(k) => s.with_invitations(
            s.invitations.update(k, with_status(s.invitations[k], InvitationStatus::Rejected)),
        ),
        Err(_) => s,
    }
}

/// Changing an invitation's status keeps every invitation where it was found.
pub proof fn lemma_status_change_keeps_position(s: Seq<BudgetInvitation>, inv_id: Seq<char>, k: int, status: InvitationStatus)
    requires
        first_index(s, invitation_id_is(inv_id)) == Some(k),
    ensures
        first_index(s.update(k, with_status(s[k], status)), invitation_id_is(inv_id)) == Some(k),
{
    let p = invitation_id_is(inv_id);
    assert(is_first(s, p, k)) by {
        assert(exists|i: int| is_first(s, p, i));
    }
    let t = s.update(k, with_status(s[k], status));
    assert forall|j: int| 0 <= j < k implies !p(#[trigger] t[j]) by {
        assert(t[j] == s[j]);
    }
    lemma_first_index_is(t, p, k);
}

/// Accepting a pending invitation addressed to the caller adds exactly one
/// membership for the caller in the invitation's budget, at the invitation's
/// role, and marks the invitation accepted; accepting or rejecting it again is
/// refused as `BadRequest`.
pub proof fn lemma_accept_settles_once(
    s: StoreView,
    caller: String,
    inv_id: Seq<char>,
    member_id: String,
    now: String,
    member_id2: String,
    now2: String,
)
    requires
        s.wf(),
        accept_result(s, caller, inv_id, member_id, now) is Ok,
    ensures
        ({
            let k: int = settle_check(s, caller@, inv_id)->Ok_0;
            let m = accept_result(s, caller, inv_id, member_id, now)->Ok_0;
            let s1 = after_accept(s, caller, inv_id, member_id, now);
            &&& s1.wf()
            &&& m.budget_id == s.invitations[k].budget_id
            &&& m.user_id == caller
            &&& m.role == s.invitations[k].role
            &&& s1.members == s.members.push(m)
            &&& forall|j: int|
                0 <= j < s1.members.len() && #[trigger] s1.members[j].budget_id@ == m.budget_id@
                    && s1.members[j].user_id@ == m.user_id@ ==> j == s.members.len()
            &&& s1.invitations[k].status == InvitationStatus::Accepted
            &&& accept_result(s1, caller, inv_id, member_id2, now2) == Err::<BudgetMember, ApiError>(
                ApiError::BadRequest,
            )
            &&& reject_result(s1, caller@, inv_id) == Err::<(), ApiError>(ApiError::BadRequest)
        }),
{
    let k: int = settle_check(s, caller@, inv_id)->Ok_0;
    let m = accept_result(s, caller, inv_id, member_id, now)->Ok_0;
    lemma_push_keeps_unique(s.members, m);
    let s1 = after_accept(s, caller, inv_id, member_id, now);
    assert(s1.members[s.members.len() as int] == m);
    lemma_status_change_keeps_position(s.invitations, inv_id, k, InvitationStatus::Accepted);
}

/// Rejecting a pending invitation addressed to the caller marks it rejected and
/// creates no membership; settling it again is refused as `BadRequest`.
pub proof fn lemma_reject_settles_once(
    s: StoreView,
    caller: String,
    inv_id: Seq<char>,
    member_id: String,
    now: String,
)
    requires
        reject_result(s, caller@, inv_id) is Ok,
    ensures
        ({
            let k: int = settle_check(s, caller@, inv_id)->Ok_0;
            let s1 = after_reject(s, caller@, inv_id);
            &&& s1.members == s.members
            &&& s1.invitations[k].status == InvitationStatus::Rejected
            &&& reject_result(s1, caller@, inv_id) == Err::<(), ApiError>(ApiError::BadRequest)
            &&& accept_result(s1, caller, inv_id, member_id, now) == Err::<BudgetMember, ApiError>(
                ApiError::BadRequest,
            )
        }),
{
    let k: int = settle_check(s, caller@, inv_id)->Ok_0;
    lemma_status_change_keeps_position(s.invitations, inv_id, k, InvitationStatus::Rejected);
}

/// Inviting is refused as `Forbidden` for a caller who does not own the budget;
/// for its owner, as `NotFound` where no user has the email, and as `Conflict`
/// where a member of the budget already has it.
pub proof fn lemma_invite_refusals(
    s: StoreView,
    caller: String,
    b: String,
    req: InviteMemberRequest,
    id: String,
    now: String,
)
    ensures
        !holds_role(s.members, b@, caller@, Role::Owner) ==> invite_result(s, caller, b, req, id, now)
            == Err::<BudgetInvitation, ApiError>(ApiError::Forbidden),
        holds_role(s.members, b@, caller@, Role::Owner) && !email_registered(s.users, req.email@)
            ==> invite_result(s, caller, b, req, id, now) == Err::<BudgetInvitation, ApiError>(
            ApiError::NotFound,
        ),
        holds_role(s.members, b@, caller@, Role::Owner) && member_by_email(s, b@, req.email@)
            ==> invite_result(s, caller, b, req, id, now) == Err::<BudgetInvitation, ApiError>(
            ApiError::Conflict,
        ),
{
    if member_by_email(s, b@, req.email@) {
        let j: int = choose|j: int|
            0 <= j < s.members.len() && #[trigger] s.members[j].budget_id@ == b@ && user_with(
                s.users,
                s.members[j].user_id@,
                req.email@,
            );
        let i: int = choose|i: int|
            0 <= i < s.users.len() && #[trigger] s.users[i].id@ == s.members[j].user_id@
                && s.users[i].email@ == req.email@;
        assert(s.users[i].email@ == req.email@);
    }
}

/// A pending invitation addressed to another email than the caller's cannot be
/// accepted or rejected by that caller: both are `Forbidden`, and nothing changes.
pub proof fn lemma_settle_by_other_forbidden(
    s: StoreView,
    caller: String,
    inv_id: Seq<char>,
    member_id: String,
    now: String,
)
    requires
        first_index(s.invitations, invitation_id_is(inv_id)) is Some,
        s.invitations[first_index(s.invitations, invitation_id_is(inv_id))->Some_0].status
            == InvitationStatus::Pending,
        first_of(s.users, user_id_is(caller@)) is Some,
        first_of(s.users, user_id_is(caller@))->Some_0.email@ != s.invitations[first_index(
            s.invitations,
            invitation_id_is(inv_id),
        )->Some_0].invitee_email@,
    ensures
        accept_result(s, caller, inv_id, member_id, now) == Err::<BudgetMember, ApiError>(
            ApiError::Forbidden,
        ),
        reject_result(s, caller@, inv_id) == Err::<(), ApiError>(ApiError::Forbidden),
        after_accept(s, caller, inv_id, member_id, now) == s,
        after_reject(s, caller@, inv_id) == s,
{
}

/// Whether some user has identifier `id` and email `email`.
fn user_has_email(users: &Vec<User>, id: &String, email: &String) -> (r: bool)
    ensures
        r == user_with(users@, id@, email@),
{
    let mut i: usize = 0;
    while i < users.len()
        invariant
            0 <= i <= users@.len(),
            forall|j: int|
                0 <= j < i ==> !(#[trigger] users@[j].id@ == id@ && users@[j].email@ == email@),
        decreases users@.len() - i,
    {
        if users[i].id == *id && users[i].email == *email {
            return true;
        }
        i += 1;
    }
    false
}

impl Store {
    /// Whether a membership of `budget_id` belongs to a user with email `email`.
    fn has_member_with_email(&self, budget_id: &String, email: &String) -> (r: bool)
        ensures
            r == member_by_email(self@, budget_id@, email@),
    {
        let mut j: usize = 0;
        while j < self.members.len()
            invariant
                0 <= j <= self.members@.len(),
                forall|k: int|
                    0 <= k < j ==> !(#[trigger] self@.members[k].budget_id@ == budget_id@
                        && user_with(self@.users, self@.members[k].user_id@, email@)),
            decreases self.members@.len() - j,
        {
            let m = &self.members[j];
            if m.budget_id == *budget_id && user_has_email(&self.users, &m.user_id, email) {
                return true;
            }
            j += 1;
        }
        false
    }

    /// Invites `req.email` into budget `budget_id` at `req.role` on behalf of
    /// `caller`, under identifier `id` and creation time `now`. The caller must
    /// own the budget (`Forbidden`), the email must belong to a user
    /// (`NotFound`) who is not a member yet (`Conflict`), and the role must be
    /// `admin` or `member` (`BadRequest`); the store refuses an identifier
    /// already in use (`StorageFailure`). Pending invitations to the same
    /// address may coexist.
    pub fn invite_member_with(
        &mut self,
        caller: &AuthUser,
        budget_id: &String,
        req: &InviteMemberRequest,
        id: String,
        now: String,
    ) -> (r: Result<BudgetInvitation, ApiError>)
        ensures
            r == invite_result(old(self)@, caller.user_id, *budget_id, *req, id, now),
            r matches Ok(inv) ==> final(self)@ == old(self)@.with_invitations(
                old(self)@.invitations.push(inv),
            ),
            r is Err ==> final(self)@ == old(self)@,
            final(self)@.members == old(self)@.members,
    {
        if !self.has_role(budget_id, &caller.user_id, Role::Owner) {
            return Err(ApiError::Forbidden);
        }
        if find_user_by_email(&self.users, &req.email).is_none() {
            return Err(ApiError::NotFound);
        }
        if self.has_member_with_email(budget_id, &req.email) {
            return Err(ApiError::Conflict);
        }
        let role = match Role::from_name(&req.role) {
            Some(Role::Admin) => Role::Admin,
            Some(Role::Member) => Role::Member,
            _ => {
                return Err(ApiError::BadRequest);
            },
        };
        if find_invitation(&self.invitations, &id).is_some() {
            return Err(ApiError::StorageFailure);
        }
        let inv = BudgetInvitation {
            id,
            budget_id: budget_id.clone(),
            inviter_id: caller.user_id.clone(),
            invitee_email: req.email.clone(),
            role,
            status: InvitationStatus::Pending,
            created_at: now,
        };
        let out = inv.clone();
        self.invitations.push(inv);
        Ok(out)
    }

    /// Invites `req.email` into budget `budget_id` on behalf of `caller`, with a
    /// fresh identifier, stamped now.
    pub fn invite_member(&mut self, caller: &AuthUser, budget_id: &String, req: &InviteMemberRequest) -> (r: Result<BudgetInvitation, ApiError>)
        ensures
            exists|id: String, now: String|
                r == invite_result(old(self)@, caller.user_id, *budget_id, *req, id, now),
            r matches Ok(inv) ==> final(self)@ == old(self)@.with_invitations(
                old(self)@.invitations.push(inv),
            ),
            r is Err ==> final(self)@ == old(self)@,
            final(self)@.members == old(self)@.members,
    {
        let id = new_record_id();
        let now = now_rfc3339();
        self.invite_member_with(caller, budget_id, req, id, now)
    }

    /// The pending invitations addressed to the caller's email, with budget and
    /// inviter names, in insertion order.
    pub fn get_my_invitations(&self, caller: &AuthUser) -> (r: Result<Vec<BudgetInvitationWithDetails>, ApiError>)
        ensures
            match my_invitations_result(self@, caller.user_id@) {
                Ok(rows) => r is Ok && r.unwrap()@ == rows,
                Err(e) => r == Err::<Vec<BudgetInvitationWithDetails>, ApiError>(e),
            },
    {
        let me: usize = match find_user_by_id(&self.users, &caller.user_id) {
            Some(k) => k,
            None => {
                return Err(ApiError::NotFound);
            },
        };
        let email = &self.users[me].email;
        let ghost f = pending_rows_of(self@.budgets, self@.users, email@);
        let mut rows: Vec<BudgetInvitationWithDetails> = Vec::new();
        let mut i: usize = 0;
        while i < self.invitations.len()
            invariant
                0 <= i <= self.invitations@.len(),
                f == pending_rows_of(self@.budgets, self@.users, email@),
                rows@ == self@.invitations.subrange(0, i as int).filter_map(f),
            decreases self.invitations@.len() - i,
        {
            let inv = &self.invitations[i];
            let ghost prev = rows@;
            if inv.invitee_email == *email && inv.status == InvitationStatus::Pending {
                match (find_budget(&self.budgets, &inv.budget_id), find_user_by_id(&self.users, &inv.inviter_id)) {
                    (Some(b), Some(u)) => {
                        rows.push(
                            BudgetInvitationWithDetails {
                                id: inv.id.clone(),
                                budget_id: inv.budget_id.clone(),
                                budget_name: self.budgets[b].name.clone(),
                                inviter_id: inv.inviter_id.clone(),
                                inviter_name: self.users[u].name.clone(),
                                invitee_email: inv.invitee_email.clone(),
                                role: inv.role,
                                status: inv.status,
                                created_at: inv.created_at.clone(),
                            },
                        );
                        proof {
                            assert(rows@ =~= prev + seq![f(*inv).unwrap()]);
                        }
                    },
                    _ => {},
                }
            }
            proof {
                let sub = self@.invitations.subrange(0, i + 1);
                assert(sub.drop_last() =~= self@.invitations.subrange(0, i as int));
                assert(sub.last() == *inv);
            }
            i += 1;
        }
        proof {
            assert(self@.invitations.subrange(0, self@.invitations.len() as int) =~= self@.invitations);
        }
        Ok(rows)
    }

    /// Runs the checks shared by accepting and rejecting, yielding the
    /// invitation's position.
    fn settle(&self, caller: &AuthUser, invitation_id: &String) -> (r: Result<usize, ApiError>)
        ensures
            match r {
                Ok(k) => settle_check(self@, caller.user_id@, invitation_id@) == Ok::<int, ApiError>(
                    k as int,
                ) && k < self@.invitations.len(),
                Err(e) => settle_check(self@, caller.user_id@, invitation_id@) == Err::<int, ApiError>(
                    e,
                ),
            },
    {
        let k: usize = match find_invitation(&self.invitations, invitation_id) {
            Some(k) => k,
            None => {
                return Err(ApiError::NotFound);
            },
        };
        match self.invitations[k].status {
            InvitationStatus::Pending => {},
            _ => {
                return Err(ApiError::BadRequest);
            },
        }
        let me: usize = match find_user_by_id(&self.users, &caller.user_id) {
            Some(u) => u,
            None => {
                return Err(ApiError::NotFound);
            },
        };
        if !(self.users[me].email == self.invitations[k].invitee_email) {
            return Err(ApiError::Forbidden);
        }
        Ok(k)
    }

    /// Accepts invitation `invitation_id` as `caller`, creating the membership
    /// under identifier `member_id` and creation time `now` and marking the
    /// invitation accepted, in one step. The invitation must exist
    /// (`NotFound`), be pending (`BadRequest`) and be addressed to the caller's
    /// own email (`Forbidden`); a caller who already is a member gets
    /// `Conflict`, and a membership identifier already in use `StorageFailure`.
    pub fn accept_invitation_with(
        &mut self,
        caller: &AuthUser,
        invitation_id: &String,
        member_id: String,
        now: String,
    ) -> (r: Result<BudgetMember, ApiError>)
        ensures
            r == accept_result(old(self)@, caller.user_id, invitation_id@, member_id, now),
            final(self)@ == after_accept(old(self)@, caller.user_id, invitation_id@, member_id, now),
            old(self)@.wf() ==> final(self)@.wf(),
    {
        let k: usize = match self.settle(caller, invitation_id) {
            Ok(k) => k,
            Err(e) => {
                return Err(e);
            },
        };
        let budget_id = self.invitations[k].budget_id.clone();
        if self.is_member(&budget_id, &caller.user_id) {
            return Err(ApiError::Conflict);
        }
        if member_id_taken(&self.members, &member_id) {
            return Err(ApiError::StorageFailure);
        }
        let m = BudgetMember {
            id: member_id,
            budget_id,
            user_id: caller.user_id.clone(),
            role: self.invitations[k].role,
            created_at: now,
        };
        let out = m.clone();
        proof {
            if old(self)@.wf() {
                lemma_push_keeps_unique(old(self)@.members, m);
            }
        }
        self.members.push(m);
        self.invitations[k].status = InvitationStatus::Accepted;
        proof {
            assert(final(self)@.invitations =~= old(self)@.invitations.update(
                k as int,
                with_status(old(self)@.invitations[k as int], InvitationStatus::Accepted),
            ));
        }
        Ok(out)
    }

    /// Accepts invitation `invitation_id` as `caller`, with a fresh membership
    /// identifier, stamped now.
    pub fn accept_invitation(&mut self, caller: &AuthUser, invitation_id: &String) -> (r: Result<BudgetMember, ApiError>)
        ensures
            exists|member_id: String, now: String|
                r == accept_result(old(self)@, caller.user_id, invitation_id@, member_id, now)
                    && final(self)@ == after_accept(
                    old(self)@,
                    caller.user_id,
                    invitation_id@,
                    member_id,
                    now,
                ),
            old(self)@.wf() ==> final(self)@.wf(),
    {
        let member_id = new_record_id();
        let now = now_rfc3339();
        self.accept_invitation_with(caller, invitation_id, member_id, now)
    }

    /// Rejects invitation `invitation_id` as `caller`: the same checks as
    /// accepting, and no membership is created.
    pub fn reject_invitation(&mut self, caller: &AuthUser, invitation_id: &String) -> (r: Result<(), ApiError>)
        ensures
            r == reject_result(old(self)@, caller.user_id@, invitation_id@),
            final(self)@ == after_reject(old(self)@, caller.user_id@, invitation_id@),
            final(self)@.members == old(self)@.members,
    {
        let k: usize = match self.settle(caller, invitation_id) {
            Ok(k) => k,
            Err(e) => {
                return Err(e);
            },
        };
        self.invitations[k].status = InvitationStatus::Rejected;
        proof {
            assert(final(self)@.invitations =~= old(self)@.invitations.update(
                k as int,
                with_status(old(self)@.invitations[k as int], InvitationStatus::Rejected),
            ));
        }
        Ok(())
    }
}

} // verus!
