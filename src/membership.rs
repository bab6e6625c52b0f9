//! The membership authority: who may act on a budget, and the budget and
//! membership records that decide it.

use vstd::prelude::*;

use crate::error::ApiError;
use crate::fresh::{new_record_id, now_rfc3339};
use crate::identity::AuthUser;
use crate::models::{Budget, BudgetInvitation, BudgetMember, BudgetMemberWithUser, BudgetType, CreateBudget, Role, User, copy_text};
use crate::store::{
    Store, StoreView, budget_id_is, find_budget, find_user_by_id, first_of, holds_role, in_budget,
    lemma_filter_keeps_unique, lemma_push_keeps_unique, member_id_taken, member_id_used,
    user_id_is,
};

verus! {

/// The membership that makes `u` the owner of budget `b`.
pub open spec fn owner_record(b: String, u: String, id: String, now: String) -> BudgetMember {
    BudgetMember { id, budget_id: b, user_id: u, role: Role::Owner, created_at: now }
}

/// The outcome of making `u` the owner of budget `b`: refused where `u` already
/// holds a membership of `b`.
pub open spec fn add_owner_result(s: StoreView, b: String, u: String, id: String, now: String) -> Result<BudgetMember, ApiError> {
    if in_budget(s.members, b@, u@) {
        Err(ApiError::Conflict)
    } else if member_id_used(s.members, id@) {
        Err(ApiError::StorageFailure)
    } else {
        Ok(owner_record(b, u, id, now))
    }
}

/// The budget record that creating `req` for `owner` yields.
pub open spec fn budget_record(id: String, owner: String, req: CreateBudget, now: String) -> Budget {
    Budget {
        id,
        user_id: owner,
        name: req.name,
        budget_type: req.budget_type,
        is_active: 0,
        created_at: now,
        updated_at: now,
    }
}

/// No budget and no membership uses the identifier `id` yet.
pub open spec fn budget_id_fresh(s: StoreView, id: Seq<char>) -> bool {
    &&& forall|i: int| 0 <= i < s.budgets.len() ==> (#[trigger] s.budgets[i]).id@ != id
    &&& forall|i: int| 0 <= i < s.members.len() ==> (#[trigger] s.members[i]).budget_id@ != id
}

/// The identifiers of a new budget, and of its owner's membership where it is a
/// group budget, are not in use.
pub open spec fn create_ids_fresh(s: StoreView, req: CreateBudget, id: Seq<char>, member_id: Seq<char>) -> bool {
    &&& budget_id_fresh(s, id)
    &&& req.budget_type == BudgetType::Group ==> !member_id_used(s.members, member_id)
}

/// The outcome of creating a budget: the store refuses an identifier in use.
pub open spec fn create_budget_result(
    s: StoreView,
    owner: String,
    req: CreateBudget,
    id: String,
    member_id: String,
    now: String,
) -> Result<Budget, ApiError> {
    if create_ids_fresh(s, req, id@, member_id@) {
        Ok(budget_record(id, owner, req, now))
    } else {
        Err(ApiError::StorageFailure)
    }
}

/// The store after creating a budget: a group budget gets its creator as owner.
pub open spec fn after_create_budget(
    s: StoreView,
    owner: String,
    req: CreateBudget,
    id: String,
    member_id: String,
    now: String,
) -> StoreView {
    if !create_ids_fresh(s, req, id@, member_id@) {
        s
    } else if req.budget_type == BudgetType::Group {
        s.with_budgets(s.budgets.push(budget_record(id, owner, req, now))).with_members(
            s.members.push(owner_record(id, owner, member_id, now)),
        )
    } else {
        s.with_budgets(s.budgets.push(budget_record(id, owner, req, now)))
    }
}

pub open spec fn owned_by(u: Seq<char>) -> spec_fn(Budget) -> bool {
    |b: Budget| b.user_id@ == u
}

pub open spec fn not_budget(id: Seq<char>) -> spec_fn(Budget) -> bool {
    |b: Budget| b.id@ != id
}

pub open spec fn member_not_in(b: Seq<char>) -> spec_fn(BudgetMember) -> bool {
    |m: BudgetMember| m.budget_id@ != b
}

pub open spec fn member_kept(b: Seq<char>, id: Seq<char>) -> spec_fn(BudgetMember) -> bool {
    |m: BudgetMember| !(m.id@ == id && m.budget_id@ == b)
}

/// `u` may delete budget `b`: as its owner, or as the creator of a personal
/// budget.
pub open spec fn may_delete(s: StoreView, b: Seq<char>, u: Seq<char>) -> bool {
    holds_role(s.members, b, u, Role::Owner) || exists|i: int|
        0 <= i < s.budgets.len() && #[trigger] s.budgets[i].id@ == b && s.budgets[i].user_id@ == u
            && s.budgets[i].budget_type == BudgetType::Personal
}

/// A membership of budget `b` joined with the first user it names.
pub open spec fn member_row(m: BudgetMember, users: Seq<User>, b: Seq<char>) -> Option<BudgetMemberWithUser> {
    if m.budget_id@ != b {
        None
    } else {
        match first_of(users, user_id_is(m.user_id@)) {
            Some(u) => Some(
                BudgetMemberWithUser {
                    id: m.id,
                    budget_id: m.budget_id,
                    user_id: m.user_id,
                    role: m.role,
                    created_at: m.created_at,
                    user_name: u.name,
                    user_email: u.email,
                    user_avatar: u.avatar,
                },
            ),
            None => None,
        }
    }
}

pub open spec fn member_rows_of(users: Seq<User>, b: Seq<char>) -> spec_fn(BudgetMember) -> Option<BudgetMemberWithUser> {
    |m: BudgetMember| member_row(m, users, b)
}

pub open spec fn invitation_not_in(b: Seq<char>) -> spec_fn(BudgetInvitation) -> bool {
    |i: BudgetInvitation| i.budget_id@ != b
}

/// The store after deleting budget `b`, with its memberships and invitations.
pub open spec fn after_delete_budget(s: StoreView, b: Seq<char>) -> StoreView {
    s.with_budgets(s.budgets.filter(not_budget(b))).with_members(
        s.members.filter(member_not_in(b)),
    ).with_invitations(s.invitations.filter(invitation_not_in(b)))
}

/// In a well-formed store, a user who owns a budget holds no other role in it:
/// roles match exactly, and no role implies another.
pub proof fn lemma_owner_holds_only_owner(s: StoreView, b: Seq<char>, o: Seq<char>, r: Role)
    requires
        s.wf(),
        holds_role(s.members, b, o, Role::Owner),
        r != Role::Owner,
    ensures
        !holds_role(s.members, b, o, r),
{
    let i: int = choose|i: int|
        0 <= i < s.members.len() && #[trigger] s.members[i].budget_id@ == b && s.members[i].user_id@
            == o && s.members[i].role == Role::Owner;
    if holds_role(s.members, b, o, r) {
        let j: int = choose|j: int|
            0 <= j < s.members.len() && #[trigger] s.members[j].budget_id@ == b
                && s.members[j].user_id@ == o && s.members[j].role == r;
        assert(s.members[i].budget_id@ == s.members[j].budget_id@);
    }
}

/// Creating a group budget makes its creator a member whose role is exactly
/// owner, and keeps the store well formed.
pub proof fn lemma_group_budget_owned_by_creator(
    s: StoreView,
    owner: String,
    req: CreateBudget,
    id: String,
    member_id: String,
    now: String,
    r: Role,
)
    requires
        s.wf(),
        req.budget_type == BudgetType::Group,
        create_budget_result(s, owner, req, id, member_id, now) is Ok,
    ensures
        after_create_budget(s, owner, req, id, member_id, now).wf(),
        holds_role(after_create_budget(s, owner, req, id, member_id, now).members, id@, owner@, Role::Owner),
        r != Role::Owner ==> !holds_role(
            after_create_budget(s, owner, req, id, member_id, now).members,
            id@,
            owner@,
            r,
        ),
{
    let s2 = after_create_budget(s, owner, req, id, member_id, now);
    let m = owner_record(id, owner, member_id, now);
    lemma_push_keeps_unique(s.members, m);
    let n: int = s.members.len() as int;
    assert(s2.members[n] == m);
    assert(s2.members[n].budget_id@ == id@ && s2.members[n].user_id@ == owner@);
    if r != Role::Owner {
        lemma_owner_holds_only_owner(s2, id@, owner@, r);
    }
}

fn budgets_where_owner(budgets: &Vec<Budget>, user_id: &String) -> (r: Vec<Budget>)
    ensures
        r@ == budgets@.filter(owned_by(user_id@)),
{
    let mut out: Vec<Budget> = Vec::new();
    let mut i: usize = 0;
    while i < budgets.len()
        invariant
            0 <= i <= budgets@.len(),
            out@ == budgets@.subrange(0, i as int).filter(owned_by(user_id@)),
        decreases budgets@.len() - i,
    {
        if budgets[i].user_id == *user_id {
            out.push(budgets[i].clone());
        }
        proof {
            reveal(Seq::filter);
            assert(budgets@.subrange(0, i + 1).drop_last() =~= budgets@.subrange(0, i as int));
        }
        i += 1;
    }
    proof {
        assert(budgets@.subrange(0, budgets@.len() as int) =~= budgets@);
    }
    out
}

fn budgets_except(budgets: &Vec<Budget>, id: &String) -> (r: Vec<Budget>)
    ensures
        r@ == budgets@.filter(not_budget(id@)),
{
    let mut out: Vec<Budget> = Vec::new();
    let mut i: usize = 0;
    while i < budgets.len()
        invariant
            0 <= i <= budgets@.len(),
            out@ == budgets@.subrange(0, i as int).filter(not_budget(id@)),
        decreases budgets@.len() - i,
    {
        if !(budgets[i].id == *id) {
            out.push(budgets[i].clone());
        }
        proof {
            reveal(Seq::filter);
            assert(budgets@.subrange(0, i + 1).drop_last() =~= budgets@.subrange(0, i as int));
        }
        i += 1;
    }
    proof {
        assert(budgets@.subrange(0, budgets@.len() as int) =~= budgets@);
    }
    out
}

fn members_outside(members: &Vec<BudgetMember>, budget_id: &String) -> (r: Vec<BudgetMember>)
    ensures
        r@ == members@.filter(member_not_in(budget_id@)),
{
    let mut out: Vec<BudgetMember> = Vec::new();
    let mut i: usize = 0;
    while i < members.len()
        invariant
            0 <= i <= members@.len(),
            out@ == members@.subrange(0, i as int).filter(member_not_in(budget_id@)),
        decreases members@.len() - i,
    {
        if !(members[i].budget_id == *budget_id) {
            out.push(members[i].clone());
        }
        proof {
            reveal(Seq::filter);
            assert(members@.subrange(0, i + 1).drop_last() =~= members@.subrange(0, i as int));
        }
        i += 1;
    }
    proof {
        assert(members@.subrange(0, members@.len() as int) =~= members@);
    }
    out
}

fn members_except(members: &Vec<BudgetMember>, budget_id: &String, id: &String) -> (r: Vec<BudgetMember>)
    ensures
        r@ == members@.filter(member_kept(budget_id@, id@)),
{
    let mut out: Vec<BudgetMember> = Vec::new();
    let mut i: usize = 0;
    while i < members.len()
        invariant
            0 <= i <= members@.len(),
            out@ == members@.subrange(0, i as int).filter(member_kept(budget_id@, id@)),
        decreases members@.len() - i,
    {
        if !(members[i].id == *id && members[i].budget_id == *budget_id) {
            out.push(members[i].clone());
        }
        proof {
            reveal(Seq::filter);
            assert(members@.subrange(0, i + 1).drop_last() =~= members@.subrange(0, i as int));
        }
        i += 1;
    }
    proof {
        assert(members@.subrange(0, members@.len() as int) =~= members@);
    }
    out
}

fn invitations_outside(invitations: &Vec<BudgetInvitation>, budget_id: &String) -> (r: Vec<BudgetInvitation>)
    ensures
        r@ == invitations@.filter(invitation_not_in(budget_id@)),
{
    let mut out: Vec<BudgetInvitation> = Vec::new();
    let mut i: usize = 0;
    while i < invitations.len()
        invariant
            0 <= i <= invitations@.len(),
            out@ == invitations@.subrange(0, i as int).filter(invitation_not_in(budget_id@)),
        decreases invitations@.len() - i,
    {
        if !(invitations[i].budget_id == *budget_id) {
            out.push(invitations[i].clone());
        }
        proof {
            reveal(Seq::filter);
            assert(invitations@.subrange(0, i + 1).drop_last() =~= invitations@.subrange(0, i as int));
        }
        i += 1;
    }
    proof {
        assert(invitations@.subrange(0, invitations@.len() as int) =~= invitations@);
    }
    out
}

impl Store {
    /// Whether `user_id` holds a membership of `budget_id`.
    pub fn is_member(&self, budget_id: &String, user_id: &String) -> (r: bool)
        ensures
            r == in_budget(self@.members, budget_id@, user_id@),
    {
        let mut i: usize = 0;
        while i < self.members.len()
            invariant
                0 <= i <= self.members@.len(),
                forall|j: int|
                    0 <= j < i ==> !(#[trigger] self.members@[j].budget_id@ == budget_id@
                        && self.members@[j].user_id@ == user_id@),
            decreases self.members@.len() - i,
        {
            if self.members[i].budget_id == *budget_id && self.members[i].user_id == *user_id {
                return true;
            }
            i += 1;
        }
        false
    }

    /// Whether `user_id` holds a membership of `budget_id` with exactly `role`.
    pub fn has_role(&self, budget_id: &String, user_id: &String, role: Role) -> (r: bool)
        ensures
            r == holds_role(self@.members, budget_id@, user_id@, role),
    {
        let mut i: usize = 0;
        while i < self.members.len()
            invariant
                0 <= i <= self.members@.len(),
                forall|j: int|
                    0 <= j < i ==> !(#[trigger] self.members@[j].budget_id@ == budget_id@
                        && self.members@[j].user_id@ == user_id@ && self.members@[j].role == role),
            decreases self.members@.len() - i,
        {
            let m = &self.members[i];
            if m.budget_id == *budget_id && m.user_id == *user_id && m.role == role {
                return true;
            }
            i += 1;
        }
        false
    }

    /// Records `user_id` as the owner of `budget_id`, under the membership
    /// identifier `id` and creation time `now`.
    pub fn add_owner(&mut self, budget_id: &String, user_id: &String, id: String, now: String) -> (r: Result<BudgetMember, ApiError>)
        ensures
            r == add_owner_result(old(self)@, *budget_id, *user_id, id, now),
            r matches Ok(m) ==> final(self)@ == old(self)@.with_members(old(self)@.members.push(m)),
            r is Err ==> final(self)@ == old(self)@,
            old(self)@.wf() ==> final(self)@.wf(),
    {
        if self.is_member(budget_id, user_id) {
            return Err(ApiError::Conflict);
        }
        if member_id_taken(&self.members, &id) {
            return Err(ApiError::StorageFailure);
        }
        let m = BudgetMember {
            id,
            budget_id: budget_id.clone(),
            user_id: user_id.clone(),
            role: Role::Owner,
            created_at: now,
        };
        let out = m.clone();
        self.members.push(m);
        proof {
            if old(self)@.wf() {
                lemma_push_keeps_unique(old(self)@.members, out);
            }
        }
        Ok(out)
    }

    /// Whether some membership refers to budget `budget_id`.
    fn budget_has_members(&self, budget_id: &String) -> (r: bool)
        ensures
            r == exists|i: int|
                0 <= i < self@.members.len() && (#[trigger] self@.members[i]).budget_id@
                    == budget_id@,
    {
        let mut i: usize = 0;
        while i < self.members.len()
            invariant
                0 <= i <= self.members@.len(),
                forall|j: int| 0 <= j < i ==> (#[trigger] self.members@[j]).budget_id@ != budget_id@,
            decreases self.members@.len() - i,
        {
            if self.members[i].budget_id == *budget_id {
                return true;
            }
            i += 1;
        }
        false
    }

    /// Creates a budget for `owner` under the identifier `id` at time `now`. A
    /// group budget gets `owner` as its owner, under the membership identifier
    /// `member_id`, in the same step.
    pub fn create_budget_with(
        &mut self,
        owner: &AuthUser,
        req: &CreateBudget,
        id: String,
        member_id: String,
        now: String,
    ) -> (r: Result<Budget, ApiError>)
        ensures
            r == create_budget_result(old(self)@, owner.user_id, *req, id, member_id, now),
            final(self)@ == after_create_budget(old(self)@, owner.user_id, *req, id, member_id, now),
            old(self)@.wf() ==> final(self)@.wf(),
    {
        let taken = match find_budget(&self.budgets, &id) {
            Some(_) => true,
            None => self.budget_has_members(&id) || (req.budget_type == BudgetType::Group
                && member_id_taken(&self.members, &member_id)),
        };
        if taken {
            return Err(ApiError::StorageFailure);
        }
        let budget = Budget {
            id: id.clone(),
            user_id: owner.user_id.clone(),
            name: req.name.clone(),
            budget_type: req.budget_type,
            is_active: 0,
            created_at: now.clone(),
            updated_at: now.clone(),
        };
        let out = budget.clone();
        self.budgets.push(budget);
        if req.budget_type == BudgetType::Group {
            let m = BudgetMember {
                id: member_id,
                budget_id: id,
                user_id: owner.user_id.clone(),
                role: Role::Owner,
                created_at: now,
            };
            proof {
                if old(self)@.wf() {
                    lemma_push_keeps_unique(old(self)@.members, m);
                }
            }
            self.members.push(m);
        }
        Ok(out)
    }

    /// Creates a budget for `owner` with a fresh identifier, stamped now.
    pub fn create_budget(&mut self, owner: &AuthUser, req: &CreateBudget) -> (r: Result<Budget, ApiError>)
        ensures
            exists|id: String, member_id: String, now: String|
                r == create_budget_result(old(self)@, owner.user_id, *req, id, member_id, now) && final(self)@
                    == after_create_budget(old(self)@, owner.user_id, *req, id, member_id, now),
            old(self)@.wf() ==> final(self)@.wf(),
    {
        let id = new_record_id();
        let member_id = new_record_id();
        let now = now_rfc3339();
        self.create_budget_with(owner, req, id, member_id, now)
    }

    /// The budgets that `user` created, in insertion order.
    pub fn get_budgets(&self, user: &AuthUser) -> (r: Vec<Budget>)
        ensures
            r@ == self@.budgets.filter(owned_by(user.user_id@)),
    {
        budgets_where_owner(&self.budgets, &user.user_id)
    }

    /// The budget with identifier `id`.
    pub fn get_budget(&self, id: &String) -> (r: Result<Budget, ApiError>)
        ensures
            match first_of(self@.budgets, budget_id_is(id@)) {
                Some(b) => r == Ok::<Budget, ApiError>(b),
                None => r == Err::<Budget, ApiError>(ApiError::NotFound),
            },
    {
        match find_budget(&self.budgets, id) {
            Some(k) => Ok(self.budgets[k].clone()),
            None => Err(ApiError::NotFound),
        }
    }

    /// Whether `user_id` created a personal budget with identifier `budget_id`.
    fn created_personal_budget(&self, budget_id: &String, user_id: &String) -> (r: bool)
        ensures
            r == exists|i: int|
                0 <= i < self@.budgets.len() && #[trigger] self@.budgets[i].id@ == budget_id@
                    && self@.budgets[i].user_id@ == user_id@ && self@.budgets[i].budget_type
                    == BudgetType::Personal,
    {
        let mut i: usize = 0;
        while i < self.budgets.len()
            invariant
                0 <= i <= self.budgets@.len(),
                forall|j: int|
                    0 <= j < i ==> !(#[trigger] self.budgets@[j].id@ == budget_id@
                        && self.budgets@[j].user_id@ == user_id@ && self.budgets@[j].budget_type
                        == BudgetType::Personal),
            decreases self.budgets@.len() - i,
        {
            let b = &self.budgets[i];
            if b.id == *budget_id && b.user_id == *user_id && b.budget_type == BudgetType::Personal {
                return true;
            }
            i += 1;
        }
        false
    }

    /// Deletes budget `budget_id` with its memberships and invitations, where
    /// `caller` owns it or created it as a personal budget; `Forbidden`
    /// otherwise.
    pub fn delete_budget(&mut self, caller: &AuthUser, budget_id: &String) -> (r: Result<(), ApiError>)
        ensures
            may_delete(old(self)@, budget_id@, caller.user_id@) ==> r is Ok && final(self)@
                == after_delete_budget(old(self)@, budget_id@),
            !may_delete(old(self)@, budget_id@, caller.user_id@) ==> r == Err::<(), ApiError>(
                ApiError::Forbidden,
            ) && final(self)@ == old(self)@,
            old(self)@.wf() ==> final(self)@.wf(),
    {
        if !self.has_role(budget_id, &caller.user_id, Role::Owner) && !self.created_personal_budget(
            budget_id,
            &caller.user_id,
        ) {
            return Err(ApiError::Forbidden);
        }
        let budgets = budgets_except(&self.budgets, budget_id);
        let members = members_outside(&self.members, budget_id);
        let invitations = invitations_outside(&self.invitations, budget_id);
        proof {
            if old(self)@.wf() {
                lemma_filter_keeps_unique(old(self)@.members, member_not_in(budget_id@));
            }
        }
        self.budgets = budgets;
        self.members = members;
        self.invitations = invitations;
        Ok(())
    }

    /// Removes the membership `member_id` of budget `budget_id`, where `caller`
    /// owns the budget; `Forbidden` otherwise.
    pub fn remove_member(&mut self, caller: &AuthUser, budget_id: &String, member_id: &String) -> (r: Result<(), ApiError>)
        ensures
            holds_role(old(self)@.members, budget_id@, caller.user_id@, Role::Owner) ==> r is Ok
                && final(self)@ == old(self)@.with_members(
                old(self)@.members.filter(member_kept(budget_id@, member_id@)),
            ),
            !holds_role(old(self)@.members, budget_id@, caller.user_id@, Role::Owner) ==> r
                == Err::<(), ApiError>(ApiError::Forbidden) && final(self)@ == old(self)@,
            old(self)@.wf() ==> final(self)@.wf(),
    {
        if !self.has_role(budget_id, &caller.user_id, Role::Owner) {
            return Err(ApiError::Forbidden);
        }
        let members = members_except(&self.members, budget_id, member_id);
        proof {
            if old(self)@.wf() {
                lemma_filter_keeps_unique(old(self)@.members, member_kept(budget_id@, member_id@));
            }
        }
        self.members = members;
        Ok(())
    }

    /// The memberships of budget `budget_id` joined with their users' profiles,
    /// for a `caller` who is a member; `Forbidden` otherwise.
    pub fn get_budget_members(&self, caller: &AuthUser, budget_id: &String) -> (r: Result<Vec<BudgetMemberWithUser>, ApiError>)
        ensures
            !in_budget(self@.members, budget_id@, caller.user_id@) ==> r
                == Err::<Vec<BudgetMemberWithUser>, ApiError>(ApiError::Forbidden),
            in_budget(self@.members, budget_id@, caller.user_id@) ==> r is Ok && r.unwrap()@
                == self@.members.filter_map(member_rows_of(self@.users, budget_id@)),
    {
        if !self.is_member(budget_id, &caller.user_id) {
            return Err(ApiError::Forbidden);
        }
        let ghost f = member_rows_of(self@.users, budget_id@);
        let mut rows: Vec<BudgetMemberWithUser> = Vec::new();
        let mut i: usize = 0;
        while i < self.members.len()
            invariant
                0 <= i <= self.members@.len(),
                f == member_rows_of(self@.users, budget_id@),
                rows@ == self@.members.subrange(0, i as int).filter_map(f),
            decreases self.members@.len() - i,
        {
            let m = &self.members[i];
            let ghost prev = rows@;
            if m.budget_id == *budget_id {
                match find_user_by_id(&self.users, &m.user_id) {
                    Some(k) => {
                        let u = &self.users[k];
                        rows.push(
                            BudgetMemberWithUser {
                                id: m.id.clone(),
                                budget_id: m.budget_id.clone(),
                                user_id: m.user_id.clone(),
                                role: m.role,
                                created_at: m.created_at.clone(),
                                user_name: u.name.clone(),
                                user_email: u.email.clone(),
                                user_avatar: copy_text(&u.avatar),
                            },
                        );
                        proof {
                            assert(rows@ =~= prev + seq![f(*m).unwrap()]);
                        }
                    },
                    None => {},
                }
            }
            proof {
                let sub = self@.members.subrange(0, i + 1);
                assert(sub.drop_last() =~= self@.members.subrange(0, i as int));
                assert(sub.last() == *m);
            }
            i += 1;
        }
        proof {
            assert(self@.members.subrange(0, self@.members.len() as int) =~= self@.members);
        }
        Ok(rows)
    }
}

} // verus!
