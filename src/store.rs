//! The persisted records that the access-control core reads and writes, with
//! the lookups every operation shares.

use vstd::prelude::*;

use crate::models::{Budget, BudgetInvitation, BudgetMember, Role, User};

verus! {

/// Users, budgets, memberships and invitations, each in insertion order.
#[derive(Debug)]
pub struct Store {
    pub users: Vec<User>,
    pub budgets: Vec<Budget>,
    pub members: Vec<BudgetMember>,
    pub invitations: Vec<BudgetInvitation>,
}

/// The contents of a store.
pub ghost struct StoreView {
    pub users: Seq<User>,
    pub budgets: Seq<Budget>,
    pub members: Seq<BudgetMember>,
    pub invitations: Seq<BudgetInvitation>,
}

impl View for Store {
    type V = StoreView;

    open spec fn view(&self) -> StoreView {
        StoreView {
            users: self.users@,
            budgets: self.budgets@,
            members: self.members@,
            invitations: self.invitations@,
        }
    }
}

/// `i` is the first position of `s` whose element satisfies `p`.
pub open spec fn is_first<A>(s: Seq<A>, p: spec_fn(A) -> bool, i: int) -> bool {
    &&& 0 <= i < s.len()
    &&& p(s[i])
    &&& forall|j: int| 0 <= j < i ==> !p(#[trigger] s[j])
}

/// The first position of `s` whose element satisfies `p`, if any does.
pub open spec fn first_index<A>(s: Seq<A>, p: spec_fn(A) -> bool) -> Option<int> {
    if exists|i: int| is_first(s, p, i) {
        Some(choose|i: int| is_first(s, p, i))
    } else {
        None
    }
}

/// The first element of `s` that satisfies `p`, if any does.
pub open spec fn first_of<A>(s: Seq<A>, p: spec_fn(A) -> bool) -> Option<A> {
    match first_index(s, p) {
        Some(i) => Some(s[i]),
        None => None,
    }
}

pub proof fn lemma_first_index_is<A>(s: Seq<A>, p: spec_fn(A) -> bool, i: int)
    requires
        is_first(s, p, i),
    ensures
        first_index(s, p) == Some(i),
{
    let k: int = choose|k: int| is_first(s, p, k);
    assert(is_first(s, p, k));
    if k < i {
        assert(!p(s[k]));
    } else if i < k {
        assert(!p(s[i]));
    }
}

pub proof fn lemma_first_index_none<A>(s: Seq<A>, p: spec_fn(A) -> bool)
    requires
        forall|j: int| 0 <= j < s.len() ==> !p(#[trigger] s[j]),
    ensures
        first_index(s, p) is None,
{
}

pub open spec fn index_view(r: Option<usize>) -> Option<int> {
    match r {
        Some(i) => Some(i as int),
        None => None,
    }
}

pub open spec fn user_id_is(id: Seq<char>) -> spec_fn(User) -> bool {
    |u: User| u.id@ == id
}

pub open spec fn user_email_is(email: Seq<char>) -> spec_fn(User) -> bool {
    |u: User| u.email@ == email
}

pub open spec fn budget_id_is(id: Seq<char>) -> spec_fn(Budget) -> bool {
    |b: Budget| b.id@ == id
}

pub open spec fn invitation_id_is(id: Seq<char>) -> spec_fn(BudgetInvitation) -> bool {
    |i: BudgetInvitation| i.id@ == id
}

/// `u` holds a membership of budget `b`.
pub open spec fn in_budget(ms: Seq<BudgetMember>, b: Seq<char>, u: Seq<char>) -> bool {
    exists|i: int| 0 <= i < ms.len() && #[trigger] ms[i].budget_id@ == b && ms[i].user_id@ == u
}

/// `u` holds a membership of budget `b` with exactly the role `r`.
pub open spec fn holds_role(ms: Seq<BudgetMember>, b: Seq<char>, u: Seq<char>, r: Role) -> bool {
    exists|i: int|
        0 <= i < ms.len() && #[trigger] ms[i].budget_id@ == b && ms[i].user_id@ == u && ms[i].role
            == r
}

/// Some membership has identifier `id`.
pub open spec fn member_id_used(ms: Seq<BudgetMember>, id: Seq<char>) -> bool {
    exists|i: int| 0 <= i < ms.len() && #[trigger] ms[i].id@ == id
}

/// Whether some membership has identifier `id`.
pub fn member_id_taken(members: &Vec<BudgetMember>, id: &String) -> (r: bool)
    ensures
        r == member_id_used(members@, id@),
{
    let mut i: usize = 0;
    while i < members.len()
        invariant
            0 <= i <= members@.len(),
            forall|j: int| 0 <= j < i ==> (#[trigger] members@[j]).id@ != id@,
        decreases members@.len() - i,
    {
        if members[i].id == *id {
            return true;
        }
        i += 1;
    }
    false
}

/// No two memberships pair the same budget with the same user.
pub open spec fn memberships_unique(ms: Seq<BudgetMember>) -> bool {
    forall|i: int, j: int|
        0 <= i < ms.len() && 0 <= j < ms.len() && i != j ==> !(#[trigger] ms[i].budget_id@
            == #[trigger] ms[j].budget_id@ && ms[i].user_id@ == ms[j].user_id@)
}

/// Adding a membership for a pair that has none keeps memberships unique.
pub proof fn lemma_push_keeps_unique(ms: Seq<BudgetMember>, m: BudgetMember)
    requires
        memberships_unique(ms),
        !in_budget(ms, m.budget_id@, m.user_id@),
    ensures
        memberships_unique(ms.push(m)),
{
    let out = ms.push(m);
    let n: int = ms.len() as int;
    assert forall|i: int, j: int|
        0 <= i < out.len() && 0 <= j < out.len() && i != j implies !(#[trigger] out[i].budget_id@
            == #[trigger] out[j].budget_id@ && out[i].user_id@ == out[j].user_id@) by {
        if i == n {
            assert(out[j] == ms[j]);
        } else if j == n {
            assert(out[i] == ms[i]);
        } else {
            assert(out[i] == ms[i]);
            assert(out[j] == ms[j]);
        }
    }
}

/// Keeping only some memberships keeps them unique.
pub proof fn lemma_filter_keeps_unique(ms: Seq<BudgetMember>, p: spec_fn(BudgetMember) -> bool)
    requires
        memberships_unique(ms),
    ensures
        memberships_unique(ms.filter(p)),
    decreases ms.len(),
{
    reveal(Seq::filter);
    if ms.len() > 0 {
        let rest = ms.drop_last();
        let last = ms.last();
        assert forall|i: int, j: int|
            0 <= i < rest.len() && 0 <= j < rest.len() && i != j implies !(
            #[trigger] rest[i].budget_id@ == #[trigger] rest[j].budget_id@ && rest[i].user_id@
                == rest[j].user_id@) by {
            assert(rest[i] == ms[i]);
            assert(rest[j] == ms[j]);
        }
        lemma_filter_keeps_unique(rest, p);
        let kept = rest.filter(p);
        if p(last) {
            assert forall|k: int| 0 <= k < kept.len() implies !(#[trigger] kept[k].budget_id@
                == last.budget_id@ && kept[k].user_id@ == last.user_id@) by {
                let x = kept[k];
                assert(kept.contains(x));
                rest.lemma_filter_contains_rev(p, x);
                let j: int = choose|j: int| 0 <= j < rest.len() && rest[j] == x;
                assert(ms[j] == x);
                assert(ms[ms.len() - 1] == last);
            }
            lemma_push_keeps_unique(kept, last);
        }
    }
}

impl StoreView {
    /// The store's invariant: at most one membership per (budget, user) pair.
    pub open spec fn wf(self) -> bool {
        memberships_unique(self.members)
    }

    pub open spec fn with_budgets(self, budgets: Seq<Budget>) -> StoreView {
        StoreView { budgets, ..self }
    }

    pub open spec fn with_members(self, members: Seq<BudgetMember>) -> StoreView {
        StoreView { members, ..self }
    }

    pub open spec fn with_invitations(self, invitations: Seq<BudgetInvitation>) -> StoreView {
        StoreView { invitations, ..self }
    }

    pub open spec fn with_users(self, users: Seq<User>) -> StoreView {
        StoreView { users, ..self }
    }
}

/// The position of the first user with identifier `id`.
pub fn find_user_by_id(users: &Vec<User>, id: &String) -> (r: Option<usize>)
    ensures
        index_view(r) == first_index(users@, user_id_is(id@)),
        r is None ==> forall|j: int| 0 <= j < users@.len() ==> !user_id_is(id@)(#[trigger] users@[j]),
{
    let mut i: usize = 0;
    while i < users.len()
        invariant
            0 <= i <= users@.len(),
            forall|j: int| 0 <= j < i ==> !user_id_is(id@)(#[trigger] users@[j]),
        decreases users@.len() - i,
    {
        if users[i].id == *id {
            proof {
                lemma_first_index_is(users@, user_id_is(id@), i as int);
            }
            return Some(i);
        }
        i += 1;
    }
    proof {
        lemma_first_index_none(users@, user_id_is(id@));
    }
    None
}

/// The position of the first user with email `email`.
pub fn find_user_by_email(users: &Vec<User>, email: &String) -> (r: Option<usize>)
    ensures
        index_view(r) == first_index(users@, user_email_is(email@)),
        r is None ==> forall|j: int| 0 <= j < users@.len() ==> !user_email_is(email@)(#[trigger] users@[j]),
{
    let mut i: usize = 0;
    while i < users.len()
        invariant
            0 <= i <= users@.len(),
            forall|j: int| 0 <= j < i ==> !user_email_is(email@)(#[trigger] users@[j]),
        decreases users@.len() - i,
    {
        if users[i].email == *email {
            proof {
                lemma_first_index_is(users@, user_email_is(email@), i as int);
            }
            return Some(i);
        }
        i += 1;
    }
    proof {
        lemma_first_index_none(users@, user_email_is(email@));
    }
    None
}

/// The position of the first budget with identifier `id`.
pub fn find_budget(budgets: &Vec<Budget>, id: &String) -> (r: Option<usize>)
    ensures
        index_view(r) == first_index(budgets@, budget_id_is(id@)),
        r is None ==> forall|j: int| 0 <= j < budgets@.len() ==> !budget_id_is(id@)(#[trigger] budgets@[j]),
{
    let mut i: usize = 0;
    while i < budgets.len()
        invariant
            0 <= i <= budgets@.len(),
            forall|j: int| 0 <= j < i ==> !budget_id_is(id@)(#[trigger] budgets@[j]),
        decreases budgets@.len() - i,
    {
        if budgets[i].id == *id {
            proof {
                lemma_first_index_is(budgets@, budget_id_is(id@), i as int);
            }
            return Some(i);
        }
        i += 1;
    }
    proof {
        lemma_first_index_none(budgets@, budget_id_is(id@));
    }
    None
}

/// The position of the first invitation with identifier `id`.
pub fn find_invitation(invitations: &Vec<BudgetInvitation>, id: &String) -> (r: Option<usize>)
    ensures
        index_view(r) == first_index(invitations@, invitation_id_is(id@)),
        r is None ==> forall|j: int| 0 <= j < invitations@.len() ==> !invitation_id_is(id@)(#[trigger] invitations@[j]),
{
    let mut i: usize = 0;
    while i < invitations.len()
        invariant
            0 <= i <= invitations@.len(),
            forall|j: int| 0 <= j < i ==> !invitation_id_is(id@)(#[trigger] invitations@[j]),
        decreases invitations@.len() - i,
    {
        if invitations[i].id == *id {
            proof {
                lemma_first_index_is(invitations@, invitation_id_is(id@), i as int);
            }
            return Some(i);
        }
        i += 1;
    }
    proof {
        lemma_first_index_none(invitations@, invitation_id_is(id@));
    }
    None
}

impl Store {
    /// An empty store.
    pub fn new() -> (r: Store)
        ensures
            r@.users.len() == 0,
            r@.budgets.len() == 0,
            r@.members.len() == 0,
            r@.invitations.len() == 0,
            r@.wf(),
    {
        Store { users: Vec::new(), budgets: Vec::new(), members: Vec::new(), invitations: Vec::new() }
    }
}

} // verus!
