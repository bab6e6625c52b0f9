use tempo_budget::identity::AuthUser;
use tempo_budget::models::{
    BudgetType, CreateBudget, CreateUser, InvitationStatus, InviteMemberRequest, LoginRequest,
    Role,
};
use tempo_budget::store::Store;
use tempo_budget::token::{verify_token, TokenConfig};
use tempo_budget::ApiError;

fn s(v: &str) -> String {
    v.to_string()
}

fn as_user(id: &str) -> AuthUser {
    AuthUser { user_id: s(id) }
}

fn add_user(store: &mut Store, id: &str, email: &str, name: &str) {
    let req = CreateUser { email: s(email), name: s(name), password: s("pw") };
    store
        .register_with(&req, s(id), s("hash"), s("2024-01-01T00:00:00Z"))
        .unwrap();
}

/// Owner `o` of group budget `g`, with users bob, carol and dave besides.
fn seeded() -> Store {
    let mut store = Store::new();
    add_user(&mut store, "o", "owner@x.com", "Olive");
    add_user(&mut store, "bob", "bob@x.com", "Bob");
    add_user(&mut store, "carol", "carol@x.com", "Carol");
    add_user(&mut store, "dave", "dave@x.com", "Dave");
    let req = CreateBudget { name: s("Household"), budget_type: BudgetType::Group };
    store
        .create_budget_with(&as_user("o"), &req, s("g"), s("m-o"), s("t0"))
        .unwrap();
    store
}

fn invite(store: &mut Store, caller: &str, email: &str, role: &str, id: &str) -> Result<(), ApiError> {
    let req = InviteMemberRequest { email: s(email), role: s(role) };
    store
        .invite_member_with(&as_user(caller), &s("g"), &req, s(id), s("t1"))
        .map(|_| ())
}

#[test]
fn error_classes_map_to_status_codes() {
    assert_eq!(ApiError::Unauthenticated.status_code(), 401);
    assert_eq!(ApiError::Forbidden.status_code(), 403);
    assert_eq!(ApiError::NotFound.status_code(), 404);
    assert_eq!(ApiError::Conflict.status_code(), 409);
    assert_eq!(ApiError::BadRequest.status_code(), 400);
    assert_eq!(ApiError::StorageFailure.status_code(), 500);
}

#[test]
fn role_and_status_names_round_trip() {
    for r in [Role::Owner, Role::Admin, Role::Member] {
        assert_eq!(Role::from_name(&r.name()), Some(r));
    }
    assert_eq!(Role::Admin.name(), "admin");
    assert_eq!(Role::from_name(&s("Owner")), None);
    assert_eq!(InvitationStatus::Accepted.name(), "accepted");
    assert_eq!(InvitationStatus::from_name(&s("rejected")), Some(InvitationStatus::Rejected));
    assert_eq!(BudgetType::from_name(&s("group")), Some(BudgetType::Group));
    assert_eq!(BudgetType::Personal.name(), "personal");
}

#[test]
fn group_budget_creator_holds_exactly_owner() {
    let store = seeded();
    assert_eq!(store.members.len(), 1);
    assert!(store.is_member(&s("g"), &s("o")));
    assert!(store.has_role(&s("g"), &s("o"), Role::Owner));
    assert!(!store.has_role(&s("g"), &s("o"), Role::Admin));
    assert!(!store.has_role(&s("g"), &s("o"), Role::Member));
    assert_eq!(Role::from_name(&s("superuser")), None);
}

#[test]
fn personal_budget_gets_no_membership() {
    let mut store = seeded();
    let req = CreateBudget { name: s("Mine"), budget_type: BudgetType::Personal };
    let b = store
        .create_budget_with(&as_user("bob"), &req, s("p"), s("m-p"), s("t2"))
        .unwrap();
    assert_eq!(b.id, "p");
    assert_eq!(b.user_id, "bob");
    assert_eq!(b.is_active, 0);
    assert_eq!(b.created_at, "t2");
    assert_eq!(store.members.len(), 1);
    assert!(!store.is_member(&s("p"), &s("bob")));
}

#[test]
fn budget_identifier_in_use_is_refused() {
    let mut store = seeded();
    let req = CreateBudget { name: s("Again"), budget_type: BudgetType::Group };
    assert_eq!(
        store.create_budget_with(&as_user("bob"), &req, s("g"), s("m-x"), s("t2")).err(),
        Some(ApiError::StorageFailure)
    );
    assert_eq!(store.budgets.len(), 1);
}

#[test]
fn fresh_budget_gets_generated_identifiers() {
    let mut store = seeded();
    let req = CreateBudget { name: s("Trip"), budget_type: BudgetType::Group };
    let b = store.create_budget(&as_user("bob"), &req).unwrap();
    assert_eq!(b.id.len(), 36);
    assert!(!b.created_at.is_empty());
    assert!(store.has_role(&b.id, &s("bob"), Role::Owner));
}

#[test]
fn budgets_are_listed_for_their_creator() {
    let mut store = seeded();
    let req = CreateBudget { name: s("Mine"), budget_type: BudgetType::Personal };
    store.create_budget_with(&as_user("bob"), &req, s("p"), s("m-p"), s("t2")).unwrap();
    let mine = store.get_budgets(&as_user("bob"));
    assert_eq!(mine.len(), 1);
    assert_eq!(mine[0].name, "Mine");
    assert_eq!(store.get_budgets(&as_user("carol")).len(), 0);
    assert_eq!(store.get_budget(&s("g")).unwrap().name, "Household");
    assert_eq!(store.get_budget(&s("nope")).err(), Some(ApiError::NotFound));
}

#[test]
fn inviting_unknown_email_is_not_found() {
    let mut store = seeded();
    assert_eq!(invite(&mut store, "o", "nobody@x.com", "member", "i1"), Err(ApiError::NotFound));
    assert!(store.invitations.is_empty());
}

#[test]
fn inviting_a_member_is_a_conflict() {
    let mut store = seeded();
    assert_eq!(invite(&mut store, "o", "owner@x.com", "member", "i1"), Err(ApiError::Conflict));
}

#[test]
fn inviting_as_non_owner_is_forbidden() {
    let mut store = seeded();
    assert_eq!(invite(&mut store, "bob", "carol@x.com", "member", "i1"), Err(ApiError::Forbidden));
    invite(&mut store, "o", "bob@x.com", "admin", "i1").unwrap();
    store.accept_invitation_with(&as_user("bob"), &s("i1"), s("m-b"), s("t2")).unwrap();
    assert_eq!(invite(&mut store, "bob", "carol@x.com", "member", "i2"), Err(ApiError::Forbidden));
}

#[test]
fn owner_role_cannot_be_offered() {
    let mut store = seeded();
    assert_eq!(invite(&mut store, "o", "bob@x.com", "owner", "i1"), Err(ApiError::BadRequest));
    assert_eq!(invite(&mut store, "o", "bob@x.com", "boss", "i1"), Err(ApiError::BadRequest));
}

#[test]
fn duplicate_pending_invitations_coexist() {
    let mut store = seeded();
    invite(&mut store, "o", "bob@x.com", "member", "i1").unwrap();
    invite(&mut store, "o", "bob@x.com", "admin", "i2").unwrap();
    assert_eq!(store.invitations.len(), 2);
    let pending = store.get_my_invitations(&as_user("bob")).unwrap();
    assert_eq!(pending.len(), 2);
    assert_eq!(pending[0].id, "i1");
    assert_eq!(pending[1].role, Role::Admin);
    assert_eq!(pending[0].budget_name, "Household");
    assert_eq!(pending[0].inviter_name, "Olive");
}

#[test]
fn accepting_someone_elses_invitation_is_forbidden() {
    let mut store = Store::new();
    add_user(&mut store, "o", "owner@x.com", "Olive");
    add_user(&mut store, "alice", "alice@x.com", "Alice");
    add_user(&mut store, "bob", "bob@x.com", "Bob");
    let req = CreateBudget { name: s("Household"), budget_type: BudgetType::Group };
    store.create_budget_with(&as_user("o"), &req, s("g"), s("m-o"), s("t0")).unwrap();
    invite(&mut store, "o", "alice@x.com", "member", "i1").unwrap();
    assert_eq!(
        store.accept_invitation_with(&as_user("bob"), &s("i1"), s("m-b"), s("t2")).err(),
        Some(ApiError::Forbidden)
    );
    assert_eq!(store.members.len(), 1);
    assert_eq!(store.invitations[0].status, InvitationStatus::Pending);
}

#[test]
fn accepting_creates_one_membership_and_settles() {
    let mut store = seeded();
    invite(&mut store, "o", "bob@x.com", "member", "i1").unwrap();
    let m = store
        .accept_invitation_with(&as_user("bob"), &s("i1"), s("m-b"), s("t2"))
        .unwrap();
    assert_eq!(m.budget_id, "g");
    assert_eq!(m.user_id, "bob");
    assert_eq!(m.role, Role::Member);
    let rows: Vec<_> = store
        .members
        .iter()
        .filter(|x| x.budget_id == "g" && x.user_id == "bob")
        .collect();
    assert_eq!(rows.len(), 1);
    assert_eq!(rows[0].role, Role::Member);
    assert_eq!(store.invitations[0].status, InvitationStatus::Accepted);
    assert_eq!(
        store.accept_invitation_with(&as_user("bob"), &s("i1"), s("m-c"), s("t3")).err(),
        Some(ApiError::BadRequest)
    );
    assert_eq!(store.members.len(), 2);
}

#[test]
fn accepting_unknown_invitation_is_not_found() {
    let mut store = seeded();
    assert_eq!(
        store.accept_invitation(&as_user("bob"), &s("missing")).err(),
        Some(ApiError::NotFound)
    );
    assert_eq!(store.reject_invitation(&as_user("bob"), &s("missing")), Err(ApiError::NotFound));
}

#[test]
fn accepting_a_second_invitation_to_the_same_budget_conflicts() {
    let mut store = seeded();
    invite(&mut store, "o", "bob@x.com", "member", "i1").unwrap();
    invite(&mut store, "o", "bob@x.com", "admin", "i2").unwrap();
    store.accept_invitation(&as_user("bob"), &s("i1")).unwrap();
    assert_eq!(
        store.accept_invitation(&as_user("bob"), &s("i2")).err(),
        Some(ApiError::Conflict)
    );
    assert_eq!(store.members.len(), 2);
    assert_eq!(store.invitations[1].status, InvitationStatus::Pending);
}

#[test]
fn rejecting_settles_without_membership() {
    let mut store = seeded();
    invite(&mut store, "o", "bob@x.com", "member", "i1").unwrap();
    assert_eq!(store.reject_invitation(&as_user("carol"), &s("i1")), Err(ApiError::Forbidden));
    store.reject_invitation(&as_user("bob"), &s("i1")).unwrap();
    assert_eq!(store.invitations[0].status, InvitationStatus::Rejected);
    assert_eq!(store.members.len(), 1);
    assert!(!store.is_member(&s("g"), &s("bob")));
    assert_eq!(store.reject_invitation(&as_user("bob"), &s("i1")), Err(ApiError::BadRequest));
    assert_eq!(
        store.accept_invitation(&as_user("bob"), &s("i1")).err(),
        Some(ApiError::BadRequest)
    );
}

#[test]
fn unknown_caller_cannot_settle_or_list() {
    let mut store = seeded();
    invite(&mut store, "o", "bob@x.com", "member", "i1").unwrap();
    assert_eq!(store.reject_invitation(&as_user("ghost"), &s("i1")), Err(ApiError::NotFound));
    assert_eq!(
        store.accept_invitation(&as_user("ghost"), &s("i1")).err(),
        Some(ApiError::NotFound)
    );
    assert_eq!(
        store.get_my_invitations(&as_user("ghost")).err(),
        Some(ApiError::NotFound)
    );
    assert_eq!(store.invitations[0].status, InvitationStatus::Pending);
}

#[test]
fn group_invitation_end_to_end() {
    let mut store = seeded();
    assert!(store.has_role(&s("g"), &s("o"), Role::Owner));
    let inv = store
        .invite_member(
            &as_user("o"),
            &s("g"),
            &InviteMemberRequest { email: s("carol@x.com"), role: s("admin") },
        )
        .unwrap();
    assert_eq!(inv.status, InvitationStatus::Pending);
    assert_eq!(inv.inviter_id, "o");
    let pending = store.get_my_invitations(&as_user("carol")).unwrap();
    assert_eq!(pending.len(), 1);
    assert_eq!(pending[0].id, inv.id);
    store.accept_invitation(&as_user("carol"), &inv.id).unwrap();
    assert!(store.has_role(&s("g"), &s("carol"), Role::Admin));
    assert_eq!(store.invitations[0].status, InvitationStatus::Accepted);
    assert!(store.get_my_invitations(&as_user("carol")).unwrap().is_empty());
}

#[test]
fn members_are_listed_only_to_members() {
    let mut store = seeded();
    invite(&mut store, "o", "bob@x.com", "member", "i1").unwrap();
    store.accept_invitation_with(&as_user("bob"), &s("i1"), s("m-b"), s("t2")).unwrap();
    assert_eq!(
        store.get_budget_members(&as_user("carol"), &s("g")).err(),
        Some(ApiError::Forbidden)
    );
    let rows = store.get_budget_members(&as_user("bob"), &s("g")).unwrap();
    assert_eq!(rows.len(), 2);
    assert_eq!(rows[0].user_name, "Olive");
    assert_eq!(rows[0].role, Role::Owner);
    assert_eq!(rows[1].user_email, "bob@x.com");
    assert_eq!(rows[1].id, "m-b");
    assert_eq!(rows[1].user_avatar, None);
}

#[test]
fn only_owner_removes_members() {
    let mut store = seeded();
    invite(&mut store, "o", "bob@x.com", "admin", "i1").unwrap();
    store.accept_invitation_with(&as_user("bob"), &s("i1"), s("m-b"), s("t2")).unwrap();
    assert_eq!(
        store.remove_member(&as_user("bob"), &s("g"), &s("m-o")),
        Err(ApiError::Forbidden)
    );
    assert_eq!(store.members.len(), 2);
    store.remove_member(&as_user("o"), &s("g"), &s("m-b")).unwrap();
    assert_eq!(store.members.len(), 1);
    assert!(!store.is_member(&s("g"), &s("bob")));
}

#[test]
fn budget_deletion_needs_owner_or_creator() {
    let mut store = seeded();
    invite(&mut store, "o", "bob@x.com", "admin", "i1").unwrap();
    store.accept_invitation_with(&as_user("bob"), &s("i1"), s("m-b"), s("t2")).unwrap();
    invite(&mut store, "o", "carol@x.com", "member", "i2").unwrap();
    assert_eq!(store.delete_budget(&as_user("bob"), &s("g")), Err(ApiError::Forbidden));
    assert_eq!(store.delete_budget(&as_user("carol"), &s("g")), Err(ApiError::Forbidden));
    store.delete_budget(&as_user("o"), &s("g")).unwrap();
    assert!(store.budgets.is_empty());
    assert!(store.members.is_empty());
    assert!(store.invitations.is_empty());

    let req = CreateBudget { name: s("Mine"), budget_type: BudgetType::Personal };
    store.create_budget_with(&as_user("dave"), &req, s("p"), s("m-p"), s("t3")).unwrap();
    assert_eq!(store.delete_budget(&as_user("bob"), &s("p")), Err(ApiError::Forbidden));
    store.delete_budget(&as_user("dave"), &s("p")).unwrap();
    assert!(store.budgets.is_empty());
}

#[test]
fn registration_refuses_a_taken_email() {
    let mut store = seeded();
    let req = CreateUser { email: s("bob@x.com"), name: s("Other Bob"), password: s("pw") };
    assert_eq!(
        store.register_with(&req, s("bob2"), s("h"), s("t")).err(),
        Some(ApiError::StorageFailure)
    );
    assert_eq!(store.users.len(), 4);
    let cfg = TokenConfig::from_setting(Some(s("k")));
    assert_eq!(store.register(&cfg, &req).err(), Some(ApiError::StorageFailure));
}

#[test]
fn registration_issues_a_token_for_the_new_account() {
    let mut store = Store::new();
    let cfg = TokenConfig::from_setting(Some(s("k")));
    let req = CreateUser { email: s("erin@x.com"), name: s("Erin"), password: s("hunter2") };
    let resp = store.register(&cfg, &req).unwrap();
    assert_eq!(resp.user.email, "erin@x.com");
    assert_ne!(resp.user.password_hash, "hunter2");
    assert_eq!(resp.user.password_hash.len(), 60);
    assert!(resp.user.password_hash.starts_with("$2b$12$"));
    assert_eq!(verify_token(&cfg, &resp.token).unwrap().sub, resp.user.id);
    assert_eq!(store.users.len(), 1);
}

#[test]
fn login_checks_the_password() {
    let mut store = Store::new();
    let cfg = TokenConfig::from_setting(Some(s("k")));
    let hash = bcrypt::hash("hunter2", 4).unwrap();
    let req = CreateUser { email: s("erin@x.com"), name: s("Erin"), password: s("hunter2") };
    store.register_with(&req, s("erin"), hash, s("t")).unwrap();
    let ok = store
        .login(&cfg, &LoginRequest { email: s("erin@x.com"), password: s("hunter2") })
        .unwrap();
    assert_eq!(ok.user.id, "erin");
    assert_eq!(verify_token(&cfg, &ok.token).unwrap().sub, "erin");
    assert_eq!(
        store
            .login(&cfg, &LoginRequest { email: s("erin@x.com"), password: s("wrong") })
            .err()
            .map(|e| e.status_code()),
        Some(401)
    );
    assert_eq!(
        store
            .login(&cfg, &LoginRequest { email: s("nobody@x.com"), password: s("hunter2") })
            .err()
            .map(|e| e.status_code()),
        Some(401)
    );
}

#[test]
fn malformed_stored_hash_is_a_storage_failure() {
    let store = seeded();
    let cfg = TokenConfig::from_setting(Some(s("k")));
    assert_eq!(
        store
            .login(&cfg, &LoginRequest { email: s("bob@x.com"), password: s("pw") })
            .err()
            .map(|e| e.status_code()),
        Some(500)
    );
}

#[test]
fn group_creator_without_owner_role_cannot_delete() {
    let mut store = seeded();
    store.members.clear();
    assert_eq!(store.delete_budget(&as_user("o"), &s("g")), Err(ApiError::Forbidden));
    assert_eq!(store.budgets.len(), 1);
}

#[test]
fn reused_invitation_identifier_is_refused() {
    let mut store = seeded();
    invite(&mut store, "o", "bob@x.com", "member", "i1").unwrap();
    assert_eq!(invite(&mut store, "o", "carol@x.com", "member", "i1"), Err(ApiError::StorageFailure));
    assert_eq!(store.invitations.len(), 1);
}

#[test]
fn reused_membership_identifier_is_refused() {
    let mut store = seeded();
    invite(&mut store, "o", "bob@x.com", "member", "i1").unwrap();
    assert_eq!(
        store.accept_invitation_with(&as_user("bob"), &s("i1"), s("m-o"), s("t2")).err(),
        Some(ApiError::StorageFailure)
    );
    assert_eq!(store.members.len(), 1);
    assert_eq!(store.invitations[0].status, InvitationStatus::Pending);
    let req = CreateBudget { name: s("Trip"), budget_type: BudgetType::Group };
    assert_eq!(
        store.create_budget_with(&as_user("bob"), &req, s("g2"), s("m-o"), s("t3")).err(),
        Some(ApiError::StorageFailure)
    );
    assert!(store.budgets.iter().all(|b| b.id != "g2"));
    assert_eq!(
        store.add_owner(&s("g9"), &s("bob"), s("m-o"), s("t4")).err(),
        Some(ApiError::StorageFailure)
    );
    assert_eq!(
        store.add_owner(&s("g"), &s("o"), s("m-new"), s("t4")).err(),
        Some(ApiError::Conflict)
    );
}

#[test]
fn registration_at_a_given_time_issues_a_day_long_token() {
    let mut store = Store::new();
    let cfg = TokenConfig::from_setting(Some(s("k")));
    let req = CreateUser { email: s("fay@x.com"), name: s("Fay"), password: s("pw") };
    let issued_at = chrono::Utc::now().timestamp();
    let resp = store
        .register_at(&cfg, &req, s("fay"), s("stored-hash"), s("t"), issued_at)
        .unwrap();
    assert_eq!(resp.user.id, "fay");
    assert_eq!(resp.user.password_hash, "stored-hash");
    let claims = tempo_budget::token::verify_token_at(&cfg, &resp.token, issued_at).unwrap();
    assert_eq!(claims.sub, "fay");
    assert_eq!(claims.exp, (issued_at + 86400) as u64);
    assert_eq!(
        store.register_at(&cfg, &req, s("fay2"), s("h"), s("t"), issued_at).err(),
        Some(ApiError::StorageFailure)
    );
    assert_eq!(store.users.len(), 1);
}
