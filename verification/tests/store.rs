use tuna_server::error::{ApiError, Failure, Status, CONFLICT, FORBIDDEN, NOT_FOUND, UNAUTHORIZED};
use tuna_server::invite::Invite;
use tuna_server::permission::Permission;
use tuna_server::store::Store;
use tuna_server::user::{DangerousLogin, User};

fn login(username: &str, password: &str) -> DangerousLogin {
    DangerousLogin { username: username.to_string(), password: password.to_string() }
}

fn status(code: u16) -> ApiError {
    ApiError::Status(Status { code })
}

fn same_set(a: &[Permission], b: &[Permission]) -> bool {
    a.iter().all(|p| b.contains(p)) && b.iter().all(|p| a.contains(p))
}

fn store_with_root() -> (Store, User) {
    let mut store = Store::new();
    store.initialize_with_hash("root".to_string(), "digest".to_string()).unwrap();
    let root = store.user("root").unwrap();
    (store, root)
}

fn add_user(store: &mut Store, root: &User, name: &str, permissions: Vec<Permission>) -> User {
    let code = format!("code-for-{name}");
    store
        .create_invite(root, Invite { code: code.clone(), permissions, remaining: 1, creator: String::new() })
        .unwrap();
    store.redeem_with_hash(&code, name.to_string(), "digest".to_string()).unwrap();
    store.user(name).unwrap()
}

#[test]
fn bootstrap_succeeds_once_and_grants_everything() {
    let mut store = Store::new();
    assert_eq!(store.user_count(), 0);
    assert_eq!(store.initialize(&login("root", "pw1")), Ok(()));
    let root = store.user("root").unwrap();
    assert_eq!(root.username, "root");
    assert_eq!(root.permissions, Permission::all());
    assert_eq!(store.user_count(), 1);
    assert_eq!(store.initialize(&login("x", "pw2")), Err(status(CONFLICT)));
    assert!(!store.has_user("x"));
    assert_eq!(store.user_count(), 1);
}

#[test]
fn bootstrap_is_refused_while_an_invite_exists() {
    let (mut store, root) = store_with_root();
    store
        .create_invite(
            &root,
            Invite { code: "left".to_string(), permissions: vec![], remaining: 3, creator: String::new() },
        )
        .unwrap();
    assert_eq!(store.delete_user(&root, "root"), Ok(()));
    assert_eq!(store.user_count(), 0);
    let again = store.initialize_with_hash("second".to_string(), "digest".to_string());
    assert_eq!(again, Err(status(CONFLICT)));
    assert_eq!(again.unwrap_err().kind(), Failure::Conflict);
    assert_eq!(store.delete_invite(&root, "left"), Ok(()));
    assert_eq!(store.initialize_with_hash("second".to_string(), "digest".to_string()), Ok(()));
    assert!(store.has_user("second"));
}

#[test]
fn grant_takes_the_anchor_and_what_is_granted() {
    let (mut store, root) = store_with_root();
    let actor = add_user(&mut store, &root, "actor", vec![Permission::GenreWrite, Permission::PermissionAdd]);
    add_user(&mut store, &root, "u", vec![]);
    assert_eq!(store.grant(&actor, "u", &vec![Permission::GenreWrite]), Ok(()));
    assert_eq!(store.user("u").unwrap().permissions, vec![Permission::GenreWrite]);
    assert_eq!(
        store.grant(&actor, "u", &vec![Permission::GenreWrite, Permission::GenreDelete]),
        Err(status(FORBIDDEN))
    );
    assert_eq!(store.user("u").unwrap().permissions, vec![Permission::GenreWrite]);
}

#[test]
fn grant_is_a_union_and_regranting_changes_nothing() {
    let (mut store, root) = store_with_root();
    add_user(&mut store, &root, "u", vec![Permission::AlbumRead]);
    assert_eq!(store.grant(&root, "u", &vec![Permission::GenreWrite, Permission::AlbumRead]), Ok(()));
    assert_eq!(store.user("u").unwrap().permissions, vec![Permission::AlbumRead, Permission::GenreWrite]);
    assert_eq!(store.grant(&root, "u", &vec![Permission::GenreWrite]), Ok(()));
    assert_eq!(store.user("u").unwrap().permissions, vec![Permission::AlbumRead, Permission::GenreWrite]);
    assert_eq!(store.grant(&root, "u", &vec![]), Ok(()));
    assert_eq!(store.user("u").unwrap().permissions, vec![Permission::AlbumRead, Permission::GenreWrite]);
}

#[test]
fn grant_without_the_anchor_is_forbidden() {
    let (mut store, root) = store_with_root();
    let actor = add_user(&mut store, &root, "actor", vec![Permission::GenreWrite]);
    add_user(&mut store, &root, "u", vec![]);
    assert_eq!(store.grant(&actor, "u", &vec![Permission::GenreWrite]), Err(status(FORBIDDEN)));
    assert_eq!(store.grant(&actor, "u", &vec![]), Err(status(FORBIDDEN)));
    assert_eq!(store.user("u").unwrap().permissions, Vec::<Permission>::new());
}

#[test]
fn grant_to_a_missing_user_is_not_found() {
    let (mut store, root) = store_with_root();
    assert_eq!(store.grant(&root, "ghost", &vec![Permission::GenreWrite]), Err(status(NOT_FOUND)));
    assert!(!store.has_user("ghost"));
    let weak = add_user(&mut store, &root, "weak", vec![]);
    assert_eq!(store.grant(&weak, "ghost", &vec![Permission::GenreWrite]), Err(status(FORBIDDEN)));
}

#[test]
fn revoke_takes_dominance_over_the_whole_target() {
    let (mut store, root) = store_with_root();
    let actor = add_user(&mut store, &root, "actor", vec![Permission::PermissionDelete, Permission::GenreRead]);
    add_user(&mut store, &root, "u", vec![Permission::GenreRead, Permission::GenreWrite]);
    assert_eq!(store.revoke(&actor, "u", &vec![Permission::GenreRead]), Err(status(FORBIDDEN)));
    assert_eq!(store.user("u").unwrap().permissions, vec![Permission::GenreRead, Permission::GenreWrite]);
    assert_eq!(store.revoke(&root, "u", &vec![Permission::GenreWrite]), Ok(()));
    assert_eq!(store.user("u").unwrap().permissions, vec![Permission::GenreRead]);
    assert_eq!(store.revoke(&actor, "u", &vec![Permission::GenreRead]), Ok(()));
    assert_eq!(store.user("u").unwrap().permissions, Vec::<Permission>::new());
}

#[test]
fn revoking_what_nobody_holds_changes_nothing() {
    let (mut store, root) = store_with_root();
    add_user(&mut store, &root, "u", vec![Permission::GenreRead]);
    assert_eq!(store.revoke(&root, "u", &vec![Permission::AudioDelete, Permission::TrackRead]), Ok(()));
    assert_eq!(store.user("u").unwrap().permissions, vec![Permission::GenreRead]);
    assert_eq!(store.revoke(&root, "u", &vec![]), Ok(()));
    assert_eq!(store.user("u").unwrap().permissions, vec![Permission::GenreRead]);
    assert_eq!(store.revoke(&root, "ghost", &vec![Permission::GenreRead]), Ok(()));
    assert!(!store.has_user("ghost"));
    assert_eq!(store.user_count(), 2);
}

#[test]
fn revoke_without_the_anchor_is_forbidden() {
    let (mut store, root) = store_with_root();
    let actor = add_user(&mut store, &root, "actor", vec![Permission::GenreRead]);
    add_user(&mut store, &root, "u", vec![Permission::GenreRead]);
    assert_eq!(store.revoke(&actor, "u", &vec![Permission::GenreRead]), Err(status(FORBIDDEN)));
    assert_eq!(store.revoke(&actor, "ghost", &vec![]), Err(status(FORBIDDEN)));
}

#[test]
fn self_deletion_needs_no_permission() {
    let (mut store, root) = store_with_root();
    let nobody = add_user(&mut store, &root, "nobody", vec![]);
    assert_eq!(store.delete_user(&nobody, "nobody"), Ok(()));
    assert!(!store.has_user("nobody"));
    assert_eq!(store.user("nobody"), None);
    assert_eq!(store.delete_user(&nobody, "nobody"), Ok(()));
}

#[test]
fn deleting_a_stronger_or_equal_user_is_forbidden() {
    let (mut store, root) = store_with_root();
    let actor = add_user(&mut store, &root, "actor", vec![Permission::UserDelete, Permission::GenreRead]);
    add_user(&mut store, &root, "stronger", vec![Permission::UserDelete, Permission::GenreRead, Permission::GenreWrite]);
    add_user(&mut store, &root, "other", vec![Permission::GenreWrite]);
    let plain = add_user(&mut store, &root, "plain", vec![Permission::GenreRead]);
    add_user(&mut store, &root, "twin", vec![Permission::GenreRead]);
    assert_eq!(store.delete_user(&actor, "stronger"), Err(status(FORBIDDEN)));
    assert_eq!(store.delete_user(&actor, "root"), Err(status(FORBIDDEN)));
    assert_eq!(store.delete_user(&actor, "other"), Err(status(FORBIDDEN)));
    assert_eq!(store.delete_user(&plain, "twin"), Err(status(FORBIDDEN)));
    assert!(store.has_user("stronger") && store.has_user("other") && store.has_user("twin"));
    assert_eq!(store.delete_user(&actor, "twin"), Ok(()));
    assert!(!store.has_user("twin"));
}

#[test]
fn deleting_an_equal_user_takes_the_anchor() {
    let (mut store, root) = store_with_root();
    let one = add_user(&mut store, &root, "one", vec![Permission::UserDelete, Permission::GenreRead]);
    add_user(&mut store, &root, "two", vec![Permission::GenreRead, Permission::UserDelete]);
    let plain = add_user(&mut store, &root, "plain", vec![Permission::GenreRead]);
    add_user(&mut store, &root, "twin", vec![Permission::GenreRead]);
    assert_eq!(store.delete_user(&plain, "twin"), Err(status(FORBIDDEN)));
    assert_eq!(store.delete_user(&one, "two"), Ok(()));
    assert!(!store.has_user("two"));
    assert!(store.has_user("twin"));
}

#[test]
fn deleting_a_missing_user_is_not_found() {
    let (mut store, root) = store_with_root();
    assert_eq!(store.delete_user(&root, "ghost"), Err(status(NOT_FOUND)));
    let weak = add_user(&mut store, &root, "weak", vec![]);
    assert_eq!(store.delete_user(&weak, "ghost"), Err(status(NOT_FOUND)));
}

#[test]
fn invite_needs_the_anchor_and_what_it_grants() {
    let (mut store, root) = store_with_root();
    let maker = add_user(&mut store, &root, "maker", vec![Permission::InviteWrite, Permission::GenreRead]);
    let reader = add_user(&mut store, &root, "reader", vec![Permission::GenreRead]);
    let wanted = |code: &str, permissions: Vec<Permission>| Invite {
        code: code.to_string(),
        permissions,
        remaining: 2,
        creator: "someone else".to_string(),
    };
    assert_eq!(
        store.create_invite(&maker, wanted("a", vec![Permission::GenreRead, Permission::GenreWrite])),
        Err(status(FORBIDDEN))
    );
    assert_eq!(store.create_invite(&reader, wanted("a", vec![Permission::GenreRead])), Err(status(FORBIDDEN)));
    assert_eq!(store.create_invite(&reader, wanted("a", vec![])), Err(status(FORBIDDEN)));
    assert_eq!(store.invite("a"), None);
    let made = store.create_invite(&maker, wanted("a", vec![Permission::GenreRead])).unwrap();
    assert_eq!(
        made,
        Invite {
            code: "a".to_string(),
            permissions: vec![Permission::GenreRead],
            remaining: 2,
            creator: "maker".to_string()
        }
    );
    assert_eq!(store.invite("a"), Some(made));
}

#[test]
fn invite_code_must_be_new() {
    let (mut store, root) = store_with_root();
    let first = Invite { code: "dup".to_string(), permissions: vec![Permission::GenreRead], remaining: 5, creator: String::new() };
    let second = Invite { code: "dup".to_string(), permissions: vec![], remaining: 9, creator: String::new() };
    assert!(store.create_invite(&root, first).is_ok());
    assert_eq!(store.create_invite(&root, second), Err(status(CONFLICT)));
    let kept = store.invite("dup").unwrap();
    assert_eq!(kept.remaining, 5);
    assert_eq!(kept.permissions, vec![Permission::GenreRead]);
    let weak = add_user(&mut store, &root, "weak", vec![]);
    let third = Invite { code: "dup".to_string(), permissions: vec![], remaining: 1, creator: String::new() };
    assert_eq!(store.create_invite(&weak, third), Err(status(FORBIDDEN)));
}

#[test]
fn single_use_invite_is_redeemed_once() {
    let (mut store, root) = store_with_root();
    store
        .create_invite(
            &root,
            Invite {
                code: "ABC".to_string(),
                permissions: vec![Permission::GenreRead],
                remaining: 1,
                creator: String::new(),
            },
        )
        .unwrap();
    assert_eq!(store.redeem("ABC", &login("first", "pw")), Ok(()));
    assert_eq!(store.redeem("ABC", &login("second", "pw")), Err(status(NOT_FOUND)));
    assert!(store.has_user("first"));
    assert!(!store.has_user("second"));
    assert_eq!(store.user_count(), 2);
    assert_eq!(store.invite("ABC"), None);
    assert_eq!(store.user("first").unwrap().permissions, vec![Permission::GenreRead]);
}

#[test]
fn invite_counts_down_and_leaves_with_its_last_use() {
    let (mut store, root) = store_with_root();
    store
        .create_invite(
            &root,
            Invite { code: "three".to_string(), permissions: vec![Permission::DocsRead], remaining: 3, creator: String::new() },
        )
        .unwrap();
    assert_eq!(store.redeem_with_hash("three", "a".to_string(), "d".to_string()), Ok(()));
    assert_eq!(store.invite("three").unwrap().remaining, 2);
    assert_eq!(store.redeem_with_hash("three", "b".to_string(), "d".to_string()), Ok(()));
    assert_eq!(store.invite("three").unwrap().remaining, 1);
    assert_eq!(store.invite("three").unwrap().creator, "root");
    assert_eq!(store.redeem_with_hash("three", "c".to_string(), "d".to_string()), Ok(()));
    assert_eq!(store.invite("three"), None);
    assert_eq!(store.redeem_with_hash("three", "d".to_string(), "d".to_string()), Err(status(NOT_FOUND)));
    assert_eq!(store.user_count(), 4);
    for name in ["a", "b", "c"] {
        assert_eq!(store.user(name).unwrap().permissions, vec![Permission::DocsRead]);
    }
}

#[test]
fn invite_without_uses_cannot_be_redeemed() {
    let (mut store, root) = store_with_root();
    store
        .create_invite(
            &root,
            Invite { code: "none".to_string(), permissions: vec![], remaining: 0, creator: String::new() },
        )
        .unwrap();
    assert_eq!(store.redeem_with_hash("none", "a".to_string(), "d".to_string()), Err(status(NOT_FOUND)));
    assert_eq!(store.redeem("none", &login("a", "pw")), Err(status(NOT_FOUND)));
    assert!(!store.has_user("a"));
    assert_eq!(store.invite("none").unwrap().remaining, 0);
}

#[test]
fn redeeming_an_unknown_code_is_not_found() {
    let (mut store, _root) = store_with_root();
    assert_eq!(store.redeem("missing", &login("a", "pw")), Err(status(NOT_FOUND)));
    assert_eq!(store.user_count(), 1);
}

#[test]
fn redeeming_for_a_taken_username_breaks_a_constraint() {
    let (mut store, root) = store_with_root();
    store
        .create_invite(
            &root,
            Invite { code: "two".to_string(), permissions: vec![], remaining: 2, creator: String::new() },
        )
        .unwrap();
    let refused = store.redeem_with_hash("two", "root".to_string(), "d".to_string());
    assert_eq!(
        refused,
        Err(ApiError::RusqliteError((Status { code: CONFLICT }, "Rusqlite Error: constraint failed".to_string())))
    );
    let error = refused.unwrap_err();
    assert_eq!(error.kind(), Failure::ConstraintViolation);
    assert_eq!(error.status(), Status { code: 409 });
    assert_eq!(store.invite("two").unwrap().remaining, 2);
    assert_eq!(store.user("root").unwrap().permissions, Permission::all());
}

#[test]
fn deleting_an_invite_takes_the_permission_and_is_idempotent() {
    let (mut store, root) = store_with_root();
    let weak = add_user(&mut store, &root, "weak", vec![Permission::InviteWrite]);
    store
        .create_invite(
            &root,
            Invite { code: "gone".to_string(), permissions: vec![], remaining: 2, creator: String::new() },
        )
        .unwrap();
    assert_eq!(store.delete_invite(&weak, "gone"), Err(status(FORBIDDEN)));
    assert!(store.invite("gone").is_some());
    assert_eq!(store.delete_invite(&root, "gone"), Ok(()));
    assert_eq!(store.invite("gone"), None);
    assert_eq!(store.delete_invite(&root, "gone"), Ok(()));
    assert_eq!(store.delete_invite(&root, "never there"), Ok(()));
}

#[test]
fn login_issues_tokens_that_resolve() {
    let mut store = Store::new();
    store.initialize(&login("root", "pw1")).unwrap();
    let token = store.login(&login("root", "pw1")).unwrap();
    assert_eq!(token.len(), 36);
    assert_eq!(store.resolve(&token), Ok(User { username: "root".to_string(), permissions: Permission::all() }));
    assert_eq!(store.authenticate(Some(token.as_str())).unwrap().username, "root");
    assert_eq!(store.authenticate(None), Err(status(UNAUTHORIZED)));
    assert_eq!(store.resolve("not a token"), Err(status(UNAUTHORIZED)));
    assert_eq!(store.resolve("not a token").unwrap_err().kind(), Failure::Unauthenticated);
}

#[test]
fn wrong_password_and_unknown_user_look_the_same() {
    let mut store = Store::new();
    store.initialize(&login("root", "pw1")).unwrap();
    let wrong = store.login(&login("root", "pw2"));
    let unknown = store.login(&login("nobody", "pw1"));
    assert_eq!(wrong, Err(status(FORBIDDEN)));
    assert_eq!(unknown, wrong);
    assert_eq!(store.verify_login(&login("root", "")), Err(status(FORBIDDEN)));
}

#[test]
fn a_digest_that_cannot_be_read_is_a_refusal() {
    let (store, _root) = store_with_root();
    assert_eq!(store.verify_login(&login("root", "digest")), Err(status(FORBIDDEN)));
}

#[test]
fn tokens_are_per_device_and_revoked_one_by_one() {
    let (mut store, root) = store_with_root();
    assert_eq!(store.record_token("t1".to_string(), "root"), Ok(()));
    assert_eq!(store.record_token("t2".to_string(), "root"), Ok(()));
    assert_eq!(store.resolve("t1").unwrap(), root);
    assert_eq!(store.resolve("t2").unwrap(), root);
    store.revoke_token("t1");
    assert_eq!(store.resolve("t1"), Err(status(UNAUTHORIZED)));
    assert_eq!(store.resolve("t2").unwrap(), root);
    store.revoke_token("t1");
    store.revoke_token("never issued");
    assert_eq!(store.resolve("t2").unwrap(), root);
}

#[test]
fn token_must_be_new_and_for_a_known_user() {
    let (mut store, _root) = store_with_root();
    assert_eq!(store.record_token("t".to_string(), "root"), Ok(()));
    assert_eq!(store.record_token("t".to_string(), "root").unwrap_err().kind(), Failure::ConstraintViolation);
    assert_eq!(store.record_token("u".to_string(), "ghost").unwrap_err().kind(), Failure::ConstraintViolation);
    assert_eq!(store.resolve("u"), Err(status(UNAUTHORIZED)));
}

#[test]
fn revoking_all_tokens_is_for_the_user_or_the_privileged() {
    let (mut store, root) = store_with_root();
    let a = add_user(&mut store, &root, "a", vec![]);
    let b = add_user(&mut store, &root, "b", vec![Permission::TokenDelete]);
    for (token, user) in [("a1", "a"), ("a2", "a"), ("b1", "b"), ("r1", "root")] {
        store.record_token(token.to_string(), user).unwrap();
    }
    assert_eq!(store.revoke_all(&a, "b"), Err(status(FORBIDDEN)));
    assert!(store.resolve("b1").is_ok());
    assert_eq!(store.revoke_all(&a, "a"), Ok(()));
    assert_eq!(store.resolve("a1"), Err(status(UNAUTHORIZED)));
    assert_eq!(store.resolve("a2"), Err(status(UNAUTHORIZED)));
    assert!(store.resolve("b1").is_ok() && store.resolve("r1").is_ok());
    assert_eq!(store.revoke_all(&b, "root"), Ok(()));
    assert_eq!(store.resolve("r1"), Err(status(UNAUTHORIZED)));
    assert_eq!(store.revoke_all(&b, "root"), Ok(()));
    assert_eq!(store.revoke_all(&b, "ghost"), Ok(()));
    assert!(store.resolve("b1").is_ok());
}

#[test]
fn deleting_a_user_revokes_its_tokens() {
    let (mut store, root) = store_with_root();
    add_user(&mut store, &root, "a", vec![]);
    store.record_token("a1".to_string(), "a").unwrap();
    store.record_token("r1".to_string(), "root").unwrap();
    assert_eq!(store.delete_user(&root, "a"), Ok(()));
    assert_eq!(store.resolve("a1"), Err(status(UNAUTHORIZED)));
    assert!(store.resolve("r1").is_ok());
    add_user(&mut store, &root, "a", vec![Permission::GenreRead]);
    assert_eq!(store.resolve("a1"), Err(status(UNAUTHORIZED)));
}

#[test]
fn resolve_sees_the_permissions_of_now() {
    let (mut store, root) = store_with_root();
    add_user(&mut store, &root, "a", vec![Permission::GenreRead]);
    store.record_token("a1".to_string(), "a").unwrap();
    assert_eq!(store.resolve("a1").unwrap().permissions, vec![Permission::GenreRead]);
    store.grant(&root, "a", &vec![Permission::GenreWrite]).unwrap();
    assert!(same_set(&store.resolve("a1").unwrap().permissions, &[Permission::GenreRead, Permission::GenreWrite]));
    store.revoke(&root, "a", &vec![Permission::GenreRead]).unwrap();
    assert_eq!(store.resolve("a1").unwrap().permissions, vec![Permission::GenreWrite]);
}
