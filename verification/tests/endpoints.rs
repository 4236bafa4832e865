use tuna_server::endpoints;
use tuna_server::error::{ApiError, Failure, Status};
use tuna_server::invite::Invite;
use tuna_server::permission::Permission;
use tuna_server::sql;
use tuna_server::sql::Value;
use tuna_server::user::{DangerousLogin, User};

fn user(name: &str, permissions: Vec<Permission>) -> User {
    User { username: name.to_string(), permissions }
}

fn login(username: &str, password: &str) -> DangerousLogin {
    DangerousLogin { username: username.to_string(), password: password.to_string() }
}

fn status(code: u16) -> ApiError {
    ApiError::Status(Status { code })
}

fn digest_of(statement: &sql::Statement) -> String {
    match &statement.params[1] {
        Value::Text(digest) => digest.clone(),
        other => panic!("the digest is bound as {other:?}"),
    }
}

#[test]
fn user_init_creates_the_first_user_with_everything() {
    let tx = endpoints::user_init(&login("root", "pw1"), true, true).unwrap();
    assert_eq!(tx.statements.len(), 2);
    let digest = digest_of(&tx.statements[0]);
    assert_eq!(tx.statements[0], sql::insert_user("root", &digest));
    assert_eq!(bcrypt::verify("pw1", &digest).ok(), Some(true));
    assert_eq!(tx.statements[1], sql::insert_user_permissions("root", &Permission::all()).unwrap());
    assert_eq!(tx.statements[1].params.len(), 48);
}

#[test]
fn user_init_is_refused_on_a_store_in_use() {
    assert_eq!(endpoints::user_init(&login("x", "pw2"), false, true), Err(status(409)));
    assert_eq!(endpoints::user_init(&login("x", "pw2"), true, false), Err(status(409)));
    assert_eq!(endpoints::user_init(&login("x", "pw2"), false, false), Err(status(409)));
}

#[test]
fn invite_use_counts_the_invite_down() {
    let found = Some((3, vec![Permission::GenreRead]));
    let tx = endpoints::invite_use("ABC", &login("ann", "pw"), found).unwrap();
    assert_eq!(tx.statements.len(), 3);
    assert_eq!(tx.statements[0], sql::insert_user("ann", &digest_of(&tx.statements[0])));
    assert_eq!(tx.statements[1], sql::insert_user_permissions("ann", &vec![Permission::GenreRead]).unwrap());
    assert_eq!(tx.statements[2], sql::update_remaining("ABC", 2));
}

#[test]
fn invite_use_deletes_the_invite_with_its_last_use() {
    let tx = endpoints::invite_use("ABC", &login("ann", "pw"), Some((1, vec![]))).unwrap();
    assert_eq!(tx.statements.len(), 2);
    assert_eq!(tx.statements[0], sql::insert_user("ann", &digest_of(&tx.statements[0])));
    assert_eq!(tx.statements[1], sql::delete_invite("ABC"));
}

#[test]
fn invite_use_needs_an_invite_with_uses() {
    assert_eq!(endpoints::invite_use("ABC", &login("ann", "pw"), None), Err(status(404)));
    assert_eq!(
        endpoints::invite_use("ABC", &login("ann", "pw"), Some((0, vec![Permission::GenreRead]))),
        Err(status(404))
    );
}

#[test]
fn invite_write_records_the_actor_as_creator() {
    let maker = user("maker", vec![Permission::InviteWrite, Permission::GenreRead]);
    let wanted = Invite {
        code: "ABC".to_string(),
        permissions: vec![Permission::GenreRead],
        remaining: 4,
        creator: "forged".to_string(),
    };
    let (made, tx) = endpoints::invite_write(&maker, wanted.clone(), false).unwrap();
    assert_eq!(made, Invite { creator: "maker".to_string(), ..wanted.clone() });
    assert_eq!(
        tx.statements,
        vec![
            sql::insert_invite("ABC", 4, "maker"),
            sql::insert_invite_permissions("ABC", &vec![Permission::GenreRead]).unwrap(),
        ]
    );
    assert_eq!(endpoints::invite_write(&maker, wanted.clone(), true), Err(status(409)));
    let empty = Invite { permissions: vec![], ..wanted.clone() };
    let (_, tx) = endpoints::invite_write(&maker, empty, false).unwrap();
    assert_eq!(tx.statements, vec![sql::insert_invite("ABC", 4, "maker")]);
    let too_much = Invite { permissions: vec![Permission::GenreRead, Permission::UserDelete], ..wanted };
    assert_eq!(endpoints::invite_write(&maker, too_much, false), Err(status(403)));
}

#[test]
fn invite_delete_takes_the_permission() {
    let tx = endpoints::invite_delete(&user("a", vec![Permission::InviteDelete]), "ABC").unwrap();
    assert_eq!(tx.statements, vec![sql::delete_invite("ABC")]);
    assert_eq!(endpoints::invite_delete(&user("a", vec![Permission::InviteRead]), "ABC"), Err(status(403)));
}

#[test]
fn permission_add_grants_what_the_actor_holds() {
    let actor = user("actor", vec![Permission::GenreWrite, Permission::PermissionAdd]);
    let tx = endpoints::permission_add(&actor, "u", true, &vec![Permission::GenreWrite]).unwrap();
    assert_eq!(tx.statements, vec![sql::grant("u", &vec![Permission::GenreWrite]).unwrap()]);
    assert_eq!(
        endpoints::permission_add(&actor, "u", true, &vec![Permission::GenreWrite, Permission::GenreDelete]),
        Err(status(403))
    );
    assert_eq!(endpoints::permission_add(&actor, "u", true, &vec![]).unwrap().statements, vec![]);
    assert_eq!(endpoints::permission_add(&actor, "ghost", false, &vec![Permission::GenreWrite]), Err(status(404)));
    assert_eq!(endpoints::permission_add(&actor, "ghost", false, &vec![Permission::GenreDelete]), Err(status(403)));
}

#[test]
fn permission_delete_checks_the_whole_target() {
    let actor = user("actor", vec![Permission::GenreRead, Permission::PermissionDelete]);
    let tx = endpoints::permission_delete(&actor, "u", &vec![Permission::GenreRead], &vec![Permission::AudioRead])
        .unwrap();
    assert_eq!(tx.statements, vec![sql::revoke("u", &vec![Permission::AudioRead])]);
    assert_eq!(
        endpoints::permission_delete(
            &actor,
            "u",
            &vec![Permission::GenreRead, Permission::GenreWrite],
            &vec![Permission::GenreRead]
        ),
        Err(status(403))
    );
}

#[test]
fn user_delete_is_free_for_oneself() {
    let nobody = user("nobody", vec![]);
    assert_eq!(
        endpoints::user_delete(&nobody, "nobody", None).unwrap().statements,
        vec![sql::delete_user("nobody")]
    );
    assert_eq!(endpoints::user_delete(&nobody, "other", Some(&vec![])), Err(status(403)));
    assert_eq!(endpoints::user_delete(&nobody, "other", None), Err(status(404)));
    let deleter = user("deleter", vec![Permission::UserDelete]);
    assert_eq!(
        endpoints::user_delete(&deleter, "other", Some(&vec![])).unwrap().statements,
        vec![sql::delete_user("other")]
    );
    assert_eq!(
        endpoints::user_delete(&deleter, "other", Some(&vec![Permission::DocsRead])).unwrap_err().kind(),
        Failure::Forbidden
    );
}

#[test]
fn token_write_registers_a_fresh_token() {
    let digest = bcrypt::hash("pw1", 4).unwrap();
    let (token, tx) = endpoints::token_write(&login("root", "pw1"), Some(digest.as_str())).unwrap();
    assert_eq!(tx.statements, vec![sql::insert_token(&token, "root")]);
    let parsed = uuid::Uuid::parse_str(&token).unwrap();
    assert_eq!(parsed.get_version_num(), 4);
    assert_eq!(token, parsed.hyphenated().to_string());
    let (other, _) = endpoints::token_write(&login("root", "pw1"), Some(digest.as_str())).unwrap();
    assert_ne!(token, other);
}

#[test]
fn token_write_has_one_refusal() {
    let digest = bcrypt::hash("pw1", 4).unwrap();
    assert_eq!(endpoints::token_write(&login("root", "pw2"), Some(digest.as_str())), Err(status(403)));
    assert_eq!(endpoints::token_write(&login("root", "pw1"), None), Err(status(403)));
    assert_eq!(endpoints::token_write(&login("root", "pw1"), Some("pw1")), Err(status(403)));
    assert_eq!(endpoints::token_write(&login("root", digest.as_str()), Some(digest.as_str())), Err(status(403)));
}

#[test]
fn token_delete_is_self_or_privileged() {
    let plain = user("p", vec![]);
    assert_eq!(endpoints::token_delete(&plain, "p").unwrap().statements, vec![sql::delete_tokens("p")]);
    assert_eq!(endpoints::token_delete(&plain, "q"), Err(status(403)));
    let privileged = user("q", vec![Permission::TokenDelete]);
    assert_eq!(endpoints::token_delete(&privileged, "p").unwrap().statements, vec![sql::delete_tokens("p")]);
}

#[test]
fn rows_become_users_and_invites() {
    assert_eq!(
        User::try_from_row("ann".to_string(), &Some("GenreRead,bogus,GenreWrite".to_string())),
        user("ann", vec![Permission::GenreRead, Permission::GenreWrite])
    );
    assert_eq!(User::try_from_row("ann".to_string(), &None), user("ann", vec![]));
    assert_eq!(User::try_from_row("ann".to_string(), &Some(String::new())), user("ann", vec![]));
    assert_eq!(
        Invite::try_from_row("ABC".to_string(), &Some("DocsRead".to_string()), 3, "root".to_string()),
        Invite {
            code: "ABC".to_string(),
            permissions: vec![Permission::DocsRead],
            remaining: 3,
            creator: "root".to_string()
        }
    );
    assert_eq!(
        Invite::try_from_row("ABC".to_string(), &None, 0, String::new()),
        Invite { code: "ABC".to_string(), permissions: vec![], remaining: 0, creator: String::new() }
    );
}
