use tuna_server::permission::{stored_form, joined_names, parse_list, Permission};
use tuna_server::sql;
use tuna_server::sql::{Statement, Transaction, Value};
use tuna_server::user::DangerousLogin;

fn text(s: &str) -> Value {
    Value::Text(s.to_string())
}

#[test]
fn migration_seeds_every_name() {
    assert_eq!(
        sql::migration(),
        "INSERT OR IGNORE INTO permissions (id) VALUES ('DocsRead'), ('InviteWrite'), ('InviteRead'), \
         ('InviteDelete'), ('UserRead'), ('UserDelete'), ('PermissionAdd'), ('PermissionDelete'), \
         ('TokenDelete'), ('GenreWrite'), ('GenreRead'), ('GenreDelete'), ('ArtistWrite'), ('ArtistRead'), \
         ('ArtistDelete'), ('AlbumWrite'), ('AlbumRead'), ('AlbumDelete'), ('TrackWrite'), ('TrackRead'), \
         ('TrackDelete'), ('AudioWrite'), ('AudioRead'), ('AudioDelete');"
    );
}

#[test]
fn repeated_puts_the_separator_between() {
    assert_eq!(sql::repeated("(?, ?)", ", ", 0), "");
    assert_eq!(sql::repeated("(?, ?)", ", ", 1), "(?, ?)");
    assert_eq!(sql::repeated("(?, ?)", ", ", 3), "(?, ?), (?, ?), (?, ?)");
    assert_eq!(sql::repeated("", "-", 3), "--");
    assert_eq!(sql::repeated("x", "", 3), "xxx");
}

#[test]
fn names_are_joined_in_order() {
    assert_eq!(joined_names(&vec![], ", "), "");
    assert_eq!(joined_names(&vec![Permission::UserRead], ", "), "UserRead");
    assert_eq!(joined_names(&vec![Permission::UserRead, Permission::DocsRead], " | "), "UserRead | DocsRead");
}

#[test]
fn stored_form_reads_back() {
    let held = vec![Permission::TrackRead, Permission::DocsRead, Permission::TrackRead];
    assert_eq!(stored_form(&held), "TrackRead,DocsRead,TrackRead");
    assert_eq!(parse_list(&stored_form(&held)), held);
    assert_eq!(stored_form(&vec![]), "");
    assert_eq!(parse_list(&stored_form(&vec![])), vec![]);
    assert_eq!(parse_list(&stored_form(&Permission::all())), Permission::all());
}

#[test]
fn user_statement_binds_name_and_digest() {
    assert_eq!(
        sql::insert_user("ann", "$2b$12$digest"),
        Statement {
            sql: "INSERT INTO users (username, hash) VALUES (?1, ?2)".to_string(),
            params: vec![text("ann"), text("$2b$12$digest")],
        }
    );
}

#[test]
fn user_permissions_statement_pairs_each_name_with_the_user() {
    assert_eq!(sql::insert_user_permissions("ann", &vec![]), None);
    assert_eq!(
        sql::insert_user_permissions("ann", &vec![Permission::GenreRead]),
        Some(Statement {
            sql: "INSERT INTO user_permissions (id, username) VALUES (?, ?)".to_string(),
            params: vec![text("GenreRead"), text("ann")],
        })
    );
    assert_eq!(
        sql::insert_user_permissions("ann", &vec![Permission::GenreRead, Permission::AlbumWrite]),
        Some(Statement {
            sql: "INSERT INTO user_permissions (id, username) VALUES (?, ?), (?, ?)".to_string(),
            params: vec![text("GenreRead"), text("ann"), text("AlbumWrite"), text("ann")],
        })
    );
}

#[test]
fn grant_statement_ignores_rows_that_exist() {
    assert_eq!(sql::grant("bob", &vec![]), None);
    assert_eq!(
        sql::grant("bob", &vec![Permission::DocsRead, Permission::PermissionAdd]),
        Some(Statement {
            sql: "INSERT OR IGNORE INTO user_permissions (id, username) VALUES \n (?, ?),\n (?, ?);".to_string(),
            params: vec![text("DocsRead"), text("bob"), text("PermissionAdd"), text("bob")],
        })
    );
}

#[test]
fn revoke_statement_lists_the_names_behind_the_user() {
    assert_eq!(
        sql::revoke("bob", &vec![Permission::DocsRead, Permission::PermissionDelete]),
        Statement {
            sql: "DELETE FROM user_permissions WHERE username = ? AND id IN (?, ?)".to_string(),
            params: vec![text("bob"), text("DocsRead"), text("PermissionDelete")],
        }
    );
    assert_eq!(
        sql::revoke("bob", &vec![]),
        Statement {
            sql: "DELETE FROM user_permissions WHERE username = ? AND id IN ()".to_string(),
            params: vec![text("bob")],
        }
    );
}

#[test]
fn invite_statements_bind_their_values() {
    assert_eq!(
        sql::insert_invite("ABC", 7, "root"),
        Statement {
            sql: "INSERT INTO invites (code, remaining, creator) VALUES (?1, ?2, ?3)".to_string(),
            params: vec![text("ABC"), Value::Integer(7), text("root")],
        }
    );
    assert_eq!(sql::insert_invite_permissions("ABC", &vec![]), None);
    assert_eq!(
        sql::insert_invite_permissions("ABC", &vec![Permission::GenreRead, Permission::GenreWrite]),
        Some(Statement {
            sql: "INSERT INTO invite_permissions (id, code) VALUES (?, ?), (?, ?)".to_string(),
            params: vec![text("GenreRead"), text("ABC"), text("GenreWrite"), text("ABC")],
        })
    );
    assert_eq!(
        sql::update_remaining("ABC", 6),
        Statement {
            sql: "UPDATE invites SET remaining = ? WHERE code = ?".to_string(),
            params: vec![Value::Integer(6), text("ABC")],
        }
    );
    assert_eq!(
        sql::delete_invite("ABC"),
        Statement { sql: "DELETE FROM invites WHERE code = ?".to_string(), params: vec![text("ABC")] }
    );
}

#[test]
fn user_and_token_statements_bind_their_values() {
    assert_eq!(
        sql::delete_user("ann"),
        Statement { sql: "DELETE FROM users WHERE username = ?".to_string(), params: vec![text("ann")] }
    );
    assert_eq!(
        sql::insert_token("479f879a-db6d-47e9-a094-124cd0ad648f", "ann"),
        Statement {
            sql: "INSERT INTO tokens (id, username) VALUES (?1, ?2)".to_string(),
            params: vec![text("479f879a-db6d-47e9-a094-124cd0ad648f"), text("ann")],
        }
    );
    assert_eq!(
        sql::delete_tokens("ann"),
        Statement { sql: "DELETE FROM tokens WHERE username = ?".to_string(), params: vec![text("ann")] }
    );
}

#[test]
fn values_stay_out_of_the_statement_text() {
    let hostile = "x'); DROP TABLE users; --";
    let statement = sql::insert_user(hostile, hostile);
    assert_eq!(statement.sql, "INSERT INTO users (username, hash) VALUES (?1, ?2)");
    assert_eq!(statement.params, vec![text(hostile), text(hostile)]);
    let statement = sql::grant(hostile, &vec![Permission::DocsRead]).unwrap();
    assert_eq!(statement.sql, "INSERT OR IGNORE INTO user_permissions (id, username) VALUES \n (?, ?);");
}

#[test]
fn transaction_keeps_statements_in_order() {
    let mut tx = Transaction::new();
    assert_eq!(tx.statements, vec![]);
    tx.push(sql::delete_user("a"));
    tx.push(sql::delete_tokens("a"));
    assert_eq!(tx.statements, vec![sql::delete_user("a"), sql::delete_tokens("a")]);
}

#[test]
fn hashed_user_goes_into_a_transaction() {
    let login = DangerousLogin { username: "ann".to_string(), password: "secret".to_string() };
    let mut tx = Transaction::new();
    tx.push(sql::delete_invite("ABC"));
    login.insert_hashed_user_into_transaction("digest", &vec![Permission::GenreRead], &mut tx);
    assert_eq!(
        tx.statements,
        vec![
            sql::delete_invite("ABC"),
            sql::insert_user("ann", "digest"),
            sql::insert_user_permissions("ann", &vec![Permission::GenreRead]).unwrap(),
        ]
    );
    let mut tx = Transaction::new();
    login.insert_hashed_user_into_transaction("digest", &vec![], &mut tx);
    assert_eq!(tx.statements, vec![sql::insert_user("ann", "digest")]);
}

#[test]
fn user_goes_into_a_transaction_with_a_digest_of_the_password() {
    let login = DangerousLogin { username: "ann".to_string(), password: "secret".to_string() };
    let mut tx = Transaction::new();
    assert_eq!(login.insert_user_into_transaction(&vec![Permission::GenreRead], &mut tx), Ok(()));
    assert_eq!(tx.statements.len(), 2);
    assert_eq!(tx.statements[0].sql, "INSERT INTO users (username, hash) VALUES (?1, ?2)");
    assert_eq!(tx.statements[0].params[0], text("ann"));
    let digest = match &tx.statements[0].params[1] {
        Value::Text(digest) => digest.clone(),
        other => panic!("the digest is bound as {other:?}"),
    };
    assert_ne!(digest, "secret");
    assert_eq!(digest.len(), 60);
    assert!(digest.starts_with("$2b$12$"));
    assert_eq!(bcrypt::verify("secret", &digest).ok(), Some(true));
    assert_eq!(tx.statements[1], sql::insert_user_permissions("ann", &vec![Permission::GenreRead]).unwrap());
}
