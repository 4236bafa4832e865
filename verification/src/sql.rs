//! The statements that the service sends to its relational store. Values never
//! stand in the text of a statement: each one is a parameter behind a placeholder.

use vstd::prelude::*;
use vstd::string::StringExecFns;
use crate::permission::{all_permissions, joined_names, names_of, Permission};
use crate::text::join;

verus! {

/// A value bound to a placeholder.
#[derive(Clone, Debug, PartialEq, Eq)]
pub enum Value {
    Text(String),
    Integer(u16),
}

/// A bound value as mathematics.
pub enum ValueView {
    Text(Seq<char>),
    Integer(u16),
}

impl View for Value {
    type V = ValueView;

    open spec fn view(&self) -> ValueView {
        match self {
            Value::Text(text) => ValueView::Text(text@),
            Value::Integer(n) => ValueView::Integer(*n),
        }
    }
}

/// A statement with the values for its placeholders, in order.
#[derive(Clone, Debug, PartialEq, Eq)]
pub struct Statement {
    pub sql: String,
    pub params: Vec<Value>,
}

/// A statement as mathematics.
pub struct StatementView {
    pub sql: Seq<char>,
    pub params: Seq<ValueView>,
}

impl View for Statement {
    type V = StatementView;

    open spec fn view(&self) -> StatementView {
        StatementView { sql: self.sql@, params: self.params@.map_values(|v: Value| v@) }
    }
}

/// Statements to be run in order, all or none.
#[derive(Clone, Debug, PartialEq, Eq)]
pub struct Transaction {
    pub statements: Vec<Statement>,
}

impl View for Transaction {
    type V = Seq<StatementView>;

    open spec fn view(&self) -> Seq<StatementView> {
        self.statements@.map_values(|s: Statement| s@)
    }
}

/// `count` copies of `unit`.
pub open spec fn copies(unit: Seq<char>, count: nat) -> Seq<Seq<char>> {
    Seq::new(count, |i: int| unit)
}

/// The parameters of a statement with one `(name, owner)` pair per permission: the
/// name of each permission, each followed by `owner`.
pub open spec fn paired_params(permissions: Seq<Permission>, owner: Seq<char>) -> Seq<ValueView> {
    Seq::new(
        2 * permissions.len(),
        |i: int|
            if i % 2 == 0 {
                ValueView::Text(permissions[i / 2].spec_name())
            } else {
                ValueView::Text(owner)
            },
    )
}

/// The parameters of a statement that names an owner once and then each
/// permission.
pub open spec fn listed_params(owner: Seq<char>, permissions: Seq<Permission>) -> Seq<ValueView> {
    seq![ValueView::Text(owner)] + permissions.map_values(|p: Permission| ValueView::Text(p.spec_name()))
}

/// A statement with text parameters only.
pub open spec fn text_statement(sql: Seq<char>, params: Seq<Seq<char>>) -> StatementView {
    StatementView { sql, params: params.map_values(|t: Seq<char>| ValueView::Text(t)) }
}

/// The statement that seeds the table of permissions with every canonical name;
/// names that are there already are left alone.
pub open spec fn migration_text() -> Seq<char> {
    "INSERT OR IGNORE INTO permissions (id) VALUES ('"@ + join(names_of(all_permissions()), "'), ('"@) + "');"@
}

/// `count` copies of `unit` with `sep` between them.
pub fn repeated(unit: &str, sep: &str, count: usize) -> (r: String)
    ensures
        r@ == join(copies(unit@, count as nat), sep@),
{
    let mut out = String::new();
    let mut i: usize = 0;
    while i < count
        invariant
            i <= count,
            out@ == join(copies(unit@, i as nat), sep@),
        decreases count - i,
    {
        proof {
            assert(copies(unit@, (i + 1) as nat).drop_last() =~= copies(unit@, i as nat));
            assert(copies(unit@, (i + 1) as nat).last() == unit@);
            if i == 0 {
                assert(out@ + unit@ =~= unit@);
                assert(copies(unit@, 1)[0] == unit@);
            }
        }
        if i > 0 {
            out.append(sep);
        }
        out.append(unit);
        i += 1;
    }
    out
}

/// The statement that seeds the table of permissions.
pub fn migration() -> (r: String)
    ensures
        r@ == migration_text(),
{
    let all = Permission::all();
    let names = joined_names(&all, "'), ('");
    let mut out = String::from_str("INSERT OR IGNORE INTO permissions (id) VALUES ('");
    out.append(names.as_str());
    out.append("');");
    out
}

/// Resolves a token to its user and the permissions that the user holds now, joined
/// by commas, in one read.
pub const RESOLVE_TOKEN: &'static str =
    "SELECT users.username AS username, COALESCE(GROUP_CONCAT(DISTINCT user_permissions.id), \
     '') AS permissions FROM tokens LEFT JOIN users ON tokens.username = users.username LEFT \
     JOIN user_permissions ON tokens.username = user_permissions.username WHERE tokens.id = ? \
     GROUP BY user_permissions.username";

/// Whether the store holds any user, and whether it holds any invite.
pub const STORE_IN_USE: &'static str = "SELECT EXISTS(SELECT 1 FROM users), EXISTS(SELECT 1 FROM invites)";

/// Whether an invite stands under a code.
pub const INVITE_EXISTS: &'static str = "SELECT EXISTS(SELECT 1 FROM invites WHERE code = ?)";

/// The uses that an invite has left and the permissions that it grants.
pub const FIND_INVITE: &'static str =
    "SELECT invites.remaining AS remaining, GROUP_CONCAT(DISTINCT invite_permissions.id) AS \
     permissions FROM invites LEFT JOIN invite_permissions ON invites.code = \
     invite_permissions.code WHERE invites.code = ? GROUP BY invites.code";

/// The permissions that a user holds now; one row whether the user exists or not.
pub const HELD_PERMISSIONS: &'static str =
    "SELECT GROUP_CONCAT(DISTINCT id) AS permissions FROM user_permissions WHERE username = ?";

/// The permissions that an existing user holds now; no row for a user that does
/// not exist.
pub const USER_PERMISSIONS: &'static str =
    "SELECT GROUP_CONCAT(DISTINCT user_permissions.id) AS permissions FROM users LEFT JOIN \
     user_permissions ON users.username = user_permissions.username WHERE users.username = ? \
     GROUP BY users.username";

/// Every invite, one row each, with what it grants joined by commas; a search adds
/// its conditions behind.
pub const ALL_INVITES: &'static str =
    "SELECT invites.code, GROUP_CONCAT(DISTINCT invite_permissions.id) AS permissions, \
     invites.remaining, invites.creator FROM invites LEFT JOIN invite_permissions ON \
     invites.code = invite_permissions.code WHERE 1=1";

/// Every user, one row each, with what it holds joined by commas; a search adds its
/// conditions behind.
pub const ALL_USERS: &'static str =
    "SELECT users.username AS username, COALESCE(GROUP_CONCAT(DISTINCT user_permissions.id), \
     '') AS permissions FROM users LEFT JOIN user_permissions ON users.username = \
     user_permissions.username WHERE 1=1";

/// Whether a user stands under a username.
pub const USER_EXISTS: &'static str = "SELECT EXISTS(SELECT 1 FROM users WHERE username = ?)";

/// The digest of a user's password.
pub const USER_HASH: &'static str = "SELECT hash FROM users WHERE username = ?";

/// Adds a user with the digest of its password.
pub open spec fn insert_user_view(username: Seq<char>, hash: Seq<char>) -> StatementView {
    text_statement("INSERT INTO users (username, hash) VALUES (?1, ?2)"@, seq![username, hash])
}

/// Gives a new user its permissions, one row each.
pub open spec fn insert_user_permissions_view(username: Seq<char>, permissions: Seq<Permission>) -> StatementView {
    StatementView {
        sql: "INSERT INTO user_permissions (id, username) VALUES "@ + join(
            copies("(?, ?)"@, permissions.len()),
            ", "@,
        ),
        params: paired_params(permissions, username),
    }
}

/// Grants permissions to a user; rows that are there already are left alone.
pub open spec fn grant_view(username: Seq<char>, permissions: Seq<Permission>) -> StatementView {
    StatementView {
        sql: "INSERT OR IGNORE INTO user_permissions (id, username) VALUES "@ + join(
            copies("\n (?, ?)"@, permissions.len()),
            ","@,
        ) + ";"@,
        params: paired_params(permissions, username),
    }
}

/// Revokes permissions from a user; rows that are not there are no error.
pub open spec fn revoke_view(username: Seq<char>, permissions: Seq<Permission>) -> StatementView {
    StatementView {
        sql: "DELETE FROM user_permissions WHERE username = ? AND id IN ("@ + join(
            copies("?"@, permissions.len()),
            ", "@,
        ) + ")"@,
        params: listed_params(username, permissions),
    }
}

/// Adds an invite.
pub open spec fn insert_invite_view(code: Seq<char>, remaining: u16, creator: Seq<char>) -> StatementView {
    StatementView {
        sql: "INSERT INTO invites (code, remaining, creator) VALUES (?1, ?2, ?3)"@,
        params: seq![ValueView::Text(code), ValueView::Integer(remaining), ValueView::Text(creator)],
    }
}

/// Gives a new invite the permissions that it grants, one row each.
pub open spec fn insert_invite_permissions_view(code: Seq<char>, permissions: Seq<Permission>) -> StatementView {
    StatementView {
        sql: "INSERT INTO invite_permissions (id, code) VALUES "@ + join(
            copies("(?, ?)"@, permissions.len()),
            ", "@,
        ),
        params: paired_params(permissions, code),
    }
}

/// Sets the uses that an invite has left.
pub open spec fn update_remaining_view(code: Seq<char>, remaining: u16) -> StatementView {
    StatementView {
        sql: "UPDATE invites SET remaining = ? WHERE code = ?"@,
        params: seq![ValueView::Integer(remaining), ValueView::Text(code)],
    }
}

/// Deletes an invite.
pub open spec fn delete_invite_view(code: Seq<char>) -> StatementView {
    text_statement("DELETE FROM invites WHERE code = ?"@, seq![code])
}

/// Deletes a user.
pub open spec fn delete_user_view(username: Seq<char>) -> StatementView {
    text_statement("DELETE FROM users WHERE username = ?"@, seq![username])
}

/// Registers a token for a user.
pub open spec fn insert_token_view(token: Seq<char>, username: Seq<char>) -> StatementView {
    text_statement("INSERT INTO tokens (id, username) VALUES (?1, ?2)"@, seq![token, username])
}

/// Deletes every token of a user.
pub open spec fn delete_tokens_view(username: Seq<char>) -> StatementView {
    text_statement("DELETE FROM tokens WHERE username = ?"@, seq![username])
}

/// A statement with one text parameter.
fn with_one(sql: &str, first: &str) -> (r: Statement)
    ensures
        r@ == text_statement(sql@, seq![first@]),
{
    let mut params: Vec<Value> = Vec::new();
    params.push(Value::Text(first.to_owned()));
    let made = Statement { sql: sql.to_owned(), params };
    assert(made@.params =~= text_statement(sql@, seq![first@]).params);
    made
}

/// A statement with two text parameters.
fn with_two(sql: &str, first: &str, second: &str) -> (r: Statement)
    ensures
        r@ == text_statement(sql@, seq![first@, second@]),
{
    let mut params: Vec<Value> = Vec::new();
    params.push(Value::Text(first.to_owned()));
    params.push(Value::Text(second.to_owned()));
    let made = Statement { sql: sql.to_owned(), params };
    assert(made@.params =~= text_statement(sql@, seq![first@, second@]).params);
    made
}

/// The name of each permission, each followed by `owner`.
fn paired(permissions: &Vec<Permission>, owner: &str) -> (r: Vec<Value>)
    ensures
        r@.map_values(|v: Value| v@) == paired_params(permissions@, owner@),
{
    let mut out: Vec<Value> = Vec::new();
    let mut i: usize = 0;
    while i < permissions.len()
        invariant
            i <= permissions.len(),
            out@.len() == 2 * i,
            out@.map_values(|v: Value| v@) == paired_params(permissions@.take(i as int), owner@),
        decreases permissions.len() - i,
    {
        let ghost before = out@.map_values(|v: Value| v@);
        out.push(Value::Text(permissions[i].to_string()));
        out.push(Value::Text(owner.to_owned()));
        proof {
            let now = out@.map_values(|v: Value| v@);
            let want = paired_params(permissions@.take(i + 1), owner@);
            assert(now.len() == want.len());
            assert forall|k: int| 0 <= k < now.len() implies now[k] == want[k] by {
                if k < 2 * i {
                    assert(now[k] == before[k]);
                    assert(permissions@.take(i as int)[k / 2] == permissions@.take(i + 1)[k / 2]);
                } else {
                    assert(permissions@.take(i + 1)[i as int] == permissions@[i as int]);
                }
            }
            assert(now =~= want);
        }
        i += 1;
    }
    proof {
        assert(permissions@.take(permissions.len() as int) =~= permissions@);
    }
    out
}

/// `owner`, then the name of each permission.
fn listed(owner: &str, permissions: &Vec<Permission>) -> (r: Vec<Value>)
    ensures
        r@.map_values(|v: Value| v@) == listed_params(owner@, permissions@),
{
    let mut out: Vec<Value> = Vec::new();
    out.push(Value::Text(owner.to_owned()));
    let mut i: usize = 0;
    assert(out@.map_values(|v: Value| v@) =~= listed_params(owner@, permissions@.take(0)));
    while i < permissions.len()
        invariant
            i <= permissions.len(),
            out@.len() == i + 1,
            out@.map_values(|v: Value| v@) == listed_params(owner@, permissions@.take(i as int)),
        decreases permissions.len() - i,
    {
        let ghost before = out@.map_values(|v: Value| v@);
        out.push(Value::Text(permissions[i].to_string()));
        proof {
            let now = out@.map_values(|v: Value| v@);
            let want = listed_params(owner@, permissions@.take(i + 1));
            assert(now.len() == want.len());
            assert forall|k: int| 0 <= k < now.len() implies now[k] == want[k] by {
                if 0 < k <= i {
                    assert(now[k] == before[k]);
                    assert(permissions@.take(i as int)[k - 1] == permissions@.take(i + 1)[k - 1]);
                } else if k == 0 {
                    assert(now[k] == before[k]);
                } else {
                    assert(permissions@.take(i + 1)[i as int] == permissions@[i as int]);
                }
            }
            assert(now =~= want);
        }
        i += 1;
    }
    proof {
        assert(permissions@.take(permissions.len() as int) =~= permissions@);
    }
    out
}

/// The statement that adds a user.
pub fn insert_user(username: &str, hash: &str) -> (r: Statement)
    ensures
        r@ == insert_user_view(username@, hash@),
{
    with_two("INSERT INTO users (username, hash) VALUES (?1, ?2)", username, hash)
}

/// The statement that gives a new user its permissions. It takes at least one
/// permission: a list of values cannot be empty.
pub fn insert_user_permissions(username: &str, permissions: &Vec<Permission>) -> (r: Option<Statement>)
    ensures
        match r {
            Some(statement) => permissions@.len() > 0 && statement@ == insert_user_permissions_view(
                username@,
                permissions@,
            ),
            None => permissions@.len() == 0,
        },
{
    if permissions.len() == 0 {
        return None;
    }
    let mut sql = String::from_str("INSERT INTO user_permissions (id, username) VALUES ");
    sql.append(repeated("(?, ?)", ", ", permissions.len()).as_str());
    Some(Statement { sql, params: paired(permissions, username) })
}

/// The statement that grants permissions to a user. It takes at least one
/// permission: a list of values cannot be empty.
pub fn grant(username: &str, permissions: &Vec<Permission>) -> (r: Option<Statement>)
    ensures
        match r {
            Some(statement) => permissions@.len() > 0 && statement@ == grant_view(username@, permissions@),
            None => permissions@.len() == 0,
        },
{
    if permissions.len() == 0 {
        return None;
    }
    let mut sql = String::from_str("INSERT OR IGNORE INTO user_permissions (id, username) VALUES ");
    sql.append(repeated("\n (?, ?)", ",", permissions.len()).as_str());
    sql.append(";");
    Some(Statement { sql, params: paired(permissions, username) })
}

/// The statement that revokes permissions from a user.
pub fn revoke(username: &str, permissions: &Vec<Permission>) -> (r: Statement)
    ensures
        r@ == revoke_view(username@, permissions@),
{
    let mut sql = String::from_str("DELETE FROM user_permissions WHERE username = ? AND id IN (");
    sql.append(repeated("?", ", ", permissions.len()).as_str());
    sql.append(")");
    Statement { sql, params: listed(username, permissions) }
}

/// The statement that adds an invite.
pub fn insert_invite(code: &str, remaining: u16, creator: &str) -> (r: Statement)
    ensures
        r@ == insert_invite_view(code@, remaining, creator@),
{
    let mut params: Vec<Value> = Vec::new();
    params.push(Value::Text(code.to_owned()));
    params.push(Value::Integer(remaining));
    params.push(Value::Text(creator.to_owned()));
    let made = Statement {
        sql: String::from_str("INSERT INTO invites (code, remaining, creator) VALUES (?1, ?2, ?3)"),
        params,
    };
    assert(made@.params =~= insert_invite_view(code@, remaining, creator@).params);
    made
}

/// The statement that gives a new invite the permissions that it grants. It takes
/// at least one permission.
pub fn insert_invite_permissions(code: &str, permissions: &Vec<Permission>) -> (r: Option<Statement>)
    ensures
        match r {
            Some(statement) => permissions@.len() > 0 && statement@ == insert_invite_permissions_view(
                code@,
                permissions@,
            ),
            None => permissions@.len() == 0,
        },
{
    if permissions.len() == 0 {
        return None;
    }
    let mut sql = String::from_str("INSERT INTO invite_permissions (id, code) VALUES ");
    sql.append(repeated("(?, ?)", ", ", permissions.len()).as_str());
    Some(Statement { sql, params: paired(permissions, code) })
}

/// The statement that sets the uses that an invite has left.
pub fn update_remaining(code: &str, remaining: u16) -> (r: Statement)
    ensures
        r@ == update_remaining_view(code@, remaining),
{
    let mut params: Vec<Value> = Vec::new();
    params.push(Value::Integer(remaining));
    params.push(Value::Text(code.to_owned()));
    let made = Statement { sql: String::from_str("UPDATE invites SET remaining = ? WHERE code = ?"), params };
    assert(made@.params =~= update_remaining_view(code@, remaining).params);
    made
}

/// The statement that deletes an invite.
pub fn delete_invite(code: &str) -> (r: Statement)
    ensures
        r@ == delete_invite_view(code@),
{
    with_one("DELETE FROM invites WHERE code = ?", code)
}

/// The statement that deletes a user.
pub fn delete_user(username: &str) -> (r: Statement)
    ensures
        r@ == delete_user_view(username@),
{
    with_one("DELETE FROM users WHERE username = ?", username)
}

/// The statement that registers a token for a user.
pub fn insert_token(token: &str, username: &str) -> (r: Statement)
    ensures
        r@ == insert_token_view(token@, username@),
{
    with_two("INSERT INTO tokens (id, username) VALUES (?1, ?2)", token, username)
}

/// The statement that deletes every token of a user.
pub fn delete_tokens(username: &str) -> (r: Statement)
    ensures
        r@ == delete_tokens_view(username@),
{
    with_one("DELETE FROM tokens WHERE username = ?", username)
}

impl Transaction {
    /// A transaction without statements.
    pub fn new() -> (r: Transaction)
        ensures
            r@ == Seq::<StatementView>::empty(),
    {
        let tx = Transaction { statements: Vec::new() };
        assert(tx@ =~= Seq::<StatementView>::empty());
        tx
    }

    /// Adds a statement behind those that are there.
    pub fn push(&mut self, statement: Statement)
        ensures
            final(self)@ == old(self)@.push(statement@),
    {
        self.statements.push(statement);
        assert(self@ =~= old(self)@.push(statement@));
    }
}

} // verus!
