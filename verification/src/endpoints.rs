//! The operations of the service against a relational store. Each one takes what
//! the caller has read inside its transaction, decides by the rules, and hands back
//! the statements to run before the transaction commits. Where it fails there is
//! nothing to run, and the caller rolls back.

use vstd::prelude::*;
use crate::credential::{bcrypt_verdict, check_password, fresh_token};
use crate::error::{settles, ApiError, Failure};
use crate::gate::as_set;
use crate::invite::Invite;
use crate::permission::{all_permissions, Permission};
use crate::rules;
use crate::rules::{
    bootstrap_failure, direct_failure, grant_to_target_failure, invite_creation_failure, redemption_step,
    revocation_failure, token_revocation_failure, user_deletion_failure, LedgerStep,
};
use crate::search::{around, as_texts, one_of_clause, with_clause, Search};
use crate::sql;
use crate::sql::{
    delete_invite_view, delete_tokens_view, delete_user_view, grant_view, insert_invite_permissions_view,
    insert_invite_view, insert_token_view, revoke_view, update_remaining_view, Statement, StatementView,
    Transaction, ValueView, ALL_INVITES, ALL_USERS,
};
use crate::user::{user_statements, DangerousLogin, User};

verus! {

/// The statement that settles an invite after a redemption.
pub open spec fn ledger_statement(code: Seq<char>, step: LedgerStep) -> StatementView {
    match step {
        LedgerStep::Decrement { remaining } => update_remaining_view(code, remaining),
        LedgerStep::Remove => delete_invite_view(code),
    }
}

/// The statements that record a new invite: the invite itself, then what it grants
/// where it grants anything.
pub open spec fn invite_statements(
    code: Seq<char>,
    remaining: u16,
    creator: Seq<char>,
    permissions: Seq<Permission>,
) -> Seq<StatementView> {
    if permissions.len() == 0 {
        seq![insert_invite_view(code, remaining, creator)]
    } else {
        seq![insert_invite_view(code, remaining, creator), insert_invite_permissions_view(code, permissions)]
    }
}

/// Bootstrap: creates the first user, with every permission, in a store that holds
/// neither users nor invites.
pub fn user_init(login: &DangerousLogin, no_users: bool, no_invites: bool) -> (r: Result<Transaction, ApiError>)
    ensures
        match r {
            Ok(tx) => bootstrap_failure(no_users, no_invites) is None && exists|hash: Seq<char>|
                bcrypt_verdict(login.password@, hash) == Some(true) && tx@ == user_statements(
                    login.username@,
                    hash,
                    all_permissions(),
                ),
            Err(e) => settles(r, bootstrap_failure(no_users, no_invites)) || (bootstrap_failure(
                no_users,
                no_invites,
            ) is None && e is HashError),
        },
{
    match rules::bootstrap(no_users, no_invites) {
        Err(e) => Err(e),
        Ok(()) => {
            let mut tx = Transaction::new();
            match login.insert_user_into_transaction(&Permission::all(), &mut tx) {
                Err(e) => Err(e),
                Ok(()) => Ok(tx),
            }
        },
    }
}

/// Redeems an invite: creates the user with what the invite grants, then counts
/// the invite down or deletes it. `found` is what the ledger has under the code:
/// the uses left and the permissions granted.
pub fn invite_use(code: &str, login: &DangerousLogin, found: Option<(u16, Vec<Permission>)>) -> (r: Result<
    Transaction,
    ApiError,
>)
    ensures
        match found {
            None => settles(r, Some(Failure::NotFound)),
            Some(invite) => match redemption_step(Some(invite.0)) {
                Err(f) => settles(r, Some(f)),
                Ok(step) => match r {
                    Ok(tx) => exists|hash: Seq<char>|
                        bcrypt_verdict(login.password@, hash) == Some(true) && tx@ == user_statements(
                            login.username@,
                            hash,
                            invite.1@,
                        ).push(ledger_statement(code@, step)),
                    Err(e) => e is HashError,
                },
            },
        },
{
    match found {
        None => match rules::redemption(None) {
            Err(e) => Err(e),
            Ok(_) => Err(ApiError::refusal(Failure::NotFound)),
        },
        Some(invite) => match rules::redemption(Some(invite.0)) {
            Err(e) => Err(e),
            Ok(step) => {
                let mut tx = Transaction::new();
                match login.insert_user_into_transaction(&invite.1, &mut tx) {
                    Err(e) => Err(e),
                    Ok(()) => {
                        match step {
                            LedgerStep::Decrement { remaining } => tx.push(sql::update_remaining(code, remaining)),
                            LedgerStep::Remove => tx.push(sql::delete_invite(code)),
                        }
                        Ok(tx)
                    },
                }
            },
        },
    }
}

/// Creates an invite. The actor must hold `InviteWrite` and every permission that
/// the invite grants, and the code must be new. The invite is recorded with the
/// actor as its creator.
pub fn invite_write(actor: &User, invite: Invite, code_taken: bool) -> (r: Result<(Invite, Transaction), ApiError>)
    ensures
        settles(r, invite_creation_failure(actor@.permissions, as_set(invite.permissions@), code_taken)),
        r matches Ok(made) ==> {
            &&& made.0.code == invite.code
            &&& made.0.permissions == invite.permissions
            &&& made.0.remaining == invite.remaining
            &&& made.0.creator@ == actor.username@
            &&& made.1@ == invite_statements(invite.code@, invite.remaining, actor.username@, invite.permissions@)
        },
{
    match rules::invite_creation(actor, &invite.permissions, code_taken) {
        Err(e) => Err(e),
        Ok(()) => {
            let mut tx = Transaction::new();
            tx.push(sql::insert_invite(invite.code.as_str(), invite.remaining, actor.username.as_str()));
            match sql::insert_invite_permissions(invite.code.as_str(), &invite.permissions) {
                Some(statement) => tx.push(statement),
                None => {},
            }
            assert(tx@ =~= invite_statements(invite.code@, invite.remaining, actor.username@, invite.permissions@));
            let made = Invite {
                code: invite.code,
                permissions: invite.permissions,
                remaining: invite.remaining,
                creator: actor.username.clone(),
            };
            Ok((made, tx))
        },
    }
}

/// Deletes an invite. The actor must hold `InviteDelete`; a code that does not
/// exist is no error.
pub fn invite_delete(actor: &User, code: &str) -> (r: Result<Transaction, ApiError>)
    ensures
        settles(r, direct_failure(actor@.permissions, Permission::InviteDelete)),
        r matches Ok(tx) ==> tx@ == seq![delete_invite_view(code@)],
{
    match rules::invite_deletion(actor) {
        Err(e) => Err(e),
        Ok(()) => {
            let mut tx = Transaction::new();
            tx.push(sql::delete_invite(code));
            assert(tx@ =~= seq![delete_invite_view(code@)]);
            Ok(tx)
        },
    }
}

/// Grants permissions to a user. The actor must hold `PermissionAdd` and every
/// permission that is granted, and the user must exist. Granting nothing runs no
/// statement.
pub fn permission_add(actor: &User, username: &str, user_exists: bool, permissions: &Vec<Permission>) -> (r:
    Result<Transaction, ApiError>)
    ensures
        settles(r, grant_to_target_failure(actor@.permissions, as_set(permissions@), user_exists)),
        user_exists ==> (r is Ok <==> as_set(permissions@).insert(Permission::PermissionAdd).subset_of(
            actor@.permissions,
        )),
        r matches Ok(tx) ==> tx@ == if permissions@.len() == 0 {
            Seq::<StatementView>::empty()
        } else {
            seq![grant_view(username@, permissions@)]
        },
{
    match rules::grant_to(actor, permissions, user_exists) {
        Err(e) => Err(e),
        Ok(()) => {
            let mut tx = Transaction::new();
            match sql::grant(username, permissions) {
                Some(statement) => {
                    tx.push(statement);
                    assert(tx@ =~= seq![grant_view(username@, permissions@)]);
                },
                None => {},
            }
            Ok(tx)
        },
    }
}

/// Revokes permissions from a user who now holds `current`. The actor must hold
/// `PermissionDelete` and all of `current`, not only what is revoked.
pub fn permission_delete(actor: &User, username: &str, current: &Vec<Permission>, permissions: &Vec<Permission>) -> (r:
    Result<Transaction, ApiError>)
    ensures
        settles(r, revocation_failure(actor@.permissions, as_set(current@))),
        r matches Ok(tx) ==> tx@ == seq![revoke_view(username@, permissions@)],
{
    match rules::revocation(actor, current) {
        Err(e) => Err(e),
        Ok(()) => {
            let mut tx = Transaction::new();
            tx.push(sql::revoke(username, permissions));
            assert(tx@ =~= seq![revoke_view(username@, permissions@)]);
            Ok(tx)
        },
    }
}

/// Deletes a user. Deleting oneself is always allowed. To delete another, that
/// user must exist (`current` is what it holds now, `None` where it does not
/// exist) and the actor must hold `UserDelete` and all of `current`.
pub fn user_delete(actor: &User, username: &str, current: Option<&Vec<Permission>>) -> (r: Result<
    Transaction,
    ApiError,
>)
    ensures
        settles(
            r,
            user_deletion_failure(
                actor@,
                username@,
                match current {
                    Some(held) => Some(as_set(held@)),
                    None => None,
                },
            ),
        ),
        r matches Ok(tx) ==> tx@ == seq![delete_user_view(username@)],
{
    match rules::user_deletion(actor, username, current) {
        Err(e) => Err(e),
        Ok(()) => {
            let mut tx = Transaction::new();
            tx.push(sql::delete_user(username));
            assert(tx@ =~= seq![delete_user_view(username@)]);
            Ok(tx)
        },
    }
}

/// Logs a user in, given the digest that the store has under the username, if it
/// has one: checks the password, then draws a fresh token and registers it. An
/// unknown user and a wrong password end in the same refusal.
pub fn token_write(login: &DangerousLogin, hash: Option<&str>) -> (r: Result<(String, Transaction), ApiError>)
    ensures
        match r {
            Ok(made) => {
                &&& hash matches Some(digest) && bcrypt_verdict(login.password@, digest@) == Some(true)
                &&& made.0@.len() == 36
                &&& made.1@ == seq![insert_token_view(made.0@, login.username@)]
            },
            Err(_) => !(hash matches Some(digest) && bcrypt_verdict(login.password@, digest@) == Some(true))
                && settles(r, Some(Failure::Forbidden)),
        },
{
    let verdict = match hash {
        Some(digest) => check_password(login.password.as_str(), digest),
        None => None,
    };
    match rules::login(hash, verdict) {
        Err(e) => Err(e),
        Ok(_) => {
            let token = fresh_token();
            let mut tx = Transaction::new();
            tx.push(sql::insert_token(token.as_str(), login.username.as_str()));
            assert(tx@ =~= seq![insert_token_view(token@, login.username@)]);
            Ok((token, tx))
        },
    }
}

/// Revokes every token of a user. This is allowed to that user, and to whoever
/// holds `TokenDelete`.
pub fn token_delete(actor: &User, username: &str) -> (r: Result<Transaction, ApiError>)
    ensures
        settles(r, token_revocation_failure(actor@, username@)),
        r matches Ok(tx) ==> tx@ == seq![delete_tokens_view(username@)],
{
    match rules::token_revocation(actor, username) {
        Err(e) => Err(e),
        Ok(()) => {
            let mut tx = Transaction::new();
            tx.push(sql::delete_tokens(username));
            assert(tx@ =~= seq![delete_tokens_view(username@)]);
            Ok(tx)
        },
    }
}

/// The filters of a search for invites; a filter that is `None` filters nothing.
#[derive(Clone, Debug, PartialEq, Eq)]
pub struct InviteFilter {
    /// A part of the code.
    pub code: Option<String>,
    /// Permissions of which the invite grants at least one.
    pub permissions: Option<Vec<Permission>>,
    /// The most uses that the invite may have left.
    pub maxremaining: Option<u16>,
    /// The fewest uses that the invite may have left.
    pub minremaining: Option<u16>,
    /// A part of the creator's name.
    pub creator: Option<String>,
    /// The most invites to hand back.
    pub limit: Option<u16>,
}

/// The filters of a search for users; a filter that is `None` filters nothing.
#[derive(Clone, Debug, PartialEq, Eq)]
pub struct UserFilter {
    /// A part of the username.
    pub username: Option<String>,
    /// Permissions of which the user holds at least one.
    pub permissions: Option<Vec<Permission>>,
    /// The most users to hand back.
    pub limit: Option<u16>,
}

/// The search with a clause for a text that `column` must hold, where one is
/// asked for.
pub open spec fn filtered_like(s: StatementView, column: Seq<char>, fragment: Option<String>) -> StatementView {
    match fragment {
        Some(text) => with_clause(s, " AND "@ + column + " LIKE ?"@, seq![ValueView::Text(around(text@))]),
        None => s,
    }
}

/// The search with a clause for permissions of which `column` must name one,
/// where any are asked for.
pub open spec fn filtered_permissions(
    s: StatementView,
    column: Seq<char>,
    wanted: Option<Vec<Permission>>,
) -> StatementView {
    match wanted {
        Some(permissions) => with_clause(
            s,
            one_of_clause(column, permissions@.len()),
            as_texts(permissions@.map_values(|p: Permission| p.spec_name())),
        ),
        None => s,
    }
}

/// The search with an upper bound on `column`, where one is asked for.
pub open spec fn filtered_at_most(s: StatementView, column: Seq<char>, bound: Option<u16>) -> StatementView {
    match bound {
        Some(n) => with_clause(s, " AND "@ + column + " <= ?"@, seq![ValueView::Integer(n)]),
        None => s,
    }
}

/// The search with a lower bound on `column`, where one is asked for.
pub open spec fn filtered_at_least(s: StatementView, column: Seq<char>, bound: Option<u16>) -> StatementView {
    match bound {
        Some(n) => with_clause(s, " AND "@ + column + " >= ?"@, seq![ValueView::Integer(n)]),
        None => s,
    }
}

/// The search cut off after a number of rows, where a limit is asked for.
pub open spec fn limited(s: StatementView, limit: Option<u16>) -> StatementView {
    match limit {
        Some(n) => with_clause(s, " LIMIT ?"@, seq![ValueView::Integer(n)]),
        None => s,
    }
}

/// The search for invites under `filter`: one row per invite, with what it grants
/// joined by commas.
pub open spec fn invite_search(filter: InviteFilter) -> StatementView {
    let all = StatementView {
        sql: ALL_INVITES@,
        params: Seq::<ValueView>::empty(),
    };
    let by_code = filtered_like(all, "invites.code"@, filter.code);
    let by_permissions = filtered_permissions(by_code, "invite_permissions.id"@, filter.permissions);
    let by_most = filtered_at_most(by_permissions, "invites.remaining"@, filter.maxremaining);
    let by_fewest = filtered_at_least(by_most, "invites.remaining"@, filter.minremaining);
    let by_creator = filtered_like(by_fewest, "invites.creator"@, filter.creator);
    limited(with_clause(by_creator, " GROUP BY invites.code"@, Seq::<ValueView>::empty()), filter.limit)
}

/// The search for users under `filter`: one row per user, with what it holds
/// joined by commas.
pub open spec fn user_search(filter: UserFilter) -> StatementView {
    let all = StatementView {
        sql: ALL_USERS@,
        params: Seq::<ValueView>::empty(),
    };
    let by_name = filtered_like(all, "users.username"@, filter.username);
    let by_permissions = filtered_permissions(by_name, "user_permissions.id"@, filter.permissions);
    limited(with_clause(by_permissions, " GROUP BY users.username"@, Seq::<ValueView>::empty()), filter.limit)
}

/// Lists invites. The actor must hold `InviteRead`.
pub fn invite_get(actor: &User, filter: &InviteFilter) -> (r: Result<Statement, ApiError>)
    ensures
        settles(r, direct_failure(actor@.permissions, Permission::InviteRead)),
        r matches Ok(statement) ==> statement@ == invite_search(*filter),
{
    match rules::require(actor, Permission::InviteRead) {
        Err(e) => {
            return Err(e);
        },
        Ok(()) => {},
    }
    let mut search = Search::new(ALL_INVITES);
    match &filter.code {
        Some(code) => search.and_like("invites.code", code.as_str()),
        None => {},
    }
    match &filter.permissions {
        Some(permissions) => search.and_permission_in("invite_permissions.id", permissions),
        None => {},
    }
    match filter.maxremaining {
        Some(most) => search.and_at_most("invites.remaining", most),
        None => {},
    }
    match filter.minremaining {
        Some(fewest) => search.and_at_least("invites.remaining", fewest),
        None => {},
    }
    match &filter.creator {
        Some(creator) => search.and_like("invites.creator", creator.as_str()),
        None => {},
    }
    search.followed_by(" GROUP BY invites.code");
    match filter.limit {
        Some(limit) => search.limit(limit),
        None => {},
    }
    Ok(search.finish())
}

/// Lists users. The actor must hold `UserRead`.
pub fn user_get(actor: &User, filter: &UserFilter) -> (r: Result<Statement, ApiError>)
    ensures
        settles(r, direct_failure(actor@.permissions, Permission::UserRead)),
        r matches Ok(statement) ==> statement@ == user_search(*filter),
{
    match rules::require(actor, Permission::UserRead) {
        Err(e) => {
            return Err(e);
        },
        Ok(()) => {},
    }
    let mut search = Search::new(ALL_USERS);
    match &filter.username {
        Some(username) => search.and_like("users.username", username.as_str()),
        None => {},
    }
    match &filter.permissions {
        Some(permissions) => search.and_permission_in("user_permissions.id", permissions),
        None => {},
    }
    search.followed_by(" GROUP BY users.username");
    match filter.limit {
        Some(limit) => search.limit(limit),
        None => {},
    }
    Ok(search.finish())
}

} // verus!
