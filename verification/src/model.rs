//! The state of the service as mathematics: three maps, and for each operation the
//! failure it ends in, if any, and the state it leaves on success.
//!
//! Every operation is all or nothing: where it fails, the state stays as it was.

use vstd::prelude::*;
use crate::credential::bcrypt_verdict;
use crate::error::Failure;
use crate::invite::InviteView;
use crate::permission::Permission;
use crate::rules::{
    bootstrap_failure, direct_failure, grant_to_target_failure, invite_creation_failure, login_succeeds,
    redemption_step, revocation_failure, token_revocation_failure, user_deletion_failure, LedgerStep,
};
use crate::user::PrincipalView;

verus! {

/// What the directory keeps of a principal: the digest of its password, and the
/// permissions it holds.
pub struct AccountView {
    pub hash: Seq<char>,
    pub permissions: Set<Permission>,
}

/// The state of the service.
pub struct StoreView {
    /// The principal directory: username to account.
    pub accounts: Map<Seq<char>, AccountView>,
    /// The invite ledger: code to terms.
    pub invites: Map<Seq<char>, InviteView>,
    /// The session registry: token to username.
    pub tokens: Map<Seq<char>, Seq<char>>,
}

/// The state before anything was created.
pub open spec fn blank() -> StoreView {
    StoreView { accounts: Map::empty(), invites: Map::empty(), tokens: Map::empty() }
}

/// The permissions that `username` holds now, if the directory knows the name.
pub open spec fn held_by(s: StoreView, username: Seq<char>) -> Option<Set<Permission>> {
    if s.accounts.contains_key(username) {
        Some(s.accounts[username].permissions)
    } else {
        None
    }
}

/// The uses that the invite `code` has left, if the ledger knows the code.
pub open spec fn uses_left(s: StoreView, code: Seq<char>) -> Option<u16> {
    if s.invites.contains_key(code) {
        Some(s.invites[code].remaining)
    } else {
        None
    }
}

/// The principal that `token` resolves to: the token is registered, and the
/// directory knows its user.
pub open spec fn resolved(s: StoreView, token: Seq<char>) -> Option<PrincipalView> {
    if s.tokens.contains_key(token) && s.accounts.contains_key(s.tokens[token]) {
        Some(PrincipalView { username: s.tokens[token], permissions: s.accounts[s.tokens[token]].permissions })
    } else {
        None
    }
}

/// The registry without the tokens of `username`.
pub open spec fn tokens_without(tokens: Map<Seq<char>, Seq<char>>, username: Seq<char>) -> Map<
    Seq<char>,
    Seq<char>,
> {
    Map::new(|t: Seq<char>| tokens.contains_key(t) && tokens[t] != username, |t: Seq<char>| tokens[t])
}

/// Bootstrap fails unless the directory and the ledger are both empty.
pub open spec fn initialize_failure(s: StoreView) -> Option<Failure> {
    bootstrap_failure(s.accounts == Map::<Seq<char>, AccountView>::empty(), s.invites == Map::<
        Seq<char>,
        InviteView,
    >::empty())
}

/// After bootstrap the directory holds the first principal, with every permission.
pub open spec fn initialize_next(s: StoreView, username: Seq<char>, hash: Seq<char>) -> StoreView {
    StoreView { accounts: s.accounts.insert(username, AccountView { hash, permissions: Set::full() }), ..s }
}

/// Creating an invite fails for an actor who does not hold `InviteWrite` and all
/// that the invite grants, and then for a code that is taken.
pub open spec fn create_invite_failure(
    s: StoreView,
    actor: PrincipalView,
    code: Seq<char>,
    granted: Set<Permission>,
) -> Option<Failure> {
    invite_creation_failure(actor.permissions, granted, s.invites.contains_key(code))
}

/// After its creation the invite stands in the ledger, with the actor as creator.
pub open spec fn create_invite_next(
    s: StoreView,
    actor: PrincipalView,
    code: Seq<char>,
    granted: Set<Permission>,
    remaining: u16,
) -> StoreView {
    StoreView {
        invites: s.invites.insert(code, InviteView { permissions: granted, remaining, creator: actor.username }),
        ..s
    }
}

/// Redeeming fails for a code that is absent or used up, and then for a username
/// that is taken.
pub open spec fn redeem_failure(s: StoreView, code: Seq<char>, username: Seq<char>) -> Option<Failure> {
    match redemption_step(uses_left(s, code)) {
        Err(f) => Some(f),
        Ok(_) => if s.accounts.contains_key(username) {
            Some(Failure::ConstraintViolation)
        } else {
            None
        },
    }
}

/// After a redemption the directory holds the new principal with what the invite
/// grants, and the invite has one use less, or is gone with its last use.
pub open spec fn redeem_next(s: StoreView, code: Seq<char>, username: Seq<char>, hash: Seq<char>) -> StoreView {
    let invite = s.invites[code];
    StoreView {
        accounts: s.accounts.insert(username, AccountView { hash, permissions: invite.permissions }),
        invites: match redemption_step(Some(invite.remaining)) {
            Ok(LedgerStep::Decrement { remaining }) => s.invites.insert(code, InviteView { remaining, ..invite }),
            _ => s.invites.remove(code),
        },
        ..s
    }
}

/// Deleting an invite takes `InviteDelete`; that the code exists is not asked.
pub open spec fn delete_invite_failure(actor: PrincipalView) -> Option<Failure> {
    direct_failure(actor.permissions, Permission::InviteDelete)
}

/// After its deletion the code is not in the ledger.
pub open spec fn delete_invite_next(s: StoreView, code: Seq<char>) -> StoreView {
    StoreView { invites: s.invites.remove(code), ..s }
}

/// Granting fails for an actor who does not hold `PermissionAdd` and all that is
/// granted, and then for a target that does not exist.
pub open spec fn grant_to_failure(
    s: StoreView,
    actor: PrincipalView,
    target: Seq<char>,
    granted: Set<Permission>,
) -> Option<Failure> {
    grant_to_target_failure(actor.permissions, granted, s.accounts.contains_key(target))
}

/// After a grant the target holds what it held and what was granted.
pub open spec fn grant_to_next(s: StoreView, target: Seq<char>, granted: Set<Permission>) -> StoreView {
    let account = s.accounts[target];
    StoreView {
        accounts: s.accounts.insert(
            target,
            AccountView { permissions: account.permissions.union(granted), ..account },
        ),
        ..s
    }
}

/// Revoking fails for an actor who does not hold `PermissionDelete` and all that
/// the target holds now; a target that does not exist holds nothing.
pub open spec fn revoke_from_failure(s: StoreView, actor: PrincipalView, target: Seq<char>) -> Option<Failure> {
    revocation_failure(
        actor.permissions,
        match held_by(s, target) {
            Some(held) => held,
            None => Set::empty(),
        },
    )
}

/// After a revocation the target holds what it held, less what was revoked; where
/// the target does not exist, nothing changes.
pub open spec fn revoke_from_next(s: StoreView, target: Seq<char>, revoked: Set<Permission>) -> StoreView {
    if s.accounts.contains_key(target) {
        let account = s.accounts[target];
        StoreView {
            accounts: s.accounts.insert(
                target,
                AccountView { permissions: account.permissions.difference(revoked), ..account },
            ),
            ..s
        }
    } else {
        s
    }
}

/// Deleting oneself never fails. Deleting another fails for a target that does not
/// exist, and then for an actor who does not hold `UserDelete` and all that the
/// target holds now.
pub open spec fn delete_user_failure(s: StoreView, actor: PrincipalView, target: Seq<char>) -> Option<Failure> {
    user_deletion_failure(actor, target, held_by(s, target))
}

/// After its deletion the user is in the directory no more, and no token resolves
/// to the name.
pub open spec fn delete_user_next(s: StoreView, target: Seq<char>) -> StoreView {
    StoreView { accounts: s.accounts.remove(target), tokens: tokens_without(s.tokens, target), ..s }
}

/// The directory knows the user, and the hasher confirms the password against the
/// digest that the directory keeps.
pub open spec fn credentials_accepted(s: StoreView, username: Seq<char>, password: Seq<char>) -> bool {
    login_succeeds(
        s.accounts.contains_key(username),
        if s.accounts.contains_key(username) {
            bcrypt_verdict(password, s.accounts[username].hash)
        } else {
            None
        },
    )
}

/// Registering a token fails for a user that the directory does not know, and for
/// a token that is registered already.
pub open spec fn record_token_failure(s: StoreView, token: Seq<char>, username: Seq<char>) -> Option<Failure> {
    if !s.accounts.contains_key(username) || s.tokens.contains_key(token) {
        Some(Failure::ConstraintViolation)
    } else {
        None
    }
}

/// After its registration the token maps to the user.
pub open spec fn record_token_next(s: StoreView, token: Seq<char>, username: Seq<char>) -> StoreView {
    StoreView { tokens: s.tokens.insert(token, username), ..s }
}

/// After a logout the token is registered no more.
pub open spec fn revoke_token_next(s: StoreView, token: Seq<char>) -> StoreView {
    StoreView { tokens: s.tokens.remove(token), ..s }
}

/// Revoking all tokens of a user fails for an actor who is not that user and does
/// not hold `TokenDelete`.
pub open spec fn revoke_all_failure(actor: PrincipalView, username: Seq<char>) -> Option<Failure> {
    token_revocation_failure(actor, username)
}

/// After the revocation no token maps to the user.
pub open spec fn revoke_all_next(s: StoreView, username: Seq<char>) -> StoreView {
    StoreView { tokens: tokens_without(s.tokens, username), ..s }
}

} // verus!
