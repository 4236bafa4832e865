//! The decisions of the service, each a function of what the caller has read from
//! the store. The caller reads, asks here, and writes what the answer allows.

use vstd::prelude::*;
use crate::error::{settles, ApiError, Failure};
use crate::gate::{as_set, covers, holds, may_delegate};
use crate::permission::Permission;
use crate::text::same_text;
use crate::user::{PrincipalView, User};

verus! {

/// What becomes of an invite when it is redeemed.
#[derive(Clone, Copy, Debug, PartialEq, Eq, Structural)]
pub enum LedgerStep {
    /// Uses are left over: the invite stays, with this many.
    Decrement { remaining: u16 },
    /// The last use was consumed: the invite is deleted.
    Remove,
}

/// The direct check of a route: the one permission that the route names is held.
pub open spec fn direct_failure(actor: Set<Permission>, required: Permission) -> Option<Failure> {
    if actor.contains(required) {
        None
    } else {
        Some(Failure::Forbidden)
    }
}

/// Bootstrap is refused unless the directory and the ledger are both empty.
pub open spec fn bootstrap_failure(no_accounts: bool, no_invites: bool) -> Option<Failure> {
    if no_accounts && no_invites {
        None
    } else {
        Some(Failure::Conflict)
    }
}

/// An invite can be created by whoever holds `InviteWrite` and all that it grants,
/// under a code that is not taken.
pub open spec fn invite_creation_failure(
    actor: Set<Permission>,
    granted: Set<Permission>,
    code_taken: bool,
) -> Option<Failure> {
    if !covers(actor, Permission::InviteWrite, granted) {
        Some(Failure::Forbidden)
    } else if code_taken {
        Some(Failure::Conflict)
    } else {
        None
    }
}

/// An invite that is absent or used up cannot be redeemed; the last use removes it,
/// any earlier one counts it down.
pub open spec fn redemption_step(remaining: Option<u16>) -> Result<LedgerStep, Failure> {
    match remaining {
        None => Err(Failure::NotFound),
        Some(n) => if n == 0 {
            Err(Failure::NotFound)
        } else if n == 1 {
            Ok(LedgerStep::Remove)
        } else {
            Ok(LedgerStep::Decrement { remaining: (n - 1) as u16 })
        },
    }
}

/// Granting takes `PermissionAdd` and every permission that is granted.
pub open spec fn grant_failure(actor: Set<Permission>, granted: Set<Permission>) -> Option<Failure> {
    if covers(actor, Permission::PermissionAdd, granted) {
        None
    } else {
        Some(Failure::Forbidden)
    }
}

/// A grant to a target fails for an actor who may not grant, and then for a target
/// that does not exist.
pub open spec fn grant_to_target_failure(
    actor: Set<Permission>,
    granted: Set<Permission>,
    target_exists: bool,
) -> Option<Failure> {
    match grant_failure(actor, granted) {
        Some(f) => Some(f),
        None => if target_exists {
            None
        } else {
            Some(Failure::NotFound)
        },
    }
}

/// Revoking takes `PermissionDelete` and every permission that the target holds now,
/// whatever part of them is revoked.
pub open spec fn revocation_failure(actor: Set<Permission>, current: Set<Permission>) -> Option<Failure> {
    if covers(actor, Permission::PermissionDelete, current) {
        None
    } else {
        Some(Failure::Forbidden)
    }
}

/// Deleting oneself is always allowed. Deleting another takes that the other
/// exists, `UserDelete`, and every permission that the other holds now.
pub open spec fn user_deletion_failure(
    actor: PrincipalView,
    target: Seq<char>,
    current: Option<Set<Permission>>,
) -> Option<Failure> {
    if target == actor.username {
        None
    } else {
        match current {
            None => Some(Failure::NotFound),
            Some(held) => if covers(actor.permissions, Permission::UserDelete, held) {
                None
            } else {
                Some(Failure::Forbidden)
            },
        }
    }
}

/// Revoking all tokens of a user is allowed to that user, and to whoever holds
/// `TokenDelete`.
pub open spec fn token_revocation_failure(actor: PrincipalView, username: Seq<char>) -> Option<Failure> {
    if username == actor.username || actor.permissions.contains(Permission::TokenDelete) {
        None
    } else {
        Some(Failure::Forbidden)
    }
}

/// A login succeeds when the user is known and the hasher confirms the password.
/// Every other case is the same refusal, so that a caller cannot tell an unknown
/// user from a wrong password.
pub open spec fn login_succeeds(known: bool, verdict: Option<bool>) -> bool {
    known && verdict == Some(true)
}

/// Decides whether `actor` may take a route that requires `required`.
pub fn require(actor: &User, required: Permission) -> (r: Result<(), ApiError>)
    ensures
        settles(r, direct_failure(actor@.permissions, required)),
{
    if actor.holds(required) {
        Ok(())
    } else {
        Err(ApiError::refusal(Failure::Forbidden))
    }
}

/// Decides a bootstrap from whether the directory and the ledger are empty.
pub fn bootstrap(no_accounts: bool, no_invites: bool) -> (r: Result<(), ApiError>)
    ensures
        settles(r, bootstrap_failure(no_accounts, no_invites)),
{
    if no_accounts && no_invites {
        Ok(())
    } else {
        Err(ApiError::refusal(Failure::Conflict))
    }
}

/// Decides whether `actor` may create an invite that grants `granted`, under a code
/// that is taken or not.
pub fn invite_creation(actor: &User, granted: &Vec<Permission>, code_taken: bool) -> (r: Result<(), ApiError>)
    ensures
        settles(r, invite_creation_failure(actor@.permissions, as_set(granted@), code_taken)),
{
    if !may_delegate(&actor.permissions, Permission::InviteWrite, granted) {
        Err(ApiError::refusal(Failure::Forbidden))
    } else if code_taken {
        Err(ApiError::refusal(Failure::Conflict))
    } else {
        Ok(())
    }
}

/// Decides a redemption from the uses that the invite has left, `None` standing for
/// an invite that does not exist.
pub fn redemption(remaining: Option<u16>) -> (r: Result<LedgerStep, ApiError>)
    ensures
        match redemption_step(remaining) {
            Ok(step) => r == Ok::<LedgerStep, ApiError>(step),
            Err(f) => settles(r, Some(f)),
        },
{
    match remaining {
        None => Err(ApiError::refusal(Failure::NotFound)),
        Some(n) => if n == 0 {
            Err(ApiError::refusal(Failure::NotFound))
        } else if n == 1 {
            Ok(LedgerStep::Remove)
        } else {
            Ok(LedgerStep::Decrement { remaining: n - 1 })
        },
    }
}

/// Decides whether `actor` may delete invites.
pub fn invite_deletion(actor: &User) -> (r: Result<(), ApiError>)
    ensures
        settles(r, direct_failure(actor@.permissions, Permission::InviteDelete)),
{
    require(actor, Permission::InviteDelete)
}

/// Decides whether `actor` may grant `granted` to anyone.
pub fn grant(actor: &User, granted: &Vec<Permission>) -> (r: Result<(), ApiError>)
    ensures
        settles(r, grant_failure(actor@.permissions, as_set(granted@))),
        r is Ok <==> as_set(granted@).insert(Permission::PermissionAdd).subset_of(actor@.permissions),
{
    if may_delegate(&actor.permissions, Permission::PermissionAdd, granted) {
        Ok(())
    } else {
        Err(ApiError::refusal(Failure::Forbidden))
    }
}

/// Decides whether `actor` may grant `granted` to a target that exists or not. The
/// permissions are checked first, so that an actor who may not grant learns nothing
/// of who exists.
pub fn grant_to(actor: &User, granted: &Vec<Permission>, target_exists: bool) -> (r: Result<(), ApiError>)
    ensures
        settles(r, grant_to_target_failure(actor@.permissions, as_set(granted@), target_exists)),
{
    match grant(actor, granted) {
        Err(e) => Err(e),
        Ok(()) => if target_exists {
            Ok(())
        } else {
            Err(ApiError::refusal(Failure::NotFound))
        },
    }
}

/// Decides whether `actor` may revoke permissions from a user who now holds
/// `current`.
pub fn revocation(actor: &User, current: &Vec<Permission>) -> (r: Result<(), ApiError>)
    ensures
        settles(r, revocation_failure(actor@.permissions, as_set(current@))),
{
    if may_delegate(&actor.permissions, Permission::PermissionDelete, current) {
        Ok(())
    } else {
        Err(ApiError::refusal(Failure::Forbidden))
    }
}

/// Decides whether `actor` may delete the user `target`, who now holds `current`;
/// `None` stands for a user that does not exist.
pub fn user_deletion(actor: &User, target: &str, current: Option<&Vec<Permission>>) -> (r: Result<
    (),
    ApiError,
>)
    ensures
        settles(
            r,
            user_deletion_failure(
                actor@,
                target@,
                match current {
                    Some(held) => Some(as_set(held@)),
                    None => None,
                },
            ),
        ),
{
    if same_text(actor.username.as_str(), target) {
        return Ok(());
    }
    match current {
        None => Err(ApiError::refusal(Failure::NotFound)),
        Some(held) => if may_delegate(&actor.permissions, Permission::UserDelete, held) {
            Ok(())
        } else {
            Err(ApiError::refusal(Failure::Forbidden))
        },
    }
}

/// Decides whether `actor` may revoke every token of `username`.
pub fn token_revocation(actor: &User, username: &str) -> (r: Result<(), ApiError>)
    ensures
        settles(r, token_revocation_failure(actor@, username@)),
{
    if same_text(actor.username.as_str(), username) || actor.holds(Permission::TokenDelete) {
        Ok(())
    } else {
        Err(ApiError::refusal(Failure::Forbidden))
    }
}

/// Decides a login from what was found under the username, if anything, and from
/// what the hasher said of the password: `Some(true)` for a match, `Some(false)`
/// for none, `None` where the stored digest could not be read.
pub fn login<T>(found: Option<T>, verdict: Option<bool>) -> (r: Result<T, ApiError>)
    ensures
        match r {
            Ok(it) => login_succeeds(found is Some, verdict) && found == Some(it),
            Err(e) => !login_succeeds(found is Some, verdict) && settles(r, Some(Failure::Forbidden)),
        },
{
    match found {
        Some(it) => match verdict {
            Some(true) => Ok(it),
            _ => Err(ApiError::refusal(Failure::Forbidden)),
        },
        None => Err(ApiError::refusal(Failure::Forbidden)),
    }
}

/// Decides the authentication of a request from the principal that its token
/// resolved to; `None` stands for a request without a token as well as for a token
/// that resolves to nobody.
pub fn authentication(resolved: Option<User>) -> (r: Result<User, ApiError>)
    ensures
        match resolved {
            Some(user) => r == Ok::<User, ApiError>(user),
            None => settles(r, Some(Failure::Unauthenticated)),
        },
{
    match resolved {
        Some(user) => Ok(user),
        None => Err(ApiError::refusal(Failure::Unauthenticated)),
    }
}

} // verus!
