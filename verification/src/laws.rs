//! What holds of the operations whatever the state and the arguments: delegation
//! cannot escalate, bootstrap works once, an invite is used no more often than it
//! allows.

use vstd::prelude::*;
use crate::error::Failure;
use crate::model::{
    create_invite_failure, delete_user_failure, delete_user_next, grant_to_failure, grant_to_next,
    initialize_failure, initialize_next, redeem_failure, redeem_next, resolved, revoke_all_next,
    revoke_from_failure, revoke_from_next, revoke_token_next, uses_left, AccountView, StoreView,
};
use crate::permission::Permission;
use crate::user::PrincipalView;

verus! {

/// A grant to an existing user succeeds exactly when the actor holds
/// `PermissionAdd` and every permission that is granted.
pub proof fn grant_succeeds_iff_actor_dominates(
    s: StoreView,
    actor: PrincipalView,
    target: Seq<char>,
    granted: Set<Permission>,
)
    requires
        s.accounts.contains_key(target),
    ensures
        grant_to_failure(s, actor, target, granted) is None <==> granted.insert(Permission::PermissionAdd).subset_of(
            actor.permissions,
        ),
        grant_to_failure(s, actor, target, granted) is Some ==> grant_to_failure(s, actor, target, granted) == Some(
            Failure::Forbidden,
        ),
{
}

/// A grant never hands out what the actor does not hold: after it, whatever the
/// target holds it held before, or the actor holds it too.
pub proof fn grant_cannot_escalate(
    s: StoreView,
    actor: PrincipalView,
    target: Seq<char>,
    granted: Set<Permission>,
    p: Permission,
)
    requires
        grant_to_failure(s, actor, target, granted) is None,
        grant_to_next(s, target, granted).accounts[target].permissions.contains(p),
    ensures
        s.accounts[target].permissions.contains(p) || actor.permissions.contains(p),
{
    if granted.contains(p) {
        assert(granted.insert(Permission::PermissionAdd).contains(p));
    }
}

/// Granting what the target already holds changes nothing.
pub proof fn grant_again_changes_nothing(s: StoreView, target: Seq<char>, granted: Set<Permission>)
    requires
        s.accounts.contains_key(target),
        granted.subset_of(s.accounts[target].permissions),
    ensures
        grant_to_next(s, target, granted) == s,
{
    let account = s.accounts[target];
    assert(account.permissions.union(granted) =~= account.permissions);
    assert(grant_to_next(s, target, granted).accounts =~= s.accounts);
}

/// Granting the same permissions twice is the same as granting them once.
pub proof fn grant_is_idempotent(s: StoreView, target: Seq<char>, granted: Set<Permission>)
    requires
        s.accounts.contains_key(target),
    ensures
        grant_to_next(grant_to_next(s, target, granted), target, granted) == grant_to_next(s, target, granted),
{
    let once = grant_to_next(s, target, granted);
    assert(granted.subset_of(once.accounts[target].permissions));
    grant_again_changes_nothing(once, target, granted);
}

/// An invite never carries what its creator does not hold.
pub proof fn invite_cannot_escalate(
    s: StoreView,
    actor: PrincipalView,
    code: Seq<char>,
    granted: Set<Permission>,
    p: Permission,
)
    requires
        create_invite_failure(s, actor, code, granted) is None,
        granted.contains(p),
    ensures
        actor.permissions.contains(p),
        actor.permissions.contains(Permission::InviteWrite),
{
    assert(granted.insert(Permission::InviteWrite).contains(p));
    assert(granted.insert(Permission::InviteWrite).contains(Permission::InviteWrite));
}

/// A revocation never takes away what the actor does not hold: whatever the target
/// holds before it, the actor holds too, along with `PermissionDelete`.
pub proof fn revoke_takes_dominance(s: StoreView, actor: PrincipalView, target: Seq<char>, p: Permission)
    requires
        revoke_from_failure(s, actor, target) is None,
        s.accounts.contains_key(target),
        s.accounts[target].permissions.contains(p),
    ensures
        actor.permissions.contains(p),
        actor.permissions.contains(Permission::PermissionDelete),
{
    let need = s.accounts[target].permissions.insert(Permission::PermissionDelete);
    assert(need.contains(p));
    assert(need.contains(Permission::PermissionDelete));
}

/// A revocation only ever shrinks what the target holds.
pub proof fn revoke_only_reduces(s: StoreView, target: Seq<char>, revoked: Set<Permission>)
    requires
        s.accounts.contains_key(target),
    ensures
        revoke_from_next(s, target, revoked).accounts[target].permissions.subset_of(
            s.accounts[target].permissions,
        ),
        revoke_from_next(s, target, revoked).accounts[target].permissions.disjoint(revoked),
{
}

/// For an actor who may revoke from the target, revoking permissions that the
/// target does not hold succeeds and changes nothing.
pub proof fn revoking_what_is_not_held_changes_nothing(
    s: StoreView,
    actor: PrincipalView,
    target: Seq<char>,
    revoked: Set<Permission>,
)
    requires
        revoke_from_failure(s, actor, target) is None,
        s.accounts.contains_key(target) ==> revoked.disjoint(s.accounts[target].permissions),
    ensures
        revoke_from_next(s, target, revoked) == s,
{
    if s.accounts.contains_key(target) {
        let account = s.accounts[target];
        assert(account.permissions.difference(revoked) =~= account.permissions);
        assert(revoke_from_next(s, target, revoked).accounts =~= s.accounts);
    }
}

/// Deleting oneself is never refused, whatever one holds.
pub proof fn self_deletion_is_never_refused(s: StoreView, actor: PrincipalView)
    ensures
        delete_user_failure(s, actor, actor.username) is None,
{
}

/// Deleting another user who holds something that the actor lacks is forbidden,
/// and so is deleting any other user for an actor without `UserDelete`.
pub proof fn deleting_a_stronger_user_is_forbidden(s: StoreView, actor: PrincipalView, target: Seq<char>)
    requires
        target != actor.username,
        s.accounts.contains_key(target),
        actor.permissions.subset_of(s.accounts[target].permissions),
        !(s.accounts[target].permissions == actor.permissions && actor.permissions.contains(Permission::UserDelete)),
    ensures
        delete_user_failure(s, actor, target) == Some(Failure::Forbidden),
{
    let held = s.accounts[target].permissions;
    let need = held.insert(Permission::UserDelete);
    if need.subset_of(actor.permissions) {
        assert(need.contains(Permission::UserDelete));
        assert forall|p: Permission| held.contains(p) implies actor.permissions.contains(p) by {
            assert(need.contains(p));
        }
        assert(held =~= actor.permissions);
    }
}

/// The first principal holds every permission.
pub proof fn first_principal_holds_everything(s: StoreView, username: Seq<char>, hash: Seq<char>, p: Permission)
    ensures
        initialize_next(s, username, hash).accounts[username].permissions.contains(p),
{
}

/// What a redemption gives the new principal is what the invite grants, and the
/// rest of the directory stays as it is.
pub proof fn redemption_copies_the_grant(
    s: StoreView,
    code: Seq<char>,
    username: Seq<char>,
    hash: Seq<char>,
    other: Seq<char>,
)
    requires
        redeem_failure(s, code, username) is None,
        other != username,
    ensures
        redeem_next(s, code, username, hash).accounts[username].permissions == s.invites[code].permissions,
        redeem_next(s, code, username, hash).accounts.contains_key(other) == s.accounts.contains_key(other),
        s.accounts.contains_key(other) ==> redeem_next(s, code, username, hash).accounts[other]
            == s.accounts[other],
{
}

/// A revoked token resolves to nobody, and revoking it again changes nothing.
pub proof fn revoked_token_is_dead(s: StoreView, token: Seq<char>)
    ensures
        resolved(revoke_token_next(s, token), token) is None,
        revoke_token_next(revoke_token_next(s, token), token) == revoke_token_next(s, token),
        !s.tokens.contains_key(token) ==> revoke_token_next(s, token) == s,
{
    let once = revoke_token_next(s, token);
    assert(revoke_token_next(once, token).tokens =~= once.tokens);
    if !s.tokens.contains_key(token) {
        assert(once.tokens =~= s.tokens);
    }
}

/// Once every token of a user is revoked, no token resolves to that user; the
/// tokens of the others stay, and revoking again changes nothing.
pub proof fn revoking_all_leaves_the_others(s: StoreView, username: Seq<char>, token: Seq<char>)
    ensures
        resolved(revoke_all_next(s, username), token) matches Some(principal) ==> principal.username != username,
        s.tokens.contains_key(token) && s.tokens[token] != username ==> resolved(
            revoke_all_next(s, username),
            token,
        ) == resolved(s, token),
        revoke_all_next(revoke_all_next(s, username), username) == revoke_all_next(s, username),
{
    let once = revoke_all_next(s, username);
    assert(revoke_all_next(once, username).tokens =~= once.tokens);
}

/// No token resolves to a user that was deleted, even where the name is given to
/// a new user later: the tokens left the registry with the user.
pub proof fn deleted_user_leaves_no_token(s: StoreView, username: Seq<char>, token: Seq<char>)
    ensures
        resolved(delete_user_next(s, username), token) matches Some(principal) ==> principal.username != username,
        !delete_user_next(s, username).accounts.contains_key(username),
        forall|t: Seq<char>|
            delete_user_next(s, username).tokens.contains_key(t) ==> #[trigger] delete_user_next(
                s,
                username,
            ).tokens[t] != username,
{
}

/// The state after `attempts` bootstraps in a row, each with a username and a
/// digest; a refused attempt leaves the state as it is.
pub open spec fn after_bootstraps(s: StoreView, attempts: Seq<(Seq<char>, Seq<char>)>) -> StoreView
    decreases attempts.len(),
{
    if attempts.len() == 0 {
        s
    } else {
        let before = after_bootstraps(s, attempts.drop_last());
        if initialize_failure(before) is None {
            initialize_next(before, attempts.last().0, attempts.last().1)
        } else {
            before
        }
    }
}

/// How many of `attempts` bootstraps in a row succeed.
pub open spec fn bootstraps_done(s: StoreView, attempts: Seq<(Seq<char>, Seq<char>)>) -> nat
    decreases attempts.len(),
{
    if attempts.len() == 0 {
        0
    } else {
        let before = after_bootstraps(s, attempts.drop_last());
        bootstraps_done(s, attempts.drop_last()) + if initialize_failure(before) is None {
            1nat
        } else {
            0nat
        }
    }
}

/// Of any number of bootstraps in a row, started in any order, exactly one succeeds
/// on an empty store, and none on any other; every later one ends in a conflict.
pub proof fn bootstrap_succeeds_once(s: StoreView, attempts: Seq<(Seq<char>, Seq<char>)>)
    requires
        attempts.len() >= 1,
    ensures
        bootstraps_done(s, attempts) == if initialize_failure(s) is None {
            1nat
        } else {
            0nat
        },
        initialize_failure(after_bootstraps(s, attempts)) == Some(Failure::Conflict),
    decreases attempts.len(),
{
    let earlier = attempts.drop_last();
    if earlier.len() == 0 {
        assert(after_bootstraps(s, earlier) == s);
        assert(bootstraps_done(s, earlier) == 0);
        if initialize_failure(s) is None {
            let next = initialize_next(s, attempts.last().0, attempts.last().1);
            assert(next.accounts.contains_key(attempts.last().0));
            assert(next.accounts != Map::<Seq<char>, AccountView>::empty());
        }
    } else {
        bootstrap_succeeds_once(s, earlier);
    }
}

/// The state after `attempts` redemptions of one code in a row, each with a
/// username and a digest; a refused attempt leaves the state as it is.
pub open spec fn after_redemptions(s: StoreView, code: Seq<char>, attempts: Seq<(Seq<char>, Seq<char>)>) -> StoreView
    decreases attempts.len(),
{
    if attempts.len() == 0 {
        s
    } else {
        let before = after_redemptions(s, code, attempts.drop_last());
        if redeem_failure(before, code, attempts.last().0) is None {
            redeem_next(before, code, attempts.last().0, attempts.last().1)
        } else {
            before
        }
    }
}

/// How many of `attempts` redemptions of one code in a row succeed.
pub open spec fn redemptions_done(s: StoreView, code: Seq<char>, attempts: Seq<(Seq<char>, Seq<char>)>) -> nat
    decreases attempts.len(),
{
    if attempts.len() == 0 {
        0
    } else {
        let before = after_redemptions(s, code, attempts.drop_last());
        redemptions_done(s, code, attempts.drop_last()) + if redeem_failure(before, code, attempts.last().0)
            is None {
            1nat
        } else {
            0nat
        }
    }
}

/// The uses that a code has left, none for a code that the ledger does not know.
pub open spec fn uses_or_none(s: StoreView, code: Seq<char>) -> nat {
    match uses_left(s, code) {
        Some(n) => n as nat,
        None => 0,
    }
}

/// Each redemption that succeeds takes one use: the uses left and the redemptions
/// done add up to the uses there were. So an invite is never used more often than
/// it allows, and its counter never passes below zero.
pub proof fn redemptions_consume_uses(s: StoreView, code: Seq<char>, attempts: Seq<(Seq<char>, Seq<char>)>)
    ensures
        redemptions_done(s, code, attempts) + uses_or_none(after_redemptions(s, code, attempts), code)
            == uses_or_none(s, code),
    decreases attempts.len(),
{
    if attempts.len() > 0 {
        redemptions_consume_uses(s, code, attempts.drop_last());
    }
}

/// Of any number of redemptions of a single-use invite in a row, by usernames that
/// are free, the first succeeds; every later one finds the invite gone, and the
/// ledger does not hold the code afterwards.
pub proof fn single_use_invite_is_redeemed_once(
    s: StoreView,
    code: Seq<char>,
    attempts: Seq<(Seq<char>, Seq<char>)>,
)
    requires
        uses_left(s, code) == Some(1u16),
        attempts.len() >= 1,
        !s.accounts.contains_key(attempts[0].0),
    ensures
        redemptions_done(s, code, attempts) == 1,
        !after_redemptions(s, code, attempts).invites.contains_key(code),
        forall|username: Seq<char>|
            redeem_failure(after_redemptions(s, code, attempts), code, username) == Some(Failure::NotFound),
    decreases attempts.len(),
{
    let earlier = attempts.drop_last();
    if earlier.len() == 0 {
        assert(after_redemptions(s, code, earlier) == s);
        assert(redemptions_done(s, code, earlier) == 0);
        assert(attempts.last() == attempts[0]);
    } else {
        assert(earlier[0] == attempts[0]);
        single_use_invite_is_redeemed_once(s, code, earlier);
    }
}

} // verus!
