//! The store: the principal directory, the invite ledger and the session registry,
//! with the operations that change them. Each operation decides by the rules, then
//! changes the store or leaves it untouched.

use vstd::prelude::*;
use crate::credential::{bcrypt_verdict, check_password, fresh_token, hash_password};
use crate::error::{settles, ApiError, Failure};
use crate::gate::{as_set, copied, merged, without};
use crate::invite::{Invite, InviteView};
use crate::model::{
    blank, create_invite_failure, create_invite_next, credentials_accepted, delete_invite_failure,
    delete_invite_next, delete_user_failure, delete_user_next, grant_to_failure, grant_to_next, held_by,
    initialize_failure, initialize_next, record_token_failure, record_token_next, redeem_failure,
    redeem_next, resolved, revoke_all_failure, revoke_all_next, revoke_from_failure, revoke_from_next,
    revoke_token_next, uses_left, AccountView, StoreView,
};
use crate::permission::Permission;
use crate::rules;
use crate::rules::LedgerStep;
use crate::table::Table;
use crate::user::{DangerousLogin, PrincipalView, User};

verus! {

/// What the directory keeps under a username.
struct Account {
    hash: String,
    permissions: Vec<Permission>,
}

impl View for Account {
    type V = AccountView;

    closed spec fn view(&self) -> AccountView {
        AccountView { hash: self.hash@, permissions: as_set(self.permissions@) }
    }
}

/// What the ledger keeps under a code.
struct Terms {
    permissions: Vec<Permission>,
    remaining: u16,
    creator: String,
}

impl View for Terms {
    type V = InviteView;

    closed spec fn view(&self) -> InviteView {
        InviteView { permissions: as_set(self.permissions@), remaining: self.remaining, creator: self.creator@ }
    }
}

/// The state of the service, held in memory.
pub struct Store {
    accounts: Table<Account>,
    invites: Table<Terms>,
    tokens: Table<String>,
}

impl View for Store {
    type V = StoreView;

    closed spec fn view(&self) -> StoreView {
        StoreView {
            accounts: self.accounts@.map_values(|a: Account| a@),
            invites: self.invites@.map_values(|t: Terms| t@),
            tokens: self.tokens@.map_values(|u: String| u@),
        }
    }
}

impl Store {
    /// A store in which nothing was created yet.
    pub fn new() -> (r: Store)
        ensures
            r@ == blank(),
    {
        let store = Store { accounts: Table::new(), invites: Table::new(), tokens: Table::new() };
        proof {
            assert(store@.accounts =~= blank().accounts);
            assert(store@.invites =~= blank().invites);
            assert(store@.tokens =~= blank().tokens);
        }
        store
    }

    /// Whether the directory is empty, and whether the ledger is.
    fn emptiness(&self) -> (r: (bool, bool))
        ensures
            r.0 == (self@.accounts == Map::<Seq<char>, AccountView>::empty()),
            r.1 == (self@.invites == Map::<Seq<char>, InviteView>::empty()),
    {
        let no_accounts = self.accounts.is_empty();
        let no_invites = self.invites.is_empty();
        proof {
            if no_accounts {
                assert(self@.accounts =~= Map::<Seq<char>, AccountView>::empty());
            } else {
                let k = choose|k: Seq<char>| self.accounts@.contains_key(k);
                assert(self@.accounts.contains_key(k));
            }
            if no_invites {
                assert(self@.invites =~= Map::<Seq<char>, InviteView>::empty());
            } else {
                let k = choose|k: Seq<char>| self.invites@.contains_key(k);
                assert(self@.invites.contains_key(k));
            }
        }
        (no_accounts, no_invites)
    }

    /// Whether the directory knows `username`.
    pub fn has_user(&self, username: &str) -> (r: bool)
        ensures
            r == self@.accounts.contains_key(username@),
    {
        self.accounts.contains_key(username)
    }

    /// The number of principals in the directory.
    pub fn user_count(&self) -> (r: usize)
        ensures
            self@.accounts.dom().finite(),
            r == self@.accounts.dom().len(),
    {
        assert(self@.accounts.dom() =~= self.accounts@.dom());
        self.accounts.len()
    }

    /// The principal `username` as the directory has it now.
    pub fn user(&self, username: &str) -> (r: Option<User>)
        ensures
            match r {
                Some(user) => held_by(self@, username@) == Some(user@.permissions) && user.username@ == username@,
                None => held_by(self@, username@) is None,
            },
    {
        match self.accounts.get(username) {
            Some(account) => Some(User { username: username.to_owned(), permissions: copied(&account.permissions) }),
            None => None,
        }
    }

    /// The invite `code` as the ledger has it now.
    pub fn invite(&self, code: &str) -> (r: Option<Invite>)
        ensures
            match r {
                Some(invite) => self@.invites.contains_key(code@) && invite.terms() == self@.invites[code@]
                    && invite.code@ == code@,
                None => !self@.invites.contains_key(code@),
            },
    {
        match self.invites.get(code) {
            Some(terms) => Some(
                Invite {
                    code: code.to_owned(),
                    permissions: copied(&terms.permissions),
                    remaining: terms.remaining,
                    creator: terms.creator.clone(),
                },
            ),
            None => None,
        }
    }

    /// Creates the first principal, with every permission, from a username and the
    /// digest of its password. This works once: on a store whose directory and
    /// ledger are both empty.
    pub fn initialize_with_hash(&mut self, username: String, hash: String) -> (r: Result<(), ApiError>)
        ensures
            settles(r, initialize_failure(old(self)@)),
            final(self)@ == if r is Ok {
                initialize_next(old(self)@, username@, hash@)
            } else {
                old(self)@
            },
    {
        let (no_accounts, no_invites) = self.emptiness();
        match rules::bootstrap(no_accounts, no_invites) {
            Err(e) => Err(e),
            Ok(()) => {
                let ghost before = self@;
                let all = Permission::all();
                proof {
                    crate::permission::all_is_everything();
                    assert(!self@.accounts.contains_key(username@));
                }
                let added = self.accounts.insert(username, Account { hash, permissions: all });
                assert(added);
                assert(self@.accounts =~= initialize_next(before, username@, hash@).accounts);
                Ok(())
            },
        }
    }

    /// Creates the first principal from a login: hashes the password, then does as
    /// [`Store::initialize_with_hash`]. A store that is not empty is refused before
    /// anything is hashed.
    pub fn initialize(&mut self, login: &DangerousLogin) -> (r: Result<(), ApiError>)
        ensures
            match r {
                Ok(_) => {
                    &&& initialize_failure(old(self)@) is None
                    &&& exists|hash: Seq<char>|
                        bcrypt_verdict(login.password@, hash) == Some(true) && final(self)@ == initialize_next(
                            old(self)@,
                            login.username@,
                            hash,
                        )
                    &&& credentials_accepted(final(self)@, login.username@, login.password@)
                },
                Err(e) => final(self)@ == old(self)@ && (settles(r, initialize_failure(old(self)@)) || (
                initialize_failure(old(self)@) is None && e is HashError)),
            },
    {
        let (no_accounts, no_invites) = self.emptiness();
        match rules::bootstrap(no_accounts, no_invites) {
            Err(e) => Err(e),
            Ok(()) => match hash_password(login.password.as_str()) {
                Err(e) => Err(ApiError::from(e)),
                Ok(hash) => self.initialize_with_hash(login.username.clone(), hash),
            },
        }
    }

    /// Creates an invite. The actor must hold `InviteWrite` and every permission
    /// that the invite grants, and the code must be new. The invite is recorded
    /// with the actor as its creator, whatever creator it came with.
    pub fn create_invite(&mut self, actor: &User, invite: Invite) -> (r: Result<Invite, ApiError>)
        ensures
            settles(r, create_invite_failure(old(self)@, actor@, invite.code@, as_set(invite.permissions@))),
            match r {
                Ok(made) => {
                    &&& final(self)@ == create_invite_next(
                        old(self)@,
                        actor@,
                        invite.code@,
                        as_set(invite.permissions@),
                        invite.remaining,
                    )
                    &&& made.code == invite.code
                    &&& made.permissions == invite.permissions
                    &&& made.remaining == invite.remaining
                    &&& made.creator@ == actor.username@
                },
                Err(_) => final(self)@ == old(self)@,
            },
    {
        let taken = self.invites.contains_key(invite.code.as_str());
        match rules::invite_creation(actor, &invite.permissions, taken) {
            Err(e) => Err(e),
            Ok(()) => {
                let ghost before = self@;
                let terms = Terms {
                    permissions: copied(&invite.permissions),
                    remaining: invite.remaining,
                    creator: actor.username.clone(),
                };
                let added = self.invites.insert(invite.code.clone(), terms);
                assert(added);
                assert(self@.invites =~= create_invite_next(
                    before,
                    actor@,
                    invite.code@,
                    as_set(invite.permissions@),
                    invite.remaining,
                ).invites);
                Ok(
                    Invite {
                        code: invite.code,
                        permissions: invite.permissions,
                        remaining: invite.remaining,
                        creator: actor.username.clone(),
                    },
                )
            },
        }
    }

    /// The uses that the invite `code` has left, if the ledger knows the code.
    fn uses(&self, code: &str) -> (r: Option<u16>)
        ensures
            r == uses_left(self@, code@),
    {
        match self.invites.get(code) {
            Some(terms) => Some(terms.remaining),
            None => None,
        }
    }

    /// Redeems an invite for a new principal, given the digest of its password. The
    /// principal gets what the invite grants; the invite loses one use, and leaves
    /// the ledger with its last one.
    pub fn redeem_with_hash(&mut self, code: &str, username: String, hash: String) -> (r: Result<(), ApiError>)
        ensures
            settles(r, redeem_failure(old(self)@, code@, username@)),
            final(self)@ == if r is Ok {
                redeem_next(old(self)@, code@, username@, hash@)
            } else {
                old(self)@
            },
    {
        let step = match rules::redemption(self.uses(code)) {
            Err(e) => {
                return Err(e);
            },
            Ok(step) => step,
        };
        if self.accounts.contains_key(username.as_str()) {
            return Err(ApiError::refusal(Failure::ConstraintViolation));
        }
        let ghost before = self@;
        let terms = match self.invites.remove(code) {
            Some(terms) => terms,
            None => {
                return Err(ApiError::refusal(Failure::NotFound));
            },
        };
        let account = Account { hash, permissions: copied(&terms.permissions) };
        let added = self.accounts.insert(username, account);
        assert(added);
        match step {
            LedgerStep::Decrement { remaining } => {
                let kept = Terms { permissions: terms.permissions, remaining, creator: terms.creator };
                let again = self.invites.insert(code.to_owned(), kept);
                assert(again);
            },
            LedgerStep::Remove => {},
        }
        proof {
            let after = redeem_next(before, code@, username@, hash@);
            assert(self@.accounts =~= after.accounts);
            assert(self@.invites =~= after.invites);
        }
        Ok(())
    }

    /// Redeems an invite for a new principal from a login: hashes the password, then
    /// does as [`Store::redeem_with_hash`]. A code that is absent or used up is
    /// refused before anything is hashed.
    pub fn redeem(&mut self, code: &str, login: &DangerousLogin) -> (r: Result<(), ApiError>)
        ensures
            match r {
                Ok(_) => {
                    &&& redeem_failure(old(self)@, code@, login.username@) is None
                    &&& exists|hash: Seq<char>|
                        bcrypt_verdict(login.password@, hash) == Some(true) && final(self)@ == redeem_next(
                            old(self)@,
                            code@,
                            login.username@,
                            hash,
                        )
                    &&& credentials_accepted(final(self)@, login.username@, login.password@)
                },
                Err(e) => final(self)@ == old(self)@ && (settles(r, redeem_failure(old(self)@, code@, login.username@))
                    || (rules::redemption_step(uses_left(old(self)@, code@)) is Ok && e is HashError)),
            },
            rules::redemption_step(uses_left(old(self)@, code@)) is Err ==> settles(
                r,
                redeem_failure(old(self)@, code@, login.username@),
            ),
    {
        match rules::redemption(self.uses(code)) {
            Err(e) => Err(e),
            Ok(_) => match hash_password(login.password.as_str()) {
                Err(e) => Err(ApiError::from(e)),
                Ok(hash) => self.redeem_with_hash(code, login.username.clone(), hash),
            },
        }
    }

    /// Deletes an invite. The actor must hold `InviteDelete`. Deleting a code that
    /// the ledger does not know succeeds and changes nothing.
    pub fn delete_invite(&mut self, actor: &User, code: &str) -> (r: Result<(), ApiError>)
        ensures
            settles(r, delete_invite_failure(actor@)),
            final(self)@ == if r is Ok {
                delete_invite_next(old(self)@, code@)
            } else {
                old(self)@
            },
    {
        match rules::invite_deletion(actor) {
            Err(e) => Err(e),
            Ok(()) => {
                let ghost before = self@;
                let _ = self.invites.remove(code);
                assert(self@.invites =~= delete_invite_next(before, code@).invites);
                Ok(())
            },
        }
    }

    /// Grants permissions to a user. The actor must hold `PermissionAdd` and every
    /// permission that is granted, and the user must exist. What the user holds
    /// already stays; granting it again changes nothing.
    pub fn grant(&mut self, actor: &User, username: &str, permissions: &Vec<Permission>) -> (r: Result<
        (),
        ApiError,
    >)
        ensures
            settles(r, grant_to_failure(old(self)@, actor@, username@, as_set(permissions@))),
            final(self)@ == if r is Ok {
                grant_to_next(old(self)@, username@, as_set(permissions@))
            } else {
                old(self)@
            },
    {
        match rules::grant_to(actor, permissions, self.accounts.contains_key(username)) {
            Err(e) => Err(e),
            Ok(()) => {
                let ghost before = self@;
                match self.accounts.remove(username) {
                    None => {
                        assert(self@.accounts =~= before.accounts);
                        Err(ApiError::refusal(Failure::NotFound))
                    },
                    Some(account) => {
                        let held = merged(&account.permissions, permissions);
                        let added = self.accounts.insert(
                            username.to_owned(),
                            Account { hash: account.hash, permissions: held },
                        );
                        assert(added);
                        assert(self@.accounts =~= grant_to_next(before, username@, as_set(permissions@)).accounts);
                        Ok(())
                    },
                }
            },
        }
    }

    /// Revokes permissions from a user. The actor must hold `PermissionDelete` and
    /// every permission that the user holds now, not only those that are revoked.
    /// Revoking what the user does not hold changes nothing, and so does revoking
    /// from a user that does not exist.
    pub fn revoke(&mut self, actor: &User, username: &str, permissions: &Vec<Permission>) -> (r: Result<
        (),
        ApiError,
    >)
        ensures
            settles(r, revoke_from_failure(old(self)@, actor@, username@)),
            final(self)@ == if r is Ok {
                revoke_from_next(old(self)@, username@, as_set(permissions@))
            } else {
                old(self)@
            },
    {
        let current = match self.accounts.get(username) {
            Some(account) => copied(&account.permissions),
            None => Vec::new(),
        };
        proof {
            assert(as_set(Seq::<Permission>::empty()) =~= Set::<Permission>::empty());
        }
        match rules::revocation(actor, &current) {
            Err(e) => Err(e),
            Ok(()) => {
                let ghost before = self@;
                match self.accounts.remove(username) {
                    None => {
                        assert(self@.accounts =~= before.accounts);
                    },
                    Some(account) => {
                        let held = without(&account.permissions, permissions);
                        let added = self.accounts.insert(
                            username.to_owned(),
                            Account { hash: account.hash, permissions: held },
                        );
                        assert(added);
                        assert(self@.accounts =~= revoke_from_next(before, username@, as_set(permissions@)).accounts);
                    },
                }
                Ok(())
            },
        }
    }

    /// Deletes a user, and with it every token of that user. Deleting oneself is
    /// always allowed. To delete another, that user must exist and the actor must
    /// hold `UserDelete` and every permission that the user holds now.
    pub fn delete_user(&mut self, actor: &User, username: &str) -> (r: Result<(), ApiError>)
        ensures
            settles(r, delete_user_failure(old(self)@, actor@, username@)),
            final(self)@ == if r is Ok {
                delete_user_next(old(self)@, username@)
            } else {
                old(self)@
            },
    {
        let decision = match self.accounts.get(username) {
            Some(account) => rules::user_deletion(actor, username, Some(&account.permissions)),
            None => rules::user_deletion(actor, username, None),
        };
        match decision {
            Err(e) => Err(e),
            Ok(()) => {
                let ghost before = self@;
                let _ = self.accounts.remove(username);
                self.tokens.remove_valued(username);
                proof {
                    let after = delete_user_next(before, username@);
                    assert(self@.accounts =~= after.accounts);
                    assert(self@.tokens =~= after.tokens);
                }
                Ok(())
            },
        }
    }

    /// Checks a login against the directory. An unknown user, a wrong password and
    /// a digest that cannot be read all end in the same refusal.
    pub fn verify_login(&self, login: &DangerousLogin) -> (r: Result<User, ApiError>)
        ensures
            match r {
                Ok(user) => credentials_accepted(self@, login.username@, login.password@) && user@
                    == (PrincipalView {
                    username: login.username@,
                    permissions: self@.accounts[login.username@].permissions,
                }),
                Err(_) => !credentials_accepted(self@, login.username@, login.password@) && settles(
                    r,
                    Some(Failure::Forbidden),
                ),
            },
    {
        match self.accounts.get(login.username.as_str()) {
            None => rules::login(None, None),
            Some(account) => {
                let verdict = check_password(login.password.as_str(), account.hash.as_str());
                let user = User { username: login.username.clone(), permissions: copied(&account.permissions) };
                rules::login(Some(user), verdict)
            },
        }
    }

    /// Registers a token for a user. The user must exist and the token must be new.
    pub fn record_token(&mut self, token: String, username: &str) -> (r: Result<(), ApiError>)
        ensures
            settles(r, record_token_failure(old(self)@, token@, username@)),
            final(self)@ == if r is Ok {
                record_token_next(old(self)@, token@, username@)
            } else {
                old(self)@
            },
    {
        if !self.accounts.contains_key(username) || self.tokens.contains_key(token.as_str()) {
            return Err(ApiError::refusal(Failure::ConstraintViolation));
        }
        let ghost before = self@;
        let added = self.tokens.insert(token, username.to_owned());
        assert(added);
        assert(self@.tokens =~= record_token_next(before, token@, username@).tokens);
        Ok(())
    }

    /// Issues a token for a user: draws a fresh one and registers it. The token is
    /// opaque and random; it never expires, and is valid until it is revoked.
    pub fn issue_token(&mut self, username: &str) -> (r: Result<String, ApiError>)
        ensures
            match r {
                Ok(token) => {
                    &&& token@.len() == 36
                    &&& record_token_failure(old(self)@, token@, username@) is None
                    &&& final(self)@ == record_token_next(old(self)@, token@, username@)
                },
                Err(_) => final(self)@ == old(self)@ && settles(r, Some(Failure::ConstraintViolation)),
            },
            !old(self)@.accounts.contains_key(username@) ==> r is Err,
    {
        let token = fresh_token();
        match self.record_token(token.clone(), username) {
            Err(e) => Err(e),
            Ok(()) => Ok(token),
        }
    }

    /// Logs a user in: checks the login, then issues a token. Any number of tokens
    /// may stand for one user.
    pub fn login(&mut self, login: &DangerousLogin) -> (r: Result<String, ApiError>)
        ensures
            match r {
                Ok(token) => {
                    &&& credentials_accepted(old(self)@, login.username@, login.password@)
                    &&& token@.len() == 36
                    &&& !old(self)@.tokens.contains_key(token@)
                    &&& final(self)@ == record_token_next(old(self)@, token@, login.username@)
                },
                Err(e) => {
                    &&& final(self)@ == old(self)@
                    &&& if credentials_accepted(old(self)@, login.username@, login.password@) {
                        settles(r, Some(Failure::ConstraintViolation))
                    } else {
                        settles(r, Some(Failure::Forbidden))
                    }
                },
            },
    {
        match self.verify_login(login) {
            Err(e) => Err(e),
            Ok(user) => self.issue_token(user.username.as_str()),
        }
    }

    /// Resolves a token to the principal it stands for, with the permissions that
    /// the directory has for it now.
    pub fn resolve(&self, token: &str) -> (r: Result<User, ApiError>)
        ensures
            match r {
                Ok(user) => resolved(self@, token@) == Some(user@),
                Err(_) => resolved(self@, token@) is None && settles(r, Some(Failure::Unauthenticated)),
            },
    {
        let found = match self.tokens.get(token) {
            None => None,
            Some(username) => match self.accounts.get(username.as_str()) {
                None => None,
                Some(account) => Some(
                    User { username: username.clone(), permissions: copied(&account.permissions) },
                ),
            },
        };
        rules::authentication(found)
    }

    /// Authenticates a request by the token it carries, if it carries one.
    pub fn authenticate(&self, token: Option<&str>) -> (r: Result<User, ApiError>)
        ensures
            match r {
                Ok(user) => token matches Some(t) && resolved(self@, t@) == Some(user@),
                Err(_) => (token matches Some(t) ==> resolved(self@, t@) is None) && settles(
                    r,
                    Some(Failure::Unauthenticated),
                ),
            },
    {
        match token {
            Some(t) => self.resolve(t),
            None => rules::authentication(None),
        }
    }

    /// Revokes one token. Revoking a token that is not registered changes nothing.
    pub fn revoke_token(&mut self, token: &str)
        ensures
            final(self)@ == revoke_token_next(old(self)@, token@),
    {
        let ghost before = self@;
        let _ = self.tokens.remove(token);
        assert(self@.tokens =~= revoke_token_next(before, token@).tokens);
    }

    /// Revokes every token of a user. This is allowed to that user, and to whoever
    /// holds `TokenDelete`. A user without tokens is no error.
    pub fn revoke_all(&mut self, actor: &User, username: &str) -> (r: Result<(), ApiError>)
        ensures
            settles(r, revoke_all_failure(actor@, username@)),
            final(self)@ == if r is Ok {
                revoke_all_next(old(self)@, username@)
            } else {
                old(self)@
            },
    {
        match rules::token_revocation(actor, username) {
            Err(e) => Err(e),
            Ok(()) => {
                let ghost before = self@;
                self.tokens.remove_valued(username);
                assert(self@.tokens =~= revoke_all_next(before, username@).tokens);
                Ok(())
            },
        }
    }
}

} // verus!
