//! Principals as the request layer sees them, and the credentials they log in with.

use vstd::prelude::*;
use crate::credential::{bcrypt_verdict, hash_password};
use crate::error::ApiError;
use crate::gate::{as_set, holds, may};
use crate::permission::{permissions_from_row, stored_permissions, Permission};
use crate::sql::{
    insert_user, insert_user_permissions, insert_user_permissions_view, insert_user_view, StatementView,
    Transaction,
};

verus! {

/// A username with its plaintext password, as a request carries it. The password
/// is never stored and never echoed.
#[derive(Clone, Debug, PartialEq, Eq)]
pub struct DangerousLogin {
    pub username: String,
    pub password: String,
}

/// An authenticated principal: a username and the permissions it holds.
#[derive(Clone, Debug, PartialEq, Eq)]
pub struct User {
    pub username: String,
    pub permissions: Vec<Permission>,
}

/// A principal as a name with a set of permissions.
pub struct PrincipalView {
    pub username: Seq<char>,
    pub permissions: Set<Permission>,
}

impl View for User {
    type V = PrincipalView;

    open spec fn view(&self) -> PrincipalView {
        PrincipalView { username: self.username@, permissions: as_set(self.permissions@) }
    }
}

/// The statements that create a user: the user itself, then its permissions where
/// it has any.
pub open spec fn user_statements(username: Seq<char>, hash: Seq<char>, permissions: Seq<Permission>) -> Seq<
    StatementView,
> {
    if permissions.len() == 0 {
        seq![insert_user_view(username, hash)]
    } else {
        seq![insert_user_view(username, hash), insert_user_permissions_view(username, permissions)]
    }
}

impl DangerousLogin {
    /// Adds to `tx` the statements that create this user with `permissions`, given
    /// the digest of the password.
    pub fn insert_hashed_user_into_transaction(
        &self,
        hash: &str,
        permissions: &Vec<Permission>,
        tx: &mut Transaction,
    )
        ensures
            final(tx)@ == old(tx)@ + user_statements(self.username@, hash@, permissions@),
    {
        tx.push(insert_user(self.username.as_str(), hash));
        match insert_user_permissions(self.username.as_str(), permissions) {
            Some(statement) => tx.push(statement),
            None => {},
        }
        assert(tx@ =~= old(tx)@ + user_statements(self.username@, hash@, permissions@));
    }

    /// Adds to `tx` the statements that create this user with `permissions`. The
    /// password is hashed first; where that fails, `tx` stays as it is.
    pub fn insert_user_into_transaction(&self, permissions: &Vec<Permission>, tx: &mut Transaction) -> (r:
        Result<(), ApiError>)
        ensures
            match r {
                Ok(_) => exists|hash: Seq<char>|
                    bcrypt_verdict(self.password@, hash) == Some(true) && final(tx)@ == old(tx)@
                        + user_statements(self.username@, hash, permissions@),
                Err(e) => e is HashError && final(tx)@ == old(tx)@,
            },
    {
        match hash_password(self.password.as_str()) {
            Err(e) => Err(ApiError::from(e)),
            Ok(hash) => {
                self.insert_hashed_user_into_transaction(hash.as_str(), permissions, tx);
                Ok(())
            },
        }
    }
}

impl User {
    /// The principal that a row of the directory describes: its username, and its
    /// permissions read leniently from their stored form. The caller reads the two
    /// columns, and deals with a row that lacks them; from there on nothing fails.
    pub fn try_from_row(username: String, permissions: &Option<String>) -> (r: User)
        ensures
            r.username == username,
            r.permissions@ == stored_permissions(
                match permissions {
                    Some(text) => Some(text@),
                    None => None,
                },
            ),
    {
        User { username, permissions: permissions_from_row(permissions) }
    }

    /// Whether the principal holds `p`.
    pub fn holds(&self, p: Permission) -> (r: bool)
        ensures
            r == self@.permissions.contains(p),
    {
        holds(&self.permissions, p)
    }

    /// Whether the principal holds every permission in `required`.
    pub fn authorize(&self, required: &Vec<Permission>) -> (r: bool)
        ensures
            r == as_set(required@).subset_of(self@.permissions),
    {
        may(&self.permissions, required)
    }
}

} // verus!
