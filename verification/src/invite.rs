//! Invites: consumable, permission-bearing codes.

use vstd::prelude::*;
use crate::gate::as_set;
use crate::permission::{permissions_from_row, stored_permissions, Permission};

verus! {

/// An invite: a code that creates principals with `permissions`, `remaining` times.
#[derive(Clone, Debug, PartialEq, Eq)]
pub struct Invite {
    pub code: String,
    pub permissions: Vec<Permission>,
    pub remaining: u16,
    pub creator: String,
}

/// What an invite grants, how often, and who made it.
pub struct InviteView {
    pub permissions: Set<Permission>,
    pub remaining: u16,
    pub creator: Seq<char>,
}

impl Invite {
    /// The terms of the invite, without its code.
    pub open spec fn terms(&self) -> InviteView {
        InviteView { permissions: as_set(self.permissions@), remaining: self.remaining, creator: self.creator@ }
    }

    /// The invite that a row of the ledger describes; its permissions are read
    /// leniently from their stored form. The caller reads the columns, and deals
    /// with a row that lacks them; from there on nothing fails.
    pub fn try_from_row(code: String, permissions: &Option<String>, remaining: u16, creator: String) -> (r:
        Invite)
        ensures
            r.code == code,
            r.remaining == remaining,
            r.creator == creator,
            r.permissions@ == stored_permissions(
                match permissions {
                    Some(text) => Some(text@),
                    None => None,
                },
            ),
    {
        Invite { code, permissions: permissions_from_row(permissions), remaining, creator }
    }
}

} // verus!
