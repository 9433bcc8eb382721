//! The per-token identity record.

use vstd::prelude::*;
use crate::identity::HashedIdentity;

verus! {

/// The state kept for one identity token: whose identity it carries and
/// whether the token is live.
///
/// A record is created active, goes inactive when its token is burned or
/// expired, and ceases to exist when it is closed.
#[derive(Clone, Copy, Debug, PartialEq, Eq)]
pub struct IdentityRecord {
    pub identity: HashedIdentity,
    pub is_active: bool,
}

impl IdentityRecord {
    /// The record of a freshly minted token.
    pub fn activated(identity: HashedIdentity) -> (record: IdentityRecord)
        ensures
            record == (IdentityRecord { identity, is_active: true }),
    {
        IdentityRecord { identity, is_active: true }
    }

    /// Marks the token as no longer live; the identity stays as it is.
    pub fn deactivate(&mut self)
        ensures
            *final(self) == (IdentityRecord { identity: old(self).identity, is_active: false }),
    {
        self.is_active = false;
    }
}

} // verus!
