//! The closed role enumeration and its capability sets.

use vstd::prelude::*;

verus! {

/// The static role carried by every account and every session token.
///
/// The roles are not totally ordered; they are compared through their
/// capability sets: all roles but `Viewer` may write, only `SuperAdmin`,
/// `ParishAdmin` and `Accountant` may touch finance, and only `SuperAdmin`
/// and `ParishAdmin` may administrate.
#[derive(Clone, Copy, Debug, PartialEq, Eq, Structural)]
pub enum UserRole {
    SuperAdmin,
    ParishAdmin,
    Accountant,
    Secretary,
    Viewer,
}

impl UserRole {
    /// Every role but `Viewer` may create, update and delete data.
    pub open spec fn is_write_capable(self) -> bool {
        self != UserRole::Viewer
    }

    /// Only these roles may manage finance operations.
    pub open spec fn is_finance_capable(self) -> bool {
        self == UserRole::SuperAdmin || self == UserRole::ParishAdmin
            || self == UserRole::Accountant
    }

    /// Only these roles may manage parishes, users and settings.
    pub open spec fn is_admin_capable(self) -> bool {
        self == UserRole::SuperAdmin || self == UserRole::ParishAdmin
    }
}

} // verus!
