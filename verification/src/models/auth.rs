//! Accounts, roles and the links between them.

use vstd::prelude::*;

verus! {

/// Role of an account.
#[derive(Debug, Clone, Copy, PartialEq, Eq, Structural)]
pub enum RoleName {
    Admin,
    Pm,
    Member,
}

/// Gender recorded for an account.
#[derive(Debug, Clone, Copy, PartialEq, Eq, Structural)]
pub enum UserGender {
    Male,
    Female,
    Other,
    Unknown,
}

/// A permission granted to a role.
#[derive(Debug, Clone)]
pub struct RolePermission {
    pub role_id: String,
    pub permission_id: String,
}

/// A role held by a user.
#[derive(Debug, Clone)]
pub struct UserRole {
    pub user_id: String,
    pub role_id: String,
}

} // verus!
