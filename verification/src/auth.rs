//! Roles and the access rules built on them.

use vstd::prelude::*;
use crate::ids::{ApiKeyId, UserId};
use crate::time::Timestamp;

verus! {

/// User role for RBAC.
#[derive(Debug, Clone, Copy, PartialEq, Eq, Hash, Structural)]
pub enum Role {
    /// Full access including user management.
    Admin,
    /// Can create/edit/run jobs but not manage users.
    Operator,
    /// Read-only access.
    Viewer,
}

/// A user account.
#[derive(Debug, Clone, PartialEq, Eq)]
pub struct User {
    /// Identifier.
    pub id: UserId,
    /// Login name (unique).
    pub username: String,
    /// Role.
    pub role: Role,
    /// Whether disabled (can't log in).
    pub disabled: bool,
    /// Created.
    pub created_at: Timestamp,
}

/// An issued API key (the raw token is shown once at creation; only the
/// hash is stored).
#[derive(Debug, Clone, PartialEq, Eq)]
pub struct ApiKey {
    /// Identifier.
    pub id: ApiKeyId,
    /// Owning user.
    pub user_id: UserId,
    /// Friendly name (e.g., "ci", "backup-agent").
    pub name: String,
    /// Created.
    pub created_at: Timestamp,
    /// Last time the key was used to authenticate.
    pub last_used_at: Option<Timestamp>,
    /// Optional expiry.
    pub expires_at: Option<Timestamp>,
    /// Whether disabled.
    pub disabled: bool,
}

/// The text form of each role.
pub open spec fn role_text(r: Role) -> Seq<char> {
    match r {
        Role::Admin => "admin"@,
        Role::Operator => "operator"@,
        Role::Viewer => "viewer"@,
    }
}

/// The role named by `s`, if any.
pub open spec fn role_of_text(s: Seq<char>) -> Option<Role> {
    if s == "admin"@ {
        Some(Role::Admin)
    } else if s == "operator"@ {
        Some(Role::Operator)
    } else if s == "viewer"@ {
        Some(Role::Viewer)
    } else {
        None
    }
}

/// Roles allowed to mutate jobs, runs and calendars.
pub open spec fn writes(r: Role) -> bool {
    r is Admin || r is Operator
}

/// Roles allowed to manage users and API keys.
pub open spec fn administers(r: Role) -> bool {
    r is Admin
}

impl Role {
    /// String form used in DB rows and JIL `permission` attr.
    pub fn as_str(self) -> (r: &'static str)
        ensures
            r@ == role_text(self),
    {
        match self {
            Role::Admin => "admin",
            Role::Operator => "operator",
            Role::Viewer => "viewer",
        }
    }

    /// Parse from DB / JIL string. Returns None for unknown values.
    pub fn parse(s: &str) -> (r: Option<Self>)
        ensures
            r == role_of_text(s@),
    {
        if crate::text::str_eq_lit(s, "admin") {
            Some(Role::Admin)
        } else if crate::text::str_eq_lit(s, "operator") {
            Some(Role::Operator)
        } else if crate::text::str_eq_lit(s, "viewer") {
            Some(Role::Viewer)
        } else {
            None
        }
    }

    /// True if this role can mutate jobs / runs / calendars.
    pub fn can_write(self) -> (r: bool)
        ensures
            r == writes(self),
    {
        match self {
            Role::Admin | Role::Operator => true,
            Role::Viewer => false,
        }
    }

    /// True if this role can manage users + API keys.
    pub fn can_admin(self) -> (r: bool)
        ensures
            r == administers(self),
    {
        match self {
            Role::Admin => true,
            _ => false,
        }
    }
}

/// Reading back the text form of a role gives the role.
pub proof fn lemma_role_text_roundtrip(r: Role)
    ensures
        role_of_text(role_text(r)) == Some(r),
{
    reveal_strlit("admin");
    reveal_strlit("operator");
    reveal_strlit("viewer");
    assert("admin"@[0] == 'a' && "operator"@[0] == 'o' && "viewer"@[0] == 'v');
}

/// Every role that may administer may also write.
pub proof fn lemma_admin_implies_write(r: Role)
    ensures
        administers(r) ==> writes(r),
{
}

} // verus!
