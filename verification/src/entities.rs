//! The entity and binding records the access model stores, and the
//! ephemeral credential records that the sign-in service produces.
//!
//! All soft-deletable rows carry `created_at`, `updated_at` (UTC seconds)
//! and an `is_deleted` flag; a binding's existence with `is_deleted ==
//! false` is the sole authority for "principal has grantee".

use vstd::prelude::*;
use crate::time::{rfc3339_format, rfc3339_parse, valid_instant, MAX_INSTANT_SECS};
use crate::time::format_rfc3339;

verus! {

/// A stored user row. Timestamps are UTC seconds.
pub struct User {
    pub user_id: i32,
    pub username: String,
    pub password_hash: String,
    pub enabled: bool,
    pub created_at: i64,
    pub updated_at: i64,
    pub is_deleted: bool,
}

impl User {
    pub fn new(
        user_id: i32,
        username: String,
        enabled: bool,
        created_at: i64,
        updated_at: i64,
    ) -> (u: User)
        ensures
            u.user_id == user_id,
            u.username == username,
            u.password_hash@ == Seq::<char>::empty(),
            u.enabled == enabled,
            u.created_at == created_at,
            u.updated_at == updated_at,
            !u.is_deleted,
    {
        User {
            user_id,
            username,
            password_hash: String::new(),
            enabled,
            created_at,
            updated_at,
            is_deleted: false,
        }
    }

    /// A field-for-field copy of the row.
    pub fn duplicate(&self) -> (u: User)
        ensures
            u == *self,
    {
        User {
            user_id: self.user_id,
            username: self.username.clone(),
            password_hash: self.password_hash.clone(),
            enabled: self.enabled,
            created_at: self.created_at,
            updated_at: self.updated_at,
            is_deleted: self.is_deleted,
        }
    }
}

/// What a sign-up hands to the access model: the username and the already
/// hashed password.
pub struct UserForCreation {
    pub username: String,
    pub password_hash: String,
}

/// A raw sign-up or sign-in request: username and the password in clear.
pub struct InputRawUser {
    pub username: String,
    pub password: String,
}

/// What a successful sign-in returns: the user id and the signed token.
pub struct SingnedInfo {
    pub user_id: i32,
    pub jwt_token: String,
}

impl SingnedInfo {
    pub fn new(user_id: i32, jwt_token: String) -> (s: SingnedInfo)
        ensures
            s.user_id == user_id,
            s.jwt_token == jwt_token,
    {
        SingnedInfo { user_id, jwt_token }
    }
}

/// The claims payload embedded in a signed token: user id, expiry as
/// RFC 3339 text, and the permission-name snapshot taken at issuance.
pub struct Claims {
    pub user_id: i32,
    pub expired_at: String,
    pub permissions: Vec<String>,
}

impl Claims {
    /// Builds the claims for a token issued at `now_secs` that lasts
    /// `expired_in_days` days.
    pub fn new(user_id: i32, now_secs: i64, expired_in_days: u32, permissions: Vec<String>) -> (c:
        Claims)
        requires
            valid_instant(now_secs),
            now_secs + (expired_in_days as int) * 86400 <= MAX_INSTANT_SECS,
        ensures
            c.user_id == user_id,
            c.permissions == permissions,
            c.expired_at@ == rfc3339_format(now_secs + (expired_in_days as int) * 86400),
            rfc3339_parse(c.expired_at@) == Some(now_secs + (expired_in_days as int) * 86400),
            crate::time::plain_seq(c.expired_at@),
    {
        let expires: i64 = now_secs + (expired_in_days as i64) * 86400;
        Claims { user_id, expired_at: format_rfc3339(expires), permissions }
    }
}

/// A decoded token in its outward form: the user id and the expiry text.
pub struct JWT {
    pub user_id: i32,
    pub expired_at: String,
}

impl JWT {
    pub fn new(user_id: i32, expired_at: String) -> (j: JWT)
        ensures
            j.user_id == user_id,
            j.expired_at == expired_at,
    {
        JWT { user_id, expired_at }
    }
}

/// A stored role row.
pub struct Role {
    pub role_id: i32,
    pub role_name: String,
    pub created_at: i64,
    pub updated_at: i64,
    pub is_deleted: bool,
}

impl Role {
    pub fn new(
        role_id: i32,
        role_name: String,
        created_at: i64,
        updated_at: i64,
        is_deleted: bool,
    ) -> (r: Role)
        ensures
            r == (Role { role_id, role_name, created_at, updated_at, is_deleted }),
    {
        Role { role_id, role_name, created_at, updated_at, is_deleted }
    }

    /// A field-for-field copy of the row.
    pub fn duplicate(&self) -> (r: Role)
        ensures
            r == *self,
    {
        Role {
            role_id: self.role_id,
            role_name: self.role_name.clone(),
            created_at: self.created_at,
            updated_at: self.updated_at,
            is_deleted: self.is_deleted,
        }
    }
}

pub struct RoleForCreation {
    pub role_name: String,
}

/// A stored permission row.
pub struct Permission {
    pub permission_id: i32,
    pub permission_name: String,
    pub created_at: i64,
    pub updated_at: i64,
    pub is_deleted: bool,
}

impl Permission {
    pub fn new(
        permission_id: i32,
        permission_name: String,
        created_at: i64,
        updated_at: i64,
        is_deleted: bool,
    ) -> (p: Permission)
        ensures
            p == (Permission { permission_id, permission_name, created_at, updated_at, is_deleted }),
    {
        Permission { permission_id, permission_name, created_at, updated_at, is_deleted }
    }

    /// A field-for-field copy of the row.
    pub fn duplicate(&self) -> (p: Permission)
        ensures
            p == *self,
    {
        Permission {
            permission_id: self.permission_id,
            permission_name: self.permission_name.clone(),
            created_at: self.created_at,
            updated_at: self.updated_at,
            is_deleted: self.is_deleted,
        }
    }
}

pub struct PermissionForCreation {
    pub permission_name: String,
}

/// A stored group row.
pub struct Group {
    pub group_id: i32,
    pub group_name: String,
    pub created_at: i64,
    pub updated_at: i64,
    pub is_deleted: bool,
}

impl Group {
    pub fn new(
        group_id: i32,
        group_name: String,
        created_at: i64,
        updated_at: i64,
        is_deleted: bool,
    ) -> (g: Group)
        ensures
            g == (Group { group_id, group_name, created_at, updated_at, is_deleted }),
    {
        Group { group_id, group_name, created_at, updated_at, is_deleted }
    }

    /// A field-for-field copy of the row.
    pub fn duplicate(&self) -> (g: Group)
        ensures
            g == *self,
    {
        Group {
            group_id: self.group_id,
            group_name: self.group_name.clone(),
            created_at: self.created_at,
            updated_at: self.updated_at,
            is_deleted: self.is_deleted,
        }
    }
}

pub struct GroupForCreation {
    pub group_name: String,
}

/// One row of a binding table: the composite natural key plus the
/// soft-delete lifecycle fields. `grantee_id` is the granted side
/// (permission, or member user), `principal_id` the holding side (role or
/// group).
#[derive(Clone, Copy, Debug, PartialEq, Eq, Structural)]
pub struct BindingRow {
    pub grantee_id: i32,
    pub principal_id: i32,
    pub created_at: i64,
    pub updated_at: i64,
    pub is_deleted: bool,
}

/// A role-to-permission grant.
#[derive(Clone, Copy, Debug, PartialEq, Eq, Structural)]
pub struct RolePermissionBinding {
    pub permission_id: i32,
    pub role_id: i32,
    pub created_at: i64,
    pub updated_at: i64,
    pub is_deleted: bool,
}

impl RolePermissionBinding {
    pub fn new(
        permission_id: i32,
        role_id: i32,
        created_at: i64,
        updated_at: i64,
        is_deleted: bool,
    ) -> (b: RolePermissionBinding)
        ensures
            b == (RolePermissionBinding {
                permission_id,
                role_id,
                created_at,
                updated_at,
                is_deleted,
            }),
    {
        RolePermissionBinding { permission_id, role_id, created_at, updated_at, is_deleted }
    }

    /// The generic row this typed binding mirrors.
    pub open spec fn row(self) -> BindingRow {
        BindingRow {
            grantee_id: self.permission_id,
            principal_id: self.role_id,
            created_at: self.created_at,
            updated_at: self.updated_at,
            is_deleted: self.is_deleted,
        }
    }

    /// The typed binding that mirrors a generic row.
    pub open spec fn of_row(r: BindingRow) -> RolePermissionBinding {
        RolePermissionBinding {
            permission_id: r.grantee_id,
            role_id: r.principal_id,
            created_at: r.created_at,
            updated_at: r.updated_at,
            is_deleted: r.is_deleted,
        }
    }

    pub fn from_row(r: &BindingRow) -> (b: RolePermissionBinding)
        ensures
            b == RolePermissionBinding::of_row(*r),
            b.row() == *r,
    {
        RolePermissionBinding {
            permission_id: r.grantee_id,
            role_id: r.principal_id,
            created_at: r.created_at,
            updated_at: r.updated_at,
            is_deleted: r.is_deleted,
        }
    }
}

/// A role membership grant for a user.
#[derive(Clone, Copy, Debug, PartialEq, Eq, Structural)]
pub struct RoleMemberBinding {
    pub user_id: i32,
    pub role_id: i32,
    pub created_at: i64,
    pub updated_at: i64,
    pub is_deleted: bool,
}

impl RoleMemberBinding {
    pub fn new(user_id: i32, role_id: i32, created_at: i64, updated_at: i64, is_deleted: bool) -> (b:
        RoleMemberBinding)
        ensures
            b == (RoleMemberBinding { user_id, role_id, created_at, updated_at, is_deleted }),
    {
        RoleMemberBinding { user_id, role_id, created_at, updated_at, is_deleted }
    }

    /// The generic row this typed binding mirrors.
    pub open spec fn row(self) -> BindingRow {
        BindingRow {
            grantee_id: self.user_id,
            principal_id: self.role_id,
            created_at: self.created_at,
            updated_at: self.updated_at,
            is_deleted: self.is_deleted,
        }
    }

    /// The typed binding that mirrors a generic row.
    pub open spec fn of_row(r: BindingRow) -> RoleMemberBinding {
        RoleMemberBinding {
            user_id: r.grantee_id,
            role_id: r.principal_id,
            created_at: r.created_at,
            updated_at: r.updated_at,
            is_deleted: r.is_deleted,
        }
    }

    pub fn from_row(r: &BindingRow) -> (b: RoleMemberBinding)
        ensures
            b == RoleMemberBinding::of_row(*r),
            b.row() == *r,
    {
        RoleMemberBinding {
            user_id: r.grantee_id,
            role_id: r.principal_id,
            created_at: r.created_at,
            updated_at: r.updated_at,
            is_deleted: r.is_deleted,
        }
    }
}

/// A group-to-permission grant.
#[derive(Clone, Copy, Debug, PartialEq, Eq, Structural)]
pub struct GroupsPermissionBinding {
    pub permission_id: i32,
    pub group_id: i32,
    pub created_at: i64,
    pub updated_at: i64,
    pub is_deleted: bool,
}

impl GroupsPermissionBinding {
    pub fn new(
        permission_id: i32,
        group_id: i32,
        created_at: i64,
        updated_at: i64,
        is_deleted: bool,
    ) -> (b: GroupsPermissionBinding)
        ensures
            b == (GroupsPermissionBinding {
                permission_id,
                group_id,
                created_at,
                updated_at,
                is_deleted,
            }),
    {
        GroupsPermissionBinding { permission_id, group_id, created_at, updated_at, is_deleted }
    }

    /// The generic row this typed binding mirrors.
    pub open spec fn row(self) -> BindingRow {
        BindingRow {
            grantee_id: self.permission_id,
            principal_id: self.group_id,
            created_at: self.created_at,
            updated_at: self.updated_at,
            is_deleted: self.is_deleted,
        }
    }

    /// The typed binding that mirrors a generic row.
    pub open spec fn of_row(r: BindingRow) -> GroupsPermissionBinding {
        GroupsPermissionBinding {
            permission_id: r.grantee_id,
            group_id: r.principal_id,
            created_at: r.created_at,
            updated_at: r.updated_at,
            is_deleted: r.is_deleted,
        }
    }

    pub fn from_row(r: &BindingRow) -> (b: GroupsPermissionBinding)
        ensures
            b == GroupsPermissionBinding::of_row(*r),
            b.row() == *r,
    {
        GroupsPermissionBinding {
            permission_id: r.grantee_id,
            group_id: r.principal_id,
            created_at: r.created_at,
            updated_at: r.updated_at,
            is_deleted: r.is_deleted,
        }
    }
}

/// A group membership grant for a user.
#[derive(Clone, Copy, Debug, PartialEq, Eq, Structural)]
pub struct GroupsMemberBinding {
    pub user_id: i32,
    pub group_id: i32,
    pub created_at: i64,
    pub updated_at: i64,
    pub is_deleted: bool,
}

impl GroupsMemberBinding {
    pub fn new(user_id: i32, group_id: i32, created_at: i64, updated_at: i64, is_deleted: bool) -> (
        b: GroupsMemberBinding)
        ensures
            b == (GroupsMemberBinding { user_id, group_id, created_at, updated_at, is_deleted }),
    {
        GroupsMemberBinding { user_id, group_id, created_at, updated_at, is_deleted }
    }

    /// The generic row this typed binding mirrors.
    pub open spec fn row(self) -> BindingRow {
        BindingRow {
            grantee_id: self.user_id,
            principal_id: self.group_id,
            created_at: self.created_at,
            updated_at: self.updated_at,
            is_deleted: self.is_deleted,
        }
    }

    /// The typed binding that mirrors a generic row.
    pub open spec fn of_row(r: BindingRow) -> GroupsMemberBinding {
        GroupsMemberBinding {
            user_id: r.grantee_id,
            group_id: r.principal_id,
            created_at: r.created_at,
            updated_at: r.updated_at,
            is_deleted: r.is_deleted,
        }
    }

    pub fn from_row(r: &BindingRow) -> (b: GroupsMemberBinding)
        ensures
            b == GroupsMemberBinding::of_row(*r),
            b.row() == *r,
    {
        GroupsMemberBinding {
            user_id: r.grantee_id,
            group_id: r.principal_id,
            created_at: r.created_at,
            updated_at: r.updated_at,
            is_deleted: r.is_deleted,
        }
    }
}

/// A bare id/name pair, the smallest view of an entity.
pub struct Entity {
    pub id: i32,
    pub name: String,
}

impl Entity {
    pub fn new(id: i32, name: String) -> (e: Entity)
        ensures
            e.id == id,
            e.name == name,
    {
        Entity { id, name }
    }
}

} // verus!
