//! Role views and role request schemes.

use vstd::prelude::*;
use crate::entities::Role;
use crate::entities::RoleMemberBinding;
use crate::entities::RolePermissionBinding;
use crate::time::format_rfc3339;
use crate::time::rfc3339_format;
use crate::time::valid_instant;

verus! {

/// A role as the transport layer shows it.
pub struct RoleView {
    pub role_id: i32,
    pub role_name: String,
    pub created_at: String,
    pub updated_at: String,
    pub is_deleted: bool,
}

impl RoleView {
    pub fn new(role: Role) -> (v: RoleView)
        requires
            valid_instant(role.created_at),
            valid_instant(role.updated_at),
        ensures
            v.role_id == role.role_id,
            v.role_name == role.role_name,
            v.created_at@ == rfc3339_format(role.created_at as int),
            v.updated_at@ == rfc3339_format(role.updated_at as int),
            v.is_deleted == role.is_deleted,
    {
        RoleView {
            role_id: role.role_id,
            role_name: role.role_name,
            created_at: format_rfc3339(role.created_at),
            updated_at: format_rfc3339(role.updated_at),
            is_deleted: role.is_deleted,
        }
    }
}

/// A request to grant a permission to a role.
pub struct BindingPermissionCreationScheme {
    pub permission_id: i32,
    pub role_id: i32,
}

/// A role-to-permission grant as the transport layer shows it.
pub struct RolePermissionBindingView {
    pub permission_id: i32,
    pub role_id: i32,
    pub created_at: String,
    pub updated_at: String,
    pub is_deleted: bool,
}

impl RolePermissionBindingView {
    pub fn new(binding: RolePermissionBinding) -> (v: RolePermissionBindingView)
        requires
            valid_instant(binding.created_at),
            valid_instant(binding.updated_at),
        ensures
            v.permission_id == binding.permission_id,
            v.role_id == binding.role_id,
            v.created_at@ == rfc3339_format(binding.created_at as int),
            v.updated_at@ == rfc3339_format(binding.updated_at as int),
            v.is_deleted == binding.is_deleted,
    {
        RolePermissionBindingView {
            permission_id: binding.permission_id,
            role_id: binding.role_id,
            created_at: format_rfc3339(binding.created_at),
            updated_at: format_rfc3339(binding.updated_at),
            is_deleted: binding.is_deleted,
        }
    }
}

/// A request to make a user a member of a role.
pub struct BindingMemberCreationScheme {
    pub user_id: i32,
    pub role_id: i32,
}

/// A role membership as the transport layer shows it.
pub struct RoleMemberBindingView {
    pub user_id: i32,
    pub role_id: i32,
    pub created_at: String,
    pub updated_at: String,
    pub is_deleted: bool,
}

impl RoleMemberBindingView {
    pub fn new(binding: RoleMemberBinding) -> (v: RoleMemberBindingView)
        requires
            valid_instant(binding.created_at),
            valid_instant(binding.updated_at),
        ensures
            v.user_id == binding.user_id,
            v.role_id == binding.role_id,
            v.created_at@ == rfc3339_format(binding.created_at as int),
            v.updated_at@ == rfc3339_format(binding.updated_at as int),
            v.is_deleted == binding.is_deleted,
    {
        RoleMemberBindingView {
            user_id: binding.user_id,
            role_id: binding.role_id,
            created_at: format_rfc3339(binding.created_at),
            updated_at: format_rfc3339(binding.updated_at),
            is_deleted: binding.is_deleted,
        }
    }
}

/// The path parameters of a permission unbind request.
pub struct PermissionBindingQuery {
    pub role_id: i32,
    pub permission_id: i32,
}

/// The path parameters of a member unbind request.
pub struct MemberBindingQuery {
    pub role_id: i32,
    pub user_id: i32,
}

} // verus!
