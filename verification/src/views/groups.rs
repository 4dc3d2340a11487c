//! Group views and group request schemes.

use vstd::prelude::*;
use crate::entities::Group;
use crate::entities::GroupsMemberBinding;
use crate::entities::GroupsPermissionBinding;
use crate::time::format_rfc3339;
use crate::time::rfc3339_format;
use crate::time::valid_instant;

verus! {

/// A group as the transport layer shows it.
pub struct GroupView {
    pub group_id: i32,
    pub group_name: String,
    pub created_at: String,
    pub updated_at: String,
    pub is_deleted: bool,
}

impl GroupView {
    pub fn new(group: Group) -> (v: GroupView)
        requires
            valid_instant(group.created_at),
            valid_instant(group.updated_at),
        ensures
            v.group_id == group.group_id,
            v.group_name == group.group_name,
            v.created_at@ == rfc3339_format(group.created_at as int),
            v.updated_at@ == rfc3339_format(group.updated_at as int),
            v.is_deleted == group.is_deleted,
    {
        GroupView {
            group_id: group.group_id,
            group_name: group.group_name,
            created_at: format_rfc3339(group.created_at),
            updated_at: format_rfc3339(group.updated_at),
            is_deleted: group.is_deleted,
        }
    }
}

/// A request to grant a permission to a group.
pub struct BindingPermissionCreationScheme {
    pub permission_id: i32,
    pub group_id: i32,
}

/// A group-to-permission grant as the transport layer shows it.
pub struct GroupsPermissionBindingView {
    pub permission_id: i32,
    pub group_id: i32,
    pub created_at: String,
    pub updated_at: String,
    pub is_deleted: bool,
}

impl GroupsPermissionBindingView {
    pub fn new(binding: GroupsPermissionBinding) -> (v: GroupsPermissionBindingView)
        requires
            valid_instant(binding.created_at),
            valid_instant(binding.updated_at),
        ensures
            v.permission_id == binding.permission_id,
            v.group_id == binding.group_id,
            v.created_at@ == rfc3339_format(binding.created_at as int),
            v.updated_at@ == rfc3339_format(binding.updated_at as int),
            v.is_deleted == binding.is_deleted,
    {
        GroupsPermissionBindingView {
            permission_id: binding.permission_id,
            group_id: binding.group_id,
            created_at: format_rfc3339(binding.created_at),
            updated_at: format_rfc3339(binding.updated_at),
            is_deleted: binding.is_deleted,
        }
    }
}

/// A request to make a user a member of a group.
pub struct BindingMemberCreationScheme {
    pub user_id: i32,
    pub group_id: i32,
}

/// A group membership as the transport layer shows it.
pub struct GroupsMemberBindingView {
    pub user_id: i32,
    pub group_id: i32,
    pub created_at: String,
    pub updated_at: String,
    pub is_deleted: bool,
}

impl GroupsMemberBindingView {
    pub fn new(binding: GroupsMemberBinding) -> (v: GroupsMemberBindingView)
        requires
            valid_instant(binding.created_at),
            valid_instant(binding.updated_at),
        ensures
            v.user_id == binding.user_id,
            v.group_id == binding.group_id,
            v.created_at@ == rfc3339_format(binding.created_at as int),
            v.updated_at@ == rfc3339_format(binding.updated_at as int),
            v.is_deleted == binding.is_deleted,
    {
        GroupsMemberBindingView {
            user_id: binding.user_id,
            group_id: binding.group_id,
            created_at: format_rfc3339(binding.created_at),
            updated_at: format_rfc3339(binding.updated_at),
            is_deleted: binding.is_deleted,
        }
    }
}

/// The path parameters of a permission unbind request.
pub struct PermissionBindingQuery {
    pub group_id: i32,
    pub permission_id: i32,
}

/// The path parameters of a member unbind request.
pub struct MemberBindingQuery {
    pub group_id: i32,
    pub user_id: i32,
}

} // verus!
