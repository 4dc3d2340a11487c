//! Permission views, including the paged listing response.

use vstd::prelude::*;
use crate::entities::Permission;
use crate::filters::Pagination;
use crate::time::format_rfc3339;
use crate::time::rfc3339_format;
use crate::time::valid_instant;

verus! {

/// A permission as the transport layer shows it.
pub struct PermissionView {
    pub permission_id: i32,
    pub permission_name: String,
    pub created_at: String,
    pub updated_at: String,
    pub is_deleted: bool,
}

impl PermissionView {
    pub fn new(permission: Permission) -> (v: PermissionView)
        requires
            valid_instant(permission.created_at),
            valid_instant(permission.updated_at),
        ensures
            v.permission_id == permission.permission_id,
            v.permission_name == permission.permission_name,
            v.created_at@ == rfc3339_format(permission.created_at as int),
            v.updated_at@ == rfc3339_format(permission.updated_at as int),
            v.is_deleted == permission.is_deleted,
    {
        PermissionView {
            permission_id: permission.permission_id,
            permission_name: permission.permission_name,
            created_at: format_rfc3339(permission.created_at),
            updated_at: format_rfc3339(permission.updated_at),
            is_deleted: permission.is_deleted,
        }
    }
}

/// A page of permissions with its paging echo.
pub struct PermissionListingView {
    pub permissions: Vec<Permission>,
    pub pagination: Pagination,
}

impl PermissionListingView {
    pub fn new(permissions: Vec<Permission>, offset: i64, limit: i64, total: i64) -> (v:
        PermissionListingView)
        ensures
            v.permissions == permissions,
            v.pagination.offset == offset,
            v.pagination.limit == limit,
            v.pagination.total == total,
    {
        PermissionListingView { permissions, pagination: Pagination { offset, limit, total } }
    }
}

} // verus!
