//! The access-model port: the storage contract, as traits a storage
//! collaborator implements per entity kind. The in-memory
//! [`AccessModel`] realises every port; a database-backed collaborator
//! outside the crate can implement the same traits for its own handle.
//!
//! Port methods speak storage-level outcomes (`AccessModelError`); the
//! use cases translate those into use-case errors. The exact behaviour
//! of each operation is specified on the concrete model; the port
//! carries the invariant-preservation obligation every implementation
//! must meet.

use vstd::prelude::*;
use crate::entities::User;
use crate::entities::UserForCreation;
use crate::errors::AccessModelError;
use crate::errors::UserUCError;
use crate::filters::PermissionsFilters;
use crate::filters::PermissionsList;
use crate::store::AccessModel;

verus! {

/// Store a fresh user.
pub trait CreateUser: Sized {
    /// The implementation's well-formedness.
    spec fn inv(&self) -> bool;

    fn save_user_in_storage(&mut self, user: UserForCreation, now: i64) -> (r: Result<
        User,
        AccessModelError,
    >)
        requires
            old(self).inv(),
        ensures
            final(self).inv(),
    ;
}

impl CreateUser for AccessModel {
    open spec fn inv(&self) -> bool {
        self.wf()
    }

    fn save_user_in_storage(&mut self, user: UserForCreation, now: i64) -> (r: Result<
        User,
        AccessModelError,
    >) {
        self.users.save_user_in_storage(user, now)
    }
}

/// Fetch a non-deleted user by id.
pub trait FindUserById: Sized {
    /// The implementation's well-formedness.
    spec fn inv(&self) -> bool;

    fn find_user_by_id(&self, user_id: i32) -> (r: Result<User, AccessModelError>)
        requires
            self.inv(),
    ;
}

impl FindUserById for AccessModel {
    open spec fn inv(&self) -> bool {
        self.wf()
    }

    fn find_user_by_id(&self, user_id: i32) -> (r: Result<User, AccessModelError>) {
        self.users.find_user_by_id(user_id)
    }
}

/// Soft-disable a user by id.
pub trait RemoveUserById: Sized {
    /// The implementation's well-formedness.
    spec fn inv(&self) -> bool;

    fn remove_user_by_id(&mut self, user_id: i32, now: i64) -> (r: Result<(), AccessModelError>)
        requires
            old(self).inv(),
        ensures
            final(self).inv(),
    ;
}

impl RemoveUserById for AccessModel {
    open spec fn inv(&self) -> bool {
        self.wf()
    }

    fn remove_user_by_id(&mut self, user_id: i32, now: i64) -> (r: Result<(), AccessModelError>) {
        self.users.remove_user_by_id(user_id, now)
    }
}

/// Paged user listing; no collaborator realises it yet.
pub trait GetUsers: Sized {
    fn update_user_by_id(&self, limit: i64, offset: i64) -> Result<User, UserUCError>;
}

/// The storage side of sign-in and permission aggregation.
pub trait SignInVerification: Sized {
    /// The implementation's well-formedness.
    spec fn inv(&self) -> bool;

    /// Find the id of a non-deleted user matching username and stored
    /// password hash exactly.
    fn verificate_default(&self, username: &String, hash: &String) -> (r: Result<
        i32,
        AccessModelError,
    >)
        requires
            self.inv(),
    ;

    /// The coarse tokens: role and group names of active memberships.
    fn get_users_groups(&self, user_id: &i32) -> (r: Result<Vec<String>, AccessModelError>)
        requires
            self.inv(),
    ;

    /// The full aggregation: coarse tokens plus granted permission names.
    fn get_users_perms(&self, user_id: &i32) -> (r: Result<Vec<String>, AccessModelError>)
        requires
            self.inv(),
    ;
}

impl SignInVerification for AccessModel {
    open spec fn inv(&self) -> bool {
        self.wf()
    }

    fn verificate_default(&self, username: &String, hash: &String) -> (r: Result<
        i32,
        AccessModelError,
    >) {
        self.users.verificate_default(username, hash)
    }

    fn get_users_groups(&self, user_id: &i32) -> (r: Result<Vec<String>, AccessModelError>) {
        AccessModel::get_users_groups(self, user_id)
    }

    fn get_users_perms(&self, user_id: &i32) -> (r: Result<Vec<String>, AccessModelError>) {
        AccessModel::get_users_perms(self, user_id)
    }
}

/// Soft-disable a role by id.
pub trait DisableRole: Sized {
    /// The implementation's well-formedness.
    spec fn inv(&self) -> bool;

    fn disable_role_by_id(&mut self, role_id: i32, now: i64) -> (r: Result<(), AccessModelError>)
        requires
            old(self).inv(),
        ensures
            final(self).inv(),
    ;
}

impl DisableRole for AccessModel {
    open spec fn inv(&self) -> bool {
        self.wf()
    }

    fn disable_role_by_id(&mut self, role_id: i32, now: i64) -> (r: Result<(), AccessModelError>) {
        self.roles.soft_disable(role_id, now)
    }
}

/// Soft-disable a permission by id.
pub trait DisablePermission: Sized {
    /// The implementation's well-formedness.
    spec fn inv(&self) -> bool;

    fn disable_permission_in_storage(&mut self, permission_id: i32, now: i64) -> (r: Result<
        (),
        AccessModelError,
    >)
        requires
            old(self).inv(),
        ensures
            final(self).inv(),
    ;
}

impl DisablePermission for AccessModel {
    open spec fn inv(&self) -> bool {
        self.wf()
    }

    fn disable_permission_in_storage(&mut self, permission_id: i32, now: i64) -> (r: Result<
        (),
        AccessModelError,
    >) {
        self.permissions.soft_disable(permission_id, now)
    }
}

/// Soft-disable a group by id.
pub trait DisableGroup: Sized {
    /// The implementation's well-formedness.
    spec fn inv(&self) -> bool;

    fn disable_group_by_id(&mut self, group_id: i32, now: i64) -> (r: Result<(), AccessModelError>)
        requires
            old(self).inv(),
        ensures
            final(self).inv(),
    ;
}

impl DisableGroup for AccessModel {
    open spec fn inv(&self) -> bool {
        self.wf()
    }

    fn disable_group_by_id(&mut self, group_id: i32, now: i64) -> (r: Result<(), AccessModelError>) {
        self.groups.soft_disable(group_id, now)
    }
}

/// Filtered, paged permission listing.
pub trait GetPermissionsList: Sized {
    /// The implementation's well-formedness.
    spec fn inv(&self) -> bool;

    fn get_permissions_by_filters(&self, filters: PermissionsFilters) -> (r: Result<
        PermissionsList,
        AccessModelError,
    >)
        requires
            self.inv(),
    ;
}

impl GetPermissionsList for AccessModel {
    open spec fn inv(&self) -> bool {
        self.wf()
    }

    fn get_permissions_by_filters(&self, filters: PermissionsFilters) -> (r: Result<
        PermissionsList,
        AccessModelError,
    >) {
        match crate::filters::get_permissions_by_filters(self, filters) {
            Ok(list) => Ok(list),
            Err(_) => Err(AccessModelError::FatalError),
        }
    }
}

} // verus!
