//! The entity use cases — create, get, disable per kind — and the four
//! instantiations of the binding reconciler, all over the in-memory
//! access model. Each use case translates storage outcomes into its
//! use-case error kind: `AlreadyExists` passes through on create,
//! `NotFoundError` on get/disable/unbind, `TemporaryError` always, and
//! everything else collapses to `FatalError`.

use vstd::prelude::*;
use crate::crypto::generate_hash;
use crate::crypto::password_hash_of;
use crate::crypto::password_encodable;
use crate::entities::Group;
use crate::entities::GroupForCreation;
use crate::entities::GroupsMemberBinding;
use crate::entities::GroupsPermissionBinding;
use crate::entities::InputRawUser;
use crate::entities::Permission;
use crate::entities::PermissionForCreation;
use crate::entities::Role;
use crate::entities::RoleForCreation;
use crate::entities::RoleMemberBinding;
use crate::entities::RolePermissionBinding;
use crate::entities::User;
use crate::entities::UserForCreation;
use crate::errors::AccessModelError;
use crate::errors::GroupUCError;
use crate::errors::PermissionUCError;
use crate::errors::RoleUCError;
use crate::errors::UserUCError;
use crate::reconcile::bind_result_row;
use crate::reconcile::bind_rows;
use crate::reconcile::unbind_result;
use crate::reconcile::unbind_rows;
use crate::store::active_name_taken;
use crate::store::ent_deactivated;
use crate::store::ent_idx;
use crate::store::has_ent_id;
use crate::store::has_user_id;
use crate::store::user_deactivated;
use crate::store::user_idx;
use crate::store::username_taken;
use crate::store::AccessModel;
use crate::store::EntityRow;
use crate::time::valid_instant;

verus! {

/// The role an entity row denotes.
pub open spec fn role_of_ent(e: EntityRow) -> Role {
    Role {
        role_id: e.id,
        role_name: e.name,
        created_at: e.created_at,
        updated_at: e.updated_at,
        is_deleted: e.is_deleted,
    }
}

/// The permission an entity row denotes.
pub open spec fn permission_of_ent(e: EntityRow) -> Permission {
    Permission {
        permission_id: e.id,
        permission_name: e.name,
        created_at: e.created_at,
        updated_at: e.updated_at,
        is_deleted: e.is_deleted,
    }
}

/// The group an entity row denotes.
pub open spec fn group_of_ent(e: EntityRow) -> Group {
    Group {
        group_id: e.id,
        group_name: e.name,
        created_at: e.created_at,
        updated_at: e.updated_at,
        is_deleted: e.is_deleted,
    }
}

fn role_from_ent(e: EntityRow) -> (r: Role)
    ensures
        r == role_of_ent(e),
{
    Role {
        role_id: e.id,
        role_name: e.name,
        created_at: e.created_at,
        updated_at: e.updated_at,
        is_deleted: e.is_deleted,
    }
}

fn permission_from_ent(e: EntityRow) -> (r: Permission)
    ensures
        r == permission_of_ent(e),
{
    Permission {
        permission_id: e.id,
        permission_name: e.name,
        created_at: e.created_at,
        updated_at: e.updated_at,
        is_deleted: e.is_deleted,
    }
}

fn group_from_ent(e: EntityRow) -> (r: Group)
    ensures
        r == group_of_ent(e),
{
    Group {
        group_id: e.id,
        group_name: e.name,
        created_at: e.created_at,
        updated_at: e.updated_at,
        is_deleted: e.is_deleted,
    }
}

// ---------------------------------------------------------------------
// Users
// ---------------------------------------------------------------------

/// Fetch a non-deleted user by id.
pub fn get_user_by_id(model: &AccessModel, user_id: i32) -> (r: Result<User, UserUCError>)
    requires
        model.wf(),
    ensures
        r == if has_user_id(model.users.rows@, user_id) && !model.users.rows@[user_idx(
            model.users.rows@,
            user_id,
        )].is_deleted {
            Result::<User, UserUCError>::Ok(model.users.rows@[user_idx(model.users.rows@, user_id)])
        } else {
            Result::<User, UserUCError>::Err(UserUCError::NotFoundError)
        },
{
    match model.users.find_user_by_id(user_id) {
        Ok(user) => Ok(user),
        Err(AccessModelError::NotFoundError) => Err(UserUCError::NotFoundError),
        Err(AccessModelError::TemporaryError) => Err(UserUCError::TemporaryError),
        Err(_) => Err(UserUCError::FatalError),
    }
}

/// Soft-disable a user by id; a missing or already-disabled user is
/// `NotFoundError` (callers typically treat that as success).
pub fn remove_user_by_id(model: &mut AccessModel, user_id: i32, now: i64) -> (r: Result<
    (),
    UserUCError,
>)
    requires
        old(model).wf(),
    ensures
        final(model).wf(),
        *final(model) == (AccessModel { users: final(model).users, ..*old(model) }),
        final(model).users.next_id == old(model).users.next_id,
        has_user_id(old(model).users.rows@, user_id) && !old(model).users.rows@[user_idx(
            old(model).users.rows@,
            user_id,
        )].is_deleted ==> {
            &&& final(model).users.rows@ == old(model).users.rows@.update(
                user_idx(old(model).users.rows@, user_id),
                user_deactivated(
                    old(model).users.rows@[user_idx(old(model).users.rows@, user_id)],
                    now,
                ),
            )
            &&& r matches Ok(())
        },
        !(has_user_id(old(model).users.rows@, user_id) && !old(model).users.rows@[user_idx(
            old(model).users.rows@,
            user_id,
        )].is_deleted) ==> {
            &&& *final(model) == *old(model)
            &&& r == Result::<(), UserUCError>::Err(UserUCError::NotFoundError)
        },
{
    match model.users.remove_user_by_id(user_id, now) {
        Ok(()) => Ok(()),
        Err(AccessModelError::NotFoundError) => Err(UserUCError::NotFoundError),
        Err(AccessModelError::TemporaryError) => Err(UserUCError::TemporaryError),
        Err(_) => Err(UserUCError::FatalError),
    }
}

/// Sign a user up: hash the password under the fixed salt, then store the
/// user; a taken username is `AlreadyExists`.
pub fn create_new_user(model: &mut AccessModel, raw_user: InputRawUser, now: i64) -> (r: Result<
    User,
    UserUCError,
>)
    requires
        old(model).wf(),
    ensures
        final(model).wf(),
        *final(model) == (AccessModel { users: final(model).users, ..*old(model) }),
        !password_encodable(raw_user.password@) ==> {
            &&& *final(model) == *old(model)
            &&& r == Result::<User, UserUCError>::Err(UserUCError::FatalError)
        },
        password_encodable(raw_user.password@) && username_taken(
            old(model).users.rows@,
            raw_user.username@,
        ) ==> {
            &&& *final(model) == *old(model)
            &&& r == Result::<User, UserUCError>::Err(UserUCError::AlreadyExists)
        },
        password_encodable(raw_user.password@) && !username_taken(
            old(model).users.rows@,
            raw_user.username@,
        ) && old(model).users.next_id == i32::MAX ==> {
            &&& *final(model) == *old(model)
            &&& r == Result::<User, UserUCError>::Err(UserUCError::FatalError)
        },
        password_encodable(raw_user.password@) && !username_taken(
            old(model).users.rows@,
            raw_user.username@,
        ) && old(model).users.next_id < i32::MAX ==> {
            &&& ({
                let stored = final(model).users.rows@.last();
                &&& final(model).users.rows@ == old(model).users.rows@.push(stored)
                &&& final(model).users.next_id == old(model).users.next_id + 1
                &&& stored.user_id == old(model).users.next_id
                &&& stored.username == raw_user.username
                &&& stored.password_hash@ == password_hash_of(raw_user.password@)
                &&& stored.enabled
                &&& !stored.is_deleted
                &&& stored.created_at == now
                &&& stored.updated_at == now
                &&& r matches Ok(u) && u == stored
            })
        },
{
    let hash = match generate_hash(raw_user.password.as_str()) {
        Ok(hash) => hash,
        Err(_) => {
            return Err(UserUCError::FatalError);
        },
    };
    let user_data = UserForCreation { username: raw_user.username, password_hash: hash };
    match model.users.save_user_in_storage(user_data, now) {
        Ok(user) => Ok(user),
        Err(AccessModelError::AlreadyExists) => Err(UserUCError::AlreadyExists),
        Err(AccessModelError::TemporaryError) => Err(UserUCError::TemporaryError),
        Err(_) => Err(UserUCError::FatalError),
    }
}

// ---------------------------------------------------------------------
// Roles
// ---------------------------------------------------------------------

/// Fetch a role by id, deleted or not.
pub fn get_role_by_id(model: &AccessModel, role_id: i32) -> (r: Result<Role, RoleUCError>)
    requires
        model.wf(),
    ensures
        r == if has_ent_id(model.roles.rows@, role_id) {
            Result::<Role, RoleUCError>::Ok(
                role_of_ent(model.roles.rows@[ent_idx(model.roles.rows@, role_id)]),
            )
        } else {
            Result::<Role, RoleUCError>::Err(RoleUCError::NotFoundError)
        },
{
    match model.roles.get_by_id(role_id) {
        Ok(ent) => Ok(role_from_ent(ent)),
        Err(AccessModelError::NotFoundError) => Err(RoleUCError::NotFoundError),
        Err(AccessModelError::TemporaryError) => Err(RoleUCError::TemporaryError),
        Err(_) => Err(RoleUCError::FatalError),
    }
}

/// Create a role; a name already carried by a non-deleted role is
/// `AlreadyExists`.
pub fn create_new_role(model: &mut AccessModel, role_data: RoleForCreation, now: i64) -> (r: Result<
    Role,
    RoleUCError,
>)
    requires
        old(model).wf(),
        valid_instant(now),
    ensures
        final(model).wf(),
        *final(model) == (AccessModel { roles: final(model).roles, ..*old(model) }),
        active_name_taken(old(model).roles.rows@, role_data.role_name@) ==> {
            &&& *final(model) == *old(model)
            &&& r == Result::<Role, RoleUCError>::Err(RoleUCError::AlreadyExists)
        },
        !active_name_taken(old(model).roles.rows@, role_data.role_name@) && old(
            model,
        ).roles.next_id == i32::MAX ==> {
            &&& *final(model) == *old(model)
            &&& r == Result::<Role, RoleUCError>::Err(RoleUCError::FatalError)
        },
        !active_name_taken(old(model).roles.rows@, role_data.role_name@) && old(model).roles.next_id
            < i32::MAX ==> {
            &&& ({
                let stored = EntityRow {
                    id: old(model).roles.next_id,
                    name: role_data.role_name,
                    created_at: now,
                    updated_at: now,
                    is_deleted: false,
                };
                &&& final(model).roles.rows@ == old(model).roles.rows@.push(stored)
                &&& final(model).roles.next_id == old(model).roles.next_id + 1
                &&& r == Result::<Role, RoleUCError>::Ok(role_of_ent(stored))
            })
        },
{
    match model.roles.insert(role_data.role_name, now) {
        Ok(ent) => Ok(role_from_ent(ent)),
        Err(AccessModelError::AlreadyExists) => Err(RoleUCError::AlreadyExists),
        Err(AccessModelError::TemporaryError) => Err(RoleUCError::TemporaryError),
        Err(_) => Err(RoleUCError::FatalError),
    }
}

/// Soft-disable a role by id; a missing or already-disabled role is
/// `NotFoundError` (callers typically treat that as success).
pub fn disable_role_by_id(model: &mut AccessModel, role_id: i32, now: i64) -> (r: Result<
    (),
    RoleUCError,
>)
    requires
        old(model).wf(),
    ensures
        final(model).wf(),
        *final(model) == (AccessModel { roles: final(model).roles, ..*old(model) }),
        final(model).roles.next_id == old(model).roles.next_id,
        has_ent_id(old(model).roles.rows@, role_id) && !old(model).roles.rows@[ent_idx(
            old(model).roles.rows@,
            role_id,
        )].is_deleted ==> {
            &&& final(model).roles.rows@ == old(model).roles.rows@.update(
                ent_idx(old(model).roles.rows@, role_id),
                ent_deactivated(old(model).roles.rows@[ent_idx(old(model).roles.rows@, role_id)], now),
            )
            &&& r matches Ok(())
        },
        !(has_ent_id(old(model).roles.rows@, role_id) && !old(model).roles.rows@[ent_idx(
            old(model).roles.rows@,
            role_id,
        )].is_deleted) ==> {
            &&& *final(model) == *old(model)
            &&& r == Result::<(), RoleUCError>::Err(RoleUCError::NotFoundError)
        },
{
    match model.roles.soft_disable(role_id, now) {
        Ok(()) => Ok(()),
        Err(AccessModelError::NotFoundError) => Err(RoleUCError::NotFoundError),
        Err(AccessModelError::TemporaryError) => Err(RoleUCError::TemporaryError),
        Err(_) => Err(RoleUCError::FatalError),
    }
}

// ---------------------------------------------------------------------
// Permissions
// ---------------------------------------------------------------------

/// Fetch a permission by id, deleted or not.
pub fn get_permission_by_id(model: &AccessModel, permission_id: i32) -> (r: Result<
    Permission,
    PermissionUCError,
>)
    requires
        model.wf(),
    ensures
        r == if has_ent_id(model.permissions.rows@, permission_id) {
            Result::<Permission, PermissionUCError>::Ok(
                permission_of_ent(
                    model.permissions.rows@[ent_idx(model.permissions.rows@, permission_id)],
                ),
            )
        } else {
            Result::<Permission, PermissionUCError>::Err(PermissionUCError::NotFoundError)
        },
{
    match model.permissions.get_by_id(permission_id) {
        Ok(ent) => Ok(permission_from_ent(ent)),
        Err(AccessModelError::NotFoundError) => Err(PermissionUCError::NotFoundError),
        Err(AccessModelError::TemporaryError) => Err(PermissionUCError::TemporaryError),
        Err(_) => Err(PermissionUCError::FatalError),
    }
}

/// Create a permission; a name already carried by a non-deleted
/// permission is `AlreadyExists`.
pub fn create_new_permission(
    model: &mut AccessModel,
    perm_data: PermissionForCreation,
    now: i64,
) -> (r: Result<Permission, PermissionUCError>)
    requires
        old(model).wf(),
        valid_instant(now),
    ensures
        final(model).wf(),
        *final(model) == (AccessModel { permissions: final(model).permissions, ..*old(model) }),
        active_name_taken(old(model).permissions.rows@, perm_data.permission_name@) ==> {
            &&& *final(model) == *old(model)
            &&& r == Result::<Permission, PermissionUCError>::Err(PermissionUCError::AlreadyExists)
        },
        !active_name_taken(old(model).permissions.rows@, perm_data.permission_name@) && old(
            model,
        ).permissions.next_id == i32::MAX ==> {
            &&& *final(model) == *old(model)
            &&& r == Result::<Permission, PermissionUCError>::Err(PermissionUCError::FatalError)
        },
        !active_name_taken(old(model).permissions.rows@, perm_data.permission_name@) && old(
            model,
        ).permissions.next_id < i32::MAX ==> {
            &&& ({
                let stored = EntityRow {
                    id: old(model).permissions.next_id,
                    name: perm_data.permission_name,
                    created_at: now,
                    updated_at: now,
                    is_deleted: false,
                };
                &&& final(model).permissions.rows@ == old(model).permissions.rows@.push(stored)
                &&& final(model).permissions.next_id == old(model).permissions.next_id + 1
                &&& r == Result::<Permission, PermissionUCError>::Ok(permission_of_ent(stored))
            })
        },
{
    match model.permissions.insert(perm_data.permission_name, now) {
        Ok(ent) => Ok(permission_from_ent(ent)),
        Err(AccessModelError::AlreadyExists) => Err(PermissionUCError::AlreadyExists),
        Err(AccessModelError::TemporaryError) => Err(PermissionUCError::TemporaryError),
        Err(_) => Err(PermissionUCError::FatalError),
    }
}

/// Soft-disable a permission by id; a missing or already-disabled
/// permission is `NotFoundError`.
pub fn disable_permission_by_id(model: &mut AccessModel, permission_id: i32, now: i64) -> (r:
    Result<(), PermissionUCError>)
    requires
        old(model).wf(),
    ensures
        final(model).wf(),
        *final(model) == (AccessModel { permissions: final(model).permissions, ..*old(model) }),
        final(model).permissions.next_id == old(model).permissions.next_id,
        has_ent_id(old(model).permissions.rows@, permission_id) && !old(
            model,
        ).permissions.rows@[ent_idx(old(model).permissions.rows@, permission_id)].is_deleted ==> {
            &&& final(model).permissions.rows@ == old(model).permissions.rows@.update(
                ent_idx(old(model).permissions.rows@, permission_id),
                ent_deactivated(
                    old(model).permissions.rows@[ent_idx(
                        old(model).permissions.rows@,
                        permission_id,
                    )],
                    now,
                ),
            )
            &&& r matches Ok(())
        },
        !(has_ent_id(old(model).permissions.rows@, permission_id) && !old(
            model,
        ).permissions.rows@[ent_idx(old(model).permissions.rows@, permission_id)].is_deleted) ==> {
            &&& *final(model) == *old(model)
            &&& r == Result::<(), PermissionUCError>::Err(PermissionUCError::NotFoundError)
        },
{
    match model.permissions.soft_disable(permission_id, now) {
        Ok(()) => Ok(()),
        Err(AccessModelError::NotFoundError) => Err(PermissionUCError::NotFoundError),
        Err(AccessModelError::TemporaryError) => Err(PermissionUCError::TemporaryError),
        Err(_) => Err(PermissionUCError::FatalError),
    }
}

// ---------------------------------------------------------------------
// Groups
// ---------------------------------------------------------------------

/// Fetch a group by id, deleted or not.
pub fn get_group_by_id(model: &AccessModel, group_id: i32) -> (r: Result<Group, GroupUCError>)
    requires
        model.wf(),
    ensures
        r == if has_ent_id(model.groups.rows@, group_id) {
            Result::<Group, GroupUCError>::Ok(
                group_of_ent(model.groups.rows@[ent_idx(model.groups.rows@, group_id)]),
            )
        } else {
            Result::<Group, GroupUCError>::Err(GroupUCError::NotFoundError)
        },
{
    match model.groups.get_by_id(group_id) {
        Ok(ent) => Ok(group_from_ent(ent)),
        Err(AccessModelError::NotFoundError) => Err(GroupUCError::NotFoundError),
        Err(AccessModelError::TemporaryError) => Err(GroupUCError::TemporaryError),
        Err(_) => Err(GroupUCError::FatalError),
    }
}

/// Create a group; a name already carried by a non-deleted group is
/// `AlreadyExists`.
pub fn create_new_group(model: &mut AccessModel, group_data: GroupForCreation, now: i64) -> (r:
    Result<Group, GroupUCError>)
    requires
        old(model).wf(),
        valid_instant(now),
    ensures
        final(model).wf(),
        *final(model) == (AccessModel { groups: final(model).groups, ..*old(model) }),
        active_name_taken(old(model).groups.rows@, group_data.group_name@) ==> {
            &&& *final(model) == *old(model)
            &&& r == Result::<Group, GroupUCError>::Err(GroupUCError::AlreadyExists)
        },
        !active_name_taken(old(model).groups.rows@, group_data.group_name@) && old(
            model,
        ).groups.next_id == i32::MAX ==> {
            &&& *final(model) == *old(model)
            &&& r == Result::<Group, GroupUCError>::Err(GroupUCError::FatalError)
        },
        !active_name_taken(old(model).groups.rows@, group_data.group_name@) && old(
            model,
        ).groups.next_id < i32::MAX ==> {
            &&& ({
                let stored = EntityRow {
                    id: old(model).groups.next_id,
                    name: group_data.group_name,
                    created_at: now,
                    updated_at: now,
                    is_deleted: false,
                };
                &&& final(model).groups.rows@ == old(model).groups.rows@.push(stored)
                &&& final(model).groups.next_id == old(model).groups.next_id + 1
                &&& r == Result::<Group, GroupUCError>::Ok(group_of_ent(stored))
            })
        },
{
    match model.groups.insert(group_data.group_name, now) {
        Ok(ent) => Ok(group_from_ent(ent)),
        Err(AccessModelError::AlreadyExists) => Err(GroupUCError::AlreadyExists),
        Err(AccessModelError::TemporaryError) => Err(GroupUCError::TemporaryError),
        Err(_) => Err(GroupUCError::FatalError),
    }
}

/// Soft-disable a group by id; a missing or already-disabled group is
/// `NotFoundError`.
pub fn disable_group_by_id(model: &mut AccessModel, group_id: i32, now: i64) -> (r: Result<
    (),
    GroupUCError,
>)
    requires
        old(model).wf(),
    ensures
        final(model).wf(),
        *final(model) == (AccessModel { groups: final(model).groups, ..*old(model) }),
        final(model).groups.next_id == old(model).groups.next_id,
        has_ent_id(old(model).groups.rows@, group_id) && !old(model).groups.rows@[ent_idx(
            old(model).groups.rows@,
            group_id,
        )].is_deleted ==> {
            &&& final(model).groups.rows@ == old(model).groups.rows@.update(
                ent_idx(old(model).groups.rows@, group_id),
                ent_deactivated(
                    old(model).groups.rows@[ent_idx(old(model).groups.rows@, group_id)],
                    now,
                ),
            )
            &&& r matches Ok(())
        },
        !(has_ent_id(old(model).groups.rows@, group_id) && !old(model).groups.rows@[ent_idx(
            old(model).groups.rows@,
            group_id,
        )].is_deleted) ==> {
            &&& *final(model) == *old(model)
            &&& r == Result::<(), GroupUCError>::Err(GroupUCError::NotFoundError)
        },
{
    match model.groups.soft_disable(group_id, now) {
        Ok(()) => Ok(()),
        Err(AccessModelError::NotFoundError) => Err(GroupUCError::NotFoundError),
        Err(AccessModelError::TemporaryError) => Err(GroupUCError::TemporaryError),
        Err(_) => Err(GroupUCError::FatalError),
    }
}

// ---------------------------------------------------------------------
// The four binder instantiations
// ---------------------------------------------------------------------

/// Grant a permission to a role: a no-op when already granted, a
/// reactivation when the grant is soft-disabled, an insert when absent.
pub fn bind_permission_to_role(model: &mut AccessModel, role_id: i32, perm_id: i32, now: i64) -> (r:
    Result<RolePermissionBinding, RoleUCError>)
    requires
        old(model).wf(),
    ensures
        final(model).wf(),
        *final(model) == (AccessModel {
            role_permissions: final(model).role_permissions,
            ..*old(model)
        }),
        final(model).role_permissions.rows@ == bind_rows(
            old(model).role_permissions.rows@,
            perm_id,
            role_id,
            now,
        ),
        r == Result::<RolePermissionBinding, RoleUCError>::Ok(
            RolePermissionBinding::of_row(
                bind_result_row(old(model).role_permissions.rows@, perm_id, role_id, now),
            ),
        ),
{
    match model.role_permissions.bind(perm_id, role_id, now) {
        Ok(b) => Ok(RolePermissionBinding::from_row(&b)),
        Err(AccessModelError::TemporaryError) => Err(RoleUCError::TemporaryError),
        Err(_) => Err(RoleUCError::FatalError),
    }
}

/// Revoke a permission from a role by soft-disabling the binding; a pair
/// never bound or already inactive is `NotFoundError`.
pub fn unbind_permission_to_role(model: &mut AccessModel, role_id: i32, perm_id: i32, now: i64) -> (
    r: Result<RolePermissionBinding, RoleUCError>)
    requires
        old(model).wf(),
    ensures
        final(model).wf(),
        *final(model) == (AccessModel {
            role_permissions: final(model).role_permissions,
            ..*old(model)
        }),
        final(model).role_permissions.rows@ == unbind_rows(
            old(model).role_permissions.rows@,
            perm_id,
            role_id,
            now,
        ),
        r == match unbind_result(old(model).role_permissions.rows@, perm_id, role_id, now) {
            Some(b) => Result::<RolePermissionBinding, RoleUCError>::Ok(
                RolePermissionBinding::of_row(b),
            ),
            None => Result::<RolePermissionBinding, RoleUCError>::Err(RoleUCError::NotFoundError),
        },
{
    match model.role_permissions.unbind(perm_id, role_id, now) {
        Ok(b) => Ok(RolePermissionBinding::from_row(&b)),
        Err(AccessModelError::NotFoundError) => Err(RoleUCError::NotFoundError),
        Err(AccessModelError::TemporaryError) => Err(RoleUCError::TemporaryError),
        Err(_) => Err(RoleUCError::FatalError),
    }
}

/// Make a user a member of a role: a no-op when already a member, a
/// reactivation when the membership is soft-disabled, an insert when
/// absent.
pub fn bind_member_to_role(model: &mut AccessModel, role_id: i32, user_id: i32, now: i64) -> (r:
    Result<RoleMemberBinding, RoleUCError>)
    requires
        old(model).wf(),
    ensures
        final(model).wf(),
        *final(model) == (AccessModel { role_members: final(model).role_members, ..*old(model) }),
        final(model).role_members.rows@ == bind_rows(
            old(model).role_members.rows@,
            user_id,
            role_id,
            now,
        ),
        r == Result::<RoleMemberBinding, RoleUCError>::Ok(
            RoleMemberBinding::of_row(
                bind_result_row(old(model).role_members.rows@, user_id, role_id, now),
            ),
        ),
{
    match model.role_members.bind(user_id, role_id, now) {
        Ok(b) => Ok(RoleMemberBinding::from_row(&b)),
        Err(AccessModelError::TemporaryError) => Err(RoleUCError::TemporaryError),
        Err(_) => Err(RoleUCError::FatalError),
    }
}

/// Remove a user from a role by soft-disabling the membership; a pair
/// never bound or already inactive is `NotFoundError`.
pub fn unbind_member_to_role(model: &mut AccessModel, role_id: i32, user_id: i32, now: i64) -> (r:
    Result<RoleMemberBinding, RoleUCError>)
    requires
        old(model).wf(),
    ensures
        final(model).wf(),
        *final(model) == (AccessModel { role_members: final(model).role_members, ..*old(model) }),
        final(model).role_members.rows@ == unbind_rows(
            old(model).role_members.rows@,
            user_id,
            role_id,
            now,
        ),
        r == match unbind_result(old(model).role_members.rows@, user_id, role_id, now) {
            Some(b) => Result::<RoleMemberBinding, RoleUCError>::Ok(RoleMemberBinding::of_row(b)),
            None => Result::<RoleMemberBinding, RoleUCError>::Err(RoleUCError::NotFoundError),
        },
{
    match model.role_members.unbind(user_id, role_id, now) {
        Ok(b) => Ok(RoleMemberBinding::from_row(&b)),
        Err(AccessModelError::NotFoundError) => Err(RoleUCError::NotFoundError),
        Err(AccessModelError::TemporaryError) => Err(RoleUCError::TemporaryError),
        Err(_) => Err(RoleUCError::FatalError),
    }
}

/// Grant a permission to a group: a no-op when already granted, a
/// reactivation when the grant is soft-disabled, an insert when absent.
pub fn bind_permission_to_group(model: &mut AccessModel, group_id: i32, perm_id: i32, now: i64) -> (
    r: Result<GroupsPermissionBinding, GroupUCError>)
    requires
        old(model).wf(),
    ensures
        final(model).wf(),
        *final(model) == (AccessModel {
            group_permissions: final(model).group_permissions,
            ..*old(model)
        }),
        final(model).group_permissions.rows@ == bind_rows(
            old(model).group_permissions.rows@,
            perm_id,
            group_id,
            now,
        ),
        r == Result::<GroupsPermissionBinding, GroupUCError>::Ok(
            GroupsPermissionBinding::of_row(
                bind_result_row(old(model).group_permissions.rows@, perm_id, group_id, now),
            ),
        ),
{
    match model.group_permissions.bind(perm_id, group_id, now) {
        Ok(b) => Ok(GroupsPermissionBinding::from_row(&b)),
        Err(AccessModelError::TemporaryError) => Err(GroupUCError::TemporaryError),
        Err(_) => Err(GroupUCError::FatalError),
    }
}

/// Revoke a permission from a group by soft-disabling the binding; a
/// pair never bound or already inactive is `NotFoundError`.
pub fn unbind_permission_to_group(
    model: &mut AccessModel,
    group_id: i32,
    perm_id: i32,
    now: i64,
) -> (r: Result<GroupsPermissionBinding, GroupUCError>)
    requires
        old(model).wf(),
    ensures
        final(model).wf(),
        *final(model) == (AccessModel {
            group_permissions: final(model).group_permissions,
            ..*old(model)
        }),
        final(model).group_permissions.rows@ == unbind_rows(
            old(model).group_permissions.rows@,
            perm_id,
            group_id,
            now,
        ),
        r == match unbind_result(old(model).group_permissions.rows@, perm_id, group_id, now) {
            Some(b) => Result::<GroupsPermissionBinding, GroupUCError>::Ok(
                GroupsPermissionBinding::of_row(b),
            ),
            None => Result::<GroupsPermissionBinding, GroupUCError>::Err(GroupUCError::NotFoundError),
        },
{
    match model.group_permissions.unbind(perm_id, group_id, now) {
        Ok(b) => Ok(GroupsPermissionBinding::from_row(&b)),
        Err(AccessModelError::NotFoundError) => Err(GroupUCError::NotFoundError),
        Err(AccessModelError::TemporaryError) => Err(GroupUCError::TemporaryError),
        Err(_) => Err(GroupUCError::FatalError),
    }
}

/// Make a user a member of a group: a no-op when already a member, a
/// reactivation when the membership is soft-disabled, an insert when
/// absent.
pub fn bind_member_to_group(model: &mut AccessModel, group_id: i32, user_id: i32, now: i64) -> (r:
    Result<GroupsMemberBinding, GroupUCError>)
    requires
        old(model).wf(),
    ensures
        final(model).wf(),
        *final(model) == (AccessModel { group_members: final(model).group_members, ..*old(model) }),
        final(model).group_members.rows@ == bind_rows(
            old(model).group_members.rows@,
            user_id,
            group_id,
            now,
        ),
        r == Result::<GroupsMemberBinding, GroupUCError>::Ok(
            GroupsMemberBinding::of_row(
                bind_result_row(old(model).group_members.rows@, user_id, group_id, now),
            ),
        ),
{
    match model.group_members.bind(user_id, group_id, now) {
        Ok(b) => Ok(GroupsMemberBinding::from_row(&b)),
        Err(AccessModelError::TemporaryError) => Err(GroupUCError::TemporaryError),
        Err(_) => Err(GroupUCError::FatalError),
    }
}

/// Remove a user from a group by soft-disabling the membership; a pair
/// never bound or already inactive is `NotFoundError`.
pub fn unbind_member_to_group(model: &mut AccessModel, group_id: i32, user_id: i32, now: i64) -> (r:
    Result<GroupsMemberBinding, GroupUCError>)
    requires
        old(model).wf(),
    ensures
        final(model).wf(),
        *final(model) == (AccessModel { group_members: final(model).group_members, ..*old(model) }),
        final(model).group_members.rows@ == unbind_rows(
            old(model).group_members.rows@,
            user_id,
            group_id,
            now,
        ),
        r == match unbind_result(old(model).group_members.rows@, user_id, group_id, now) {
            Some(b) => Result::<GroupsMemberBinding, GroupUCError>::Ok(
                GroupsMemberBinding::of_row(b),
            ),
            None => Result::<GroupsMemberBinding, GroupUCError>::Err(GroupUCError::NotFoundError),
        },
{
    match model.group_members.unbind(user_id, group_id, now) {
        Ok(b) => Ok(GroupsMemberBinding::from_row(&b)),
        Err(AccessModelError::NotFoundError) => Err(GroupUCError::NotFoundError),
        Err(AccessModelError::TemporaryError) => Err(GroupUCError::TemporaryError),
        Err(_) => Err(GroupUCError::FatalError),
    }
}

} // verus!
