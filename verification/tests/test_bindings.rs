use authust::entities::{GroupForCreation, InputRawUser, PermissionForCreation, RoleForCreation};
use authust::errors::{GroupUCError, RoleUCError};
use authust::store::AccessModel;
use authust::usecases::{
    bind_member_to_group, bind_member_to_role, bind_permission_to_group, bind_permission_to_role,
    create_new_group, create_new_permission, create_new_role, create_new_user,
    unbind_member_to_group, unbind_member_to_role, unbind_permission_to_group,
    unbind_permission_to_role,
};

fn model_with_role_and_permission() -> AccessModel {
    let mut model = AccessModel::new();
    let role = create_new_role(
        &mut model,
        RoleForCreation {
            role_name: String::from("ADMIN"),
        },
        10,
    )
    .unwrap();
    assert_eq!(role.role_id, 1);
    let perm = create_new_permission(
        &mut model,
        PermissionForCreation {
            permission_name: String::from("READ"),
        },
        10,
    )
    .unwrap();
    assert_eq!(perm.permission_id, 1);
    model
}

#[test]
fn test_bind_unbind_bind_scenario() {
    // Role{id=1,name="ADMIN"}, Permission{id=1,name="READ"}.
    let mut model = model_with_role_and_permission();
    let b1 = bind_permission_to_role(&mut model, 1, 1, 100).unwrap();
    assert_eq!(b1.role_id, 1);
    assert_eq!(b1.permission_id, 1);
    assert!(!b1.is_deleted);
    assert_eq!(b1.created_at, 100);
    assert_eq!(b1.updated_at, 100);

    let b2 = unbind_permission_to_role(&mut model, 1, 1, 200).unwrap();
    assert!(b2.is_deleted);
    assert_eq!(b2.created_at, 100);
    assert!(b2.updated_at > b2.created_at);

    let b3 = bind_permission_to_role(&mut model, 1, 1, 300).unwrap();
    assert!(!b3.is_deleted);
    assert_eq!(b3.role_id, 1);
    assert_eq!(b3.permission_id, 1);
    assert_eq!(b3.created_at, 100);
    assert_eq!(b3.updated_at, 300);
    // No second row was created for the pair.
    assert_eq!(model.role_permissions.rows.len(), 1);
}

#[test]
fn test_bind_twice_is_idempotent() {
    let mut model = model_with_role_and_permission();
    let b1 = bind_permission_to_role(&mut model, 1, 1, 100).unwrap();
    let b2 = bind_permission_to_role(&mut model, 1, 1, 250).unwrap();
    // The second call returns the same active binding, updated_at included.
    assert_eq!(b2, b1);
    assert_eq!(b2.updated_at, 100);
    assert_eq!(model.role_permissions.rows.len(), 1);
}

#[test]
fn test_bind_after_unbind_updated_at_increases() {
    let mut model = model_with_role_and_permission();
    let b1 = bind_permission_to_role(&mut model, 1, 1, 100).unwrap();
    let b2 = unbind_permission_to_role(&mut model, 1, 1, 200).unwrap();
    let b3 = bind_permission_to_role(&mut model, 1, 1, 300).unwrap();
    assert!(b1.updated_at < b2.updated_at);
    assert!(b2.updated_at < b3.updated_at);
    assert_eq!(b1.created_at, b2.created_at);
    assert_eq!(b2.created_at, b3.created_at);
}

#[test]
fn test_unbind_absent_is_not_found() {
    let mut model = model_with_role_and_permission();
    // Never bound.
    let r = unbind_permission_to_role(&mut model, 1, 1, 100);
    assert!(matches!(r, Err(RoleUCError::NotFoundError)));
    // Bound, unbound, unbound again: same outward result.
    bind_permission_to_role(&mut model, 1, 1, 100).unwrap();
    unbind_permission_to_role(&mut model, 1, 1, 200).unwrap();
    let again = unbind_permission_to_role(&mut model, 1, 1, 300);
    assert!(matches!(again, Err(RoleUCError::NotFoundError)));
}

#[test]
fn test_bind_member_with_role() {
    let mut model = model_with_role_and_permission();
    let user = create_new_user(
        &mut model,
        InputRawUser {
            username: String::from("ivan"),
            password: String::from("pw"),
        },
        5,
    )
    .unwrap();
    let b = bind_member_to_role(&mut model, 1, user.user_id, 100).unwrap();
    assert_eq!(b.role_id, 1);
    assert_eq!(b.user_id, user.user_id);
    assert!(!b.is_deleted);
    let again = bind_member_to_role(&mut model, 1, user.user_id, 200).unwrap();
    assert_eq!(again, b);
    let gone = unbind_member_to_role(&mut model, 1, user.user_id, 300).unwrap();
    assert!(gone.is_deleted);
    let missing = unbind_member_to_role(&mut model, 1, user.user_id, 400);
    assert!(matches!(missing, Err(RoleUCError::NotFoundError)));
}

#[test]
fn test_bind_permission_with_group() {
    let mut model = AccessModel::new();
    create_new_group(
        &mut model,
        GroupForCreation {
            group_name: String::from("STAFF"),
        },
        5,
    )
    .unwrap();
    create_new_permission(
        &mut model,
        PermissionForCreation {
            permission_name: String::from("WRITE"),
        },
        5,
    )
    .unwrap();
    let b1 = bind_permission_to_group(&mut model, 1, 1, 100).unwrap();
    assert_eq!(b1.group_id, 1);
    assert_eq!(b1.permission_id, 1);
    assert!(!b1.is_deleted);
    // Implicit re-enable, no second row.
    unbind_permission_to_group(&mut model, 1, 1, 200).unwrap();
    let b2 = bind_permission_to_group(&mut model, 1, 1, 300).unwrap();
    assert!(!b2.is_deleted);
    assert_eq!(b2.created_at, 100);
    assert_eq!(model.group_permissions.rows.len(), 1);
}

#[test]
fn test_bind_member_with_group() {
    let mut model = AccessModel::new();
    create_new_group(
        &mut model,
        GroupForCreation {
            group_name: String::from("STAFF"),
        },
        5,
    )
    .unwrap();
    let user = create_new_user(
        &mut model,
        InputRawUser {
            username: String::from("ivan"),
            password: String::from("pw"),
        },
        5,
    )
    .unwrap();
    let b = bind_member_to_group(&mut model, 1, user.user_id, 100).unwrap();
    assert!(!b.is_deleted);
    let gone = unbind_member_to_group(&mut model, 1, user.user_id, 200).unwrap();
    assert!(gone.is_deleted);
    let missing = unbind_member_to_group(&mut model, 1, user.user_id, 300);
    assert!(matches!(missing, Err(GroupUCError::NotFoundError)));
    assert_eq!(model.group_members.rows.len(), 1);
}

#[test]
fn test_distinct_pairs_get_distinct_rows() {
    let mut model = AccessModel::new();
    create_new_role(
        &mut model,
        RoleForCreation {
            role_name: String::from("A"),
        },
        5,
    )
    .unwrap();
    create_new_role(
        &mut model,
        RoleForCreation {
            role_name: String::from("B"),
        },
        5,
    )
    .unwrap();
    create_new_permission(
        &mut model,
        PermissionForCreation {
            permission_name: String::from("P"),
        },
        5,
    )
    .unwrap();
    bind_permission_to_role(&mut model, 1, 1, 10).unwrap();
    bind_permission_to_role(&mut model, 2, 1, 10).unwrap();
    assert_eq!(model.role_permissions.rows.len(), 2);
}
