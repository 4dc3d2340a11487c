use authust::entities::{
    GroupForCreation, InputRawUser, PermissionForCreation, RoleForCreation,
};
use authust::errors::{GroupUCError, PermissionUCError, RoleUCError, UserUCError};
use authust::ports::{DisableRole, FindUserById, SignInVerification};
use authust::store::AccessModel;
use authust::usecases::{
    create_new_group, create_new_permission, create_new_role, create_new_user,
    disable_group_by_id, disable_permission_by_id, disable_role_by_id, get_group_by_id,
    get_permission_by_id, get_role_by_id, get_user_by_id, remove_user_by_id,
};

#[test]
fn test_create_new_role() {
    let mut model = AccessModel::new();
    let role = create_new_role(
        &mut model,
        RoleForCreation {
            role_name: String::from("ADMIN"),
        },
        50,
    )
    .unwrap();
    assert_eq!(role.role_id, 1);
    assert_eq!(role.role_name, "ADMIN");
    assert_eq!(role.created_at, 50);
    assert_eq!(role.updated_at, 50);
    assert!(!role.is_deleted);
    // Serial ids.
    let second = create_new_role(
        &mut model,
        RoleForCreation {
            role_name: String::from("STAFF"),
        },
        60,
    )
    .unwrap();
    assert_eq!(second.role_id, 2);
}

#[test]
fn test_create_role_duplicate_name() {
    let mut model = AccessModel::new();
    create_new_role(
        &mut model,
        RoleForCreation {
            role_name: String::from("ADMIN"),
        },
        50,
    )
    .unwrap();
    let dup = create_new_role(
        &mut model,
        RoleForCreation {
            role_name: String::from("ADMIN"),
        },
        60,
    );
    assert!(matches!(dup, Err(RoleUCError::AlreadyExists)));
}

#[test]
fn test_role_name_free_after_disable() {
    // Names are unique among non-deleted rows only.
    let mut model = AccessModel::new();
    create_new_role(
        &mut model,
        RoleForCreation {
            role_name: String::from("ADMIN"),
        },
        50,
    )
    .unwrap();
    disable_role_by_id(&mut model, 1, 60).unwrap();
    let again = create_new_role(
        &mut model,
        RoleForCreation {
            role_name: String::from("ADMIN"),
        },
        70,
    )
    .unwrap();
    assert_eq!(again.role_id, 2);
}

#[test]
fn test_get_role_returns_even_deleted() {
    let mut model = AccessModel::new();
    create_new_role(
        &mut model,
        RoleForCreation {
            role_name: String::from("ADMIN"),
        },
        50,
    )
    .unwrap();
    disable_role_by_id(&mut model, 1, 60).unwrap();
    let role = get_role_by_id(&model, 1).unwrap();
    assert!(role.is_deleted);
    assert_eq!(role.updated_at, 60);
    assert_eq!(role.created_at, 50);
}

#[test]
fn test_get_role_not_found() {
    let model = AccessModel::new();
    assert!(matches!(
        get_role_by_id(&model, 7),
        Err(RoleUCError::NotFoundError)
    ));
}

#[test]
fn test_disable_role_twice_not_found() {
    // Disabling what is already gone reports NotFound; callers treat it
    // as success. No re-enable exists for entities.
    let mut model = AccessModel::new();
    create_new_role(
        &mut model,
        RoleForCreation {
            role_name: String::from("ADMIN"),
        },
        50,
    )
    .unwrap();
    disable_role_by_id(&mut model, 1, 60).unwrap();
    assert!(matches!(
        disable_role_by_id(&mut model, 1, 70),
        Err(RoleUCError::NotFoundError)
    ));
    assert!(matches!(
        disable_role_by_id(&mut model, 9, 70),
        Err(RoleUCError::NotFoundError)
    ));
}

#[test]
fn test_permission_crud() {
    let mut model = AccessModel::new();
    let perm = create_new_permission(
        &mut model,
        PermissionForCreation {
            permission_name: String::from("READ"),
        },
        50,
    )
    .unwrap();
    assert_eq!(perm.permission_id, 1);
    let dup = create_new_permission(
        &mut model,
        PermissionForCreation {
            permission_name: String::from("READ"),
        },
        55,
    );
    assert!(matches!(dup, Err(PermissionUCError::AlreadyExists)));
    let got = get_permission_by_id(&model, 1).unwrap();
    assert_eq!(got.permission_name, "READ");
    disable_permission_by_id(&mut model, 1, 60).unwrap();
    assert!(matches!(
        disable_permission_by_id(&mut model, 1, 70),
        Err(PermissionUCError::NotFoundError)
    ));
}

#[test]
fn test_group_crud() {
    let mut model = AccessModel::new();
    let group = create_new_group(
        &mut model,
        GroupForCreation {
            group_name: String::from("STAFF"),
        },
        50,
    )
    .unwrap();
    assert_eq!(group.group_id, 1);
    let dup = create_new_group(
        &mut model,
        GroupForCreation {
            group_name: String::from("STAFF"),
        },
        55,
    );
    assert!(matches!(dup, Err(GroupUCError::AlreadyExists)));
    let got = get_group_by_id(&model, 1).unwrap();
    assert_eq!(got.group_name, "STAFF");
    disable_group_by_id(&mut model, 1, 60).unwrap();
    assert!(matches!(
        get_group_by_id(&model, 1).map(|g| g.is_deleted),
        Ok(true)
    ));
}

#[test]
fn test_create_new_user() {
    let mut model = AccessModel::new();
    let user = create_new_user(
        &mut model,
        InputRawUser {
            username: String::from("ivan"),
            password: String::from("pw"),
        },
        50,
    )
    .unwrap();
    assert_eq!(user.user_id, 1);
    assert_eq!(user.username, "ivan");
    assert!(user.enabled);
    assert!(!user.is_deleted);
    // The stored hash is the argon2 hash of the password, not the password.
    assert!(user.password_hash.starts_with("$argon2"));
    assert!(argon2::verify_encoded(&user.password_hash, b"pw").unwrap());
}

#[test]
fn test_create_user_duplicate_username() {
    let mut model = AccessModel::new();
    create_new_user(
        &mut model,
        InputRawUser {
            username: String::from("ivan"),
            password: String::from("pw"),
        },
        50,
    )
    .unwrap();
    let dup = create_new_user(
        &mut model,
        InputRawUser {
            username: String::from("ivan"),
            password: String::from("other"),
        },
        60,
    );
    assert!(matches!(dup, Err(UserUCError::AlreadyExists)));
}

#[test]
fn test_username_not_freed_by_remove() {
    // Unlike entity names, usernames stay taken even after a soft delete.
    let mut model = AccessModel::new();
    create_new_user(
        &mut model,
        InputRawUser {
            username: String::from("ivan"),
            password: String::from("pw"),
        },
        50,
    )
    .unwrap();
    remove_user_by_id(&mut model, 1, 60).unwrap();
    let again = create_new_user(
        &mut model,
        InputRawUser {
            username: String::from("ivan"),
            password: String::from("pw"),
        },
        70,
    );
    assert!(matches!(again, Err(UserUCError::AlreadyExists)));
}

#[test]
fn test_get_user() {
    let mut model = AccessModel::new();
    create_new_user(
        &mut model,
        InputRawUser {
            username: String::from("ivan"),
            password: String::from("pw"),
        },
        50,
    )
    .unwrap();
    let user = get_user_by_id(&model, 1).unwrap();
    assert_eq!(user.username, "ivan");
}

#[test]
fn test_get_user_not_found() {
    let model = AccessModel::new();
    assert!(matches!(
        get_user_by_id(&model, 1),
        Err(UserUCError::NotFoundError)
    ));
}

#[test]
fn test_delete_user() {
    let mut model = AccessModel::new();
    create_new_user(
        &mut model,
        InputRawUser {
            username: String::from("ivan"),
            password: String::from("pw"),
        },
        50,
    )
    .unwrap();
    remove_user_by_id(&mut model, 1, 60).unwrap();
    // A removed user is invisible to lookup.
    assert!(matches!(
        get_user_by_id(&model, 1),
        Err(UserUCError::NotFoundError)
    ));
}

#[test]
fn test_delete_user_what_doesnt_exist() {
    let mut model = AccessModel::new();
    assert!(matches!(
        remove_user_by_id(&mut model, 1, 60),
        Err(UserUCError::NotFoundError)
    ));
}

#[test]
fn test_ports_are_realised_by_the_model() {
    let mut model = AccessModel::new();
    create_new_user(
        &mut model,
        InputRawUser {
            username: String::from("ivan"),
            password: String::from("pw"),
        },
        50,
    )
    .unwrap();
    create_new_role(
        &mut model,
        RoleForCreation {
            role_name: String::from("ADMIN"),
        },
        50,
    )
    .unwrap();
    // The same operations are reachable through the port traits.
    let user = FindUserById::find_user_by_id(&model, 1).unwrap();
    assert_eq!(user.username, "ivan");
    let groups = SignInVerification::get_users_groups(&model, &1).unwrap();
    assert!(groups.is_empty());
    DisableRole::disable_role_by_id(&mut model, 1, 60).unwrap();
    assert!(get_role_by_id(&model, 1).unwrap().is_deleted);
}
