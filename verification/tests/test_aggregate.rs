use authust::config::SecurityConfig;
use authust::crypto::verificate_jwt_token_and_enrich_perms;
use authust::crypto::{decode_jwt, sign_in};
use authust::entities::{
    GroupForCreation, InputRawUser, PermissionForCreation, RoleForCreation,
};
use authust::errors::SignError;
use authust::store::AccessModel;
use authust::usecases::{
    bind_member_to_group, bind_member_to_role, bind_permission_to_group, bind_permission_to_role,
    create_new_group, create_new_permission, create_new_role, create_new_user,
    disable_permission_by_id, unbind_permission_to_group, unbind_permission_to_role,
};

fn as_sorted(mut v: Vec<String>) -> Vec<String> {
    v.sort();
    v
}

/// A user in role A (granted P1, P2) and group B (granted P3, and a
/// disabled binding to P4).
fn aggregation_fixture() -> (AccessModel, i32) {
    let mut model = AccessModel::new();
    let user = create_new_user(
        &mut model,
        InputRawUser {
            username: String::from("ivan"),
            password: String::from("pw"),
        },
        5,
    )
    .unwrap();
    let role = create_new_role(
        &mut model,
        RoleForCreation {
            role_name: String::from("A"),
        },
        5,
    )
    .unwrap();
    let group = create_new_group(
        &mut model,
        GroupForCreation {
            group_name: String::from("B"),
        },
        5,
    )
    .unwrap();
    for name in ["P1", "P2", "P3", "P4"] {
        create_new_permission(
            &mut model,
            PermissionForCreation {
                permission_name: String::from(name),
            },
            5,
        )
        .unwrap();
    }
    bind_member_to_role(&mut model, role.role_id, user.user_id, 10).unwrap();
    bind_member_to_group(&mut model, group.group_id, user.user_id, 10).unwrap();
    bind_permission_to_role(&mut model, role.role_id, 1, 10).unwrap();
    bind_permission_to_role(&mut model, role.role_id, 2, 10).unwrap();
    bind_permission_to_group(&mut model, group.group_id, 3, 10).unwrap();
    bind_permission_to_group(&mut model, group.group_id, 4, 10).unwrap();
    unbind_permission_to_group(&mut model, group.group_id, 4, 20).unwrap();
    (model, user.user_id)
}

#[test]
fn test_permission_aggregation() {
    let (model, user_id) = aggregation_fixture();
    let perms = model.get_users_perms(&user_id).unwrap();
    // Exactly the role and group names plus {P1, P2, P3}; P4's binding is
    // disabled, so it is excluded.
    assert_eq!(
        as_sorted(perms),
        vec!["A", "B", "P1", "P2", "P3"]
            .into_iter()
            .map(String::from)
            .collect::<Vec<String>>()
    );
}

#[test]
fn test_aggregation_excludes_disabled_permission_row() {
    let (mut model, user_id) = aggregation_fixture();
    // Disabling the P1 entity row hides it at read time even though its
    // binding stays active.
    disable_permission_by_id(&mut model, 1, 30).unwrap();
    let perms = model.get_users_perms(&user_id).unwrap();
    assert_eq!(
        as_sorted(perms),
        vec!["A", "B", "P2", "P3"]
            .into_iter()
            .map(String::from)
            .collect::<Vec<String>>()
    );
}

#[test]
fn test_users_groups_are_coarse_tokens() {
    let (model, user_id) = aggregation_fixture();
    let groups = model.get_users_groups(&user_id).unwrap();
    assert_eq!(
        as_sorted(groups),
        vec!["A", "B"]
            .into_iter()
            .map(String::from)
            .collect::<Vec<String>>()
    );
}

#[test]
fn test_aggregation_empty_for_unknown_user() {
    let (model, _) = aggregation_fixture();
    let perms = model.get_users_perms(&99).unwrap();
    assert!(perms.is_empty());
}

#[test]
fn test_sign_in_embeds_aggregated_permissions() {
    let (model, _) = aggregation_fixture();
    let config = SecurityConfig {
        secret_key: String::from("unit-test-signing-secret"),
        expired_jwt_days: 1,
    };
    let now: i64 = 1_700_000_000;
    let signed = sign_in(&model, &config, String::from("ivan"), String::from("pw"), now).unwrap();
    let claims = decode_jwt(&config, &signed.jwt_token, now).unwrap();
    assert_eq!(
        as_sorted(claims.permissions),
        vec!["A", "B", "P1", "P2", "P3"]
            .into_iter()
            .map(String::from)
            .collect::<Vec<String>>()
    );
}

#[test]
fn test_validate_jwt() {
    // The slow path re-derives the live permission set instead of trusting
    // the embedded snapshot.
    let (mut model, _) = aggregation_fixture();
    let config = SecurityConfig {
        secret_key: String::from("unit-test-signing-secret"),
        expired_jwt_days: 1,
    };
    let now: i64 = 1_700_000_000;
    let signed = sign_in(&model, &config, String::from("ivan"), String::from("pw"), now).unwrap();
    // Authority changes after issuance...
    unbind_permission_to_role(&mut model, 1, 1, now).unwrap();
    // ...the fast path still carries the stale snapshot...
    let stale = decode_jwt(&config, &signed.jwt_token, now).unwrap();
    assert!(stale.permissions.contains(&String::from("P1")));
    assert_eq!(stale.permissions.len(), 5);
    // ...but re-validation reflects the live state.
    let live =
        verificate_jwt_token_and_enrich_perms(&model, &config, &signed.jwt_token, now).unwrap();
    assert_eq!(
        as_sorted(live),
        vec!["A", "B", "P2", "P3"]
            .into_iter()
            .map(String::from)
            .collect::<Vec<String>>()
    );
}

#[test]
fn test_validate_jwt_wrong_token() {
    let (model, _) = aggregation_fixture();
    let config = SecurityConfig {
        secret_key: String::from("unit-test-signing-secret"),
        expired_jwt_days: 1,
    };
    let r = verificate_jwt_token_and_enrich_perms(&model, &config, "wrong.token.text", 0);
    assert!(matches!(r, Err(SignError::VerificationError)));
}
