use authust::entities::{
    BindingRow, Entity, GroupsMemberBinding, JWT, Role, RolePermissionBinding, SingnedInfo, User,
};
use authust::errors::AccessModelError;
use authust::reconcile::{plan_bind, plan_bind_after_insert, BindStep, InsertOutcome};
use authust::views::groups::GroupsMemberBindingView;
use authust::views::roles::{RolePermissionBindingView, RoleView};

#[test]
fn test_role_view_renders_timestamps() {
    let role = Role::new(4, String::from("ADMIN"), 0, 86_400, false);
    let view = RoleView::new(role);
    assert_eq!(view.role_id, 4);
    assert_eq!(view.role_name, "ADMIN");
    assert_eq!(view.created_at, "1970-01-01T00:00:00+00:00");
    assert_eq!(view.updated_at, "1970-01-02T00:00:00+00:00");
    assert!(!view.is_deleted);
}

#[test]
fn test_binding_views_render_timestamps() {
    let b = RolePermissionBinding::new(2, 3, 60, 120, true);
    let view = RolePermissionBindingView::new(b);
    assert_eq!(view.permission_id, 2);
    assert_eq!(view.role_id, 3);
    assert_eq!(view.created_at, "1970-01-01T00:01:00+00:00");
    assert_eq!(view.updated_at, "1970-01-01T00:02:00+00:00");
    assert!(view.is_deleted);

    let g = GroupsMemberBinding::new(7, 8, 0, 0, false);
    let view = GroupsMemberBindingView::new(g);
    assert_eq!(view.user_id, 7);
    assert_eq!(view.group_id, 8);
    assert!(!view.is_deleted);
}

#[test]
fn test_simple_constructors() {
    let e = Entity::new(5, String::from("thing"));
    assert_eq!(e.id, 5);
    assert_eq!(e.name, "thing");

    let s = SingnedInfo::new(9, String::from("tok"));
    assert_eq!(s.user_id, 9);
    assert_eq!(s.jwt_token, "tok");

    let j = JWT::new(2, String::from("2020-01-01T00:00:00+00:00"));
    assert_eq!(j.user_id, 2);
    assert_eq!(j.expired_at, "2020-01-01T00:00:00+00:00");

    let u = User::new(3, String::from("ivan"), true, 10, 20);
    assert_eq!(u.user_id, 3);
    assert!(u.enabled);
    assert!(!u.is_deleted);
    assert_eq!(u.password_hash, "");
}

#[test]
fn test_plan_bind_decisions() {
    let active = BindingRow {
        grantee_id: 1,
        principal_id: 2,
        created_at: 10,
        updated_at: 10,
        is_deleted: false,
    };
    let inactive = BindingRow { is_deleted: true, ..active };
    // Active: no-op; inactive: reactivate; absent: insert; faults pass.
    assert_eq!(plan_bind(&Ok(active)), BindStep::KeepExisting(active));
    assert_eq!(plan_bind(&Ok(inactive)), BindStep::Reactivate(inactive));
    assert_eq!(
        plan_bind(&Err(AccessModelError::NotFoundError)),
        BindStep::InsertNew
    );
    assert_eq!(
        plan_bind(&Err(AccessModelError::TemporaryError)),
        BindStep::Fail(AccessModelError::TemporaryError)
    );
}

#[test]
fn test_plan_bind_after_insert_converges_on_race() {
    let row = BindingRow {
        grantee_id: 1,
        principal_id: 2,
        created_at: 10,
        updated_at: 10,
        is_deleted: false,
    };
    assert_eq!(plan_bind_after_insert(&Ok(row)), InsertOutcome::Done(row));
    // A lost insert race is retried as the idempotent "already active"
    // case, never surfaced as a conflict.
    assert_eq!(
        plan_bind_after_insert(&Err(AccessModelError::AlreadyExists)),
        InsertOutcome::RetryLookup
    );
    assert_eq!(
        plan_bind_after_insert(&Err(AccessModelError::FatalError)),
        InsertOutcome::Fail(AccessModelError::FatalError)
    );
}
