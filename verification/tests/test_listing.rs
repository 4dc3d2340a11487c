use authust::entities::{PermissionForCreation, RoleForCreation};
use authust::filters::{
    get_permissions_by_filters, PermissionsFilters, PermissionsFiltersInputScheme, SqlParam,
};
use authust::store::AccessModel;
use authust::usecases::{
    bind_permission_to_role, create_new_permission, create_new_role, disable_permission_by_id,
};
use authust::views::permissions::PermissionListingView;

fn empty_filters() -> PermissionsFilters {
    PermissionsFilters {
        permission_id: None,
        role_id: None,
        is_deleted: None,
        permission_name: None,
        offset: 0,
        limit: 100,
    }
}

fn listing_fixture() -> AccessModel {
    let mut model = AccessModel::new();
    for name in ["P1", "P2", "P3"] {
        create_new_permission(
            &mut model,
            PermissionForCreation {
                permission_name: String::from(name),
            },
            5,
        )
        .unwrap();
    }
    disable_permission_by_id(&mut model, 3, 10).unwrap();
    create_new_role(
        &mut model,
        RoleForCreation {
            role_name: String::from("R"),
        },
        5,
    )
    .unwrap();
    bind_permission_to_role(&mut model, 1, 2, 10).unwrap();
    model
}

#[test]
fn test_get_permissions_listing() {
    let model = listing_fixture();
    let list = get_permissions_by_filters(&model, empty_filters()).unwrap();
    assert_eq!(list.total, 3);
    // Newest ids first.
    let ids: Vec<i32> = list.permissions.iter().map(|p| p.permission_id).collect();
    assert_eq!(ids, vec![3, 2, 1]);
}

#[test]
fn test_listing_filters_by_role() {
    let model = listing_fixture();
    let mut filters = empty_filters();
    filters.role_id = Some(1);
    let list = get_permissions_by_filters(&model, filters).unwrap();
    assert_eq!(list.total, 1);
    assert_eq!(list.permissions[0].permission_id, 2);
}

#[test]
fn test_listing_filters_by_name_and_deletion() {
    let model = listing_fixture();
    let mut filters = empty_filters();
    filters.permission_name = Some(String::from("P1"));
    let list = get_permissions_by_filters(&model, filters).unwrap();
    assert_eq!(list.total, 1);
    assert_eq!(list.permissions[0].permission_id, 1);

    let mut filters = empty_filters();
    filters.is_deleted = Some(true);
    let list = get_permissions_by_filters(&model, filters).unwrap();
    assert_eq!(list.total, 1);
    assert_eq!(list.permissions[0].permission_id, 3);
}

#[test]
fn test_listing_paging() {
    let model = listing_fixture();
    let mut filters = empty_filters();
    filters.offset = 1;
    filters.limit = 1;
    let list = get_permissions_by_filters(&model, filters).unwrap();
    // Total counts all matches; the page holds only the slice.
    assert_eq!(list.total, 3);
    assert_eq!(list.permissions.len(), 1);
    assert_eq!(list.permissions[0].permission_id, 2);

    let mut filters = empty_filters();
    filters.offset = 99;
    let list = get_permissions_by_filters(&model, filters).unwrap();
    assert_eq!(list.total, 3);
    assert!(list.permissions.is_empty());
}

#[test]
fn test_new_with_validation_defaults() {
    let input = PermissionsFiltersInputScheme {
        permission_id: Some(4),
        role_id: None,
        is_deleted: None,
        permission_name: None,
        offset: None,
        limit: None,
    };
    let f = PermissionsFiltersInputScheme::new_with_validation(input).unwrap();
    assert_eq!(f.offset, 0);
    assert_eq!(f.limit, 100);
    assert_eq!(f.permission_id, Some(4));
}

#[test]
fn test_new_with_validation_rejects_bad_bounds() {
    let input = PermissionsFiltersInputScheme {
        permission_id: None,
        role_id: None,
        is_deleted: None,
        permission_name: None,
        offset: Some(9999),
        limit: None,
    };
    let e = match PermissionsFiltersInputScheme::new_with_validation(input) {
        Err(msg) => msg,
        Ok(_) => panic!("offset 9999 must be rejected"),
    };
    assert_eq!(e, "wrong offset value");

    let input = PermissionsFiltersInputScheme {
        permission_id: None,
        role_id: None,
        is_deleted: None,
        permission_name: None,
        offset: None,
        limit: Some(0),
    };
    let e = match PermissionsFiltersInputScheme::new_with_validation(input) {
        Err(msg) => msg,
        Ok(_) => panic!("limit 0 must be rejected"),
    };
    assert_eq!(e, "wrong limit value");

    let input = PermissionsFiltersInputScheme {
        permission_id: None,
        role_id: None,
        is_deleted: None,
        permission_name: None,
        offset: None,
        limit: Some(1001),
    };
    assert!(PermissionsFiltersInputScheme::new_with_validation(input).is_err());
}

#[test]
fn test_build_listing_query() {
    let filters = PermissionsFilters {
        permission_id: Some(7),
        role_id: Some(3),
        is_deleted: Some(false),
        permission_name: Some(String::from("READ")),
        offset: 20,
        limit: 10,
    };
    let (query, params) = filters.build_listing_query_with_params();
    assert_eq!(
        query,
        "SELECT permission_id, permission_name, p.created_at, p.updated_at, p.is_deleted \
         FROM permissions p LEFT JOIN role_permissions USING(permission_id) WHERE role_id=$1 \
         AND p.permission_id=$2 AND permission_name=$3 AND p.is_deleted=$4 \
         ORDER BY permission_id DESC OFFSET 20 LIMIT 10"
    );
    assert_eq!(params.len(), 4);
    assert!(matches!(params[0], SqlParam::Int(3)));
    assert!(matches!(params[1], SqlParam::Int(7)));
    assert!(matches!(&params[2], SqlParam::Text(t) if t == "READ"));
    assert!(matches!(params[3], SqlParam::Bool(false)));
}

#[test]
fn test_build_count_query() {
    let filters = PermissionsFilters {
        permission_id: None,
        role_id: None,
        is_deleted: Some(true),
        permission_name: None,
        offset: 0,
        limit: 100,
    };
    let (query, params) = filters.build_count_query_with_params();
    assert_eq!(
        query,
        "SELECT count(1) FROM permissions p WHERE TRUE AND p.is_deleted=$1"
    );
    assert_eq!(params.len(), 1);
    assert!(matches!(params[0], SqlParam::Bool(true)));
}

#[test]
fn test_permission_listing_view() {
    let model = listing_fixture();
    let list = get_permissions_by_filters(&model, empty_filters()).unwrap();
    let view = PermissionListingView::new(list.permissions, 0, 100, list.total);
    assert_eq!(view.pagination.total, 3);
    assert_eq!(view.pagination.offset, 0);
    assert_eq!(view.pagination.limit, 100);
    assert_eq!(view.permissions.len(), 3);
}
