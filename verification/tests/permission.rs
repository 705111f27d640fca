use parish_core::auth::AuthUser;
use parish_core::errors::ApiError;
use parish_core::permission::PermissionQuery;
use parish_core::permission::PermissionStore;
use parish_core::permission::UpdateRoleRequest;
use parish_core::roles::UserRole;

fn admin() -> AuthUser {
    AuthUser { user_id: 0xadd, role: UserRole::ParishAdmin, parish_id: Some(1) }
}

fn outsider() -> AuthUser {
    AuthUser { user_id: 0xbad, role: UserRole::Secretary, parish_id: Some(1) }
}

/// A store with three catalog entries; returns it with the permission ids.
fn seeded() -> (PermissionStore, u128, u128, u128) {
    let mut store = PermissionStore::new();
    let read = store
        .add_permission(
            "members.read".to_string(),
            "members".to_string(),
            "Read members".to_string(),
            None,
            1,
        )
        .unwrap();
    let write = store
        .add_permission(
            "members.write".to_string(),
            "members".to_string(),
            "Write members".to_string(),
            None,
            1,
        )
        .unwrap();
    let reports = store
        .add_permission(
            "reports.view".to_string(),
            "reports".to_string(),
            "View reports".to_string(),
            None,
            1,
        )
        .unwrap();
    (store, read, write, reports)
}

#[test]
fn catalog_keys_are_unique() {
    let (mut store, _, _, _) = seeded();
    let dup = store.add_permission(
        "members.read".to_string(),
        "members".to_string(),
        "Read members again".to_string(),
        None,
        2,
    );
    assert!(matches!(dup, Err(ApiError::Internal(_))));
}

#[test]
fn catalog_listing_filters_by_group() {
    let (store, _, _, _) = seeded();
    let all = store.list_permissions(&PermissionQuery { group: None });
    assert_eq!(all.len(), 3);
    let members = store.list_permissions(&PermissionQuery { group: Some("members".to_string()) });
    assert_eq!(members.len(), 2);
    assert!(members.iter().all(|p| p.permission_group == "members"));
}

#[test]
fn created_role_is_never_system() {
    let (mut store, read, _, _) = seeded();
    let role = store
        .create_role(
            &admin(),
            "catechist".to_string(),
            "Catechist".to_string(),
            None,
            &vec![read],
            5,
        )
        .unwrap();
    let fetched = store.get_role(role).unwrap();
    assert!(!fetched.is_system);
    assert_eq!(fetched.role_name, "catechist");
    assert_eq!(store.role_permission_ids(role), vec![read]);
}

#[test]
fn role_creation_needs_admin() {
    let (mut store, _, _, _) = seeded();
    let r = store.create_role(
        &outsider(),
        "catechist".to_string(),
        "Catechist".to_string(),
        None,
        &vec![],
        5,
    );
    assert!(matches!(r, Err(ApiError::Forbidden(_))));
}

#[test]
fn role_update_keeps_name_and_system_flag() {
    let (mut store, _, _, _) = seeded();
    let role = store
        .create_role(&admin(), "catechist".to_string(), "Catechist".to_string(), None, &vec![], 5)
        .unwrap();
    let updated = store
        .update_role(
            &admin(),
            role,
            UpdateRoleRequest {
                display_name: Some("Catechist (parish)".to_string()),
                description: Some("teaches".to_string()),
            },
            9,
        )
        .unwrap();
    assert_eq!(updated.role_name, "catechist");
    assert_eq!(updated.display_name, "Catechist (parish)");
    assert_eq!(updated.description, Some("teaches".to_string()));
    assert_eq!(updated.updated_at, 9);
    assert!(!updated.is_system);
}

#[test]
fn system_role_deletion_always_fails() {
    let (mut store, _, _, _) = seeded();
    let sys = store
        .seed_system_role("super_admin".to_string(), "Super Admin".to_string(), 1)
        .unwrap();
    let r = store.delete_role(&admin(), sys);
    match r {
        Err(ApiError::Forbidden(m)) => assert_eq!(m, "Cannot delete system roles"),
        _ => panic!("expected Forbidden"),
    }
    assert!(store.get_role(sys).is_ok());
}

#[test]
fn non_system_role_deletion_removes_its_pairs() {
    let (mut store, read, write, _) = seeded();
    let role = store
        .create_role(
            &admin(),
            "catechist".to_string(),
            "Catechist".to_string(),
            None,
            &vec![read, write],
            5,
        )
        .unwrap();
    assert_eq!(store.role_permission_ids(role).len(), 2);
    store.delete_role(&admin(), role).unwrap();
    assert!(matches!(store.get_role(role), Err(ApiError::NotFound(_))));
    assert!(store.role_permission_ids(role).is_empty());
}

#[test]
fn missing_role_deletion_is_not_found() {
    let (mut store, _, _, _) = seeded();
    assert!(matches!(store.delete_role(&admin(), 999), Err(ApiError::NotFound(_))));
}

#[test]
fn set_role_permissions_replaces_the_whole_set() {
    let (mut store, read, write, reports) = seeded();
    let role = store
        .create_role(
            &admin(),
            "catechist".to_string(),
            "Catechist".to_string(),
            None,
            &vec![read, write],
            5,
        )
        .unwrap();
    // Full replace, not a diff: the new list is exactly what remains.
    let now_set = store.set_role_permissions(&admin(), role, &vec![reports]).unwrap();
    assert_eq!(now_set, vec![reports]);
    assert_eq!(store.role_permission_ids(role), vec![reports]);
    // Duplicates in the request collapse to one pair.
    let now_set = store.set_role_permissions(&admin(), role, &vec![read, read]).unwrap();
    assert_eq!(now_set, vec![read]);
}

#[test]
fn effective_permissions_union_role_and_overrides() {
    let (mut store, read, write, reports) = seeded();
    let role = store
        .create_role(&admin(), "clerk".to_string(), "Clerk".to_string(), None, &vec![read], 5)
        .unwrap();
    let user: u128 = 77;
    store
        .grant_user_overrides(&admin(), user, &vec![reports], Some("audit season".to_string()), None, 10)
        .unwrap();
    let mut eff = store.list_effective_permissions(user, role, 20);
    eff.sort();
    assert_eq!(eff, vec![read, reports]);
    let _ = write;
}

#[test]
fn effective_permissions_come_back_as_catalog_keys() {
    let (mut store, read, _, reports) = seeded();
    let role = store
        .create_role(&admin(), "clerk".to_string(), "Clerk".to_string(), None, &vec![read], 5)
        .unwrap();
    let user: u128 = 77;
    store
        .grant_user_overrides(&admin(), user, &vec![reports, reports], None, None, 10)
        .unwrap();
    let mut keys = store.effective_permission_keys(user, role, 20);
    keys.sort();
    assert_eq!(keys, vec!["members.read".to_string(), "reports.view".to_string()]);
}

#[test]
fn expired_override_is_not_effective() {
    let (mut store, _, _, reports) = seeded();
    let role = store
        .create_role(&admin(), "clerk".to_string(), "Clerk".to_string(), None, &vec![], 5)
        .unwrap();
    let user: u128 = 77;
    store
        .grant_user_overrides(&admin(), user, &vec![reports], None, Some(100), 10)
        .unwrap();
    assert_eq!(store.list_effective_permissions(user, role, 50), vec![reports]);
    // At the expiry instant the override no longer holds.
    assert!(store.list_effective_permissions(user, role, 100).is_empty());
}

#[test]
fn grant_then_revoke_leaves_effective_unchanged() {
    let (mut store, read, write, _) = seeded();
    let role = store
        .create_role(&admin(), "clerk".to_string(), "Clerk".to_string(), None, &vec![read], 5)
        .unwrap();
    let user: u128 = 77;
    let before = store.list_effective_permissions(user, role, 50);
    store
        .grant_user_overrides(&admin(), user, &vec![write], Some("temp".to_string()), None, 10)
        .unwrap();
    store.revoke_user_overrides(&admin(), user, &vec![write]).unwrap();
    let after = store.list_effective_permissions(user, role, 50);
    assert_eq!(before, after);
    // The audit row survives, deactivated, rather than being deleted.
    let rows = store.list_user_overrides(user, false, 50);
    assert_eq!(rows.len(), 1);
    assert!(!rows[0].is_active);
    assert_eq!(rows[0].granted_by, admin().user_id);
    assert!(store.list_user_overrides(user, true, 50).is_empty());
}

#[test]
fn override_listing_is_joined_and_newest_first() {
    let (mut store, read, write, _) = seeded();
    let user: u128 = 77;
    store
        .grant_user_overrides(&admin(), user, &vec![read], None, None, 10)
        .unwrap();
    store
        .grant_user_overrides(&admin(), user, &vec![write], None, None, 30)
        .unwrap();
    let rows = store.list_user_overrides(user, false, 40);
    assert_eq!(rows.len(), 2);
    // Newest grant first, each row joined with its catalog entry.
    assert_eq!(rows[0].created_at, 30);
    assert_eq!(rows[0].permission_key, "members.write");
    assert_eq!(rows[0].permission_display_name, "Write members");
    assert_eq!(rows[1].created_at, 10);
    assert_eq!(rows[1].permission_key, "members.read");
    assert_eq!(rows[1].permission_display_name, "Read members");
}

#[test]
fn regrant_reactivates_the_same_row() {
    let (mut store, _, write, _) = seeded();
    let user: u128 = 77;
    store
        .grant_user_overrides(&admin(), user, &vec![write], Some("first".to_string()), Some(100), 10)
        .unwrap();
    store.revoke_user_overrides(&admin(), user, &vec![write]).unwrap();
    store
        .grant_user_overrides(&admin(), user, &vec![write], Some("second".to_string()), Some(200), 20)
        .unwrap();
    // Still one row per (user, permission) pair: the grant was an upsert.
    let rows = store.list_user_overrides(user, false, 30);
    assert_eq!(rows.len(), 1);
    assert!(rows[0].is_active);
    assert_eq!(rows[0].reason, Some("second".to_string()));
    assert_eq!(rows[0].expires_at, Some(200));
    assert_eq!(rows[0].created_at, 10);
}

#[test]
fn revoke_single_override_deactivates_by_row_id() {
    let (mut store, _, write, _) = seeded();
    let user: u128 = 77;
    store
        .grant_user_overrides(&admin(), user, &vec![write], None, None, 10)
        .unwrap();
    let rows = store.list_user_overrides(user, true, 20);
    assert_eq!(rows.len(), 1);
    store.revoke_single_override(&admin(), rows[0].id).unwrap();
    assert!(store.list_user_overrides(user, true, 20).is_empty());
    // Revoking an unknown row id is a silent no-op.
    store.revoke_single_override(&admin(), 424_242).unwrap();
}

#[test]
fn revoking_an_absent_pair_is_a_no_op() {
    let (mut store, _, write, _) = seeded();
    let r = store.revoke_user_overrides(&admin(), 77, &vec![write]);
    assert!(r.is_ok());
    assert!(store.list_user_overrides(77, false, 20).is_empty());
}
