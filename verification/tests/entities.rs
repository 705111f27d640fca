use parish_core::auth::AuthUser;
use parish_core::cluster::apply_cluster_patch;
use parish_core::cluster::Cluster;
use parish_core::cluster::UpdateClusterRequest;
use parish_core::errors::ApiError;
use parish_core::member::apply_member_patch;
use parish_core::member::create_member;
use parish_core::member::delete_member;
use parish_core::member::get_member;
use parish_core::member::update_member;
use parish_core::member::GenderType;
use parish_core::member::Member;
use parish_core::member::UpdateMemberRequest;
use parish_core::roles::UserRole;
use parish_core::store::Table;

fn member(id: u128, parish: u128) -> Member {
    Member {
        id,
        parish_id: parish,
        family_id: None,
        scc_id: None,
        member_code: format!("M-{}", id),
        first_name: "Neema".to_string(),
        middle_name: None,
        last_name: "Mushi".to_string(),
        date_of_birth: None,
        gender: None,
        marital_status: None,
        national_id: None,
        occupation: None,
        email: None,
        phone_number: None,
        physical_address: None,
        photo_url: None,
        family_role: None,
        notes: None,
        is_active: Some(true),
        created_at: Some(100),
        updated_at: Some(100),
    }
}

fn empty_patch() -> UpdateMemberRequest {
    UpdateMemberRequest {
        family_id: None,
        scc_id: None,
        family_role: None,
        first_name: None,
        middle_name: None,
        last_name: None,
        date_of_birth: None,
        gender: None,
        marital_status: None,
        national_id: None,
        occupation: None,
        email: None,
        phone_number: None,
        physical_address: None,
        photo_url: None,
        notes: None,
        is_active: None,
    }
}

fn secretary(parish: u128) -> AuthUser {
    AuthUser { user_id: 5, role: UserRole::Secretary, parish_id: Some(parish) }
}

#[test]
fn member_patch_overlays_present_fields_only() {
    let m = member(1, 9);
    let mut patch = empty_patch();
    patch.first_name = Some("Asha".to_string());
    patch.gender = Some(GenderType::Female);
    patch.email = Some("asha@example.org".to_string());
    let patched = apply_member_patch(m, patch, 555);
    assert_eq!(patched.first_name, "Asha");
    assert_eq!(patched.last_name, "Mushi");
    assert_eq!(patched.gender, Some(GenderType::Female));
    assert_eq!(patched.email, Some("asha@example.org".to_string()));
    // Identity, parish and creation stamp never move; the update stamp is
    // the server's.
    assert_eq!(patched.id, 1);
    assert_eq!(patched.parish_id, 9);
    assert_eq!(patched.created_at, Some(100));
    assert_eq!(patched.updated_at, Some(555));
}

#[test]
fn empty_member_patch_only_touches_the_update_stamp() {
    let m = member(1, 9);
    let patched = apply_member_patch(m, empty_patch(), 555);
    assert_eq!(patched.first_name, "Neema");
    assert_eq!(patched.is_active, Some(true));
    assert_eq!(patched.updated_at, Some(555));
}

#[test]
fn member_creation_respects_scope() {
    let mut table: Table<Member> = Table::new();
    // A secretary of parish 9 may create in parish 9...
    assert!(create_member(&mut table, &secretary(9), member(1, 9)).is_ok());
    // ...but not in parish 10.
    let r = create_member(&mut table, &secretary(9), member(2, 10));
    assert!(matches!(r, Err(ApiError::Forbidden(_))));
    // A viewer may not create at all.
    let viewer = AuthUser { user_id: 6, role: UserRole::Viewer, parish_id: Some(9) };
    let r = create_member(&mut table, &viewer, member(3, 9));
    assert!(matches!(r, Err(ApiError::Forbidden(_))));
    // A duplicate id is the store's key violation.
    let r = create_member(&mut table, &secretary(9), member(1, 9));
    assert!(matches!(r, Err(ApiError::Internal(_))));
    assert_eq!(table.count_live(), 1);
}

#[test]
fn member_update_patches_the_live_row() {
    let mut table: Table<Member> = Table::new();
    create_member(&mut table, &secretary(9), member(1, 9)).unwrap();
    let mut patch = empty_patch();
    patch.occupation = Some("teacher".to_string());
    update_member(&mut table, &secretary(9), 1, patch, 777).unwrap();
    let got = get_member(&table, 1).unwrap();
    assert_eq!(got.occupation, Some("teacher".to_string()));
    assert_eq!(got.updated_at, Some(777));
}

#[test]
fn member_update_of_missing_or_deleted_row_is_not_found() {
    let mut table: Table<Member> = Table::new();
    let r = update_member(&mut table, &secretary(9), 1, empty_patch(), 777);
    assert!(matches!(r, Err(ApiError::NotFound(_))));
    create_member(&mut table, &secretary(9), member(1, 9)).unwrap();
    delete_member(&mut table, 1, 800).unwrap();
    let r = update_member(&mut table, &secretary(9), 1, empty_patch(), 900);
    assert!(matches!(r, Err(ApiError::NotFound(_))));
}

#[test]
fn member_delete_is_soft_and_not_repeatable() {
    let mut table: Table<Member> = Table::new();
    create_member(&mut table, &secretary(9), member(1, 9)).unwrap();
    delete_member(&mut table, 1, 800).unwrap();
    assert!(get_member(&table, 1).is_err());
    assert_eq!(table.len(), 1);
    let r = delete_member(&mut table, 1, 900);
    match r {
        Err(ApiError::NotFound(m)) => assert_eq!(m, "Member not found or already deleted"),
        _ => panic!("expected NotFound"),
    }
}

#[test]
fn cluster_patch_overlays_present_fields_only() {
    let c = Cluster {
        id: 4,
        parish_id: 9,
        cluster_code: "CL-4".to_string(),
        cluster_name: "St. Monica".to_string(),
        location_description: Some("east side".to_string()),
        leader_name: None,
        is_active: Some(true),
        created_at: Some(10),
        updated_at: Some(10),
    };
    let patched = apply_cluster_patch(
        c,
        UpdateClusterRequest {
            cluster_name: Some("St. Monica East".to_string()),
            location_description: None,
            leader_name: Some("B. Temba".to_string()),
            is_active: None,
        },
        77,
    );
    assert_eq!(patched.cluster_name, "St. Monica East");
    assert_eq!(patched.location_description, Some("east side".to_string()));
    assert_eq!(patched.leader_name, Some("B. Temba".to_string()));
    assert_eq!(patched.is_active, Some(true));
    assert_eq!(patched.cluster_code, "CL-4");
    assert_eq!(patched.updated_at, Some(77));
}
