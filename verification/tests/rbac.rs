use parish_core::auth::AuthUser;
use parish_core::errors::ApiError;
use parish_core::rbac::require_admin;
use parish_core::rbac::require_finance;
use parish_core::rbac::require_role;
use parish_core::rbac::require_write;
use parish_core::rbac::resolve_parish_id;
use parish_core::roles::UserRole;

fn user(role: UserRole, parish_id: Option<u128>) -> AuthUser {
    AuthUser { user_id: 7, role, parish_id }
}

const A: u128 = 0xa;
const B: u128 = 0xb;

#[test]
fn scoped_user_without_parish_is_forbidden() {
    for role in [
        UserRole::ParishAdmin,
        UserRole::Accountant,
        UserRole::Secretary,
        UserRole::Viewer,
    ] {
        for requested in [None, Some(A), Some(B)] {
            let r = resolve_parish_id(&user(role, None), requested);
            match r {
                Err(ApiError::Forbidden(m)) => {
                    assert_eq!(m, "User is not assigned to a parish");
                }
                other => panic!("expected Forbidden, got {:?}", other.is_ok()),
            }
        }
    }
}

#[test]
fn scoped_user_cross_parish_is_forbidden() {
    let r = resolve_parish_id(&user(UserRole::Secretary, Some(A)), Some(B));
    match r {
        Err(ApiError::Forbidden(m)) => {
            assert_eq!(m, "You can only access your own parish data");
        }
        _ => panic!("expected Forbidden"),
    }
}

#[test]
fn scoped_user_own_parish_resolves() {
    assert_eq!(resolve_parish_id(&user(UserRole::Secretary, Some(A)), Some(A)).unwrap(), A);
    assert_eq!(resolve_parish_id(&user(UserRole::Secretary, Some(A)), None).unwrap(), A);
    assert_eq!(resolve_parish_id(&user(UserRole::Viewer, Some(A)), None).unwrap(), A);
}

#[test]
fn super_admin_targets_any_parish() {
    assert_eq!(resolve_parish_id(&user(UserRole::SuperAdmin, None), Some(B)).unwrap(), B);
    assert_eq!(resolve_parish_id(&user(UserRole::SuperAdmin, Some(A)), Some(B)).unwrap(), B);
    assert_eq!(resolve_parish_id(&user(UserRole::SuperAdmin, Some(A)), None).unwrap(), A);
}

#[test]
fn super_admin_without_any_parish_is_bad_request() {
    let r = resolve_parish_id(&user(UserRole::SuperAdmin, None), None);
    match r {
        Err(ApiError::BadRequest(m)) => {
            assert_eq!(m, "parish_id is required");
            assert_eq!(ApiError::BadRequest(m).status(), 400);
        }
        _ => panic!("expected BadRequest"),
    }
}

#[test]
fn end_to_end_scope_scenario() {
    // A secretary of parish A asking for parish B is turned away.
    let r = resolve_parish_id(&user(UserRole::Secretary, Some(A)), Some(B));
    assert_eq!(r.unwrap_err().status(), 403);
    // A SuperAdmin with no home parish and no parameter is a bad request.
    let r = resolve_parish_id(&user(UserRole::SuperAdmin, None), None);
    assert_eq!(r.unwrap_err().status(), 400);
    // The same SuperAdmin naming parish B is scoped to B.
    let r = resolve_parish_id(&user(UserRole::SuperAdmin, None), Some(B));
    assert_eq!(r.unwrap(), B);
}

#[test]
fn write_gate_rejects_viewer_only() {
    assert!(require_write(&user(UserRole::Viewer, Some(A))).is_err());
    assert!(require_write(&user(UserRole::Secretary, Some(A))).is_ok());
    assert!(require_write(&user(UserRole::Accountant, Some(A))).is_ok());
    assert!(require_write(&user(UserRole::ParishAdmin, Some(A))).is_ok());
    assert!(require_write(&user(UserRole::SuperAdmin, None)).is_ok());
}

#[test]
fn finance_gate_allows_three_roles() {
    assert!(require_finance(&user(UserRole::SuperAdmin, None)).is_ok());
    assert!(require_finance(&user(UserRole::ParishAdmin, Some(A))).is_ok());
    assert!(require_finance(&user(UserRole::Accountant, Some(A))).is_ok());
    assert!(require_finance(&user(UserRole::Secretary, Some(A))).is_err());
    assert!(require_finance(&user(UserRole::Viewer, Some(A))).is_err());
}

#[test]
fn admin_gate_allows_two_roles() {
    assert!(require_admin(&user(UserRole::SuperAdmin, None)).is_ok());
    assert!(require_admin(&user(UserRole::ParishAdmin, Some(A))).is_ok());
    assert!(require_admin(&user(UserRole::Accountant, Some(A))).is_err());
    assert!(require_admin(&user(UserRole::Secretary, Some(A))).is_err());
    assert!(require_admin(&user(UserRole::Viewer, Some(A))).is_err());
}

#[test]
fn role_list_gate_matches_membership() {
    let allowed = [UserRole::Accountant, UserRole::Secretary];
    assert!(require_role(&user(UserRole::Accountant, Some(A)), &allowed).is_ok());
    assert!(require_role(&user(UserRole::Secretary, Some(A)), &allowed).is_ok());
    let r = require_role(&user(UserRole::Viewer, Some(A)), &allowed);
    match r {
        Err(ApiError::Forbidden(m)) => assert_eq!(m, "Insufficient permissions"),
        _ => panic!("expected Forbidden"),
    }
}
