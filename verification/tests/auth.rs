use base64::Engine;

use parish_core::auth::authenticate;
use parish_core::auth::login;
use parish_core::auth::LoginCandidate;
use parish_core::auth::create_jwt;
use parish_core::auth::role_from_name;
use parish_core::auth::role_name;
use parish_core::auth::verify_password;
use parish_core::errors::ApiError;
use parish_core::roles::UserRole;

const SECRET: &[u8] = b"unit-test-signing-key";

fn pbkdf2_stored(password: &str, salt: &str, iterations: u32) -> String {
    let mut dk = [0u8; 32];
    pbkdf2::pbkdf2_hmac::<sha2::Sha256>(password.as_bytes(), salt.as_bytes(), iterations, &mut dk);
    let digest = base64::engine::general_purpose::STANDARD.encode(dk);
    format!("pbkdf2_sha256${}${}${}", iterations, salt, digest)
}

#[test]
fn pbkdf2_hash_accepts_right_password() {
    let stored = pbkdf2_stored("password123", "somesalt", 1000);
    assert!(verify_password("password123", &stored));
}

#[test]
fn pbkdf2_hash_rejects_wrong_password() {
    let stored = pbkdf2_stored("password123", "somesalt", 1000);
    assert!(!verify_password("password124", &stored));
}

#[test]
fn pbkdf2_hash_with_wrong_field_count_rejects() {
    // Missing the digest field: the format is malformed, never an error.
    assert!(!verify_password("password123", "pbkdf2_sha256$1000$somesalt"));
    assert!(!verify_password(
        "password123",
        "pbkdf2_sha256$1000$somesalt$abc$extra"
    ));
}

#[test]
fn bcrypt_hash_accepts_right_password() {
    let stored = bcrypt::hash("password123", 4).unwrap();
    assert!(verify_password("password123", &stored));
    assert!(!verify_password("password124", &stored));
}

#[test]
fn unknown_hash_format_rejects() {
    assert!(!verify_password("password123", "not-a-hash"));
    assert!(!verify_password("password123", ""));
}

#[test]
fn role_names_round_trip() {
    for role in [
        UserRole::SuperAdmin,
        UserRole::ParishAdmin,
        UserRole::Accountant,
        UserRole::Secretary,
        UserRole::Viewer,
    ] {
        assert_eq!(role_from_name(role_name(role)), Some(role));
    }
    assert_eq!(role_from_name("POPE"), None);
}

#[test]
fn token_round_trips_through_authentication() {
    let user_id: u128 = 0x1234_5678_9abc_def0;
    let parish: u128 = 42;
    let now: u64 = 1_700_000_000;
    let token = create_jwt(user_id, UserRole::Secretary, Some(parish), now, SECRET).unwrap();
    let header = format!("Bearer {}", token);
    let principal = authenticate(Some(&header), SECRET, now + 10).unwrap();
    assert_eq!(principal.user_id, user_id);
    assert_eq!(principal.role, UserRole::Secretary);
    assert_eq!(principal.parish_id, Some(parish));
}

#[test]
fn token_without_parish_round_trips() {
    let now: u64 = 1_700_000_000;
    let token = create_jwt(9, UserRole::SuperAdmin, None, now, SECRET).unwrap();
    let header = format!("Bearer {}", token);
    let principal = authenticate(Some(&header), SECRET, now).unwrap();
    assert_eq!(principal.parish_id, None);
    assert_eq!(principal.role, UserRole::SuperAdmin);
}

#[test]
fn expired_token_is_rejected() {
    let now: u64 = 1_700_000_000;
    let token = create_jwt(9, UserRole::Viewer, None, now, SECRET).unwrap();
    let header = format!("Bearer {}", token);
    // One second past the 24-hour expiry.
    let r = authenticate(Some(&header), SECRET, now + 86400 + 1);
    match r {
        Err(ApiError::Unauthenticated(m)) => assert_eq!(m, "Invalid token"),
        _ => panic!("expected Unauthenticated"),
    }
}

#[test]
fn token_with_wrong_secret_is_rejected() {
    let now: u64 = 1_700_000_000;
    let token = create_jwt(9, UserRole::Viewer, None, now, SECRET).unwrap();
    let header = format!("Bearer {}", token);
    let r = authenticate(Some(&header), b"another-signing-key", now);
    match r {
        Err(ApiError::Unauthenticated(m)) => assert_eq!(m, "Invalid token"),
        _ => panic!("expected Unauthenticated"),
    }
}

#[test]
fn login_round_trips_to_a_usable_token() {
    let now: u64 = 1_700_000_000;
    let candidate = LoginCandidate {
        user_id: 31,
        role: UserRole::Accountant,
        parish_id: Some(8),
        password_hash: pbkdf2_stored("password123", "somesalt", 1000),
    };
    let token = login(Some(candidate), "password123", now, SECRET).unwrap();
    let header = format!("Bearer {}", token);
    let principal = authenticate(Some(&header), SECRET, now + 1).unwrap();
    assert_eq!(principal.user_id, 31);
    assert_eq!(principal.role, UserRole::Accountant);
    assert_eq!(principal.parish_id, Some(8));
}

#[test]
fn login_rejects_unknown_user_and_wrong_password_alike() {
    let now: u64 = 1_700_000_000;
    let r = login(None, "password123", now, SECRET);
    match r {
        Err(ApiError::Unauthenticated(m)) => assert_eq!(m, "Invalid credentials"),
        _ => panic!("expected Unauthenticated"),
    }
    let candidate = LoginCandidate {
        user_id: 31,
        role: UserRole::Accountant,
        parish_id: Some(8),
        password_hash: bcrypt::hash("password123", 4).unwrap(),
    };
    let r = login(Some(candidate), "password124", now, SECRET);
    match r {
        Err(ApiError::Unauthenticated(m)) => assert_eq!(m, "Invalid credentials"),
        _ => panic!("expected Unauthenticated"),
    }
}

#[test]
fn missing_header_is_rejected() {
    let r = authenticate(None, SECRET, 0);
    match r {
        Err(ApiError::Unauthenticated(m)) => {
            assert_eq!(m, "Missing authorization header");
            assert_eq!(ApiError::Unauthenticated(m).status(), 401);
        }
        _ => panic!("expected Unauthenticated"),
    }
}

#[test]
fn non_bearer_header_is_rejected() {
    let r = authenticate(Some("Basic dXNlcjpwdw=="), SECRET, 0);
    match r {
        Err(ApiError::Unauthenticated(m)) => assert_eq!(m, "Invalid authorization header"),
        _ => panic!("expected Unauthenticated"),
    }
}

#[test]
fn garbage_bearer_token_is_rejected() {
    let r = authenticate(Some("Bearer not.a.token"), SECRET, 0);
    match r {
        Err(ApiError::Unauthenticated(m)) => assert_eq!(m, "Invalid token"),
        _ => panic!("expected Unauthenticated"),
    }
}
