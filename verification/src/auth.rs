//! Identity & claims: password verification over the two legacy hash
//! schemes, and issue/validate of the signed session token that carries
//! the principal.
//!
//! Both hash schemes live in this one module so a future scheme is one
//! more branch here, invisible to callers.

use base64::Engine;
use vstd::prelude::*;
use vstd::string::StrSliceExecFns;
use vstd::string::StringExecFns;

use crate::errors::ApiError;
use crate::roles::UserRole;
use crate::text::opt_view;
use crate::text::spec_parse_u32_or_zero;
use crate::text::spec_split;
use crate::text::spec_starts_with;
use crate::text::parse_u32_or_zero;
use crate::text::split_char;
use crate::text::starts_with;
use crate::text::str_eq;

verus! {

/// The authenticated caller: identity, role and optional home parish,
/// derived from a validated token and immutable for the request.
#[derive(Clone, Copy)]
pub struct AuthUser {
    pub user_id: u128,
    pub role: UserRole,
    pub parish_id: Option<u128>,
}

/// What a session token asserts: subject, role, home parish and expiry
/// (unix seconds).
#[derive(Clone, Copy)]
pub struct Claims {
    pub sub: u128,
    pub role: UserRole,
    pub parish_id: Option<u128>,
    pub exp: u64,
}

/// The fields of a token whose signature verified, still in wire form.
pub struct RawClaims {
    pub sub: String,
    pub role_name: String,
    pub parish_id: Option<String>,
    pub exp: u64,
}

/// The login payload: an identifier (username or email) and the password.
pub struct LoginRequest {
    pub username_or_email: String,
    pub password: String,
}

/// The PBKDF2-HMAC-SHA256 key of a password and salt at an iteration
/// count, 32 bytes.
pub uninterp spec fn pbkdf2_sha256_of(password: Seq<char>, salt: Seq<char>, iterations: u32) -> Seq<
    u8,
>;

/// Relies on pbkdf2::pbkdf2_hmac with sha2::Sha256: fills the output
/// buffer (32 bytes here) as a pure function of password, salt and count.
#[verifier::external_body]
fn pbkdf2_sha256(password: &str, salt: &str, iterations: u32) -> (r: Vec<u8>)
    ensures
        r@ == pbkdf2_sha256_of(password@, salt@, iterations),
        r@.len() == 32,
{
    let mut dk = [0u8; 32];
    pbkdf2::pbkdf2_hmac::<sha2::Sha256>(password.as_bytes(), salt.as_bytes(), iterations, &mut dk);
    dk.to_vec()
}

/// The standard (padded) base64 rendering of a byte string.
pub uninterp spec fn b64_std_of(bytes: Seq<u8>) -> Seq<char>;

/// Relies on base64's STANDARD engine: the encoding is a pure function of
/// the bytes.
#[verifier::external_body]
fn b64_encode(bytes: &[u8]) -> (r: String)
    ensures
        r@ == b64_std_of(bytes@),
{
    base64::engine::general_purpose::STANDARD.encode(bytes)
}

/// Whether bcrypt accepts the password against the stored hash; a
/// malformed hash is a rejection, never an error.
pub uninterp spec fn bcrypt_accepts(password: Seq<char>, hash: Seq<char>) -> bool;

/// Relies on bcrypt::verify: deterministic in the password and the hash
/// string (which carries its own salt); its errors are collapsed to
/// `false`, so unknown hash formats reject rather than fail.
#[verifier::external_body]
fn bcrypt_verify(password: &str, hash: &str) -> (r: bool)
    ensures
        r == bcrypt_accepts(password@, hash@),
{
    bcrypt::verify(password, hash).unwrap_or(false)
}

/// What `verify_password` decides: a stored hash with the keyed-iteration
/// prefix must have exactly four `$`-separated fields and match the
/// derived key's base64; any other hash goes to bcrypt.
pub open spec fn spec_verify_password(password: Seq<char>, hash: Seq<char>) -> bool {
    if spec_starts_with(hash, "pbkdf2_sha256$"@) {
        let parts = spec_split(hash, '$');
        if parts.len() != 4 {
            false
        } else {
            b64_std_of(pbkdf2_sha256_of(password, parts[2], spec_parse_u32_or_zero(parts[1])))
                == parts[3]
        }
    } else {
        bcrypt_accepts(password, hash)
    }
}

/// Verifies a password against a stored hash, detecting the scheme by its
/// prefix: `pbkdf2_sha256$<iterations>$<salt>$<base64 digest>` for the
/// keyed-iteration scheme, anything else for bcrypt. Malformed hashes
/// reject; nothing here errors.
pub fn verify_password(password: &str, hash: &str) -> (r: bool)
    ensures
        r == spec_verify_password(password@, hash@),
{
    if starts_with(hash, "pbkdf2_sha256$") {
        let parts = split_char(hash, '$');
        proof {
            assert(parts@.map_values(|p: String| p@).len() == spec_split(hash@, '$').len());
        }
        if parts.len() != 4 {
            return false;
        }
        proof {
            assert(parts@.map_values(|p: String| p@)[1] == parts@[1]@);
            assert(parts@.map_values(|p: String| p@)[2] == parts@[2]@);
            assert(parts@.map_values(|p: String| p@)[3] == parts@[3]@);
        }
        let iterations = parse_u32_or_zero(parts[1].as_str());
        let dk = pbkdf2_sha256(password, parts[2].as_str(), iterations);
        let dk_b64 = b64_encode(dk.as_slice());
        str_eq(dk_b64.as_str(), parts[3].as_str())
    } else {
        bcrypt_verify(password, hash)
    }
}

/// The wire name of each role, as carried inside tokens.
pub open spec fn spec_role_name(role: UserRole) -> Seq<char> {
    match role {
        UserRole::SuperAdmin => "SUPER_ADMIN"@,
        UserRole::ParishAdmin => "PARISH_ADMIN"@,
        UserRole::Accountant => "ACCOUNTANT"@,
        UserRole::Secretary => "SECRETARY"@,
        UserRole::Viewer => "VIEWER"@,
    }
}

pub fn role_name(role: UserRole) -> (r: &'static str)
    ensures
        r@ == spec_role_name(role),
{
    match role {
        UserRole::SuperAdmin => "SUPER_ADMIN",
        UserRole::ParishAdmin => "PARISH_ADMIN",
        UserRole::Accountant => "ACCOUNTANT",
        UserRole::Secretary => "SECRETARY",
        UserRole::Viewer => "VIEWER",
    }
}

/// The role a wire name denotes, if any.
pub open spec fn spec_role_from_name(s: Seq<char>) -> Option<UserRole> {
    if s == "SUPER_ADMIN"@ {
        Some(UserRole::SuperAdmin)
    } else if s == "PARISH_ADMIN"@ {
        Some(UserRole::ParishAdmin)
    } else if s == "ACCOUNTANT"@ {
        Some(UserRole::Accountant)
    } else if s == "SECRETARY"@ {
        Some(UserRole::Secretary)
    } else if s == "VIEWER"@ {
        Some(UserRole::Viewer)
    } else {
        None
    }
}

pub fn role_from_name(s: &str) -> (r: Option<UserRole>)
    ensures
        r == spec_role_from_name(s@),
{
    if str_eq(s, "SUPER_ADMIN") {
        Some(UserRole::SuperAdmin)
    } else if str_eq(s, "PARISH_ADMIN") {
        Some(UserRole::ParishAdmin)
    } else if str_eq(s, "ACCOUNTANT") {
        Some(UserRole::Accountant)
    } else if str_eq(s, "SECRETARY") {
        Some(UserRole::Secretary)
    } else if str_eq(s, "VIEWER") {
        Some(UserRole::Viewer)
    } else {
        None
    }
}

/// Every role's wire name reads back as that role.
pub proof fn lemma_role_name_round_trip(role: UserRole)
    ensures
        spec_role_from_name(spec_role_name(role)) == Some(role),
{
    reveal_strlit("SUPER_ADMIN");
    reveal_strlit("PARISH_ADMIN");
    reveal_strlit("ACCOUNTANT");
    reveal_strlit("SECRETARY");
    reveal_strlit("VIEWER");
    assert("SUPER_ADMIN"@.len() == 11);
    assert("PARISH_ADMIN"@.len() == 12);
    assert("ACCOUNTANT"@.len() == 10);
    assert("SECRETARY"@.len() == 9);
    assert("VIEWER"@.len() == 6);
}

/// The HS256 session token signing these claims with this secret. The
/// token is a pure function of its inputs.
pub uninterp spec fn token_of(
    sub: u128,
    role_name: Seq<char>,
    parish_id: Option<u128>,
    exp: u64,
    secret: Seq<u8>,
) -> Seq<char>;

/// Relies on jsonwebtoken::encode with the default (HS256) header: the
/// token depends only on the claims and the secret, and signing cannot
/// fail — the key family matches the header, HMAC accepts any key length,
/// and a claims map of strings and an integer always serializes.
#[verifier::external_body]
fn jwt_encode_hs256(
    sub: u128,
    role_name: &str,
    parish_id: Option<u128>,
    exp: u64,
    secret: &[u8],
) -> (r: Option<String>)
    ensures
        r is Some,
        r matches Some(t) ==> t@ == token_of(sub, role_name@, parish_id, exp, secret@),
{
    let mut c = serde_json::Map::new();
    let sub_s = serde_json::Value::String(uuid::Uuid::from_u128(sub).to_string());
    c.insert("sub".to_string(), sub_s);
    c.insert("role".to_string(), serde_json::Value::String(role_name.to_string()));
    let parish = parish_id.map(|p| serde_json::Value::String(uuid::Uuid::from_u128(p).to_string()));
    c.insert("parish_id".to_string(), parish.unwrap_or(serde_json::Value::Null));
    c.insert("exp".to_string(), serde_json::Value::from(exp));
    let key = jsonwebtoken::EncodingKey::from_secret(secret);
    jsonwebtoken::encode(&jsonwebtoken::Header::default(), &serde_json::Value::Object(c), &key).ok()
}

/// The claim fields an HS256 token yields under a secret, where its
/// signature verifies and its claims are readable: subject, role name,
/// optional parish and expiry, a pure function of token and secret.
pub uninterp spec fn claims_of(token: Seq<char>, secret: Seq<u8>) -> Option<
    (Seq<char>, Seq<char>, Option<Seq<char>>, u64),
>;

/// Relies on jsonwebtoken::decode with HS256: returns the claim fields
/// only when the signature verifies under the secret; the expiry claim
/// must be present but is checked by the caller, not here.
#[verifier::external_body]
fn jwt_decode_hs256(token: &str, secret: &[u8]) -> (r: Option<RawClaims>)
    ensures
        match r {
            Some(c) => claims_of(token@, secret@) == Some(
                (c.sub@, c.role_name@, opt_view(c.parish_id), c.exp),
            ),
            None => claims_of(token@, secret@) is None,
        },
{
    let mut validation = jsonwebtoken::Validation::new(jsonwebtoken::Algorithm::HS256);
    validation.validate_exp = false;
    let key = jsonwebtoken::DecodingKey::from_secret(secret);
    let data = jsonwebtoken::decode::<serde_json::Value>(token, &key, &validation).ok()?;
    let sub = data.claims.get("sub")?.as_str()?.to_string();
    let role_name = data.claims.get("role")?.as_str()?.to_string();
    let parish_id = match data.claims.get("parish_id") {
        None | Some(serde_json::Value::Null) => None,
        Some(v) => Some(v.as_str()?.to_string()),
    };
    let exp = data.claims.get("exp")?.as_u64()?;
    Some(RawClaims { sub, role_name, parish_id, exp })
}

/// The 128-bit value of a textual uuid, if it parses.
pub uninterp spec fn uuid_parsed(s: Seq<char>) -> Option<u128>;

/// Relies on uuid::Uuid::parse_str: a pure function of the text.
#[verifier::external_body]
fn parse_uuid(s: &str) -> (r: Option<u128>)
    ensures
        r == uuid_parsed(s@),
{
    match uuid::Uuid::parse_str(s) {
        Ok(u) => Some(u.as_u128()),
        Err(_) => None,
    }
}

/// Issues the session token for a caller: a fixed 24-hour credential
/// embedding subject, role and home parish. Issuance always succeeds: the
/// signing secret is an argument (configuration fails fast before any
/// call), and HS256 signing of these claims cannot fail.
pub fn create_jwt(user_id: u128, role: UserRole, parish_id: Option<u128>, now: u64, secret: &[u8]) -> (r:
    Result<String, ApiError>)
    requires
        now <= u64::MAX - 86400,
    ensures
        r matches Ok(t) && t@ == token_of(
            user_id,
            spec_role_name(role),
            parish_id,
            (now + 86400) as u64,
            secret@,
        ),
{
    let claims = Claims { sub: user_id, role, parish_id, exp: now + 86400 };
    match jwt_encode_hs256(claims.sub, role_name(claims.role), claims.parish_id, claims.exp, secret) {
        Some(t) => Ok(t),
        None => Err(ApiError::Internal(String::from_str("token signing failed"))),
    }
}

/// What the store found for a login identifier: the account's identity
/// and its stored password hash.
pub struct LoginCandidate {
    pub user_id: u128,
    pub role: UserRole,
    pub parish_id: Option<u128>,
    pub password_hash: String,
}

/// Decides a login: an unknown identifier and a wrong password are the
/// same rejection, and a correct password yields the 24-hour token for the
/// account. Looking the identifier up is the store's job.
pub fn login(candidate: Option<LoginCandidate>, password: &str, now: u64, secret: &[u8]) -> (r:
    Result<String, ApiError>)
    requires
        now <= u64::MAX - 86400,
    ensures
        match candidate {
            None => r matches Err(ApiError::Unauthenticated(m)) && m@ == "Invalid credentials"@,
            Some(c) => {
                &&& (!spec_verify_password(password@, c.password_hash@) ==> (r matches Err(
                    ApiError::Unauthenticated(m),
                ) && m@ == "Invalid credentials"@))
                &&& (spec_verify_password(password@, c.password_hash@) ==> (r matches Ok(t) && t@
                    == token_of(
                    c.user_id,
                    spec_role_name(c.role),
                    c.parish_id,
                    (now + 86400) as u64,
                    secret@,
                )))
            },
        },
{
    let c = match candidate {
        Some(c) => c,
        None => {
            return Err(ApiError::Unauthenticated(String::from_str("Invalid credentials")));
        },
    };
    if !verify_password(password, c.password_hash.as_str()) {
        return Err(ApiError::Unauthenticated(String::from_str("Invalid credentials")));
    }
    create_jwt(c.user_id, c.role, c.parish_id, now, secret)
}

/// The token part of a bearer header, where the header has the scheme.
pub fn parse_bearer(header: &str) -> (r: Option<String>)
    ensures
        spec_starts_with(header@, "Bearer "@) ==> (r matches Some(t) && t@ == header@.subrange(
            "Bearer "@.len() as int,
            header@.len() as int,
        )),
        !spec_starts_with(header@, "Bearer "@) ==> r is None,
{
    proof {
        reveal_strlit("Bearer ");
    }
    if starts_with(header, "Bearer ") {
        let n = header.unicode_len();
        Some(String::from_str(header.substring_char(7, n)))
    } else {
        None
    }
}

/// The principal a set of wire claims denotes at a given time, if any: the
/// subject (and parish, where present) must be textual uuids, the role a
/// known wire name, and the expiry still in the future.
pub open spec fn spec_principal(
    sub: Seq<char>,
    role_name: Seq<char>,
    parish_id: Option<Seq<char>>,
    exp: u64,
    now: u64,
) -> Option<AuthUser> {
    if exp > now {
        match (uuid_parsed(sub), spec_role_from_name(role_name)) {
            (Some(user_id), Some(role)) => match parish_id {
                None => Some(AuthUser { user_id, role, parish_id: None }),
                Some(p) => match uuid_parsed(p) {
                    Some(v) => Some(AuthUser { user_id, role, parish_id: Some(v) }),
                    None => None,
                },
            },
            _ => None,
        }
    } else {
        None
    }
}

/// Turns the fields of a signature-checked token into the principal it
/// denotes; a credential denoting none — expired, malformed subject or
/// parish, unknown role — is the one invalid-token rejection.
pub fn principal_from_claims(claims: RawClaims, now: u64) -> (r: Result<AuthUser, ApiError>)
    ensures
        match spec_principal(claims.sub@, claims.role_name@, opt_view(claims.parish_id), claims.exp, now) {
            Some(u) => r == Ok::<AuthUser, ApiError>(u),
            None => r matches Err(ApiError::Unauthenticated(m)) && m@ == "Invalid token"@,
        },
{
    if claims.exp <= now {
        return Err(ApiError::Unauthenticated(String::from_str("Invalid token")));
    }
    let user_id = match parse_uuid(claims.sub.as_str()) {
        Some(v) => v,
        None => {
            return Err(ApiError::Unauthenticated(String::from_str("Invalid token")));
        },
    };
    let role = match role_from_name(claims.role_name.as_str()) {
        Some(v) => v,
        None => {
            return Err(ApiError::Unauthenticated(String::from_str("Invalid token")));
        },
    };
    let parish_id = match &claims.parish_id {
        Some(p) => {
            match parse_uuid(p.as_str()) {
                Some(v) => Some(v),
                None => {
                    return Err(ApiError::Unauthenticated(String::from_str("Invalid token")));
                },
            }
        },
        None => None,
    };
    Ok(AuthUser { user_id, role, parish_id })
}

/// Validates a bearer credential into the principal. The outcome is a
/// function of the header, the secret and the clock: a missing header and
/// a non-bearer scheme have their own rejections; otherwise the token is
/// accepted exactly when its signature verifies (`claims_of`) and its
/// claims denote a principal whose expiry lies ahead. No state is read or
/// written.
pub fn authenticate(header: Option<&str>, secret: &[u8], now: u64) -> (r: Result<
    AuthUser,
    ApiError,
>)
    ensures
        match header {
            None => r matches Err(ApiError::Unauthenticated(m)) && m@
                == "Missing authorization header"@,
            Some(h) => if !spec_starts_with(h@, "Bearer "@) {
                r matches Err(ApiError::Unauthenticated(m)) && m@
                    == "Invalid authorization header"@
            } else {
                match claims_of(h@.subrange("Bearer "@.len() as int, h@.len() as int), secret@) {
                    None => r matches Err(ApiError::Unauthenticated(m)) && m@ == "Invalid token"@,
                    Some(c) => match spec_principal(c.0, c.1, c.2, c.3, now) {
                        Some(u) => r == Ok::<AuthUser, ApiError>(u),
                        None => r matches Err(ApiError::Unauthenticated(m)) && m@
                            == "Invalid token"@,
                    },
                }
            },
        },
{
    let h = match header {
        Some(h) => h,
        None => {
            return Err(ApiError::Unauthenticated(String::from_str("Missing authorization header")));
        },
    };
    let token = match parse_bearer(h) {
        Some(t) => t,
        None => {
            return Err(ApiError::Unauthenticated(String::from_str("Invalid authorization header")));
        },
    };
    match jwt_decode_hs256(token.as_str(), secret) {
        Some(claims) => principal_from_claims(claims, now),
        None => Err(ApiError::Unauthenticated(String::from_str("Invalid token"))),
    }
}

} // verus!
