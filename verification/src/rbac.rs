//! Role gates and parish scope resolution: the single authorization choke
//! point that every parish-scoped read or write must pass through.

use vstd::prelude::*;
use vstd::string::StringExecFns;

use crate::auth::AuthUser;
use crate::errors::ApiError;
use crate::roles::UserRole;

verus! {

/// Returns the parish id the caller is allowed to operate on.
///
/// `SuperAdmin` may target any parish: the requested id wins, then the
/// caller's own home parish, and with neither the request is rejected.
/// Every other role must carry a home parish id, and a requested id, if
/// present, must equal it.
pub fn resolve_parish_id(auth: &AuthUser, requested_parish_id: Option<u128>) -> (r: Result<
    u128,
    ApiError,
>)
    ensures
        auth.role == UserRole::SuperAdmin ==> match requested_parish_id {
            Some(q) => r == Ok::<u128, ApiError>(q),
            None => match auth.parish_id {
                Some(p) => r == Ok::<u128, ApiError>(p),
                None => r matches Err(ApiError::BadRequest(m)) && m@ == "parish_id is required"@,
            },
        },
        auth.role != UserRole::SuperAdmin ==> match auth.parish_id {
            None => (r matches Err(ApiError::Forbidden(m)) && m@
                == "User is not assigned to a parish"@),
            Some(p) => match requested_parish_id {
                Some(q) => if q == p {
                    r == Ok::<u128, ApiError>(p)
                } else {
                    r matches Err(ApiError::Forbidden(m)) && m@
                        == "You can only access your own parish data"@
                },
                None => r == Ok::<u128, ApiError>(p),
            },
        },
{
    match auth.role {
        UserRole::SuperAdmin => {
            match requested_parish_id {
                Some(q) => Ok(q),
                None => match auth.parish_id {
                    Some(p) => Ok(p),
                    None => Err(ApiError::BadRequest(String::from_str("parish_id is required"))),
                },
            }
        },
        _ => {
            let user_parish = match auth.parish_id {
                Some(p) => p,
                None => {
                    return Err(
                        ApiError::Forbidden(String::from_str("User is not assigned to a parish")),
                    );
                },
            };
            if let Some(req) = requested_parish_id {
                if req != user_parish {
                    return Err(
                        ApiError::Forbidden(
                            String::from_str("You can only access your own parish data"),
                        ),
                    );
                }
            }
            Ok(user_parish)
        },
    }
}

/// Accepts the caller iff their role stands in the allow list.
pub fn require_role(auth: &AuthUser, allowed: &[UserRole]) -> (r: Result<(), ApiError>)
    ensures
        r matches Ok(()) <==> allowed@.contains(auth.role),
        r matches Err(e) ==> e matches ApiError::Forbidden(m) && m@ == "Insufficient permissions"@,
{
    let mut i: usize = 0;
    while i < allowed.len()
        invariant
            0 <= i <= allowed@.len(),
            forall|j: int| 0 <= j < i ==> allowed@[j] != auth.role,
        decreases allowed@.len() - i,
    {
        if allowed[i] == auth.role {
            return Ok(());
        }
        i += 1;
    }
    Err(ApiError::Forbidden(String::from_str("Insufficient permissions")))
}

/// Accepts every role that may write; `Viewer` is read-only.
pub fn require_write(auth: &AuthUser) -> (r: Result<(), ApiError>)
    ensures
        r matches Ok(()) <==> auth.role.is_write_capable(),
        r matches Err(e) ==> e matches ApiError::Forbidden(m) && m@
            == "Viewers have read-only access"@,
{
    match auth.role {
        UserRole::Viewer => Err(
            ApiError::Forbidden(String::from_str("Viewers have read-only access")),
        ),
        _ => Ok(()),
    }
}

/// Accepts exactly the finance-capable roles.
pub fn require_finance(auth: &AuthUser) -> (r: Result<(), ApiError>)
    ensures
        r matches Ok(()) <==> auth.role.is_finance_capable(),
        r matches Err(e) ==> e matches ApiError::Forbidden(m) && m@ == "Insufficient permissions"@,
{
    require_role(
        auth,
        &[UserRole::SuperAdmin, UserRole::ParishAdmin, UserRole::Accountant],
    )
}

/// Accepts exactly the admin-capable roles.
pub fn require_admin(auth: &AuthUser) -> (r: Result<(), ApiError>)
    ensures
        r matches Ok(()) <==> auth.role.is_admin_capable(),
        r matches Err(e) ==> e matches ApiError::Forbidden(m) && m@ == "Insufficient permissions"@,
{
    require_role(auth, &[UserRole::SuperAdmin, UserRole::ParishAdmin])
}

} // verus!
