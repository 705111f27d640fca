//! Parish members and sacrament records, with the per-entity rules the
//! sync reconciler applies and the patch semantics of direct updates.
//!
//! Dates are epoch day numbers and timestamps are unix milliseconds.

use vstd::prelude::*;

use crate::store::Keyed;
use crate::sync::SyncEntity;
use vstd::string::StringExecFns;

use crate::auth::AuthUser;
use crate::errors::ApiError;
use crate::rbac::require_write;
use crate::rbac::resolve_parish_id;
use crate::roles::UserRole;
use crate::store::Table;

verus! {

#[derive(Clone, Copy, Debug, PartialEq, Eq, Structural)]
pub enum GenderType {
    Male,
    Female,
}

#[derive(Clone, Copy, Debug, PartialEq, Eq, Structural)]
pub enum MaritalStatus {
    Single,
    Married,
    Widowed,
    Separated,
    Divorced,
}

#[derive(Clone, Copy, Debug, PartialEq, Eq, Structural)]
pub enum SacramentType {
    Baptism,
    FirstCommunion,
    Confirmation,
    Marriage,
    HolyOrders,
    AnointingOfSick,
}

#[derive(Clone, Copy, Debug, PartialEq, Eq, Structural)]
pub enum FamilyRole {
    Head,
    Spouse,
    Member,
}

/// One member record. The soft-delete tombstone lives in the table, not
/// here.
pub struct Member {
    pub id: u128,
    pub parish_id: u128,
    pub family_id: Option<u128>,
    pub scc_id: Option<u128>,
    pub member_code: String,
    pub first_name: String,
    pub middle_name: Option<String>,
    pub last_name: String,
    /// Epoch day number.
    pub date_of_birth: Option<i64>,
    pub gender: Option<GenderType>,
    pub marital_status: Option<MaritalStatus>,
    pub national_id: Option<String>,
    pub occupation: Option<String>,
    pub email: Option<String>,
    pub phone_number: Option<String>,
    pub physical_address: Option<String>,
    pub photo_url: Option<String>,
    pub family_role: Option<FamilyRole>,
    pub notes: Option<String>,
    pub is_active: Option<bool>,
    pub created_at: Option<i64>,
    pub updated_at: Option<i64>,
}

impl Keyed for Member {
    open spec fn key_spec(&self) -> u128 {
        self.id
    }

    fn key(&self) -> (k: u128) {
        self.id
    }
}

impl SyncEntity for Member {
    /// The row stored when a client-inserted copy is accepted: members
    /// carry no sync mark, so the copy is stored as sent.
    open spec fn received_spec(self, now: i64) -> Self {
        self
    }

    /// The row stored when a client update overwrites an existing row:
    /// every mutable column comes from the client copy (`updated_at`
    /// included); only the creation stamp stays.
    open spec fn merged_spec(self, existing: Self, now: i64) -> Self {
        Member { created_at: existing.created_at, ..self }
    }

    proof fn lemma_key_preserved(self, existing: Self, now: i64) {
    }

    proof fn lemma_merged_absorbs(self, other: Self, existing: Self, now1: i64, now2: i64) {
    }
}

impl Member {
    pub fn received(self, now: i64) -> (r: Self)
        ensures
            r == self.received_spec(now),
    {
        self
    }

    pub fn merged(self, existing: &Self, now: i64) -> (r: Self)
        ensures
            r == self.merged_spec(*existing, now),
    {
        Member { created_at: existing.created_at, ..self }
    }
}

impl Clone for Member {
    fn clone(&self) -> (r: Self)
        ensures
            r == *self,
    {
        Member {
            id: self.id,
            parish_id: self.parish_id,
            family_id: self.family_id,
            scc_id: self.scc_id,
            member_code: self.member_code.clone(),
            first_name: self.first_name.clone(),
            middle_name: clone_opt(&self.middle_name),
            last_name: self.last_name.clone(),
            date_of_birth: self.date_of_birth,
            gender: self.gender,
            marital_status: self.marital_status,
            national_id: clone_opt(&self.national_id),
            occupation: clone_opt(&self.occupation),
            email: clone_opt(&self.email),
            phone_number: clone_opt(&self.phone_number),
            physical_address: clone_opt(&self.physical_address),
            photo_url: clone_opt(&self.photo_url),
            family_role: self.family_role,
            notes: clone_opt(&self.notes),
            is_active: self.is_active,
            created_at: self.created_at,
            updated_at: self.updated_at,
        }
    }
}

/// Clones an optional string, preserving its value.
fn clone_opt(o: &Option<String>) -> (r: Option<String>)
    ensures
        r == *o,
{
    match o {
        Some(s) => Some(s.clone()),
        None => None,
    }
}

/// A direct (non-sync) member update: every field optional,
/// present-if-changed; an absent field keeps the stored value.
pub struct UpdateMemberRequest {
    pub family_id: Option<u128>,
    pub scc_id: Option<u128>,
    pub family_role: Option<FamilyRole>,
    pub first_name: Option<String>,
    pub middle_name: Option<String>,
    pub last_name: Option<String>,
    pub date_of_birth: Option<i64>,
    pub gender: Option<GenderType>,
    pub marital_status: Option<MaritalStatus>,
    pub national_id: Option<String>,
    pub occupation: Option<String>,
    pub email: Option<String>,
    pub phone_number: Option<String>,
    pub physical_address: Option<String>,
    pub photo_url: Option<String>,
    pub notes: Option<String>,
    pub is_active: Option<bool>,
}

/// The member after a patch: a pure function of the stored row and the
/// request, so the overlay-and-merge rule is checkable without a store.
/// Identity, parish and creation stamp are untouched; the update stamp is
/// the server's.
pub open spec fn member_patched(m: Member, p: UpdateMemberRequest, now: i64) -> Member {
    Member {
        family_id: if p.family_id is Some {
            p.family_id
        } else {
            m.family_id
        },
        scc_id: if p.scc_id is Some {
            p.scc_id
        } else {
            m.scc_id
        },
        family_role: if p.family_role is Some {
            p.family_role
        } else {
            m.family_role
        },
        first_name: match p.first_name {
            Some(v) => v,
            None => m.first_name,
        },
        middle_name: if p.middle_name is Some {
            p.middle_name
        } else {
            m.middle_name
        },
        last_name: match p.last_name {
            Some(v) => v,
            None => m.last_name,
        },
        date_of_birth: if p.date_of_birth is Some {
            p.date_of_birth
        } else {
            m.date_of_birth
        },
        gender: if p.gender is Some {
            p.gender
        } else {
            m.gender
        },
        marital_status: if p.marital_status is Some {
            p.marital_status
        } else {
            m.marital_status
        },
        national_id: if p.national_id is Some {
            p.national_id
        } else {
            m.national_id
        },
        occupation: if p.occupation is Some {
            p.occupation
        } else {
            m.occupation
        },
        email: if p.email is Some {
            p.email
        } else {
            m.email
        },
        phone_number: if p.phone_number is Some {
            p.phone_number
        } else {
            m.phone_number
        },
        physical_address: if p.physical_address is Some {
            p.physical_address
        } else {
            m.physical_address
        },
        photo_url: if p.photo_url is Some {
            p.photo_url
        } else {
            m.photo_url
        },
        notes: if p.notes is Some {
            p.notes
        } else {
            m.notes
        },
        is_active: if p.is_active is Some {
            p.is_active
        } else {
            m.is_active
        },
        updated_at: Some(now),
        ..m
    }
}

/// Applies a patch to a stored member.
pub fn apply_member_patch(m: Member, p: UpdateMemberRequest, now: i64) -> (r: Member)
    ensures
        r == member_patched(m, p, now),
{
    Member {
        family_id: if p.family_id.is_some() {
            p.family_id
        } else {
            m.family_id
        },
        scc_id: if p.scc_id.is_some() {
            p.scc_id
        } else {
            m.scc_id
        },
        family_role: if p.family_role.is_some() {
            p.family_role
        } else {
            m.family_role
        },
        first_name: match p.first_name {
            Some(v) => v,
            None => m.first_name,
        },
        middle_name: if p.middle_name.is_some() {
            p.middle_name
        } else {
            m.middle_name
        },
        last_name: match p.last_name {
            Some(v) => v,
            None => m.last_name,
        },
        date_of_birth: if p.date_of_birth.is_some() {
            p.date_of_birth
        } else {
            m.date_of_birth
        },
        gender: if p.gender.is_some() {
            p.gender
        } else {
            m.gender
        },
        marital_status: if p.marital_status.is_some() {
            p.marital_status
        } else {
            m.marital_status
        },
        national_id: if p.national_id.is_some() {
            p.national_id
        } else {
            m.national_id
        },
        occupation: if p.occupation.is_some() {
            p.occupation
        } else {
            m.occupation
        },
        email: if p.email.is_some() {
            p.email
        } else {
            m.email
        },
        phone_number: if p.phone_number.is_some() {
            p.phone_number
        } else {
            m.phone_number
        },
        physical_address: if p.physical_address.is_some() {
            p.physical_address
        } else {
            m.physical_address
        },
        photo_url: if p.photo_url.is_some() {
            p.photo_url
        } else {
            m.photo_url
        },
        notes: if p.notes.is_some() {
            p.notes
        } else {
            m.notes
        },
        is_active: if p.is_active.is_some() {
            p.is_active
        } else {
            m.is_active
        },
        updated_at: Some(now),
        id: m.id,
        parish_id: m.parish_id,
        member_code: m.member_code,
        created_at: m.created_at,
    }
}

/// One sacrament record. The soft-delete tombstone lives in the table,
/// not here.
pub struct SacramentRecord {
    pub id: u128,
    pub member_id: u128,
    pub sacrament_type: SacramentType,
    /// Epoch day number.
    pub sacrament_date: i64,
    pub officiating_minister: Option<String>,
    pub parish_id: u128,
    pub church_name: Option<String>,
    pub certificate_number: Option<String>,
    pub godparent_1_name: Option<String>,
    pub godparent_2_name: Option<String>,
    pub spouse_id: Option<u128>,
    pub spouse_name: Option<String>,
    pub witnesses: Option<String>,
    pub notes: Option<String>,
    pub created_at: Option<i64>,
    pub updated_at: Option<i64>,
}

impl Keyed for SacramentRecord {
    open spec fn key_spec(&self) -> u128 {
        self.id
    }

    fn key(&self) -> (k: u128) {
        self.id
    }
}

impl SyncEntity for SacramentRecord {
    /// Sacrament records carry no sync mark: an accepted client insert is
    /// stored as sent.
    open spec fn received_spec(self, now: i64) -> Self {
        self
    }

    /// Every mutable column comes from the client copy; only the creation
    /// stamp stays.
    open spec fn merged_spec(self, existing: Self, now: i64) -> Self {
        SacramentRecord { created_at: existing.created_at, ..self }
    }

    proof fn lemma_key_preserved(self, existing: Self, now: i64) {
    }

    proof fn lemma_merged_absorbs(self, other: Self, existing: Self, now1: i64, now2: i64) {
    }
}

impl SacramentRecord {
    pub fn received(self, now: i64) -> (r: Self)
        ensures
            r == self.received_spec(now),
    {
        self
    }

    pub fn merged(self, existing: &Self, now: i64) -> (r: Self)
        ensures
            r == self.merged_spec(*existing, now),
    {
        SacramentRecord { created_at: existing.created_at, ..self }
    }
}


/// Whether scope resolution would accept this caller for this parish:
/// a SuperAdmin targets any parish, everyone else only their own.
pub open spec fn scope_allows(auth: AuthUser, parish_id: u128) -> bool {
    auth.role == UserRole::SuperAdmin || auth.parish_id == Some(parish_id)
}

/// Creates a member: the caller must be write-capable and scoped to the
/// member's parish, and the id must be fresh (the store's key constraint).
pub fn create_member(table: &mut Table<Member>, auth: &AuthUser, member: Member) -> (r: Result<
    (),
    ApiError,
>)
    requires
        old(table).wf(),
    ensures
        final(table).wf(),
        r matches Ok(()) <==> (auth.role.is_write_capable() && scope_allows(*auth, member.parish_id)
            && !old(table).has_key(member.id)),
        r matches Ok(()) ==> final(table).model() == old(table).model().insert_new(member),
        r matches Err(_) ==> final(table).model() == old(table).model(),
        !auth.role.is_write_capable() ==> r matches Err(ApiError::Forbidden(_)),
        auth.role.is_write_capable() && !scope_allows(*auth, member.parish_id) ==> (r matches Err(e)
            && (e matches ApiError::Forbidden(_) || e matches ApiError::BadRequest(_))),
        auth.role.is_write_capable() && scope_allows(*auth, member.parish_id) && old(table).has_key(member.id) ==> r matches Err(ApiError::Internal(_)),
{
    match require_write(auth) {
        Err(e) => {
            return Err(e);
        },
        Ok(()) => {},
    }
    match resolve_parish_id(auth, Some(member.parish_id)) {
        Err(e) => {
            return Err(e);
        },
        Ok(_) => {},
    }
    match table.find_index(member.key()) {
        Some(_) => Err(ApiError::Internal(String::from_str("member id already exists"))),
        None => {
            table.push_row(member);
            Ok(())
        },
    }
}

/// Reads one live member; a missing or soft-deleted id is not found.
pub fn get_member(table: &Table<Member>, id: u128) -> (r: Result<&Member, ApiError>)
    requires
        table.wf(),
    ensures
        match r {
            Ok(m) => table.live(id) && *m == table.row_of(id),
            Err(e) => !table.live(id) && (e matches ApiError::NotFound(m) && m@
                == "Member not found"@),
        },
{
    match table.get_live(id) {
        Some(m) => Ok(m),
        None => Err(ApiError::NotFound(String::from_str("Member not found"))),
    }
}

/// Patches one live member in place: the caller must be write-capable,
/// and a missing or soft-deleted id is not found.
pub fn update_member(
    table: &mut Table<Member>,
    auth: &AuthUser,
    id: u128,
    payload: UpdateMemberRequest,
    now: i64,
) -> (r: Result<(), ApiError>)
    requires
        old(table).wf(),
    ensures
        final(table).wf(),
        !auth.role.is_write_capable() ==> (r matches Err(ApiError::Forbidden(_)) && final(table).model() == old(table).model()),
        auth.role.is_write_capable() && !old(table).live(id) ==> (r matches Err(
            ApiError::NotFound(m),
        ) && m@ == "Member not found"@ && final(table).model() == old(table).model()),
        auth.role.is_write_capable() && old(table).live(id) ==> (r matches Ok(()) && final(table).model() == old(table).model().overwrite(
            old(table).index_of(id),
            member_patched(old(table).row_of(id), payload, now),
        )),
{
    match require_write(auth) {
        Err(e) => {
            return Err(e);
        },
        Ok(()) => {},
    }
    match table.find_index(id) {
        Some(i) => {
            if table.tomb_at(i).is_some() {
                return Err(ApiError::NotFound(String::from_str("Member not found")));
            }
            let existing = table.row_at(i).clone();
            let patched = apply_member_patch(existing, payload, now);
            table.set_row(i, patched);
            Ok(())
        },
        None => Err(ApiError::NotFound(String::from_str("Member not found"))),
    }
}

/// Soft-deletes one live member; deleting a missing or already deleted id
/// is not found. No role gate stands here.
pub fn delete_member(table: &mut Table<Member>, id: u128, now: i64) -> (r: Result<(), ApiError>)
    requires
        old(table).wf(),
    ensures
        final(table).wf(),
        !old(table).live(id) ==> (r matches Err(ApiError::NotFound(m)) && m@
            == "Member not found or already deleted"@ && final(table).model() == old(table).model()),
        old(table).live(id) ==> (r matches Ok(()) && final(table).model() == old(table).model().delete_at(old(table).index_of(id), now)),
{
    match table.find_index(id) {
        Some(i) => {
            if table.tomb_at(i).is_some() {
                return Err(
                    ApiError::NotFound(String::from_str("Member not found or already deleted")),
                );
            }
            table.set_deleted(i, now);
            Ok(())
        },
        None => Err(ApiError::NotFound(String::from_str("Member not found or already deleted"))),
    }
}

} // verus!
