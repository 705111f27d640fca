//! Clusters of small Christian communities, with the patch rule of their
//! direct updates.

use vstd::prelude::*;
use vstd::string::StringExecFns;

use crate::auth::AuthUser;
use crate::errors::ApiError;
use crate::rbac::require_write;
use crate::store::Keyed;
use crate::store::Table;

verus! {

/// One cluster. The soft-delete tombstone lives in the table, not here.
pub struct Cluster {
    pub id: u128,
    pub parish_id: u128,
    pub cluster_code: String,
    pub cluster_name: String,
    pub location_description: Option<String>,
    pub leader_name: Option<String>,
    pub is_active: Option<bool>,
    pub created_at: Option<i64>,
    pub updated_at: Option<i64>,
}

impl Keyed for Cluster {
    open spec fn key_spec(&self) -> u128 {
        self.id
    }

    fn key(&self) -> (k: u128) {
        self.id
    }
}

impl Clone for Cluster {
    fn clone(&self) -> (r: Self)
        ensures
            r == *self,
    {
        Cluster {
            id: self.id,
            parish_id: self.parish_id,
            cluster_code: self.cluster_code.clone(),
            cluster_name: self.cluster_name.clone(),
            location_description: match &self.location_description {
                Some(s) => Some(s.clone()),
                None => None,
            },
            leader_name: match &self.leader_name {
                Some(s) => Some(s.clone()),
                None => None,
            },
            is_active: self.is_active,
            created_at: self.created_at,
            updated_at: self.updated_at,
        }
    }
}

/// A direct cluster update: every field optional, present-if-changed.
pub struct UpdateClusterRequest {
    pub cluster_name: Option<String>,
    pub location_description: Option<String>,
    pub leader_name: Option<String>,
    pub is_active: Option<bool>,
}

/// The cluster after a patch: a pure function of the stored row and the
/// request. Identity, parish, code and creation stamp are untouched; the
/// update stamp is the server's.
pub open spec fn cluster_patched(c: Cluster, p: UpdateClusterRequest, now: i64) -> Cluster {
    Cluster {
        cluster_name: match p.cluster_name {
            Some(v) => v,
            None => c.cluster_name,
        },
        location_description: if p.location_description is Some {
            p.location_description
        } else {
            c.location_description
        },
        leader_name: if p.leader_name is Some {
            p.leader_name
        } else {
            c.leader_name
        },
        is_active: if p.is_active is Some {
            p.is_active
        } else {
            c.is_active
        },
        updated_at: Some(now),
        ..c
    }
}

/// Applies a patch to a stored cluster.
pub fn apply_cluster_patch(c: Cluster, p: UpdateClusterRequest, now: i64) -> (r: Cluster)
    ensures
        r == cluster_patched(c, p, now),
{
    Cluster {
        cluster_name: match p.cluster_name {
            Some(v) => v,
            None => c.cluster_name,
        },
        location_description: if p.location_description.is_some() {
            p.location_description
        } else {
            c.location_description
        },
        leader_name: if p.leader_name.is_some() {
            p.leader_name
        } else {
            c.leader_name
        },
        is_active: if p.is_active.is_some() {
            p.is_active
        } else {
            c.is_active
        },
        updated_at: Some(now),
        id: c.id,
        parish_id: c.parish_id,
        cluster_code: c.cluster_code,
        created_at: c.created_at,
    }
}

/// Patches one live cluster in place: the caller must be write-capable,
/// and a missing or soft-deleted id is not found.
pub fn update_cluster(
    table: &mut Table<Cluster>,
    auth: &AuthUser,
    id: u128,
    payload: UpdateClusterRequest,
    now: i64,
) -> (r: Result<(), ApiError>)
    requires
        old(table).wf(),
    ensures
        final(table).wf(),
        !auth.role.is_write_capable() ==> (r matches Err(ApiError::Forbidden(_)) && final(table).model() == old(table).model()),
        auth.role.is_write_capable() && !old(table).live(id) ==> (r matches Err(
            ApiError::NotFound(m),
        ) && m@ == "Cluster not found"@ && final(table).model() == old(table).model()),
        auth.role.is_write_capable() && old(table).live(id) ==> (r matches Ok(()) && final(table).model() == old(table).model().overwrite(
            old(table).index_of(id),
            cluster_patched(old(table).row_of(id), payload, now),
        )),
{
    match require_write(auth) {
        Err(e) => {
            return Err(e);
        },
        Ok(()) => {},
    }
    match table.find_index(id) {
        Some(i) => {
            if table.tomb_at(i).is_some() {
                return Err(ApiError::NotFound(String::from_str("Cluster not found")));
            }
            let existing = table.row_at(i).clone();
            let patched = apply_cluster_patch(existing, payload, now);
            table.set_row(i, patched);
            Ok(())
        },
        None => Err(ApiError::NotFound(String::from_str("Cluster not found"))),
    }
}

/// Soft-deletes one live cluster after the write gate; deleting a missing
/// or already deleted id is not found.
pub fn delete_cluster(table: &mut Table<Cluster>, auth: &AuthUser, id: u128, now: i64) -> (r:
    Result<(), ApiError>)
    requires
        old(table).wf(),
    ensures
        final(table).wf(),
        !auth.role.is_write_capable() ==> (r matches Err(ApiError::Forbidden(_)) && final(table).model() == old(table).model()),
        auth.role.is_write_capable() && !old(table).live(id) ==> (r matches Err(
            ApiError::NotFound(m),
        ) && m@ == "Cluster not found or already deleted"@ && final(table).model() == old(table).model()),
        auth.role.is_write_capable() && old(table).live(id) ==> (r matches Ok(()) && final(table).model() == old(table).model().delete_at(old(table).index_of(id), now)),
{
    match require_write(auth) {
        Err(e) => {
            return Err(e);
        },
        Ok(()) => {},
    }
    match table.find_index(id) {
        Some(i) => {
            if table.tomb_at(i).is_some() {
                return Err(
                    ApiError::NotFound(String::from_str("Cluster not found or already deleted")),
                );
            }
            table.set_deleted(i, now);
            Ok(())
        },
        None => Err(ApiError::NotFound(String::from_str("Cluster not found or already deleted"))),
    }
}

} // verus!
