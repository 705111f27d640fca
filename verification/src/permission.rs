//! The permission overlay: a static permission catalog, custom roles with
//! their permission sets, and per-user time-boxed overrides layered on
//! top. Effective permissions are the role's set union the active,
//! unexpired overrides; revocation deactivates an override but keeps the
//! row for audit.

use vstd::prelude::*;
use vstd::multiset::Multiset;
use vstd::string::StringExecFns;

use crate::auth::AuthUser;
use crate::errors::ApiError;
use crate::rbac::require_admin;
use crate::text::str_eq;

verus! {

/// One entry of the static permission catalog.
pub struct Permission {
    pub id: u128,
    pub permission_key: String,
    pub permission_group: String,
    pub display_name: String,
    pub description: Option<String>,
    pub created_at: i64,
}

impl Clone for Permission {
    fn clone(&self) -> (r: Self)
        ensures
            r == *self,
    {
        Permission {
            id: self.id,
            permission_key: self.permission_key.clone(),
            permission_group: self.permission_group.clone(),
            display_name: self.display_name.clone(),
            description: match &self.description {
                Some(d) => Some(d.clone()),
                None => None,
            },
            created_at: self.created_at,
        }
    }
}

/// One role. System roles cannot be deleted and their name never changes.
pub struct CustomRole {
    pub id: u128,
    pub role_name: String,
    pub display_name: String,
    pub description: Option<String>,
    pub is_system: bool,
    pub created_at: i64,
    pub updated_at: i64,
}

impl Clone for CustomRole {
    fn clone(&self) -> (r: Self)
        ensures
            r == *self,
    {
        CustomRole {
            id: self.id,
            role_name: self.role_name.clone(),
            display_name: self.display_name.clone(),
            description: match &self.description {
                Some(d) => Some(d.clone()),
                None => None,
            },
            is_system: self.is_system,
            created_at: self.created_at,
            updated_at: self.updated_at,
        }
    }
}

/// One (role, permission) join record; the pair is unique.
#[derive(Clone, Copy, Debug, PartialEq, Eq, Structural)]
pub struct RolePermission {
    pub role_id: u128,
    pub permission_id: u128,
}

/// One per-user override row. At most one row exists per
/// (user, permission) pair: a repeated grant updates it in place, and a
/// revocation merely deactivates it, preserving the audit trail.
pub struct UserPermissionOverride {
    pub id: u128,
    pub user_id: u128,
    pub permission_id: u128,
    pub granted_by: u128,
    pub reason: Option<String>,
    pub expires_at: Option<i64>,
    pub is_active: bool,
    pub created_at: i64,
}

impl Clone for UserPermissionOverride {
    fn clone(&self) -> (r: Self)
        ensures
            r == *self,
    {
        UserPermissionOverride {
            id: self.id,
            user_id: self.user_id,
            permission_id: self.permission_id,
            granted_by: self.granted_by,
            reason: match &self.reason {
                Some(d) => Some(d.clone()),
                None => None,
            },
            expires_at: self.expires_at,
            is_active: self.is_active,
            created_at: self.created_at,
        }
    }
}

/// Filter for listing the permission catalog.
pub struct PermissionQuery {
    pub group: Option<String>,
}

/// A role update touches display metadata only: never the name, never the
/// system flag.
pub struct UpdateRoleRequest {
    pub display_name: Option<String>,
    pub description: Option<String>,
}

// --- Spec-level helpers over the stored sequences ---

pub open spec fn perm_ids_unique(ps: Seq<Permission>) -> bool {
    forall|i: int, j: int|
        0 <= i < ps.len() && 0 <= j < ps.len() && i != j ==> #[trigger] ps[i].id != #[trigger] ps[j].id
}

pub open spec fn perm_keys_unique(ps: Seq<Permission>) -> bool {
    forall|i: int, j: int|
        0 <= i < ps.len() && 0 <= j < ps.len() && i != j ==> #[trigger] ps[i].permission_key@
            != #[trigger] ps[j].permission_key@
}

pub open spec fn perm_key_taken(ps: Seq<Permission>, key: Seq<char>) -> bool {
    exists|i: int| 0 <= i < ps.len() && #[trigger] ps[i].permission_key@ == key
}

pub open spec fn role_ids_unique(rs: Seq<CustomRole>) -> bool {
    forall|i: int, j: int|
        0 <= i < rs.len() && 0 <= j < rs.len() && i != j ==> #[trigger] rs[i].id != #[trigger] rs[j].id
}

pub open spec fn role_names_unique(rs: Seq<CustomRole>) -> bool {
    forall|i: int, j: int|
        0 <= i < rs.len() && 0 <= j < rs.len() && i != j ==> #[trigger] rs[i].role_name@
            != #[trigger] rs[j].role_name@
}

pub open spec fn role_name_taken(rs: Seq<CustomRole>, name: Seq<char>) -> bool {
    exists|i: int| 0 <= i < rs.len() && #[trigger] rs[i].role_name@ == name
}

pub open spec fn role_present(rs: Seq<CustomRole>, id: u128) -> bool {
    exists|i: int| 0 <= i < rs.len() && #[trigger] rs[i].id == id
}

pub open spec fn role_index(rs: Seq<CustomRole>, id: u128) -> int {
    choose|i: int| 0 <= i < rs.len() && #[trigger] rs[i].id == id
}

pub open spec fn pairs_unique(pp: Seq<RolePermission>) -> bool {
    forall|i: int, j: int|
        0 <= i < pp.len() && 0 <= j < pp.len() && i != j ==> !(#[trigger] pp[i].role_id
            == #[trigger] pp[j].role_id && pp[i].permission_id == pp[j].permission_id)
}

pub open spec fn pair_present(pp: Seq<RolePermission>, role_id: u128, pid: u128) -> bool {
    exists|i: int|
        0 <= i < pp.len() && #[trigger] pp[i].role_id == role_id && #[trigger] pp[i].permission_id
            == pid
}

pub open spec fn ov_ids_unique(os: Seq<UserPermissionOverride>) -> bool {
    forall|i: int, j: int|
        0 <= i < os.len() && 0 <= j < os.len() && i != j ==> #[trigger] os[i].id != #[trigger] os[j].id
}

pub open spec fn ov_pairs_unique(os: Seq<UserPermissionOverride>) -> bool {
    forall|i: int, j: int|
        0 <= i < os.len() && 0 <= j < os.len() && i != j ==> !(#[trigger] os[i].user_id
            == #[trigger] os[j].user_id && os[i].permission_id == os[j].permission_id)
}

pub open spec fn ov_pair_present(os: Seq<UserPermissionOverride>, user_id: u128, pid: u128) -> bool {
    exists|i: int|
        0 <= i < os.len() && #[trigger] os[i].user_id == user_id && #[trigger] os[i].permission_id
            == pid
}

pub open spec fn ov_pair_index(os: Seq<UserPermissionOverride>, user_id: u128, pid: u128) -> int {
    choose|i: int|
        0 <= i < os.len() && #[trigger] os[i].user_id == user_id && #[trigger] os[i].permission_id
            == pid
}

pub open spec fn perm_ids_below(ps: Seq<Permission>, bound: u128) -> bool {
    forall|i: int| 0 <= i < ps.len() ==> #[trigger] ps[i].id < bound
}

pub open spec fn role_ids_below(rs: Seq<CustomRole>, bound: u128) -> bool {
    forall|i: int| 0 <= i < rs.len() ==> #[trigger] rs[i].id < bound
}

pub open spec fn ov_ids_below(os: Seq<UserPermissionOverride>, bound: u128) -> bool {
    forall|i: int| 0 <= i < os.len() ==> #[trigger] os[i].id < bound
}

/// Whether a catalog entry passes the listing filter.
pub open spec fn perm_matches(p: Permission, group: Option<String>) -> bool {
    match group {
        Some(g) => p.permission_group@ == g@,
        None => true,
    }
}

/// The pairs after the reconciler of `set_role_permissions` and
/// `create_role` has inserted one role's ids in order, skipping one
/// already present (the upsert's conflict rule).
pub open spec fn pairs_with_inserted(
    pp: Seq<RolePermission>,
    role_id: u128,
    pids: Seq<u128>,
) -> Seq<RolePermission>
    decreases pids.len(),
{
    if pids.len() == 0 {
        pp
    } else {
        let prev = pairs_with_inserted(pp, role_id, pids.drop_last());
        if pair_present(prev, role_id, pids.last()) {
            prev
        } else {
            prev.push(RolePermission { role_id, permission_id: pids.last() })
        }
    }
}

/// The store of the overlay: the catalog, the roles, the role-permission
/// join and the override rows, plus the id counter standing for the
/// store's id generator.
pub struct PermissionStore {
    permissions: Vec<Permission>,
    roles: Vec<CustomRole>,
    role_permissions: Vec<RolePermission>,
    overrides: Vec<UserPermissionOverride>,
    next_id: u128,
}

impl PermissionStore {
    pub closed spec fn perms(&self) -> Seq<Permission> {
        self.permissions@
    }

    pub closed spec fn roles_seq(&self) -> Seq<CustomRole> {
        self.roles@
    }

    pub closed spec fn pairs(&self) -> Seq<RolePermission> {
        self.role_permissions@
    }

    pub closed spec fn ovs(&self) -> Seq<UserPermissionOverride> {
        self.overrides@
    }

    pub closed spec fn next_id_spec(&self) -> u128 {
        self.next_id
    }

    /// Well-formed: ids and unique columns are unique, at most one override
    /// row per (user, permission) pair, and every id is below the counter.
    pub open spec fn wf(&self) -> bool {
        &&& perm_ids_unique(self.perms())
        &&& perm_keys_unique(self.perms())
        &&& perm_ids_below(self.perms(), self.next_id_spec())
        &&& role_ids_unique(self.roles_seq())
        &&& role_names_unique(self.roles_seq())
        &&& role_ids_below(self.roles_seq(), self.next_id_spec())
        &&& pairs_unique(self.pairs())
        &&& ov_ids_unique(self.ovs())
        &&& ov_pairs_unique(self.ovs())
        &&& ov_ids_below(self.ovs(), self.next_id_spec())
    }

    pub fn new() -> (s: PermissionStore)
        ensures
            s.wf(),
            s.perms() == Seq::<Permission>::empty(),
            s.roles_seq() == Seq::<CustomRole>::empty(),
            s.pairs() == Seq::<RolePermission>::empty(),
            s.ovs() == Seq::<UserPermissionOverride>::empty(),
            s.next_id_spec() == 0,
    {
        PermissionStore {
            permissions: Vec::new(),
            roles: Vec::new(),
            role_permissions: Vec::new(),
            overrides: Vec::new(),
            next_id: 0,
        }
    }

    /// Seeds one catalog entry. The catalog is read-only for the overlay's
    /// users; keys are unique.
    pub fn add_permission(
        &mut self,
        permission_key: String,
        permission_group: String,
        display_name: String,
        description: Option<String>,
        now: i64,
    ) -> (r: Result<u128, ApiError>)
        requires
            old(self).wf(),
        ensures
            final(self).wf(),
            final(self).roles_seq() == old(self).roles_seq(),
            final(self).pairs() == old(self).pairs(),
            final(self).ovs() == old(self).ovs(),
            match r {
                Ok(id) => !perm_key_taken(old(self).perms(), permission_key@) && old(self).next_id_spec() < u128::MAX && id == old(self).next_id_spec() && final(self).perms()
                    == old(self).perms().push(
                    Permission {
                        id,
                        permission_key,
                        permission_group,
                        display_name,
                        description,
                        created_at: now,
                    },
                ) && final(self).next_id_spec() == old(self).next_id_spec() + 1,
                Err(e) => (perm_key_taken(old(self).perms(), permission_key@) || old(self).next_id_spec() == u128::MAX) && (e matches ApiError::Internal(_)) && final(self).perms() == old(self).perms() && final(self).next_id_spec() == old(self).next_id_spec(),
            },
    {
        let n = self.permissions.len();
        let mut i: usize = 0;
        while i < n
            invariant
                *self == *old(self),
                self.wf(),
                n == self.perms().len(),
                0 <= i <= n,
                forall|j: int| 0 <= j < i ==> #[trigger] self.perms()[j].permission_key@
                    != permission_key@,
            decreases n - i,
        {
            if str_eq(self.permissions[i].permission_key.as_str(), permission_key.as_str()) {
                return Err(ApiError::Internal(String::from_str("permission key already exists")));
            }
            i += 1;
        }
        if self.next_id == u128::MAX {
            return Err(ApiError::Internal(String::from_str("id space exhausted")));
        }
        let id = self.next_id;
        self.next_id = self.next_id + 1;
        self.permissions.push(
            Permission {
                id,
                permission_key,
                permission_group,
                display_name,
                description,
                created_at: now,
            },
        );
        Ok(id)
    }

    /// Lists the catalog, optionally restricted to one group, in catalog
    /// order.
    pub fn list_permissions(&self, query: &PermissionQuery) -> (r: Vec<Permission>)
        ensures
            r@ == self.perms().filter(|p: Permission| perm_matches(p, query.group)),
    {
        let pred = Ghost(|p: Permission| perm_matches(p, query.group));
        let n = self.permissions.len();
        let mut out: Vec<Permission> = Vec::new();
        proof {
            reveal(Seq::filter);
            assert(self.perms().take(0).filter(pred@) =~= Seq::<Permission>::empty());
        }
        let mut i: usize = 0;
        while i < n
            invariant
                n == self.perms().len(),
                0 <= i <= n,
                pred@ == (|p: Permission| perm_matches(p, query.group)),
                out@ == self.perms().take(i as int).filter(pred@),
            decreases n - i,
        {
            let keep = match &query.group {
                Some(g) => str_eq(self.permissions[i].permission_group.as_str(), g.as_str()),
                None => true,
            };
            if keep {
                out.push(self.permissions[i].clone());
            }
            proof {
                reveal(Seq::filter);
                assert(self.perms().take(i + 1).drop_last() =~= self.perms().take(i as int));
                assert(self.perms().take(i + 1).last() == self.perms()[i as int]);
            }
            i += 1;
        }
        proof {
            assert(self.perms().take(n as int) =~= self.perms());
        }
        out
    }

    /// Creates a role. A created role is never a system role, whatever the
    /// caller intends; the given permissions are attached as its set.
    pub fn create_role(
        &mut self,
        admin: &AuthUser,
        role_name: String,
        display_name: String,
        description: Option<String>,
        permission_ids: &Vec<u128>,
        now: i64,
    ) -> (r: Result<u128, ApiError>)
        requires
            old(self).wf(),
        ensures
            final(self).wf(),
            final(self).perms() == old(self).perms(),
            final(self).ovs() == old(self).ovs(),
            !admin.role.is_admin_capable() ==> (r matches Err(ApiError::Forbidden(_)) && *final(self) == *old(self)),
            admin.role.is_admin_capable() && role_name_taken(old(self).roles_seq(), role_name@)
                ==> (r matches Err(ApiError::Internal(_)) && *final(self) == *old(self)),
            admin.role.is_admin_capable() && !role_name_taken(old(self).roles_seq(), role_name@)
                && old(self).next_id_spec() < u128::MAX ==> r is Ok,
            match r {
                Ok(id) => {
                    &&& admin.role.is_admin_capable()
                    &&& !role_name_taken(old(self).roles_seq(), role_name@)
                    &&& id == old(self).next_id_spec()
                    &&& final(self).roles_seq() == old(self).roles_seq().push(
                        CustomRole {
                            id,
                            role_name,
                            display_name,
                            description,
                            is_system: false,
                            created_at: now,
                            updated_at: now,
                        },
                    )
                    &&& final(self).pairs() == pairs_with_inserted(
                        old(self).pairs(),
                        id,
                        permission_ids@,
                    )
                    &&& final(self).next_id_spec() == old(self).next_id_spec() + 1
                },
                Err(_) => final(self).roles_seq() == old(self).roles_seq() && final(self).pairs()
                    == old(self).pairs() && final(self).next_id_spec() == old(self).next_id_spec(),
            },
    {
        match require_admin(admin) {
            Err(e) => {
                return Err(e);
            },
            Ok(()) => {},
        }
        let n = self.roles.len();
        let mut i: usize = 0;
        while i < n
            invariant
                *self == *old(self),
                self.wf(),
                admin.role.is_admin_capable(),
                n == self.roles_seq().len(),
                0 <= i <= n,
                forall|j: int| 0 <= j < i ==> #[trigger] self.roles_seq()[j].role_name@
                    != role_name@,
            decreases n - i,
        {
            if str_eq(self.roles[i].role_name.as_str(), role_name.as_str()) {
                return Err(ApiError::Internal(String::from_str("role name already exists")));
            }
            i += 1;
        }
        if self.next_id == u128::MAX {
            return Err(ApiError::Internal(String::from_str("id space exhausted")));
        }
        let id = self.next_id;
        self.next_id = self.next_id + 1;
        self.roles.push(
            CustomRole {
                id,
                role_name,
                display_name,
                description,
                is_system: false,
                created_at: now,
                updated_at: now,
            },
        );
        self.insert_role_pairs(id, permission_ids);
        Ok(id)
    }

    /// Seeds one system role, as the store's provisioning does before any
    /// caller exists. System roles are immutable: no name change, no
    /// deletion.
    pub fn seed_system_role(&mut self, role_name: String, display_name: String, now: i64) -> (r:
        Result<u128, ApiError>)
        requires
            old(self).wf(),
        ensures
            final(self).wf(),
            final(self).perms() == old(self).perms(),
            final(self).pairs() == old(self).pairs(),
            final(self).ovs() == old(self).ovs(),
            match r {
                Ok(id) => {
                    &&& !role_name_taken(old(self).roles_seq(), role_name@)
                    &&& id == old(self).next_id_spec()
                    &&& final(self).roles_seq() == old(self).roles_seq().push(
                        CustomRole {
                            id,
                            role_name,
                            display_name,
                            description: None,
                            is_system: true,
                            created_at: now,
                            updated_at: now,
                        },
                    )
                    &&& final(self).next_id_spec() == old(self).next_id_spec() + 1
                },
                Err(e) => (role_name_taken(old(self).roles_seq(), role_name@) || old(self).next_id_spec() == u128::MAX) && (e matches ApiError::Internal(_)) && final(self).roles_seq() == old(self).roles_seq() && final(self).next_id_spec() == old(self).next_id_spec(),
            },
    {
        let n = self.roles.len();
        let mut i: usize = 0;
        while i < n
            invariant
                *self == *old(self),
                self.wf(),
                n == self.roles_seq().len(),
                0 <= i <= n,
                forall|j: int| 0 <= j < i ==> #[trigger] self.roles_seq()[j].role_name@
                    != role_name@,
            decreases n - i,
        {
            if str_eq(self.roles[i].role_name.as_str(), role_name.as_str()) {
                return Err(ApiError::Internal(String::from_str("role name already exists")));
            }
            i += 1;
        }
        if self.next_id == u128::MAX {
            return Err(ApiError::Internal(String::from_str("id space exhausted")));
        }
        let id = self.next_id;
        self.next_id = self.next_id + 1;
        self.roles.push(
            CustomRole {
                id,
                role_name,
                display_name,
                description: None,
                is_system: true,
                created_at: now,
                updated_at: now,
            },
        );
        Ok(id)
    }

    /// Attaches permissions to a role, skipping pairs already present.
    fn insert_role_pairs(&mut self, role_id: u128, permission_ids: &Vec<u128>)
        requires
            old(self).wf(),
        ensures
            final(self).wf(),
            final(self).perms() == old(self).perms(),
            final(self).roles_seq() == old(self).roles_seq(),
            final(self).ovs() == old(self).ovs(),
            final(self).next_id_spec() == old(self).next_id_spec(),
            final(self).pairs() == pairs_with_inserted(old(self).pairs(), role_id, permission_ids@),
    {
        let n = permission_ids.len();
        proof {
            assert(permission_ids@.take(0) =~= Seq::<u128>::empty());
        }
        let mut j: usize = 0;
        while j < n
            invariant
                self.wf(),
                n == permission_ids@.len(),
                0 <= j <= n,
                self.perms() == old(self).perms(),
                self.roles_seq() == old(self).roles_seq(),
                self.ovs() == old(self).ovs(),
                self.next_id_spec() == old(self).next_id_spec(),
                self.pairs() == pairs_with_inserted(
                    old(self).pairs(),
                    role_id,
                    permission_ids@.take(j as int),
                ),
            decreases n - j,
        {
            let pid = permission_ids[j];
            let present = self.find_pair(role_id, pid);
            if !present {
                proof {
                    let pp = self.pairs();
                    assert forall|a: int, b: int|
                        0 <= a < pp.len() + 1 && 0 <= b < pp.len() + 1 && a != b implies !(
                    #[trigger] pp.push(RolePermission { role_id, permission_id: pid })[a].role_id
                        == #[trigger] pp.push(
                        RolePermission { role_id, permission_id: pid },
                    )[b].role_id && pp.push(
                        RolePermission { role_id, permission_id: pid },
                    )[a].permission_id == pp.push(
                        RolePermission { role_id, permission_id: pid },
                    )[b].permission_id) by {
                        let newp = pp.push(RolePermission { role_id, permission_id: pid });
                        if a < pp.len() && b < pp.len() {
                            assert(newp[a] == pp[a] && newp[b] == pp[b]);
                        } else if a == pp.len() {
                            assert(newp[b] == pp[b]);
                            assert(!pair_present(pp, role_id, pid));
                        } else {
                            assert(newp[a] == pp[a]);
                            assert(!pair_present(pp, role_id, pid));
                        }
                    }
                }
                self.role_permissions.push(RolePermission { role_id, permission_id: pid });
            }
            proof {
                assert(permission_ids@.take(j + 1).drop_last() =~= permission_ids@.take(j as int));
                assert(permission_ids@.take(j + 1).last() == permission_ids@[j as int]);
            }
            j += 1;
        }
        proof {
            assert(permission_ids@.take(n as int) =~= permission_ids@);
        }
    }

    /// Whether the (role, permission) pair is attached.
    pub fn find_pair(&self, role_id: u128, pid: u128) -> (r: bool)
        ensures
            r == pair_present(self.pairs(), role_id, pid),
    {
        let n = self.role_permissions.len();
        let mut i: usize = 0;
        while i < n
            invariant
                n == self.pairs().len(),
                0 <= i <= n,
                forall|j: int| 0 <= j < i ==> !(#[trigger] self.pairs()[j].role_id == role_id
                    && self.pairs()[j].permission_id == pid),
            decreases n - i,
        {
            let p = self.role_permissions[i];
            if p.role_id == role_id && p.permission_id == pid {
                return true;
            }
            i += 1;
        }
        false
    }

    /// Finds the position of a role by id.
    fn find_role(&self, role_id: u128) -> (r: Option<usize>)
        requires
            self.wf(),
        ensures
            match r {
                Some(i) => role_present(self.roles_seq(), role_id) && i < self.roles_seq().len()
                    && role_index(self.roles_seq(), role_id) == i,
                None => !role_present(self.roles_seq(), role_id),
            },
    {
        let n = self.roles.len();
        let mut i: usize = 0;
        while i < n
            invariant
                self.wf(),
                n == self.roles_seq().len(),
                0 <= i <= n,
                forall|j: int| 0 <= j < i ==> #[trigger] self.roles_seq()[j].id != role_id,
            decreases n - i,
        {
            if self.roles[i].id == role_id {
                proof {
                    assert(role_present(self.roles_seq(), role_id));
                    let k = role_index(self.roles_seq(), role_id);
                    if k != i {
                        assert(self.roles_seq()[k].id != self.roles_seq()[i as int].id);
                    }
                }
                return Some(i);
            }
            i += 1;
        }
        None
    }

    /// Returns a copy of a role.
    pub fn get_role(&self, role_id: u128) -> (r: Result<CustomRole, ApiError>)
        requires
            self.wf(),
        ensures
            match r {
                Ok(role) => role_present(self.roles_seq(), role_id) && role == self.roles_seq()[
                    role_index(self.roles_seq(), role_id)
                ],
                Err(e) => !role_present(self.roles_seq(), role_id) && (e matches ApiError::NotFound(
                    m,
                ) && m@ == "Role not found"@),
            },
    {
        match self.find_role(role_id) {
            Some(i) => Ok(self.roles[i].clone()),
            None => Err(ApiError::NotFound(String::from_str("Role not found"))),
        }
    }

    /// Updates a role's display metadata. The role's name and its system
    /// flag are never touched.
    pub fn update_role(
        &mut self,
        admin: &AuthUser,
        role_id: u128,
        payload: UpdateRoleRequest,
        now: i64,
    ) -> (r: Result<CustomRole, ApiError>)
        requires
            old(self).wf(),
        ensures
            final(self).wf(),
            final(self).perms() == old(self).perms(),
            final(self).pairs() == old(self).pairs(),
            final(self).ovs() == old(self).ovs(),
            final(self).next_id_spec() == old(self).next_id_spec(),
            !admin.role.is_admin_capable() ==> (r matches Err(ApiError::Forbidden(_)) && *final(self) == *old(self)),
            admin.role.is_admin_capable() && !role_present(old(self).roles_seq(), role_id) ==> (
            r matches Err(ApiError::NotFound(m)) && m@ == "Role not found"@ && *final(self)
                == *old(self)),
            admin.role.is_admin_capable() && role_present(old(self).roles_seq(), role_id)
                ==> r is Ok,
            match r {
                Ok(role) => {
                    &&& admin.role.is_admin_capable()
                    &&& role_present(old(self).roles_seq(), role_id)
                    &&& ({
                        let i = role_index(old(self).roles_seq(), role_id);
                        let before = old(self).roles_seq()[i];
                        let after = CustomRole {
                            display_name: match payload.display_name {
                                Some(d) => d,
                                None => before.display_name,
                            },
                            description: match payload.description {
                                Some(d) => Some(d),
                                None => before.description,
                            },
                            updated_at: now,
                            ..before
                        };
                        &&& role == after
                        &&& final(self).roles_seq() == old(self).roles_seq().update(i, after)
                    })
                },
                Err(_) => final(self).roles_seq() == old(self).roles_seq(),
            },
    {
        match require_admin(admin) {
            Err(e) => {
                return Err(e);
            },
            Ok(()) => {},
        }
        let i = match self.find_role(role_id) {
            Some(i) => i,
            None => {
                return Err(ApiError::NotFound(String::from_str("Role not found")));
            },
        };
        let before = self.roles[i].clone();
        let display_name = match payload.display_name {
            Some(d) => d,
            None => before.display_name,
        };
        let description = match payload.description {
            Some(d) => Some(d),
            None => before.description,
        };
        let after = CustomRole {
            id: before.id,
            role_name: before.role_name,
            display_name,
            description,
            is_system: before.is_system,
            created_at: before.created_at,
            updated_at: now,
        };
        let out = after.clone();
        proof {
            let rs = old(self).roles_seq();
            let upd = rs.update(i as int, after);
            assert forall|a: int, b: int|
                0 <= a < upd.len() && 0 <= b < upd.len() && a != b implies #[trigger] upd[a].id
                != #[trigger] upd[b].id by {
                assert(upd[a].id == rs[a].id && upd[b].id == rs[b].id);
            }
            assert forall|a: int, b: int|
                0 <= a < upd.len() && 0 <= b < upd.len() && a != b implies #[trigger] upd[a].role_name@
                != #[trigger] upd[b].role_name@ by {
                assert(upd[a].role_name@ == rs[a].role_name@ && upd[b].role_name@
                    == rs[b].role_name@);
            }
            assert forall|a: int| 0 <= a < upd.len() implies #[trigger] upd[a].id < old(self).next_id_spec() by {
                assert(upd[a].id == rs[a].id);
            }
        }
        self.roles.set(i, after);
        Ok(out)
    }

    /// Deletes a role and its permission pairs. System roles cannot be
    /// deleted; the delete is physical, the one hard delete of the domain.
    pub fn delete_role(&mut self, admin: &AuthUser, role_id: u128) -> (r: Result<(), ApiError>)
        requires
            old(self).wf(),
        ensures
            final(self).wf(),
            final(self).perms() == old(self).perms(),
            final(self).ovs() == old(self).ovs(),
            final(self).next_id_spec() == old(self).next_id_spec(),
            !admin.role.is_admin_capable() ==> (r matches Err(ApiError::Forbidden(_)) && *final(self) == *old(self)),
            admin.role.is_admin_capable() && !role_present(old(self).roles_seq(), role_id) ==> (
            r matches Err(ApiError::NotFound(m)) && m@ == "Role not found"@ && *final(self)
                == *old(self)),
            admin.role.is_admin_capable() && role_present(old(self).roles_seq(), role_id) && old(self).roles_seq()[role_index(old(self).roles_seq(), role_id)].is_system ==> (
            r matches Err(ApiError::Forbidden(m)) && m@ == "Cannot delete system roles"@ && *final(self) == *old(self)),
            admin.role.is_admin_capable() && role_present(old(self).roles_seq(), role_id) && !old(
                self,
            ).roles_seq()[role_index(old(self).roles_seq(), role_id)].is_system ==> r is Ok,
            r matches Ok(()) ==> {
                &&& admin.role.is_admin_capable()
                &&& role_present(old(self).roles_seq(), role_id)
                &&& !old(self).roles_seq()[role_index(old(self).roles_seq(), role_id)].is_system
                &&& final(self).roles_seq() == old(self).roles_seq().remove(
                    role_index(old(self).roles_seq(), role_id),
                )
                &&& final(self).pairs() == old(self).pairs().filter(
                    |p: RolePermission| p.role_id != role_id,
                )
            },
    {
        match require_admin(admin) {
            Err(e) => {
                return Err(e);
            },
            Ok(()) => {},
        }
        let i = match self.find_role(role_id) {
            Some(i) => i,
            None => {
                return Err(ApiError::NotFound(String::from_str("Role not found")));
            },
        };
        if self.roles[i].is_system {
            return Err(ApiError::Forbidden(String::from_str("Cannot delete system roles")));
        }
        self.roles.remove(i);
        proof {
            let rs = old(self).roles_seq();
            let rem = rs.remove(i as int);
            assert forall|a: int, b: int|
                0 <= a < rem.len() && 0 <= b < rem.len() && a != b implies #[trigger] rem[a].id
                != #[trigger] rem[b].id by {
                let a0: int = if a < i { a } else { a + 1 };
                let b0: int = if b < i { b } else { b + 1 };
                assert(rem[a] == rs[a0] && rem[b] == rs[b0]);
            }
            assert forall|a: int, b: int|
                0 <= a < rem.len() && 0 <= b < rem.len() && a != b implies #[trigger] rem[a].role_name@
                != #[trigger] rem[b].role_name@ by {
                let a0: int = if a < i { a } else { a + 1 };
                let b0: int = if b < i { b } else { b + 1 };
                assert(rem[a] == rs[a0] && rem[b] == rs[b0]);
            }
            assert forall|a: int| 0 <= a < rem.len() implies #[trigger] rem[a].id < old(self).next_id_spec() by {
                let a0: int = if a < i { a } else { a + 1 };
                assert(rem[a] == rs[a0]);
            }
        }
        self.remove_role_pairs(role_id);
        Ok(())
    }

    /// Drops every pair of one role.
    fn remove_role_pairs(&mut self, role_id: u128)
        requires
            old(self).wf(),
        ensures
            final(self).wf(),
            final(self).perms() == old(self).perms(),
            final(self).roles_seq() == old(self).roles_seq(),
            final(self).ovs() == old(self).ovs(),
            final(self).next_id_spec() == old(self).next_id_spec(),
            final(self).pairs() == old(self).pairs().filter(
                |p: RolePermission| p.role_id != role_id,
            ),
    {
        let pred = Ghost(|p: RolePermission| p.role_id != role_id);
        let n = self.role_permissions.len();
        let mut out: Vec<RolePermission> = Vec::new();
        proof {
            reveal(Seq::filter);
            assert(self.pairs().take(0).filter(pred@) =~= Seq::<RolePermission>::empty());
        }
        let mut i: usize = 0;
        while i < n
            invariant
                n == self.pairs().len(),
                0 <= i <= n,
                pred@ == (|p: RolePermission| p.role_id != role_id),
                out@ == self.pairs().take(i as int).filter(pred@),
            decreases n - i,
        {
            let p = self.role_permissions[i];
            if !(p.role_id == role_id) {
                out.push(p);
            }
            proof {
                reveal(Seq::filter);
                assert(self.pairs().take(i + 1).drop_last() =~= self.pairs().take(i as int));
                assert(self.pairs().take(i + 1).last() == self.pairs()[i as int]);
            }
            i += 1;
        }
        proof {
            assert(self.pairs().take(n as int) =~= self.pairs());
            lemma_filter_pairs_unique(self.pairs(), pred@);
        }
        self.role_permissions = out;
    }

    /// Replaces a role's whole permission set: every existing pair of the
    /// role is dropped, then the given ids are attached. Returns the
    /// resulting permission ids of the role, in table order.
    pub fn set_role_permissions(
        &mut self,
        admin: &AuthUser,
        role_id: u128,
        permission_ids: &Vec<u128>,
    ) -> (r: Result<Vec<u128>, ApiError>)
        requires
            old(self).wf(),
        ensures
            final(self).wf(),
            final(self).perms() == old(self).perms(),
            final(self).roles_seq() == old(self).roles_seq(),
            final(self).ovs() == old(self).ovs(),
            final(self).next_id_spec() == old(self).next_id_spec(),
            !admin.role.is_admin_capable() ==> (r matches Err(ApiError::Forbidden(_)) && *final(self) == *old(self)),
            admin.role.is_admin_capable() ==> r is Ok,
            match r {
                Ok(out) => {
                    &&& admin.role.is_admin_capable()
                    &&& final(self).pairs() == pairs_with_inserted(
                        old(self).pairs().filter(|p: RolePermission| p.role_id != role_id),
                        role_id,
                        permission_ids@,
                    )
                    &&& out@ == role_pair_ids(final(self).pairs(), role_id)
                },
                Err(_) => final(self).pairs() == old(self).pairs(),
            },
    {
        match require_admin(admin) {
            Err(e) => {
                return Err(e);
            },
            Ok(()) => {},
        }
        self.remove_role_pairs(role_id);
        self.insert_role_pairs(role_id, permission_ids);
        Ok(self.role_permission_ids(role_id))
    }

    /// The permission ids attached to a role, in table order.
    pub fn role_permission_ids(&self, role_id: u128) -> (r: Vec<u128>)
        ensures
            r@ == role_pair_ids(self.pairs(), role_id),
    {
        let n = self.role_permissions.len();
        let mut out: Vec<u128> = Vec::new();
        proof {
            reveal(Seq::filter);
            assert(self.pairs().take(0).filter(|p: RolePermission| p.role_id == role_id)
                =~= Seq::<RolePermission>::empty());
            assert(out@ =~= self.pairs().take(0).filter(
                |p: RolePermission| p.role_id == role_id,
            ).map_values(|p: RolePermission| p.permission_id));
        }
        let mut i: usize = 0;
        while i < n
            invariant
                n == self.pairs().len(),
                0 <= i <= n,
                out@ == self.pairs().take(i as int).filter(
                    |p: RolePermission| p.role_id == role_id,
                ).map_values(|p: RolePermission| p.permission_id),
            decreases n - i,
        {
            let p = self.role_permissions[i];
            if p.role_id == role_id {
                out.push(p.permission_id);
            }
            proof {
                reveal(Seq::filter);
                assert(self.pairs().take(i + 1).drop_last() =~= self.pairs().take(i as int));
                assert(self.pairs().take(i + 1).last() == self.pairs()[i as int]);
                let pred = |p: RolePermission| p.role_id == role_id;
                let f = |p: RolePermission| p.permission_id;
                let prev = self.pairs().take(i as int).filter(pred);
                let cur = self.pairs().take(i + 1).filter(pred);
                if pred(self.pairs()[i as int]) {
                    assert(cur == prev.push(self.pairs()[i as int]));
                    assert(cur.map_values(f) =~= prev.map_values(f).push(
                        self.pairs()[i as int].permission_id,
                    ));
                } else {
                    assert(cur == prev);
                }
            }
            i += 1;
        }
        proof {
            assert(self.pairs().take(n as int) =~= self.pairs());
        }
        out
    }
}

/// One listing row of the override review: an override joined with its
/// permission's catalog key and display name.
pub struct UserOverrideInfo {
    pub id: u128,
    pub user_id: u128,
    pub permission_key: String,
    pub permission_display_name: String,
    pub granted_by: u128,
    pub reason: Option<String>,
    pub expires_at: Option<i64>,
    pub is_active: bool,
    pub created_at: i64,
}

/// The listing row of one override, joined with its catalog entry.
pub open spec fn joined_info(ps: Seq<Permission>, o: UserPermissionOverride) -> UserOverrideInfo {
    UserOverrideInfo {
        id: o.id,
        user_id: o.user_id,
        permission_key: ps[perm_index_of(ps, o.permission_id)].permission_key,
        permission_display_name: ps[perm_index_of(ps, o.permission_id)].display_name,
        granted_by: o.granted_by,
        reason: o.reason,
        expires_at: o.expires_at,
        is_active: o.is_active,
        created_at: o.created_at,
    }
}

/// Listing rows ordered by creation time, newest first.
pub open spec fn sorted_by_created_desc(s: Seq<UserOverrideInfo>) -> bool {
    forall|i: int, j: int| 0 <= i < j < s.len() ==> s[i].created_at >= s[j].created_at
}

/// One override row as `grant` leaves it when the pair already exists:
/// grantor, reason and expiry are overwritten and the row is reactivated,
/// while its identity and creation stamp stay.
pub open spec fn grant_one_spec(
    os: Seq<UserPermissionOverride>,
    next_id: u128,
    user_id: u128,
    pid: u128,
    granted_by: u128,
    reason: Option<String>,
    expires_at: Option<i64>,
    now: i64,
) -> (Seq<UserPermissionOverride>, u128) {
    if ov_pair_present(os, user_id, pid) {
        let i = ov_pair_index(os, user_id, pid);
        (
            os.update(
                i,
                UserPermissionOverride { granted_by, reason, expires_at, is_active: true, ..os[i] },
            ),
            next_id,
        )
    } else if next_id == u128::MAX {
        (os, next_id)
    } else {
        (
            os.push(
                UserPermissionOverride {
                    id: next_id,
                    user_id,
                    permission_id: pid,
                    granted_by,
                    reason,
                    expires_at,
                    is_active: true,
                    created_at: now,
                },
            ),
            (next_id + 1) as u128,
        )
    }
}

/// The override rows and the id counter after granting a list of
/// permissions in order, each an upsert on its (user, permission) pair.
pub open spec fn grant_fold_spec(
    os: Seq<UserPermissionOverride>,
    next_id: u128,
    user_id: u128,
    pids: Seq<u128>,
    granted_by: u128,
    reason: Option<String>,
    expires_at: Option<i64>,
    now: i64,
) -> (Seq<UserPermissionOverride>, u128)
    decreases pids.len(),
{
    if pids.len() == 0 {
        (os, next_id)
    } else {
        let prev = grant_fold_spec(
            os,
            next_id,
            user_id,
            pids.drop_last(),
            granted_by,
            reason,
            expires_at,
            now,
        );
        grant_one_spec(prev.0, prev.1, user_id, pids.last(), granted_by, reason, expires_at, now)
    }
}

/// The override rows after a bulk revocation: every row of the user whose
/// permission is in the list is deactivated in place; nothing is removed.
pub open spec fn revoke_marked(
    os: Seq<UserPermissionOverride>,
    user_id: u128,
    pids: Seq<u128>,
) -> Seq<UserPermissionOverride> {
    os.map_values(
        |o: UserPermissionOverride|
            if o.user_id == user_id && pids.contains(o.permission_id) {
                UserPermissionOverride { is_active: false, ..o }
            } else {
                o
            },
    )
}

/// The override rows after revoking one row by its own id.
pub open spec fn revoke_one_marked(
    os: Seq<UserPermissionOverride>,
    override_id: u128,
) -> Seq<UserPermissionOverride> {
    os.map_values(
        |o: UserPermissionOverride|
            if o.id == override_id {
                UserPermissionOverride { is_active: false, ..o }
            } else {
                o
            },
    )
}

/// An override row that currently gives its user its permission: active
/// and not expired.
pub open spec fn ov_effective(o: UserPermissionOverride, user_id: u128, now: i64) -> bool {
    o.user_id == user_id && o.is_active && (match o.expires_at {
        Some(e) => e > now,
        None => true,
    })
}

/// The user holds this permission through an override right now.
pub open spec fn override_active(
    os: Seq<UserPermissionOverride>,
    user_id: u128,
    pid: u128,
    now: i64,
) -> bool {
    exists|i: int|
        0 <= i < os.len() && ov_effective(#[trigger] os[i], user_id, now) && os[i].permission_id
            == pid
}

/// Whether a row passes the override listing filter.
pub open spec fn ov_listed(
    o: UserPermissionOverride,
    user_id: u128,
    active_only: bool,
    now: i64,
) -> bool {
    o.user_id == user_id && (active_only ==> (o.is_active && (match o.expires_at {
        Some(e) => e > now,
        None => true,
    })))
}

impl PermissionStore {
    /// Finds the position of the override row of a (user, permission) pair.
    fn find_override_pair(&self, user_id: u128, pid: u128) -> (r: Option<usize>)
        requires
            self.wf(),
        ensures
            match r {
                Some(i) => ov_pair_present(self.ovs(), user_id, pid) && i < self.ovs().len()
                    && ov_pair_index(self.ovs(), user_id, pid) == i,
                None => !ov_pair_present(self.ovs(), user_id, pid),
            },
    {
        let n = self.overrides.len();
        let mut i: usize = 0;
        while i < n
            invariant
                self.wf(),
                n == self.ovs().len(),
                0 <= i <= n,
                forall|j: int| 0 <= j < i ==> !(#[trigger] self.ovs()[j].user_id == user_id
                    && self.ovs()[j].permission_id == pid),
            decreases n - i,
        {
            if self.overrides[i].user_id == user_id && self.overrides[i].permission_id == pid {
                proof {
                    assert(ov_pair_present(self.ovs(), user_id, pid));
                    let k = ov_pair_index(self.ovs(), user_id, pid);
                    if k != i {
                        assert(!(self.ovs()[k].user_id == self.ovs()[i as int].user_id
                            && self.ovs()[k].permission_id == self.ovs()[i as int].permission_id));
                    }
                }
                return Some(i);
            }
            i += 1;
        }
        None
    }

    /// Grants overrides to a user: one upsert per permission id, keyed by
    /// the (user, permission) pair. A repeated grant refreshes grantor,
    /// reason and expiry and reactivates the row rather than erroring; the
    /// grantor is always recorded.
    pub fn grant_user_overrides(
        &mut self,
        admin: &AuthUser,
        user_id: u128,
        permission_ids: &Vec<u128>,
        reason: Option<String>,
        expires_at: Option<i64>,
        now: i64,
    ) -> (r: Result<(), ApiError>)
        requires
            old(self).wf(),
        ensures
            final(self).wf(),
            final(self).perms() == old(self).perms(),
            final(self).roles_seq() == old(self).roles_seq(),
            final(self).pairs() == old(self).pairs(),
            !admin.role.is_admin_capable() ==> (r matches Err(ApiError::Forbidden(_)) && *final(self)
                == *old(self)),
            admin.role.is_admin_capable() && old(self).next_id_spec() <= u128::MAX
                - permission_ids@.len() ==> r is Ok,
            match r {
                Ok(()) => {
                    &&& admin.role.is_admin_capable()
                    &&& ({
                        let folded = grant_fold_spec(
                            old(self).ovs(),
                            old(self).next_id_spec(),
                            user_id,
                            permission_ids@,
                            admin.user_id,
                            reason,
                            expires_at,
                            now,
                        );
                        final(self).ovs() == folded.0 && final(self).next_id_spec() == folded.1
                    })
                },
                Err(_) => final(self).ovs() == old(self).ovs() && final(self).next_id_spec() == old(self).next_id_spec(),
            },
    {
        match require_admin(admin) {
            Err(e) => {
                return Err(e);
            },
            Ok(()) => {},
        }
        let n = permission_ids.len();
        if self.next_id > u128::MAX - (n as u128) {
            return Err(ApiError::Internal(String::from_str("id space exhausted")));
        }
        let ghost init_ovs = self.ovs();
        let ghost init_nid = self.next_id_spec();
        proof {
            assert(permission_ids@.take(0) =~= Seq::<u128>::empty());
        }
        let mut j: usize = 0;
        while j < n
            invariant
                self.wf(),
                n == permission_ids@.len(),
                0 <= j <= n,
                self.perms() == old(self).perms(),
                self.roles_seq() == old(self).roles_seq(),
                self.pairs() == old(self).pairs(),
                init_nid <= u128::MAX - (n as u128),
                self.next_id_spec() <= init_nid + j,
                ({
                    let folded = grant_fold_spec(
                        init_ovs,
                        init_nid,
                        user_id,
                        permission_ids@.take(j as int),
                        admin.user_id,
                        reason,
                        expires_at,
                        now,
                    );
                    self.ovs() == folded.0 && self.next_id_spec() == folded.1
                }),
            decreases n - j,
        {
            let pid = permission_ids[j];
            match self.find_override_pair(user_id, pid) {
                Some(i) => {
                    let row = UserPermissionOverride {
                        id: self.overrides[i].id,
                        user_id: self.overrides[i].user_id,
                        permission_id: self.overrides[i].permission_id,
                        granted_by: admin.user_id,
                        reason: clone_opt_string(&reason),
                        expires_at,
                        is_active: true,
                        created_at: self.overrides[i].created_at,
                    };
                    proof {
                        let os = self.ovs();
                        let upd = os.update(i as int, row);
                        assert forall|a: int, b: int|
                            0 <= a < upd.len() && 0 <= b < upd.len() && a != b implies #[trigger] upd[a].id
                            != #[trigger] upd[b].id by {
                            assert(upd[a].id == os[a].id && upd[b].id == os[b].id);
                        }
                        assert forall|a: int, b: int|
                            0 <= a < upd.len() && 0 <= b < upd.len() && a != b implies !(
                        #[trigger] upd[a].user_id == #[trigger] upd[b].user_id
                            && upd[a].permission_id == upd[b].permission_id) by {
                            assert(upd[a].user_id == os[a].user_id && upd[a].permission_id
                                == os[a].permission_id);
                            assert(upd[b].user_id == os[b].user_id && upd[b].permission_id
                                == os[b].permission_id);
                        }
                        assert forall|a: int| 0 <= a < upd.len() implies #[trigger] upd[a].id
                            < self.next_id_spec() by {
                            assert(upd[a].id == os[a].id);
                        }
                    }
                    self.overrides.set(i, row);
                },
                None => {
                    let row = UserPermissionOverride {
                        id: self.next_id,
                        user_id,
                        permission_id: pid,
                        granted_by: admin.user_id,
                        reason: clone_opt_string(&reason),
                        expires_at,
                        is_active: true,
                        created_at: now,
                    };
                    proof {
                        let os = self.ovs();
                        let pushed = os.push(row);
                        assert forall|a: int, b: int|
                            0 <= a < pushed.len() && 0 <= b < pushed.len() && a != b implies (
                        #[trigger] pushed[a].id != #[trigger] pushed[b].id && !(pushed[a].user_id
                            == pushed[b].user_id && pushed[a].permission_id
                            == pushed[b].permission_id)) by {
                            if a < os.len() && b < os.len() {
                                assert(pushed[a] == os[a] && pushed[b] == os[b]);
                            } else if a == os.len() {
                                assert(pushed[b] == os[b]);
                                assert(os[b].id < self.next_id_spec());
                                assert(!ov_pair_present(os, user_id, pid));
                            } else {
                                assert(pushed[a] == os[a]);
                                assert(os[a].id < self.next_id_spec());
                                assert(!ov_pair_present(os, user_id, pid));
                            }
                        }
                    }
                    self.next_id = self.next_id + 1;
                    self.overrides.push(row);
                },
            }
            proof {
                assert(permission_ids@.take(j + 1).drop_last() =~= permission_ids@.take(j as int));
                assert(permission_ids@.take(j + 1).last() == permission_ids@[j as int]);
            }
            j += 1;
        }
        proof {
            assert(permission_ids@.take(n as int) =~= permission_ids@);
        }
        Ok(())
    }

    /// Deactivates the overrides of a user for the given permissions; a
    /// pair with no row is silently skipped, and no row is removed.
    pub fn revoke_user_overrides(
        &mut self,
        admin: &AuthUser,
        user_id: u128,
        permission_ids: &Vec<u128>,
    ) -> (r: Result<(), ApiError>)
        requires
            old(self).wf(),
        ensures
            final(self).wf(),
            final(self).perms() == old(self).perms(),
            final(self).roles_seq() == old(self).roles_seq(),
            final(self).pairs() == old(self).pairs(),
            final(self).next_id_spec() == old(self).next_id_spec(),
            !admin.role.is_admin_capable() ==> (r matches Err(ApiError::Forbidden(_)) && *final(self)
                == *old(self)),
            admin.role.is_admin_capable() ==> r is Ok,
            match r {
                Ok(()) => admin.role.is_admin_capable() && final(self).ovs() == revoke_marked(
                    old(self).ovs(),
                    user_id,
                    permission_ids@,
                ),
                Err(_) => final(self).ovs() == old(self).ovs(),
            },
    {
        match require_admin(admin) {
            Err(e) => {
                return Err(e);
            },
            Ok(()) => {},
        }
        let ghost init_ovs = self.ovs();
        let ghost f = |o: UserPermissionOverride|
            if o.user_id == user_id && permission_ids@.contains(o.permission_id) {
                UserPermissionOverride { is_active: false, ..o }
            } else {
                o
            };
        let n = self.overrides.len();
        let mut i: usize = 0;
        while i < n
            invariant
                self.wf(),
                n == self.ovs().len(),
                n == init_ovs.len(),
                0 <= i <= n,
                self.perms() == old(self).perms(),
                self.roles_seq() == old(self).roles_seq(),
                self.pairs() == old(self).pairs(),
                self.next_id_spec() == old(self).next_id_spec(),
                f == (|o: UserPermissionOverride|
                    if o.user_id == user_id && permission_ids@.contains(o.permission_id) {
                        UserPermissionOverride { is_active: false, ..o }
                    } else {
                        o
                    }),
                forall|k: int| 0 <= k < i ==> #[trigger] self.ovs()[k] == f(init_ovs[k]),
                forall|k: int| i <= k < n ==> #[trigger] self.ovs()[k] == init_ovs[k],
            decreases n - i,
        {
            let matches_user = self.overrides[i].user_id == user_id;
            let matches_pid = contains_id(permission_ids, self.overrides[i].permission_id);
            if matches_user && matches_pid {
                let row = UserPermissionOverride {
                    id: self.overrides[i].id,
                    user_id: self.overrides[i].user_id,
                    permission_id: self.overrides[i].permission_id,
                    granted_by: self.overrides[i].granted_by,
                    reason: clone_opt_string(&self.overrides[i].reason),
                    expires_at: self.overrides[i].expires_at,
                    is_active: false,
                    created_at: self.overrides[i].created_at,
                };
                proof {
                    let os = self.ovs();
                    let upd = os.update(i as int, row);
                    assert forall|a: int, b: int|
                        0 <= a < upd.len() && 0 <= b < upd.len() && a != b implies (#[trigger] upd[a].id
                        != #[trigger] upd[b].id && !(upd[a].user_id == upd[b].user_id
                        && upd[a].permission_id == upd[b].permission_id)) by {
                        assert(upd[a].id == os[a].id && upd[b].id == os[b].id);
                        assert(upd[a].user_id == os[a].user_id && upd[a].permission_id
                            == os[a].permission_id);
                        assert(upd[b].user_id == os[b].user_id && upd[b].permission_id
                            == os[b].permission_id);
                    }
                    assert forall|a: int| 0 <= a < upd.len() implies #[trigger] upd[a].id
                        < self.next_id_spec() by {
                        assert(upd[a].id == os[a].id);
                    }
                }
                self.overrides.set(i, row);
            }
            i += 1;
        }
        proof {
            assert(self.ovs() =~= revoke_marked(init_ovs, user_id, permission_ids@));
        }
        Ok(())
    }

    /// Deactivates one override row by its own id; unknown ids are a
    /// silent no-op, as the row may have been revoked already.
    pub fn revoke_single_override(&mut self, admin: &AuthUser, override_id: u128) -> (r: Result<
        (),
        ApiError,
    >)
        requires
            old(self).wf(),
        ensures
            final(self).wf(),
            final(self).perms() == old(self).perms(),
            final(self).roles_seq() == old(self).roles_seq(),
            final(self).pairs() == old(self).pairs(),
            final(self).next_id_spec() == old(self).next_id_spec(),
            !admin.role.is_admin_capable() ==> (r matches Err(ApiError::Forbidden(_)) && *final(self)
                == *old(self)),
            admin.role.is_admin_capable() ==> r is Ok,
            match r {
                Ok(()) => admin.role.is_admin_capable() && final(self).ovs() == revoke_one_marked(
                    old(self).ovs(),
                    override_id,
                ),
                Err(_) => final(self).ovs() == old(self).ovs(),
            },
    {
        match require_admin(admin) {
            Err(e) => {
                return Err(e);
            },
            Ok(()) => {},
        }
        let ghost init_ovs = self.ovs();
        let ghost f = |o: UserPermissionOverride|
            if o.id == override_id {
                UserPermissionOverride { is_active: false, ..o }
            } else {
                o
            };
        let n = self.overrides.len();
        let mut i: usize = 0;
        while i < n
            invariant
                self.wf(),
                n == self.ovs().len(),
                n == init_ovs.len(),
                0 <= i <= n,
                self.perms() == old(self).perms(),
                self.roles_seq() == old(self).roles_seq(),
                self.pairs() == old(self).pairs(),
                self.next_id_spec() == old(self).next_id_spec(),
                f == (|o: UserPermissionOverride|
                    if o.id == override_id {
                        UserPermissionOverride { is_active: false, ..o }
                    } else {
                        o
                    }),
                forall|k: int| 0 <= k < i ==> #[trigger] self.ovs()[k] == f(init_ovs[k]),
                forall|k: int| i <= k < n ==> #[trigger] self.ovs()[k] == init_ovs[k],
            decreases n - i,
        {
            if self.overrides[i].id == override_id {
                let row = UserPermissionOverride {
                    id: self.overrides[i].id,
                    user_id: self.overrides[i].user_id,
                    permission_id: self.overrides[i].permission_id,
                    granted_by: self.overrides[i].granted_by,
                    reason: clone_opt_string(&self.overrides[i].reason),
                    expires_at: self.overrides[i].expires_at,
                    is_active: false,
                    created_at: self.overrides[i].created_at,
                };
                proof {
                    let os = self.ovs();
                    let upd = os.update(i as int, row);
                    assert forall|a: int, b: int|
                        0 <= a < upd.len() && 0 <= b < upd.len() && a != b implies (#[trigger] upd[a].id
                        != #[trigger] upd[b].id && !(upd[a].user_id == upd[b].user_id
                        && upd[a].permission_id == upd[b].permission_id)) by {
                        assert(upd[a].id == os[a].id && upd[b].id == os[b].id);
                        assert(upd[a].user_id == os[a].user_id && upd[a].permission_id
                            == os[a].permission_id);
                        assert(upd[b].user_id == os[b].user_id && upd[b].permission_id
                            == os[b].permission_id);
                    }
                    assert forall|a: int| 0 <= a < upd.len() implies #[trigger] upd[a].id
                        < self.next_id_spec() by {
                        assert(upd[a].id == os[a].id);
                    }
                }
                self.overrides.set(i, row);
            }
            i += 1;
        }
        proof {
            assert(self.ovs() =~= revoke_one_marked(init_ovs, override_id));
        }
        Ok(())
    }

    /// Lists a user's override rows — all of them or only the currently
    /// active, unexpired ones — each joined with its permission's catalog
    /// key and display name, ordered by creation time, newest first. An
    /// override whose permission the catalog does not know joins nothing
    /// and is omitted.
    pub fn list_user_overrides(&self, user_id: u128, active_only: bool, now: i64) -> (r: Vec<
        UserOverrideInfo,
    >)
        requires
            self.wf(),
        ensures
            sorted_by_created_desc(r@),
            r@.to_multiset() == self.ovs().filter(
                |o: UserPermissionOverride|
                    ov_listed(o, user_id, active_only, now) && perm_with_id(
                        self.perms(),
                        o.permission_id,
                    ),
            ).map_values(|o: UserPermissionOverride| joined_info(self.perms(), o)).to_multiset(),
    {
        let pred = Ghost(
            |o: UserPermissionOverride|
                ov_listed(o, user_id, active_only, now) && perm_with_id(
                    self.perms(),
                    o.permission_id,
                ),
        );
        let f = Ghost(|o: UserPermissionOverride| joined_info(self.perms(), o));
        let n = self.overrides.len();
        let mut out: Vec<UserOverrideInfo> = Vec::new();
        proof {
            reveal(Seq::filter);
            assert(self.ovs().take(0).filter(pred@) =~= Seq::<UserPermissionOverride>::empty());
            assert(out@ =~= self.ovs().take(0).filter(pred@).map_values(f@));
        }
        let mut i: usize = 0;
        while i < n
            invariant
                self.wf(),
                n == self.ovs().len(),
                0 <= i <= n,
                pred@ == (|o: UserPermissionOverride|
                    ov_listed(o, user_id, active_only, now) && perm_with_id(
                        self.perms(),
                        o.permission_id,
                    )),
                f@ == (|o: UserPermissionOverride| joined_info(self.perms(), o)),
                out@ == self.ovs().take(i as int).filter(pred@).map_values(f@),
            decreases n - i,
        {
            let o = &self.overrides[i];
            let not_expired = match o.expires_at {
                Some(e) => e > now,
                None => true,
            };
            let listed = o.user_id == user_id && (!active_only || (o.is_active && not_expired));
            if listed {
                match self.find_perm_index(o.permission_id) {
                    Some(k) => {
                        let info = UserOverrideInfo {
                            id: o.id,
                            user_id: o.user_id,
                            permission_key: self.permissions[k].permission_key.clone(),
                            permission_display_name: self.permissions[k].display_name.clone(),
                            granted_by: o.granted_by,
                            reason: clone_opt_string(&o.reason),
                            expires_at: o.expires_at,
                            is_active: o.is_active,
                            created_at: o.created_at,
                        };
                        proof {
                            assert(info == joined_info(self.perms(), self.ovs()[i as int]));
                        }
                        out.push(info);
                    },
                    None => {},
                }
            }
            proof {
                reveal(Seq::filter);
                assert(self.ovs().take(i + 1).drop_last() =~= self.ovs().take(i as int));
                assert(self.ovs().take(i + 1).last() == self.ovs()[i as int]);
                let prev = self.ovs().take(i as int).filter(pred@);
                let cur = self.ovs().take(i + 1).filter(pred@);
                if pred@(self.ovs()[i as int]) {
                    assert(cur == prev.push(self.ovs()[i as int]));
                    assert(cur.map_values(f@) =~= prev.map_values(f@).push(
                        f@(self.ovs()[i as int]),
                    ));
                } else {
                    assert(cur == prev);
                }
            }
            i += 1;
        }
        proof {
            assert(self.ovs().take(n as int) =~= self.ovs());
        }
        sort_overrides_desc(out)
    }

    /// The user's effective permission ids right now: the role's set union
    /// the active, unexpired overrides, each id once.
    pub fn list_effective_permissions(&self, user_id: u128, role_id: u128, now: i64) -> (r: Vec<
        u128,
    >)
        ensures
            r@.no_duplicates(),
            forall|pid: u128| #[trigger] r@.contains(pid) <==> (pair_present(
                self.pairs(),
                role_id,
                pid,
            ) || override_active(self.ovs(), user_id, pid, now)),
    {
        let mut out: Vec<u128> = Vec::new();
        let n = self.role_permissions.len();
        let mut i: usize = 0;
        while i < n
            invariant
                n == self.pairs().len(),
                0 <= i <= n,
                out@.no_duplicates(),
                forall|pid: u128| #[trigger] out@.contains(pid) <==> exists|j: int|
                    0 <= j < i && #[trigger] self.pairs()[j].role_id == role_id
                        && self.pairs()[j].permission_id == pid,
            decreases n - i,
        {
            let p = self.role_permissions[i];
            if p.role_id == role_id && !contains_id(&out, p.permission_id) {
                proof {
                    lemma_push_contains(out@, p.permission_id);
                    lemma_push_no_duplicates(out@, p.permission_id);
                }
                out.push(p.permission_id);
            }
            proof {
                assert forall|pid: u128| #[trigger] out@.contains(pid) implies exists|j: int|
                    0 <= j < i + 1 && #[trigger] self.pairs()[j].role_id == role_id
                        && self.pairs()[j].permission_id == pid by {
                }
                assert forall|pid: u128|
                    (exists|j: int|
                        0 <= j < i + 1 && #[trigger] self.pairs()[j].role_id == role_id
                            && self.pairs()[j].permission_id == pid) implies #[trigger] out@.contains(
                    pid,
                ) by {
                    let j = choose|j: int|
                        0 <= j < i + 1 && #[trigger] self.pairs()[j].role_id == role_id
                            && self.pairs()[j].permission_id == pid;
                }
            }
            i += 1;
        }
        proof {
            assert forall|pid: u128| #[trigger] out@.contains(pid) implies pair_present(
                self.pairs(),
                role_id,
                pid,
            ) by {
            }
            assert forall|pid: u128| pair_present(self.pairs(), role_id, pid) implies #[trigger] out@.contains(
                pid,
            ) by {
            }
        }
        let m = self.overrides.len();
        let mut k: usize = 0;
        while k < m
            invariant
                m == self.ovs().len(),
                0 <= k <= m,
                out@.no_duplicates(),
                forall|pid: u128| #[trigger] out@.contains(pid) <==> (pair_present(
                    self.pairs(),
                    role_id,
                    pid,
                ) || exists|j: int|
                    0 <= j < k && ov_effective(#[trigger] self.ovs()[j], user_id, now)
                        && self.ovs()[j].permission_id == pid),
            decreases m - k,
        {
            let o = &self.overrides[k];
            let not_expired = match o.expires_at {
                Some(e) => e > now,
                None => true,
            };
            let effective = o.user_id == user_id && o.is_active && not_expired;
            let pid = o.permission_id;
            if effective && !contains_id(&out, pid) {
                proof {
                    lemma_push_contains(out@, pid);
                    lemma_push_no_duplicates(out@, pid);
                }
                out.push(pid);
            }
            proof {
                assert forall|q: u128| #[trigger] out@.contains(q) implies (pair_present(
                    self.pairs(),
                    role_id,
                    q,
                ) || exists|j: int|
                    0 <= j < k + 1 && ov_effective(#[trigger] self.ovs()[j], user_id, now)
                        && self.ovs()[j].permission_id == q) by {
                }
                assert forall|q: u128|
                    (pair_present(self.pairs(), role_id, q) || exists|j: int|
                        0 <= j < k + 1 && ov_effective(#[trigger] self.ovs()[j], user_id, now)
                            && self.ovs()[j].permission_id == q) implies #[trigger] out@.contains(
                    q,
                ) by {
                    if !pair_present(self.pairs(), role_id, q) {
                        let j = choose|j: int|
                            0 <= j < k + 1 && ov_effective(#[trigger] self.ovs()[j], user_id, now)
                                && self.ovs()[j].permission_id == q;
                    }
                }
            }
            k += 1;
        }
        out
    }
}

/// The views of a list of keys.
pub open spec fn key_views(keys: Seq<String>) -> Seq<Seq<char>> {
    keys.map_values(|s: String| s@)
}

pub open spec fn perm_with_id(ps: Seq<Permission>, pid: u128) -> bool {
    exists|i: int| 0 <= i < ps.len() && #[trigger] ps[i].id == pid
}

pub open spec fn perm_index_of(ps: Seq<Permission>, pid: u128) -> int {
    choose|i: int| 0 <= i < ps.len() && #[trigger] ps[i].id == pid
}

/// The catalog key of a permission id.
pub open spec fn perm_key_of(ps: Seq<Permission>, pid: u128) -> Seq<char> {
    ps[perm_index_of(ps, pid)].permission_key@
}

impl PermissionStore {
    /// Finds the catalog position of a permission id.
    fn find_perm_index(&self, pid: u128) -> (r: Option<usize>)
        requires
            self.wf(),
        ensures
            match r {
                Some(i) => perm_with_id(self.perms(), pid) && i < self.perms().len()
                    && perm_index_of(self.perms(), pid) == i,
                None => !perm_with_id(self.perms(), pid),
            },
    {
        let n = self.permissions.len();
        let mut i: usize = 0;
        while i < n
            invariant
                self.wf(),
                n == self.perms().len(),
                0 <= i <= n,
                forall|j: int| 0 <= j < i ==> #[trigger] self.perms()[j].id != pid,
            decreases n - i,
        {
            if self.permissions[i].id == pid {
                proof {
                    assert(perm_with_id(self.perms(), pid));
                    let k = perm_index_of(self.perms(), pid);
                    if k != i {
                        assert(self.perms()[k].id != self.perms()[i as int].id);
                    }
                }
                return Some(i);
            }
            i += 1;
        }
        None
    }

    /// The catalog key of a permission id, where the id is in the catalog.
    fn find_permission_key(&self, pid: u128) -> (r: Option<String>)
        requires
            self.wf(),
        ensures
            match r {
                Some(k) => perm_with_id(self.perms(), pid) && k@ == perm_key_of(self.perms(), pid),
                None => !perm_with_id(self.perms(), pid),
            },
    {
        match self.find_perm_index(pid) {
            Some(i) => Some(self.permissions[i].permission_key.clone()),
            None => None,
        }
    }

    /// The user's effective permissions as catalog keys: the keys of every
    /// effective permission id that the catalog knows, each once.
    pub fn effective_permission_keys(&self, user_id: u128, role_id: u128, now: i64) -> (r: Vec<
        String,
    >)
        requires
            self.wf(),
        ensures
            key_views(r@).no_duplicates(),
            forall|k: Seq<char>| #[trigger] key_views(r@).contains(k) <==> exists|
                pid: u128,
            |
                (pair_present(self.pairs(), role_id, pid) || override_active(
                    self.ovs(),
                    user_id,
                    pid,
                    now,
                )) && perm_with_id(self.perms(), pid) && #[trigger] perm_key_of(self.perms(), pid)
                    == k,
    {
        let ids = self.list_effective_permissions(user_id, role_id, now);
        let n = ids.len();
        let mut keys: Vec<String> = Vec::new();
        let mut i: usize = 0;
        while i < n
            invariant
                self.wf(),
                n == ids@.len(),
                0 <= i <= n,
                forall|pid: u128| #[trigger] ids@.contains(pid) <==> (pair_present(
                    self.pairs(),
                    role_id,
                    pid,
                ) || override_active(self.ovs(), user_id, pid, now)),
                key_views(keys@).no_duplicates(),
                forall|k: Seq<char>| #[trigger] key_views(keys@).contains(k) <==> exists|
                    j: int,
                |
                    0 <= j < i && perm_with_id(self.perms(), #[trigger] ids@[j]) && perm_key_of(
                        self.perms(),
                        ids@[j],
                    ) == k,
            decreases n - i,
        {
            match self.find_permission_key(ids[i]) {
                Some(k) => {
                    if !contains_key(&keys, k.as_str()) {
                        proof {
                            assert(key_views(keys@.push(k)) =~= key_views(keys@).push(k@));
                            lemma_push_seqchar_contains(key_views(keys@), k@);
                        }
                        keys.push(k);
                    } else {
                        proof {
                            assert(key_views(keys@).contains(k@));
                        }
                    }
                },
                None => {},
            }
            proof {
                assert forall|k: Seq<char>| #[trigger] key_views(keys@).contains(k)
                    implies exists|j: int|
                    0 <= j < i + 1 && perm_with_id(self.perms(), #[trigger] ids@[j]) && perm_key_of(
                        self.perms(),
                        ids@[j],
                    ) == k by {}
                assert forall|k: Seq<char>|
                    (exists|j: int|
                        0 <= j < i + 1 && perm_with_id(self.perms(), #[trigger] ids@[j])
                            && perm_key_of(self.perms(), ids@[j]) == k) implies #[trigger] key_views(keys@).contains(k) by {
                    let j = choose|j: int|
                        0 <= j < i + 1 && perm_with_id(self.perms(), #[trigger] ids@[j])
                            && perm_key_of(self.perms(), ids@[j]) == k;
                }
            }
            i += 1;
        }
        proof {
            assert forall|k: Seq<char>| #[trigger] key_views(keys@).contains(k)
                implies exists|pid: u128|
                (pair_present(self.pairs(), role_id, pid) || override_active(
                    self.ovs(),
                    user_id,
                    pid,
                    now,
                )) && perm_with_id(self.perms(), pid) && #[trigger] perm_key_of(self.perms(), pid)
                    == k by {
                let j = choose|j: int|
                    0 <= j < n && perm_with_id(self.perms(), #[trigger] ids@[j]) && perm_key_of(
                        self.perms(),
                        ids@[j],
                    ) == k;
                assert(ids@.contains(ids@[j]));
            }
            assert forall|k: Seq<char>|
                (exists|pid: u128|
                    (pair_present(self.pairs(), role_id, pid) || override_active(
                        self.ovs(),
                        user_id,
                        pid,
                        now,
                    )) && perm_with_id(self.perms(), pid) && #[trigger] perm_key_of(
                        self.perms(),
                        pid,
                    ) == k) implies #[trigger] key_views(keys@).contains(k) by {
                let pid = choose|pid: u128|
                    (pair_present(self.pairs(), role_id, pid) || override_active(
                        self.ovs(),
                        user_id,
                        pid,
                        now,
                    )) && perm_with_id(self.perms(), pid) && #[trigger] perm_key_of(
                        self.perms(),
                        pid,
                    ) == k;
                assert(ids@.contains(pid));
                let j = choose|j: int| 0 <= j < ids@.len() && ids@[j] == pid;
            }
        }
        keys
    }
}

/// Whether a key occurs in a list of keys.
fn contains_key(keys: &Vec<String>, k: &str) -> (r: bool)
    ensures
        r == key_views(keys@).contains(k@),
{
    let n = keys.len();
    let mut i: usize = 0;
    while i < n
        invariant
            n == keys@.len(),
            0 <= i <= n,
            forall|j: int| 0 <= j < i ==> #[trigger] keys@[j]@ != k@,
        decreases n - i,
    {
        if str_eq(keys[i].as_str(), k) {
            proof {
                assert(key_views(keys@)[i as int] == k@);
            }
            return true;
        }
        i += 1;
    }
    proof {
        assert forall|j: int| #![trigger keys@[j]] 0 <= j < n implies keys@.map_values(
            |s: String| s@,
        )[j] != k@ by {
            assert(key_views(keys@)[j] == keys@[j]@);
        }
        if key_views(keys@).contains(k@) {
            let j = choose|j: int|
                #![trigger keys@[j]]
                0 <= j < n && key_views(keys@)[j] == k@;
            assert(keys@[j]@ != k@);
            assert(key_views(keys@)[j] == keys@[j]@);
        }
    }
    false
}

/// Pushing an element onto a sequence of key views extends what it
/// contains by exactly that element, and keeps it duplicate-free where the
/// element is fresh.
proof fn lemma_push_seqchar_contains(s: Seq<Seq<char>>, x: Seq<char>)
    ensures
        forall|y: Seq<char>| #[trigger] s.push(x).contains(y) <==> (s.contains(y) || y == x),
        s.no_duplicates() && !s.contains(x) ==> s.push(x).no_duplicates(),
{
    assert forall|y: Seq<char>| #[trigger] s.push(x).contains(y) implies (s.contains(y) || y
        == x) by {
        let i = choose|i: int| 0 <= i < s.push(x).len() && s.push(x)[i] == y;
        if i < s.len() {
            assert(s[i] == y);
        }
    }
    assert forall|y: Seq<char>| (s.contains(y) || y == x) implies #[trigger] s.push(x).contains(
        y,
    ) by {
        if s.contains(y) {
            let i = choose|i: int| 0 <= i < s.len() && s[i] == y;
            assert(s.push(x)[i] == y);
        } else {
            assert(s.push(x)[s.len() as int] == y);
        }
    }
    if s.no_duplicates() && !s.contains(x) {
        let p = s.push(x);
        assert forall|a: int, b: int|
            0 <= a < p.len() && 0 <= b < p.len() && a != b implies p[a] != p[b] by {
            if a < s.len() && b < s.len() {
                assert(p[a] == s[a] && p[b] == s[b]);
            } else if a == s.len() {
                assert(p[b] == s[b]);
                if p[b] == x {
                    assert(s.contains(x));
                }
            } else {
                assert(p[a] == s[a]);
                if p[a] == x {
                    assert(s.contains(x));
                }
            }
        }
    }
}

/// Inserting an element anywhere adds exactly that element to the
/// sequence's multiset.
proof fn lemma_insert_multiset(s: Seq<UserOverrideInfo>, i: int, a: UserOverrideInfo)
    requires
        0 <= i <= s.len(),
    ensures
        s.insert(i, a).to_multiset() == s.to_multiset().insert(a),
{
    broadcast use vstd::seq_lib::group_to_multiset_ensures;

    let left = s.subrange(0, i);
    let right = s.subrange(i, s.len() as int);
    vstd::seq_lib::lemma_multiset_commutative(left.push(a), right);
    vstd::seq_lib::lemma_multiset_commutative(left, right);
    assert(s =~= left + right);
    assert(left.push(a).to_multiset() =~= left.to_multiset().insert(a));
    assert(s.insert(i, a).to_multiset() =~= s.to_multiset().insert(a));
}

/// Orders listing rows by creation time, newest first, inserting each row
/// at its place among those already ordered.
fn sort_overrides_desc(rows: Vec<UserOverrideInfo>) -> (r: Vec<UserOverrideInfo>)
    ensures
        sorted_by_created_desc(r@),
        r@.to_multiset() == rows@.to_multiset(),
{
    let ghost all = rows@;
    let mut rest = rows;
    let mut out: Vec<UserOverrideInfo> = Vec::new();
    proof {
        broadcast use vstd::seq_lib::group_to_multiset_ensures;

        assert(out@.to_multiset().add(rest@.to_multiset()) =~= all.to_multiset());
    }
    while rest.len() > 0
        invariant
            sorted_by_created_desc(out@),
            out@.to_multiset().add(rest@.to_multiset()) == all.to_multiset(),
        decreases rest@.len(),
    {
        let ghost rest0 = rest@;
        let x = rest.remove(0);
        proof {
            broadcast use vstd::seq_lib::group_to_multiset_ensures;

            assert(rest@.to_multiset() =~= rest0.to_multiset().remove(x));
            assert(rest0.contains(x));
        }
        let mut pos: usize = 0;
        while pos < out.len() && out[pos].created_at >= x.created_at
            invariant
                0 <= pos <= out@.len(),
                forall|k: int| 0 <= k < pos ==> out@[k].created_at >= x.created_at,
            decreases out@.len() - pos,
        {
            pos += 1;
        }
        let ghost before = out@;
        out.insert(pos, x);
        proof {
            broadcast use vstd::seq_lib::group_to_multiset_ensures;

            before.insert_ensures(pos as int, x);
            lemma_insert_multiset(before, pos as int, x);
            assert forall|a: int, b: int|
                0 <= a < b < out@.len() implies out@[a].created_at >= out@[b].created_at by {
                if b < pos {
                } else if a < pos && b == pos {
                } else if a < pos && pos < b {
                    assert(out@[b] == before[b - 1]);
                } else if a == pos {
                    assert(out@[b] == before[b - 1]);
                    assert(before[pos as int].created_at < x.created_at);
                } else {
                    assert(out@[a] == before[a - 1] && out@[b] == before[b - 1]);
                }
            }
            assert(out@.to_multiset().add(rest@.to_multiset()) =~= all.to_multiset());
        }
    }
    proof {
        broadcast use vstd::seq_lib::group_to_multiset_ensures;

        assert(rest@.to_multiset() =~= Multiset::<UserOverrideInfo>::empty());
        assert(out@.to_multiset().add(rest@.to_multiset()) =~= out@.to_multiset());
    }
    out
}

/// Clones an optional string, preserving its value.
fn clone_opt_string(o: &Option<String>) -> (r: Option<String>)
    ensures
        r == *o,
{
    match o {
        Some(s) => Some(s.clone()),
        None => None,
    }
}

/// Whether a plain id occurs in a list.
fn contains_id(ids: &Vec<u128>, x: u128) -> (r: bool)
    ensures
        r == ids@.contains(x),
{
    let n = ids.len();
    let mut i: usize = 0;
    while i < n
        invariant
            n == ids@.len(),
            0 <= i <= n,
            forall|j: int| 0 <= j < i ==> ids@[j] != x,
        decreases n - i,
    {
        if ids[i] == x {
            return true;
        }
        i += 1;
    }
    false
}

/// Pushing extends what a sequence contains by exactly the new element.
proof fn lemma_push_contains(s: Seq<u128>, x: u128)
    ensures
        forall|y: u128| #[trigger] s.push(x).contains(y) <==> (s.contains(y) || y == x),
{
    assert forall|y: u128| #[trigger] s.push(x).contains(y) implies (s.contains(y) || y == x) by {
        let i = choose|i: int| 0 <= i < s.push(x).len() && s.push(x)[i] == y;
        if i < s.len() {
            assert(s[i] == y);
        }
    }
    assert forall|y: u128| (s.contains(y) || y == x) implies #[trigger] s.push(x).contains(y) by {
        if s.contains(y) {
            let i = choose|i: int| 0 <= i < s.len() && s[i] == y;
            assert(s.push(x)[i] == y);
        } else {
            assert(s.push(x)[s.len() as int] == y);
        }
    }
}

/// Pushing a fresh element keeps a sequence duplicate-free.
proof fn lemma_push_no_duplicates(s: Seq<u128>, x: u128)
    requires
        s.no_duplicates(),
        !s.contains(x),
    ensures
        s.push(x).no_duplicates(),
{
    let p = s.push(x);
    assert forall|i: int, j: int|
        0 <= i < p.len() && 0 <= j < p.len() && i != j implies p[i] != p[j] by {
        if i < s.len() && j < s.len() {
            assert(p[i] == s[i] && p[j] == s[j]);
        } else if i == s.len() {
            assert(p[j] == s[j]);
            assert(!s.contains(x));
            if p[j] == x {
                assert(s.contains(x));
            }
        } else {
            assert(p[i] == s[i]);
            if p[i] == x {
                assert(s.contains(x));
            }
        }
    }
}

/// Law: granting a permission override and then revoking it leaves the
/// user's effective permissions exactly as before the grant, for any role
/// set, provided the permission was not already effective through an
/// override of its own (an already-active override would be deactivated,
/// not restored).
pub proof fn lemma_grant_then_revoke_neutral(
    os: Seq<UserPermissionOverride>,
    next_id: u128,
    user_id: u128,
    pid: u128,
    granted_by: u128,
    reason: Option<String>,
    expires_at: Option<i64>,
    grant_now: i64,
    query_now: i64,
    pp: Seq<RolePermission>,
    role_id: u128,
)
    requires
        ov_pairs_unique(os),
        !override_active(os, user_id, pid, query_now),
    ensures
        ({
            let granted = grant_one_spec(
                os,
                next_id,
                user_id,
                pid,
                granted_by,
                reason,
                expires_at,
                grant_now,
            ).0;
            let revoked = revoke_marked(granted, user_id, seq![pid]);
            forall|p: u128|
                (pair_present(pp, role_id, p) || #[trigger] override_active(
                    revoked,
                    user_id,
                    p,
                    query_now,
                )) <==> (pair_present(pp, role_id, p) || override_active(os, user_id, p, query_now))
        }),
{
    let granted = grant_one_spec(os, next_id, user_id, pid, granted_by, reason, expires_at, grant_now).0;
    let revoked = revoke_marked(granted, user_id, seq![pid]);
    assert(seq![pid][0] == pid);
    assert(forall|x: u128| #[trigger] seq![pid].contains(x) <==> x == pid) by {
        assert forall|x: u128| #[trigger] seq![pid].contains(x) implies x == pid by {
            let i = choose|i: int| 0 <= i < seq![pid].len() && seq![pid][i] == x;
        }
        assert forall|x: u128| x == pid implies #[trigger] seq![pid].contains(x) by {
            assert(seq![pid][0] == x);
        }
    }
    assert forall|p: u128| #[trigger] override_active(revoked, user_id, p, query_now) implies
        override_active(os, user_id, p, query_now) by {
        let i = choose|i: int|
            0 <= i < revoked.len() && ov_effective(#[trigger] revoked[i], user_id, query_now)
                && revoked[i].permission_id == p;
        if ov_pair_present(os, user_id, pid) {
            let w = ov_pair_index(os, user_id, pid);
            assert(granted.len() == os.len());
            if i == w {
                assert(revoked[i].is_active == false);
            } else {
                assert(granted[i] == os[i]);
                if os[i].user_id == user_id && os[i].permission_id == pid {
                    assert(!(os[i].user_id == os[w].user_id && os[i].permission_id
                        == os[w].permission_id));
                }
                assert(revoked[i] == os[i]);
            }
        } else if next_id == u128::MAX {
            assert(granted == os);
            if os[i].user_id == user_id && os[i].permission_id == pid {
                assert(ov_pair_present(os, user_id, pid));
            }
            assert(revoked[i] == os[i]);
        } else {
            if i < os.len() {
                assert(granted[i] == os[i]);
                if os[i].user_id == user_id && os[i].permission_id == pid {
                    assert(ov_pair_present(os, user_id, pid));
                }
                assert(revoked[i] == os[i]);
            } else {
                assert(granted[i].user_id == user_id && granted[i].permission_id == pid);
                assert(revoked[i].is_active == false);
            }
        }
    }
    assert forall|p: u128| override_active(os, user_id, p, query_now) implies #[trigger] override_active(
        revoked,
        user_id,
        p,
        query_now,
    ) by {
        let i = choose|i: int|
            0 <= i < os.len() && ov_effective(#[trigger] os[i], user_id, query_now)
                && os[i].permission_id == p;
        assert(!(os[i].user_id == user_id && os[i].permission_id == pid));
        if ov_pair_present(os, user_id, pid) {
            let w = ov_pair_index(os, user_id, pid);
            assert(i != w);
            assert(granted[i] == os[i]);
        } else {
            assert(granted[i] == os[i]);
        }
        assert(revoked[i] == os[i]);
        assert(ov_effective(revoked[i], user_id, query_now) && revoked[i].permission_id == p);
    }
}

/// Law: after a role's deletion, no permission pair of that role survives —
/// the deleted role's permission list is empty.
pub proof fn lemma_role_pairs_purged(pp: Seq<RolePermission>, role_id: u128)
    ensures
        role_pair_ids(pp.filter(|p: RolePermission| p.role_id != role_id), role_id)
            == Seq::<u128>::empty(),
{
    let pred = |p: RolePermission| p.role_id != role_id;
    let keep = |p: RolePermission| p.role_id == role_id;
    let g = pp.filter(pred);
    let h = g.filter(keep);
    if h.len() > 0 {
        g.lemma_filter_pred(keep, 0);
        lemma_filter_element_of(g, keep, 0);
        let k = choose|k: int| 0 <= k < g.len() && #[trigger] g[k] == h[0];
        pp.lemma_filter_pred(pred, k);
    }
    assert(h =~= Seq::<RolePermission>::empty());
    assert(h.map_values(|p: RolePermission| p.permission_id) =~= Seq::<u128>::empty());
}

/// The permission ids of one role's pairs, in table order.
pub open spec fn role_pair_ids(pp: Seq<RolePermission>, role_id: u128) -> Seq<u128> {
    pp.filter(|p: RolePermission| p.role_id == role_id).map_values(
        |p: RolePermission| p.permission_id,
    )
}

/// Filtering keeps the (role, permission) pairs unique.
proof fn lemma_filter_pairs_unique(pp: Seq<RolePermission>, pred: spec_fn(RolePermission) -> bool)
    requires
        pairs_unique(pp),
    ensures
        pairs_unique(pp.filter(pred)),
    decreases pp.len(),
{
    reveal(Seq::filter);
    if pp.len() > 0 {
        let rest = pp.drop_last();
        assert forall|x: int, y: int|
            0 <= x < rest.len() && 0 <= y < rest.len() && x != y implies !(#[trigger] rest[x].role_id
            == #[trigger] rest[y].role_id && rest[x].permission_id == rest[y].permission_id) by {
            assert(rest[x] == pp[x] && rest[y] == pp[y]);
        }
        lemma_filter_pairs_unique(rest, pred);
        let f = pp.filter(pred);
        let fr = rest.filter(pred);
        if pred(pp.last()) {
            assert(f == fr.push(pp.last()));
            assert forall|a: int, b: int|
                0 <= a < f.len() && 0 <= b < f.len() && a != b implies !(#[trigger] f[a].role_id
                == #[trigger] f[b].role_id && f[a].permission_id == f[b].permission_id) by {
                if a < fr.len() && b < fr.len() {
                    assert(f[a] == fr[a] && f[b] == fr[b]);
                } else {
                    let inner: int = if a < fr.len() {
                        a
                    } else {
                        b
                    };
                    assert(f[inner] == fr[inner]);
                    lemma_filter_element_of(rest, pred, inner);
                    let src = choose|k: int| 0 <= k < rest.len() && #[trigger] rest[k] == fr[inner];
                    assert(pp[src] == rest[src]);
                    assert(pp.last() == pp[pp.len() - 1]);
                    assert(src != pp.len() - 1);
                }
            }
        } else {
            assert(f == fr);
        }
    }
}

/// Every element of a filtered sequence occurs in the original.
proof fn lemma_filter_element_of(
    s: Seq<RolePermission>,
    pred: spec_fn(RolePermission) -> bool,
    i: int,
)
    requires
        0 <= i < s.filter(pred).len(),
    ensures
        exists|k: int| 0 <= k < s.len() && #[trigger] s[k] == s.filter(pred)[i],
    decreases s.len(),
{
    reveal(Seq::filter);
    if s.len() > 0 {
        let rest = s.drop_last();
        let f = s.filter(pred);
        let fr = rest.filter(pred);
        if pred(s.last()) && i == fr.len() {
            assert(s[s.len() - 1] == f[i]);
        } else {
            lemma_filter_element_of(rest, pred, i);
            let k = choose|k: int| 0 <= k < rest.len() && #[trigger] rest[k] == fr[i];
            assert(s[k] == f[i]);
        }
    }
}

} // verus!
