//! Role-based access control: roles grant permissions, users hold roles of
//! their own organization.
use std::collections::HashMap;
use vstd::prelude::*;
use vstd::std_specs::hash::*;
use crate::ids::new_v4;

verus! {

broadcast use vstd::std_specs::hash::group_hash_axioms;

/// A permission that a role may grant.
#[derive(PartialEq, Eq, Structural, Clone, Copy, Debug)]
pub enum Permission {
    SiteRead,
    SiteWrite,
    SiteDelete,
    TunnelRead,
    TunnelWrite,
    TunnelDelete,
    PolicyRead,
    PolicyWrite,
    PolicyDelete,
    UserRead,
    UserWrite,
    UserDelete,
    OrgRead,
    OrgWrite,
    OrgDelete,
    AdminAll,
}

/// Why an RBAC request was refused.
#[derive(PartialEq, Eq, Structural, Clone, Copy, Debug)]
pub enum RbacError {
    /// The user is not known to the manager.
    UserNotFound,
    /// The role is not known to the manager.
    RoleNotFound(u128),
    /// The role belongs to another organization than the user.
    RoleOrgMismatch { role_id: u128, org_id: u128 },
}

/// A named set of permissions, owned by one organization.
#[derive(Clone, Debug)]
pub struct Role {
    pub id: u128,
    pub name: String,
    pub description: String,
    /// The permissions of the role; duplicates carry no meaning.
    pub permissions: Vec<Permission>,
    pub org_id: u128,
}

/// The set of permissions a role holds.
pub open spec fn role_perms(role: Role) -> Set<Permission> {
    role.permissions@.to_set()
}

/// A role grants `p` when it holds `p` or holds `AdminAll`.
pub open spec fn role_grants(role: Role, p: Permission) -> bool {
    role_perms(role).contains(p) || role_perms(role).contains(Permission::AdminAll)
}

fn contains_permission(perms: &Vec<Permission>, p: Permission) -> (b: bool)
    ensures
        b == perms@.contains(p),
{
    let mut i: usize = 0;
    while i < perms.len()
        invariant
            0 <= i <= perms.len(),
            forall|j: int| 0 <= j < i ==> perms@[j] != p,
        decreases perms.len() - i,
    {
        if perms[i] == p {
            return true;
        }
        i = i + 1;
    }
    false
}

fn vec_of_str(s: &str) -> (r: String)
    ensures
        r@ == s@,
{
    s.to_string()
}

impl Role {
    /// A role without permissions and with a fresh random id.
    pub fn new(name: &str, description: &str, org_id: u128) -> (r: Role)
        ensures
            r.name@ == name@,
            r.description@ == description@,
            r.permissions@ == Seq::<Permission>::empty(),
            r.org_id == org_id,
    {
        Role {
            id: new_v4(),
            name: vec_of_str(name),
            description: vec_of_str(description),
            permissions: Vec::new(),
            org_id,
        }
    }

    /// Adds one permission.
    pub fn with_permission(self, permission: Permission) -> (r: Role)
        ensures
            role_perms(r) == role_perms(self).insert(permission),
            r.id == self.id,
            r.name == self.name,
            r.description == self.description,
            r.org_id == self.org_id,
    {
        let mut s = self;
        if !contains_permission(&s.permissions, permission) {
            s.permissions.push(permission);
        }
        proof {
            assert(role_perms(s) =~= role_perms(self).insert(permission)) by {
                assert forall|q: Permission|
                    role_perms(s).contains(q) <==> role_perms(self).insert(permission).contains(q) by {
                    if s.permissions@ != self.permissions@ {
                        assert(s.permissions@ == self.permissions@.push(permission));
                        if q == permission {
                            assert(s.permissions@[self.permissions@.len() as int] == q);
                        }
                        if self.permissions@.contains(q) {
                            let k = choose|k: int| 0 <= k < self.permissions@.len() && self.permissions@[k] == q;
                            assert(s.permissions@[k] == q);
                        }
                        if s.permissions@.contains(q) && q != permission {
                            let k = choose|k: int| 0 <= k < s.permissions@.len() && s.permissions@[k] == q;
                            assert(self.permissions@[k] == q);
                        }
                    }
                }
            }
        }
        s
    }

    /// Adds every permission of `permissions`.
    pub fn with_permissions(self, permissions: Vec<Permission>) -> (r: Role)
        ensures
            role_perms(r) == role_perms(self).union(permissions@.to_set()),
            r.id == self.id,
            r.name == self.name,
            r.description == self.description,
            r.org_id == self.org_id,
    {
        let mut s = self;
        let mut i: usize = 0;
        while i < permissions.len()
            invariant
                0 <= i <= permissions.len(),
                role_perms(s) == role_perms(self).union(permissions@.subrange(0, i as int).to_set()),
                s.id == self.id,
                s.name == self.name,
                s.description == self.description,
                s.org_id == self.org_id,
            decreases permissions.len() - i,
        {
            let ghost before = s;
            s = s.with_permission(permissions[i]);
            proof {
                let a = permissions@.subrange(0, i as int);
                let b = permissions@.subrange(0, i + 1);
                assert(b == a.push(permissions@[i as int]));
                assert(b.to_set() =~= a.to_set().insert(permissions@[i as int])) by {
                    assert forall|q: Permission| b.to_set().contains(q) <==> a.to_set().insert(permissions@[i as int]).contains(q) by {
                        if a.contains(q) {
                            let k = choose|k: int| 0 <= k < a.len() && a[k] == q;
                            assert(b[k] == q);
                        }
                        if q == permissions@[i as int] {
                            assert(b[i as int] == q);
                        }
                        if b.contains(q) && q != permissions@[i as int] {
                            let k = choose|k: int| 0 <= k < b.len() && b[k] == q;
                            assert(a[k] == q);
                        }
                    }
                }
                assert(role_perms(s) =~= role_perms(self).union(b.to_set()));
            }
            i = i + 1;
        }
        proof {
            assert(permissions@.subrange(0, permissions@.len() as int) == permissions@);
        }
        s
    }

    /// Whether the role grants `permission`, directly or through `AdminAll`.
    pub fn has_permission(&self, permission: &Permission) -> (b: bool)
        ensures
            b == role_grants(*self, *permission),
    {
        contains_permission(&self.permissions, *permission) || contains_permission(
            &self.permissions,
            Permission::AdminAll,
        )
    }

    /// Read-only access.
    pub fn viewer(org_id: u128) -> (r: Role)
        ensures
            r.name@ == "viewer"@,
            r.description@ == "Read-only access"@,
            r.org_id == org_id,
            role_perms(r) == set![
                Permission::SiteRead,
                Permission::TunnelRead,
                Permission::PolicyRead,
                Permission::OrgRead,
            ],
    {
        let r = Role::new("viewer", "Read-only access", org_id).with_permissions(
            vec![
                Permission::SiteRead,
                Permission::TunnelRead,
                Permission::PolicyRead,
                Permission::OrgRead,
            ],
        );
        proof {
            let s = seq![
                Permission::SiteRead,
                Permission::TunnelRead,
                Permission::PolicyRead,
                Permission::OrgRead,
            ];
            assert(s[0] == Permission::SiteRead && s[1] == Permission::TunnelRead && s[2]
                == Permission::PolicyRead && s[3] == Permission::OrgRead);
            assert(s.to_set() =~= set![
                Permission::SiteRead,
                Permission::TunnelRead,
                Permission::PolicyRead,
                Permission::OrgRead,
            ]);
            assert(Seq::<Permission>::empty().to_set() =~= Set::empty());
        }
        r
    }

    /// Operational access: read and write sites, tunnels and policies.
    pub fn operator(org_id: u128) -> (r: Role)
        ensures
            r.name@ == "operator"@,
            r.description@ == "Operational access"@,
            r.org_id == org_id,
            role_perms(r) == set![
                Permission::SiteRead,
                Permission::SiteWrite,
                Permission::TunnelRead,
                Permission::TunnelWrite,
                Permission::PolicyRead,
                Permission::PolicyWrite,
                Permission::OrgRead,
            ],
    {
        let r = Role::new("operator", "Operational access", org_id).with_permissions(
            vec![
                Permission::SiteRead,
                Permission::SiteWrite,
                Permission::TunnelRead,
                Permission::TunnelWrite,
                Permission::PolicyRead,
                Permission::PolicyWrite,
                Permission::OrgRead,
            ],
        );
        proof {
            let s = seq![
                Permission::SiteRead,
                Permission::SiteWrite,
                Permission::TunnelRead,
                Permission::TunnelWrite,
                Permission::PolicyRead,
                Permission::PolicyWrite,
                Permission::OrgRead,
            ];
            assert(s[0] == Permission::SiteRead && s[1] == Permission::SiteWrite && s[2]
                == Permission::TunnelRead && s[3] == Permission::TunnelWrite && s[4]
                == Permission::PolicyRead && s[5] == Permission::PolicyWrite && s[6]
                == Permission::OrgRead);
            assert(s.to_set() =~= set![
                Permission::SiteRead,
                Permission::SiteWrite,
                Permission::TunnelRead,
                Permission::TunnelWrite,
                Permission::PolicyRead,
                Permission::PolicyWrite,
                Permission::OrgRead,
            ]);
            assert(Seq::<Permission>::empty().to_set() =~= Set::empty());
        }
        r
    }

    /// Full administrative access.
    pub fn admin(org_id: u128) -> (r: Role)
        ensures
            r.name@ == "admin"@,
            r.description@ == "Full administrative access"@,
            r.org_id == org_id,
            role_perms(r) == set![Permission::AdminAll],
    {
        let r = Role::new("admin", "Full administrative access", org_id).with_permission(
            Permission::AdminAll,
        );
        proof {
            assert(Seq::<Permission>::empty().to_set() =~= Set::empty());
            assert(set![Permission::AdminAll] =~= Set::<Permission>::empty().insert(
                Permission::AdminAll,
            ));
        }
        r
    }
}

/// A user of one organization, holding roles by id.
#[derive(Clone, Debug)]
pub struct User {
    pub id: u128,
    pub username: String,
    pub email: String,
    pub org_id: u128,
    pub role_ids: Vec<u128>,
}

impl User {
    /// A user without roles and with a fresh random id.
    pub fn new(username: &str, email: &str, org_id: u128) -> (u: User)
        ensures
            u.username@ == username@,
            u.email@ == email@,
            u.org_id == org_id,
            u.role_ids@ == Seq::<u128>::empty(),
    {
        User {
            id: new_v4(),
            username: vec_of_str(username),
            email: vec_of_str(email),
            org_id,
            role_ids: Vec::new(),
        }
    }

    /// Appends a role id.
    pub fn with_role(self, role_id: u128) -> (u: User)
        ensures
            u.role_ids@ == self.role_ids@.push(role_id),
            u.id == self.id,
            u.username == self.username,
            u.email == self.email,
            u.org_id == self.org_id,
    {
        let mut s = self;
        s.role_ids.push(role_id);
        s
    }
}

/// The outcome of checking a new user's roles, in the order in which they are
/// listed: the first role that is unknown or of another organization decides.
pub open spec fn check_user_roles(roles: Map<u128, Role>, role_ids: Seq<u128>, org_id: u128) -> Result<
    (),
    RbacError,
>
    decreases role_ids.len(),
{
    if role_ids.len() == 0 {
        Ok(())
    } else {
        let rid = role_ids[0];
        if !roles.contains_key(rid) {
            Err(RbacError::RoleNotFound(rid))
        } else if roles[rid].org_id != org_id {
            Err(RbacError::RoleOrgMismatch { role_id: rid, org_id })
        } else {
            check_user_roles(roles, role_ids.drop_first(), org_id)
        }
    }
}

/// Whether one of the roles named by `role_ids` exists and grants `p`.
pub open spec fn roles_grant(roles: Map<u128, Role>, role_ids: Seq<u128>, p: Permission) -> bool {
    exists|i: int|
        0 <= i < role_ids.len() && roles.contains_key(#[trigger] role_ids[i]) && role_grants(
            roles[role_ids[i]],
            p,
        )
}

/// Whether one of the existing roles named by `role_ids` holds `AdminAll`.
pub open spec fn some_admin_role(roles: Map<u128, Role>, role_ids: Seq<u128>) -> bool {
    exists|i: int|
        0 <= i < role_ids.len() && roles.contains_key(#[trigger] role_ids[i]) && role_perms(
            roles[role_ids[i]],
        ).contains(Permission::AdminAll)
}

/// The union of the permissions of the existing roles named by `role_ids`.
pub open spec fn union_of_role_perms(roles: Map<u128, Role>, role_ids: Seq<u128>) -> Set<Permission> {
    Set::new(
        |p: Permission|
            exists|i: int|
                0 <= i < role_ids.len() && roles.contains_key(#[trigger] role_ids[i]) && role_perms(
                    roles[role_ids[i]],
                ).contains(p),
    )
}

/// The effective permissions of a user holding the roles `role_ids`: only
/// `AdminAll` when one of them holds it, else the union of their permissions.
pub open spec fn effective_perms(roles: Map<u128, Role>, role_ids: Seq<u128>) -> Set<Permission> {
    if some_admin_role(roles, role_ids) {
        set![Permission::AdminAll]
    } else {
        union_of_role_perms(roles, role_ids)
    }
}

/// The values that `ids` maps to in `m`, in order, skipping ids that `m` lacks.
pub open spec fn present_values<V>(m: Map<u128, V>, ids: Seq<u128>) -> Seq<V>
    decreases ids.len(),
{
    if ids.len() == 0 {
        Seq::empty()
    } else {
        let rest = present_values(m, ids.drop_last());
        let last = ids.last();
        if m.contains_key(last) {
            rest.push(m[last])
        } else {
            rest
        }
    }
}

/// The list stored under `k`, or the empty list.
pub open spec fn list_or_empty(m: Map<u128, Vec<u128>>, k: u128) -> Seq<u128> {
    if m.contains_key(k) {
        m[k]@
    } else {
        Seq::empty()
    }
}

/// Every id listed under an organization names a user of that
/// organization.
pub open spec fn users_listed_by_org(users: Map<u128, User>, lists: Map<u128, Vec<u128>>) -> bool {
    forall|o: u128, k: int|
        #![trigger lists[o]@[k]]
        lists.contains_key(o) && 0 <= k < lists[o]@.len() ==> users.contains_key(lists[o]@[k]) && users[lists[o]@[k]].org_id
            == o
}

/// Every id listed under an organization names a role of that
/// organization.
pub open spec fn roles_listed_by_org(roles: Map<u128, Role>, lists: Map<u128, Vec<u128>>) -> bool {
    forall|o: u128, k: int|
        #![trigger lists[o]@[k]]
        lists.contains_key(o) && 0 <= k < lists[o]@.len() ==> roles.contains_key(lists[o]@[k]) && roles[lists[o]@[k]].org_id
            == o
}

/// Keeps roles and users by id, and for each organization the ids of its roles
/// and users in order of creation.
pub struct RbacManager {
    roles: HashMap<u128, Role>,
    users: HashMap<u128, User>,
    org_roles: HashMap<u128, Vec<u128>>,
    org_users: HashMap<u128, Vec<u128>>,
}

impl RbacManager {
    pub closed spec fn roles_view(&self) -> Map<u128, Role> {
        self.roles@
    }

    pub closed spec fn users_view(&self) -> Map<u128, User> {
        self.users@
    }

    pub closed spec fn org_roles_view(&self) -> Map<u128, Vec<u128>> {
        self.org_roles@
    }

    pub closed spec fn org_users_view(&self) -> Map<u128, Vec<u128>> {
        self.org_users@
    }

    /// Each organization lists only its own users and roles.
    pub open spec fn lists_by_org(&self) -> bool {
        &&& users_listed_by_org(self.users_view(), self.org_users_view())
        &&& roles_listed_by_org(self.roles_view(), self.org_roles_view())
    }

    /// An empty manager.
    pub fn new() -> (m: RbacManager)
        ensures
            m.roles_view() == Map::<u128, Role>::empty(),
            m.users_view() == Map::<u128, User>::empty(),
            m.org_roles_view() == Map::<u128, Vec<u128>>::empty(),
            m.org_users_view() == Map::<u128, Vec<u128>>::empty(),
            m.lists_by_org(),
    {
        RbacManager {
            roles: HashMap::new(),
            users: HashMap::new(),
            org_roles: HashMap::new(),
            org_users: HashMap::new(),
        }
    }

    fn append_id(map: &mut HashMap<u128, Vec<u128>>, key: u128, id: u128)
        ensures
            final(map)@ == old(map)@.insert(key, final(map)@[key]),
            final(map)@[key]@ == list_or_empty(old(map)@, key).push(id),
    {
        let mut list = match map.remove(&key) {
            Some(v) => v,
            None => Vec::new(),
        };
        list.push(id);
        map.insert(key, list);
        proof {
            assert(final(map)@ =~= old(map)@.insert(key, final(map)@[key]));
        }
    }

    /// Stores the role under its id and lists it under its organization.
    pub fn create_role(&mut self, role: Role) -> (r: Result<u128, RbacError>)
        ensures
            r == Ok::<u128, RbacError>(role.id),
            final(self).roles_view() == old(self).roles_view().insert(role.id, role),
            final(self).users_view() == old(self).users_view(),
            final(self).org_users_view() == old(self).org_users_view(),
            final(self).org_roles_view() == old(self).org_roles_view().insert(
                role.org_id,
                final(self).org_roles_view()[role.org_id],
            ),
            final(self).org_roles_view()[role.org_id]@ == list_or_empty(
                old(self).org_roles_view(),
                role.org_id,
            ).push(role.id),
            old(self).lists_by_org() && (!old(self).roles_view().contains_key(role.id)
                || old(self).roles_view()[role.id].org_id == role.org_id) ==> final(self).lists_by_org(),
    {
        let role_id = role.id;
        let org_id = role.org_id;
        let ghost g_role = role;
        self.roles.insert(role_id, role);
        Self::append_id(&mut self.org_roles, org_id, role_id);
        proof {
            if old(self).lists_by_org() && (!old(self).roles_view().contains_key(role_id)
                || old(self).roles_view()[role_id].org_id == org_id) {
                let lists = self.org_roles@;
                assert forall|o: u128, k: int|
                    #![trigger lists[o]@[k]]
                    lists.contains_key(o) && 0 <= k < lists[o]@.len() implies self.roles@.contains_key(lists[o]@[k])
                        && self.roles@[lists[o]@[k]].org_id == o by {
                    if o == org_id {
                        if k < list_or_empty(old(self).org_roles@, org_id).len() {
                            assert(lists[o]@[k] == old(self).org_roles@[o]@[k]);
                        }
                    } else {
                        assert(lists[o] == old(self).org_roles@[o]);
                    }
                }
            }
        }
        Ok(role_id)
    }

    /// Stores the user when each of its roles exists and belongs to the user's
    /// organization; else refuses it with the first offending role.
    pub fn create_user(&mut self, user: User) -> (r: Result<u128, RbacError>)
        ensures
            check_user_roles(old(self).roles_view(), user.role_ids@, user.org_id) is Ok ==> {
                &&& r == Ok::<u128, RbacError>(user.id)
                &&& final(self).users_view() == old(self).users_view().insert(user.id, user)
                &&& final(self).org_users_view() == old(self).org_users_view().insert(
                    user.org_id,
                    final(self).org_users_view()[user.org_id],
                )
                &&& final(self).org_users_view()[user.org_id]@ == list_or_empty(
                    old(self).org_users_view(),
                    user.org_id,
                ).push(user.id)
            },
            check_user_roles(old(self).roles_view(), user.role_ids@, user.org_id) matches Err(e)
                ==> {
                &&& r == Err::<u128, RbacError>(e)
                &&& final(self).users_view() == old(self).users_view()
                &&& final(self).org_users_view() == old(self).org_users_view()
            },
            final(self).roles_view() == old(self).roles_view(),
            final(self).org_roles_view() == old(self).org_roles_view(),
            old(self).lists_by_org() && (!old(self).users_view().contains_key(user.id)
                || old(self).users_view()[user.id].org_id == user.org_id) ==> final(self).lists_by_org(),
    {
        let user_id = user.id;
        let org_id = user.org_id;
        let mut i: usize = 0;
        proof {
            assert(user.role_ids@.subrange(0, user.role_ids@.len() as int) == user.role_ids@);
        }
        while i < user.role_ids.len()
            invariant
                0 <= i <= user.role_ids.len(),
                self.roles@ == old(self).roles@,
                self.users@ == old(self).users@,
                self.org_users@ == old(self).org_users@,
                self.org_roles@ == old(self).org_roles@,
                org_id == user.org_id,
                user_id == user.id,
                check_user_roles(self.roles@, user.role_ids@, org_id) == check_user_roles(
                    self.roles@,
                    user.role_ids@.subrange(i as int, user.role_ids@.len() as int),
                    org_id,
                ),
            decreases user.role_ids.len() - i,
        {
            let rid = user.role_ids[i];
            let ghost rest = user.role_ids@.subrange(i as int, user.role_ids@.len() as int);
            proof {
                assert(rest.len() > 0);
                assert(rest[0] == rid);
                assert(rest.drop_first() == user.role_ids@.subrange(
                    i + 1,
                    user.role_ids@.len() as int,
                ));
            }
            match self.roles.get(&rid) {
                None => {
                    return Err(RbacError::RoleNotFound(rid));
                },
                Some(role) => {
                    if role.org_id != org_id {
                        return Err(RbacError::RoleOrgMismatch { role_id: rid, org_id });
                    }
                },
            }
            i = i + 1;
        }
        proof {
            assert(user.role_ids@.subrange(
                user.role_ids@.len() as int,
                user.role_ids@.len() as int,
            ).len() == 0);
        }
        self.users.insert(user_id, user);
        Self::append_id(&mut self.org_users, org_id, user_id);
        proof {
            if old(self).lists_by_org() && (!old(self).users_view().contains_key(user_id)
                || old(self).users_view()[user_id].org_id == org_id) {
                let lists = self.org_users@;
                assert forall|o: u128, k: int|
                    #![trigger lists[o]@[k]]
                    lists.contains_key(o) && 0 <= k < lists[o]@.len() implies self.users@.contains_key(lists[o]@[k])
                        && self.users@[lists[o]@[k]].org_id == o by {
                    if o == org_id {
                        if k < list_or_empty(old(self).org_users@, org_id).len() {
                            assert(lists[o]@[k] == old(self).org_users@[o]@[k]);
                        }
                    } else {
                        assert(lists[o] == old(self).org_users@[o]);
                    }
                }
            }
        }
        Ok(user_id)
    }

    /// Gives the user the role, when both exist and belong to the same
    /// organization; a role the user already holds is not listed twice.
    pub fn assign_role(&mut self, user_id: &u128, role_id: &u128) -> (r: Result<(), RbacError>)
        ensures
            !old(self).users_view().contains_key(*user_id) ==> r == Err::<(), RbacError>(
                RbacError::UserNotFound,
            ),
            old(self).users_view().contains_key(*user_id) && !old(self).roles_view().contains_key(
                *role_id,
            ) ==> r == Err::<(), RbacError>(RbacError::RoleNotFound(*role_id)),
            old(self).users_view().contains_key(*user_id) && old(self).roles_view().contains_key(
                *role_id,
            ) && old(self).users_view()[*user_id].org_id != old(self).roles_view()[*role_id].org_id
                ==> r == Err::<(), RbacError>(
                RbacError::RoleOrgMismatch {
                    role_id: *role_id,
                    org_id: old(self).users_view()[*user_id].org_id,
                },
            ),
            old(self).users_view().contains_key(*user_id) && old(self).roles_view().contains_key(*role_id)
                && old(self).users_view()[*user_id].org_id == old(self).roles_view()[*role_id].org_id ==> r is Ok,
            r is Err ==> final(self).users_view() == old(self).users_view(),
            r is Ok ==> {
                let u = old(self).users_view()[*user_id];
                &&& old(self).users_view().contains_key(*user_id)
                &&& old(self).roles_view().contains_key(*role_id)
                &&& u.org_id == old(self).roles_view()[*role_id].org_id
                &&& final(self).users_view() == old(self).users_view().insert(
                    *user_id,
                    final(self).users_view()[*user_id],
                )
                &&& final(self).users_view()[*user_id].id == u.id
                &&& final(self).users_view()[*user_id].username == u.username
                &&& final(self).users_view()[*user_id].email == u.email
                &&& final(self).users_view()[*user_id].org_id == u.org_id
                &&& final(self).users_view()[*user_id].role_ids@ == if u.role_ids@.contains(
                    *role_id,
                ) {
                    u.role_ids@
                } else {
                    u.role_ids@.push(*role_id)
                }
            },
            final(self).roles_view() == old(self).roles_view(),
            final(self).org_roles_view() == old(self).org_roles_view(),
            final(self).org_users_view() == old(self).org_users_view(),
            old(self).lists_by_org() ==> final(self).lists_by_org(),
    {
        let user_org = match self.users.get(user_id) {
            None => {
                return Err(RbacError::UserNotFound);
            },
            Some(u) => u.org_id,
        };
        let role_org = match self.roles.get(role_id) {
            None => {
                return Err(RbacError::RoleNotFound(*role_id));
            },
            Some(r) => r.org_id,
        };
        if user_org != role_org {
            return Err(RbacError::RoleOrgMismatch { role_id: *role_id, org_id: user_org });
        }
        let ghost old_users = self.users@;
        let mut user = match self.users.remove(user_id) {
            Some(u) => u,
            None => {
                return Err(RbacError::UserNotFound);
            },
        };
        proof {
            assert(user == old_users[*user_id]);
        }
        let mut j: usize = 0;
        let mut present = false;
        while j < user.role_ids.len()
            invariant
                0 <= j <= user.role_ids.len(),
                present == user.role_ids@.subrange(0, j as int).contains(*role_id),
            decreases user.role_ids.len() - j,
        {
            if user.role_ids[j] == *role_id {
                present = true;
            }
            proof {
                if user.role_ids@[j as int] == *role_id {
                    assert(user.role_ids@.subrange(0, j + 1)[j as int] == *role_id);
                }
                let a = user.role_ids@.subrange(0, j as int);
                let b = user.role_ids@.subrange(0, j + 1);
                assert(b == a.push(user.role_ids@[j as int]));
                if a.contains(*role_id) {
                    let k = choose|k: int| 0 <= k < a.len() && a[k] == *role_id;
                    assert(b[k] == *role_id);
                }
                if b.contains(*role_id) && !a.contains(*role_id) {
                    let k = choose|k: int| 0 <= k < b.len() && b[k] == *role_id;
                    if k < a.len() {
                        assert(a[k] == *role_id);
                    }
                }
            }
            j = j + 1;
        }
        proof {
            assert(user.role_ids@.subrange(0, user.role_ids@.len() as int) == user.role_ids@);
        }
        if !present {
            user.role_ids.push(*role_id);
        }
        self.users.insert(*user_id, user);
        proof {
            assert(self.users@ =~= old_users.insert(*user_id, self.users@[*user_id]));
            if old(self).lists_by_org() {
                let lists = self.org_users@;
                assert forall|o: u128, k: int|
                    #![trigger lists[o]@[k]]
                    lists.contains_key(o) && 0 <= k < lists[o]@.len() implies self.users@.contains_key(lists[o]@[k])
                        && self.users@[lists[o]@[k]].org_id == o by {
                    assert(old(self).users@.contains_key(lists[o]@[k]));
                }
            }
        }
        Ok(())
    }

    /// Whether the user exists and one of its existing roles grants the
    /// permission.
    pub fn check_permission(&self, user_id: &u128, permission: &Permission) -> (b: bool)
        ensures
            b == (self.users_view().contains_key(*user_id) && roles_grant(
                self.roles_view(),
                self.users_view()[*user_id].role_ids@,
                *permission,
            )),
    {
        match self.users.get(user_id) {
            None => false,
            Some(user) => {
                let mut i: usize = 0;
                while i < user.role_ids.len()
                    invariant
                        0 <= i <= user.role_ids.len(),
                        self.users@.contains_key(*user_id),
                        *user == self.users@[*user_id],
                        forall|j: int|
                            0 <= j < i ==> !(self.roles@.contains_key(#[trigger] user.role_ids@[j])
                                && role_grants(self.roles@[user.role_ids@[j]], *permission)),
                    decreases user.role_ids.len() - i,
                {
                    let rid = user.role_ids[i];
                    match self.roles.get(&rid) {
                        Some(role) => {
                            if role.has_permission(permission) {
                                proof {
                                    assert(self.roles@.contains_key(user.role_ids@[i as int]));
                                    assert(role_grants(self.roles@[user.role_ids@[i as int]], *permission));
                                }
                                return true;
                            }
                        },
                        None => {},
                    }
                    i = i + 1;
                }
                false
            },
        }
    }

    /// The effective permissions of the user: only `AdminAll` when one of its
    /// roles holds it, else the union of the permissions of its roles; empty
    /// for an unknown user.  Each permission is listed once.
    pub fn get_user_permissions(&self, user_id: &u128) -> (perms: Vec<Permission>)
        ensures
            perms@.no_duplicates(),
            self.users_view().contains_key(*user_id) ==> perms@.to_set() == effective_perms(
                self.roles_view(),
                self.users_view()[*user_id].role_ids@,
            ),
            !self.users_view().contains_key(*user_id) ==> perms@ == Seq::<Permission>::empty(),
    {
        let mut perms: Vec<Permission> = Vec::new();
        match self.users.get(user_id) {
            None => perms,
            Some(user) => {
                let ghost ids = user.role_ids@;
                let mut i: usize = 0;
                while i < user.role_ids.len()
                    invariant
                        0 <= i <= user.role_ids.len(),
                        self.users@.contains_key(*user_id),
                        *user == self.users@[*user_id],
                        ids == user.role_ids@,
                        perms@.no_duplicates(),
                        !some_admin_role(self.roles@, ids.subrange(0, i as int)),
                        perms@.to_set() == union_of_role_perms(self.roles@, ids.subrange(0, i as int)),
                    decreases user.role_ids.len() - i,
                {
                    let rid = user.role_ids[i];
                    let ghost a = ids.subrange(0, i as int);
                    let ghost b = ids.subrange(0, i + 1);
                    proof {
                        assert(b == a.push(rid));
                        assert forall|k: int| 0 <= k < a.len() implies b[k] == a[k] by {}
                    }
                    match self.roles.get(&rid) {
                        Some(role) => {
                            if contains_permission(&role.permissions, Permission::AdminAll) {
                                let out = vec![Permission::AdminAll];
                                proof {
                                    assert(b[i as int] == rid);
                                    assert(some_admin_role(self.roles@, ids)) by {
                                        assert(ids[i as int] == rid);
                                    }
                                    assert(out@.to_set() =~= set![Permission::AdminAll]) by {
                                        assert(out@[0] == Permission::AdminAll);
                                    }
                                }
                                return out;
                            }
                            let mut k: usize = 0;
                            let ghost start = perms@;
                            while k < role.permissions.len()
                                invariant
                                    0 <= k <= role.permissions.len(),
                                    perms@.no_duplicates(),
                                    perms@.to_set() == start.to_set().union(
                                        role.permissions@.subrange(0, k as int).to_set(),
                                    ),
                                decreases role.permissions.len() - k,
                            {
                                let p = role.permissions[k];
                                let ghost pa = role.permissions@.subrange(0, k as int);
                                let ghost pb = role.permissions@.subrange(0, k + 1);
                                let ghost pre = perms@;
                                let already = contains_permission(&perms, p);
                                if !already {
                                    perms.push(p);
                                    proof {
                                        assert forall|x: int, y: int|
                                            0 <= x < perms@.len() && 0 <= y < perms@.len() && x != y
                                            implies perms@[x] != perms@[y] by {
                                            if x == pre.len() {
                                                assert(perms@[y] == pre[y]);
                                                if pre[y] == p {
                                                    assert(pre.contains(p));
                                                }
                                            } else if y == pre.len() {
                                                assert(perms@[x] == pre[x]);
                                                if pre[x] == p {
                                                    assert(pre.contains(p));
                                                }
                                            } else {
                                                assert(perms@[x] == pre[x]);
                                                assert(perms@[y] == pre[y]);
                                            }
                                        }
                                    }
                                }
                                proof {
                                    assert(pb == pa.push(p));
                                    assert(perms@.to_set() =~= start.to_set().union(pb.to_set())) by {
                                        assert forall|q: Permission|
                                            perms@.to_set().contains(q) <==> start.to_set().union(
                                                pb.to_set(),
                                            ).contains(q) by {
                                            assert(pre.to_set().contains(q) == start.to_set().union(
                                                pa.to_set(),
                                            ).contains(q));
                                            if already {
                                                assert(perms@ == pre);
                                                assert(pre.contains(p));
                                            } else {
                                                assert(perms@ == pre.push(p));
                                            }
                                            if pa.contains(q) {
                                                let w = choose|w: int| 0 <= w < pa.len() && pa[w] == q;
                                                assert(pb[w] == q);
                                            }
                                            if pb.contains(q) && q != p {
                                                let w = choose|w: int| 0 <= w < pb.len() && pb[w] == q;
                                                assert(pa[w] == q);
                                            }
                                            if q == p {
                                                assert(pb[k as int] == q);
                                                if !already {
                                                    assert(perms@[pre.len() as int] == q);
                                                }
                                            }
                                            if perms@.contains(q) {
                                                let w = choose|w: int| 0 <= w < perms@.len() && perms@[w] == q;
                                                if w < pre.len() {
                                                    assert(pre[w] == q);
                                                }
                                            }
                                            if pre.contains(q) {
                                                let w = choose|w: int| 0 <= w < pre.len() && pre[w] == q;
                                                assert(perms@[w] == q);
                                            }
                                        }
                                    }
                                }
                                k = k + 1;
                            }
                            proof {
                                assert(role.permissions@.subrange(0, role.permissions@.len() as int)
                                    == role.permissions@);
                                assert(*role == self.roles@[rid]);
                                assert(!some_admin_role(self.roles@, b)) by {
                                    if some_admin_role(self.roles@, b) {
                                        let w = choose|w: int|
                                            0 <= w < b.len() && self.roles@.contains_key(#[trigger] b[w])
                                                && role_perms(self.roles@[b[w]]).contains(
                                                Permission::AdminAll,
                                            );
                                        if w < a.len() {
                                            assert(a[w] == b[w]);
                                        }
                                    }
                                }
                                assert(perms@.to_set() =~= union_of_role_perms(self.roles@, b)) by {
                                    assert forall|q: Permission|
                                        perms@.to_set().contains(q) <==> union_of_role_perms(
                                            self.roles@,
                                            b,
                                        ).contains(q) by {
                                        if union_of_role_perms(self.roles@, b).contains(q) {
                                            let w = choose|w: int|
                                                0 <= w < b.len() && self.roles@.contains_key(
                                                    #[trigger] b[w],
                                                ) && role_perms(self.roles@[b[w]]).contains(q);
                                            if w < a.len() {
                                                assert(a[w] == b[w]);
                                                assert(union_of_role_perms(self.roles@, a).contains(q));
                                            }
                                        }
                                        if union_of_role_perms(self.roles@, a).contains(q) {
                                            let w = choose|w: int|
                                                0 <= w < a.len() && self.roles@.contains_key(
                                                    #[trigger] a[w],
                                                ) && role_perms(self.roles@[a[w]]).contains(q);
                                            assert(b[w] == a[w]);
                                        }
                                        if role_perms(self.roles@[rid]).contains(q) {
                                            assert(b[i as int] == rid);
                                        }
                                    }
                                }
                            }
                        },
                        None => {
                            proof {
                                assert(!some_admin_role(self.roles@, b)) by {
                                    if some_admin_role(self.roles@, b) {
                                        let w = choose|w: int|
                                            0 <= w < b.len() && self.roles@.contains_key(#[trigger] b[w])
                                                && role_perms(self.roles@[b[w]]).contains(
                                                Permission::AdminAll,
                                            );
                                        if w < a.len() {
                                            assert(a[w] == b[w]);
                                        }
                                    }
                                }
                                assert(union_of_role_perms(self.roles@, b) =~= union_of_role_perms(
                                    self.roles@,
                                    a,
                                )) by {
                                    assert forall|q: Permission|
                                        union_of_role_perms(self.roles@, b).contains(q) implies union_of_role_perms(
                                            self.roles@,
                                            a,
                                        ).contains(q) by {
                                        let w = choose|w: int|
                                            0 <= w < b.len() && self.roles@.contains_key(#[trigger] b[w])
                                                && role_perms(self.roles@[b[w]]).contains(q);
                                        if w < a.len() {
                                            assert(a[w] == b[w]);
                                        }
                                    }
                                    assert forall|q: Permission|
                                        union_of_role_perms(self.roles@, a).contains(q) implies union_of_role_perms(
                                            self.roles@,
                                            b,
                                        ).contains(q) by {
                                        let w = choose|w: int|
                                            0 <= w < a.len() && self.roles@.contains_key(#[trigger] a[w])
                                                && role_perms(self.roles@[a[w]]).contains(q);
                                        assert(b[w] == a[w]);
                                    }
                                }
                            }
                        },
                    }
                    i = i + 1;
                }
                proof {
                    assert(ids.subrange(0, ids.len() as int) == ids);
                }
                perms
            },
        }
    }

    /// The existing users listed under the organization, in order of creation.
    pub fn get_org_users(&self, org_id: &u128) -> (users: Vec<&User>)
        ensures
            users@.map_values(|u: &User| *u) == present_values(
                self.users_view(),
                list_or_empty(self.org_users_view(), *org_id),
            ),
    {
        let mut out: Vec<&User> = Vec::new();
        match self.org_users.get(org_id) {
            None => {
                proof {
                    assert(out@.map_values(|u: &User| *u) =~= Seq::<User>::empty());
                }
                out
            },
            Some(ids) => {
                let mut i: usize = 0;
                while i < ids.len()
                    invariant
                        0 <= i <= ids.len(),
                        ids@ == list_or_empty(self.org_users@, *org_id),
                        out@.map_values(|u: &User| *u) == present_values(
                            self.users@,
                            ids@.subrange(0, i as int),
                        ),
                    decreases ids.len() - i,
                {
                    let ghost before = out@;
                    proof {
                        assert(ids@.subrange(0, i + 1).drop_last() == ids@.subrange(0, i as int));
                    }
                    match self.users.get(&ids[i]) {
                        Some(u) => {
                            out.push(u);
                            proof {
                                assert(out@.map_values(|u: &User| *u) =~= before.map_values(
                                    |u: &User| *u,
                                ).push(*u));
                            }
                        },
                        None => {},
                    }
                    i = i + 1;
                }
                proof {
                    assert(ids@.subrange(0, ids@.len() as int) == ids@);
                }
                out
            },
        }
    }

    /// The existing roles listed under the organization, in order of creation.
    pub fn get_org_roles(&self, org_id: &u128) -> (roles: Vec<&Role>)
        ensures
            roles@.map_values(|r: &Role| *r) == present_values(
                self.roles_view(),
                list_or_empty(self.org_roles_view(), *org_id),
            ),
    {
        let mut out: Vec<&Role> = Vec::new();
        match self.org_roles.get(org_id) {
            None => {
                proof {
                    assert(out@.map_values(|r: &Role| *r) =~= Seq::<Role>::empty());
                }
                out
            },
            Some(ids) => {
                let mut i: usize = 0;
                while i < ids.len()
                    invariant
                        0 <= i <= ids.len(),
                        ids@ == list_or_empty(self.org_roles@, *org_id),
                        out@.map_values(|r: &Role| *r) == present_values(
                            self.roles@,
                            ids@.subrange(0, i as int),
                        ),
                    decreases ids.len() - i,
                {
                    let ghost before = out@;
                    proof {
                        assert(ids@.subrange(0, i + 1).drop_last() == ids@.subrange(0, i as int));
                    }
                    match self.roles.get(&ids[i]) {
                        Some(r) => {
                            out.push(r);
                            proof {
                                assert(out@.map_values(|r: &Role| *r) =~= before.map_values(
                                    |r: &Role| *r,
                                ).push(*r));
                            }
                        },
                        None => {},
                    }
                    i = i + 1;
                }
                proof {
                    assert(ids@.subrange(0, ids@.len() as int) == ids@);
                }
                out
            },
        }
    }
}

impl Default for RbacManager {
    fn default() -> (m: RbacManager)
        ensures
            m.roles_view() == Map::<u128, Role>::empty(),
            m.users_view() == Map::<u128, User>::empty(),
            m.org_roles_view() == Map::<u128, Vec<u128>>::empty(),
            m.org_users_view() == Map::<u128, Vec<u128>>::empty(),
    {
        RbacManager::new()
    }
}

/// A user is granted a permission exactly when its effective permission set
/// holds that permission or holds `AdminAll`.
pub proof fn lemma_check_agrees_with_effective_perms(
    roles: Map<u128, Role>,
    role_ids: Seq<u128>,
    p: Permission,
)
    ensures
        roles_grant(roles, role_ids, p) <==> (effective_perms(roles, role_ids).contains(p)
            || effective_perms(roles, role_ids).contains(Permission::AdminAll)),
{
    if some_admin_role(roles, role_ids) {
        let w = choose|w: int|
            0 <= w < role_ids.len() && roles.contains_key(#[trigger] role_ids[w]) && role_perms(
                roles[role_ids[w]],
            ).contains(Permission::AdminAll);
        assert(role_grants(roles[role_ids[w]], p));
    } else {
        if roles_grant(roles, role_ids, p) {
            let w = choose|w: int|
                0 <= w < role_ids.len() && roles.contains_key(#[trigger] role_ids[w]) && role_grants(
                    roles[role_ids[w]],
                    p,
                );
            assert(union_of_role_perms(roles, role_ids).contains(p));
        }
        if union_of_role_perms(roles, role_ids).contains(p) {
            let w = choose|w: int|
                0 <= w < role_ids.len() && roles.contains_key(#[trigger] role_ids[w]) && role_perms(
                    roles[role_ids[w]],
                ).contains(p);
            assert(role_grants(roles[role_ids[w]], p));
        }
        if union_of_role_perms(roles, role_ids).contains(Permission::AdminAll) {
            let w = choose|w: int|
                0 <= w < role_ids.len() && roles.contains_key(#[trigger] role_ids[w]) && role_perms(
                    roles[role_ids[w]],
                ).contains(Permission::AdminAll);
            assert(some_admin_role(roles, role_ids));
        }
    }
}

/// A role that holds `AdminAll` grants every permission.
pub proof fn lemma_admin_grants_everything(role: Role, p: Permission)
    requires
        role_perms(role).contains(Permission::AdminAll),
    ensures
        role_grants(role, p),
{
}

} // verus!
