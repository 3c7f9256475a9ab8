//! Organizations: subscription tiers and the quotas they carry, and a
//! registry that keeps organizations by id together with the tree of
//! parents and children.
use vstd::prelude::*;
use std::collections::HashMap;
use crate::clock;
use crate::ids::new_v4;
use crate::multitenancy::rbac::{list_or_empty, present_values};
use crate::text::owned;

verus! {

#[derive(PartialEq, Eq, Structural, Clone, Copy, Debug)]
pub enum SubscriptionTier {
    Free,
    Starter,
    Professional,
    Enterprise,
}

/// Upper bounds on what an organization may use; `None` means unlimited.
#[derive(PartialEq, Eq, Structural, Clone, Copy, Debug)]
pub struct ResourceQuota {
    pub max_sites: Option<u32>,
    pub max_tunnels: Option<u32>,
    pub max_bandwidth_mbps: Option<u32>,
    pub max_users: Option<u32>,
}

/// The quota that comes with a tier: Free 5 sites, 10 tunnels, 100 Mbps,
/// 10 users; Starter 20, 50, 500, 50; Professional 100, 500, 5000, 500;
/// Enterprise unlimited.
pub open spec fn tier_quota(tier: SubscriptionTier) -> ResourceQuota {
    match tier {
        SubscriptionTier::Free => ResourceQuota {
            max_sites: Some(5),
            max_tunnels: Some(10),
            max_bandwidth_mbps: Some(100),
            max_users: Some(10),
        },
        SubscriptionTier::Starter => ResourceQuota {
            max_sites: Some(20),
            max_tunnels: Some(50),
            max_bandwidth_mbps: Some(500),
            max_users: Some(50),
        },
        SubscriptionTier::Professional => ResourceQuota {
            max_sites: Some(100),
            max_tunnels: Some(500),
            max_bandwidth_mbps: Some(5000),
            max_users: Some(500),
        },
        SubscriptionTier::Enterprise => ResourceQuota {
            max_sites: None,
            max_tunnels: None,
            max_bandwidth_mbps: None,
            max_users: None,
        },
    }
}

/// The quota that comes with a tier.
pub fn quota_for_tier(tier: SubscriptionTier) -> (q: ResourceQuota)
    ensures
        q == tier_quota(tier),
{
    match tier {
        SubscriptionTier::Free => ResourceQuota {
            max_sites: Some(5),
            max_tunnels: Some(10),
            max_bandwidth_mbps: Some(100),
            max_users: Some(10),
        },
        SubscriptionTier::Starter => ResourceQuota {
            max_sites: Some(20),
            max_tunnels: Some(50),
            max_bandwidth_mbps: Some(500),
            max_users: Some(50),
        },
        SubscriptionTier::Professional => ResourceQuota {
            max_sites: Some(100),
            max_tunnels: Some(500),
            max_bandwidth_mbps: Some(5000),
            max_users: Some(500),
        },
        SubscriptionTier::Enterprise => ResourceQuota {
            max_sites: None,
            max_tunnels: None,
            max_bandwidth_mbps: None,
            max_users: None,
        },
    }
}

impl Default for ResourceQuota {
    /// The quota of the free tier.
    fn default() -> (q: ResourceQuota)
        ensures
            q == tier_quota(SubscriptionTier::Free),
    {
        quota_for_tier(SubscriptionTier::Free)
    }
}

/// An organization (tenant).
#[derive(Clone, Debug)]
pub struct Organization {
    pub id: u128,
    pub name: String,
    pub display_name: String,
    pub parent_id: Option<u128>,
    pub subscription_tier: SubscriptionTier,
    pub quota: ResourceQuota,
    /// In seconds since the Unix epoch.
    pub created_at: i64,
    /// In seconds since the Unix epoch.
    pub updated_at: i64,
    pub metadata: HashMap<String, String>,
}

impl Organization {
    /// A new top-level organization on the free tier, with a fresh random id,
    /// created and updated now, without metadata.
    pub fn new(name: &str, display_name: &str) -> (o: Organization)
        ensures
            o.name@ == name@,
            o.display_name@ == display_name@,
            o.parent_id is None,
            o.subscription_tier == SubscriptionTier::Free,
            o.quota == tier_quota(SubscriptionTier::Free),
            o.created_at == o.updated_at,
            o.metadata@ == Map::<String, String>::empty(),
    {
        let now = clock::now();
        Organization {
            id: new_v4(),
            name: owned(name),
            display_name: owned(display_name),
            parent_id: None,
            subscription_tier: SubscriptionTier::Free,
            quota: quota_for_tier(SubscriptionTier::Free),
            created_at: now,
            updated_at: now,
            metadata: HashMap::new(),
        }
    }

    /// The organization on `tier`, with the tier's quota.
    pub fn with_tier(self, tier: SubscriptionTier) -> (o: Organization)
        ensures
            o == (Organization { subscription_tier: tier, quota: tier_quota(tier), ..self }),
    {
        let mut o = self;
        o.subscription_tier = tier;
        o.quota = quota_for_tier(tier);
        o
    }

    /// The organization as a child of `parent_id`.
    pub fn with_parent(self, parent_id: u128) -> (o: Organization)
        ensures
            o == (Organization { parent_id: Some(parent_id), ..self }),
    {
        let mut o = self;
        o.parent_id = Some(parent_id);
        o
    }

    /// Whether `org_id` is the parent.
    pub fn is_child_of(&self, org_id: &u128) -> (b: bool)
        ensures
            b == (self.parent_id == Some(*org_id)),
    {
        match self.parent_id {
            Some(p) => p == *org_id,
            None => false,
        }
    }
}

/// Why an operation on organizations was refused.
#[derive(PartialEq, Eq, Structural, Clone, Copy, Debug)]
pub enum OrgError {
    NotFound,
    HasChildren,
}

impl OrgError {
    /// The message of the error.
    pub fn message(&self) -> (m: String)
        ensures
            m@ == (match *self {
                OrgError::NotFound => "Organization not found"@,
                OrgError::HasChildren => "Cannot delete organization with children"@,
            }),
    {
        match self {
            OrgError::NotFound => owned("Organization not found"),
            OrgError::HasChildren => owned("Cannot delete organization with children"),
        }
    }
}

/// `ids` without the copies of `x`, in order.
pub open spec fn without(ids: Seq<u128>, x: u128) -> Seq<u128>
    decreases ids.len(),
{
    if ids.len() == 0 {
        Seq::empty()
    } else if ids.last() == x {
        without(ids.drop_last(), x)
    } else {
        without(ids.drop_last(), x).push(ids.last())
    }
}

/// Whether every path down the tree from `id`, through organizations that
/// exist, meets at most `k` of them.  It holds for `k` the number of
/// organizations exactly when no cycle is reachable from `id`.
pub open spec fn depth_within(
    orgs: Map<u128, Organization>,
    tree: Map<u128, Vec<u128>>,
    id: u128,
    k: nat,
) -> bool
    decreases k,
{
    !orgs.contains_key(id) || (k > 0 && forall|i: int|
        0 <= i < list_or_empty(tree, id).len() ==> depth_within(
            orgs,
            tree,
            #[trigger] list_or_empty(tree, id)[i],
            (k - 1) as nat,
        ))
}

/// The organizations below and including `id`, depth first: the
/// organization, then the subtrees of its children from the last listed to
/// the first; nothing for an id without organization.  `k` bounds the depth.
pub open spec fn subtree(orgs: Map<u128, Organization>, tree: Map<u128, Vec<u128>>, id: u128, k: nat) -> Seq<
    Organization,
>
    decreases k, 0nat,
{
    if !orgs.contains_key(id) || k == 0 {
        Seq::empty()
    } else {
        seq![orgs[id]] + subtrees(orgs, tree, list_or_empty(tree, id), (k - 1) as nat)
    }
}

/// The subtrees of the listed ids, from the last to the first.
pub open spec fn subtrees(orgs: Map<u128, Organization>, tree: Map<u128, Vec<u128>>, ids: Seq<u128>, k: nat) -> Seq<
    Organization,
>
    decreases k, ids.len() + 1,
{
    if ids.len() == 0 {
        Seq::empty()
    } else {
        subtree(orgs, tree, ids.last(), k) + subtrees(orgs, tree, ids.drop_last(), k)
    }
}

/// Keeps organizations by id, and under each parent id the ids of its
/// children in order of creation.
pub struct OrganizationManager {
    organizations: HashMap<u128, Organization>,
    hierarchy: HashMap<u128, Vec<u128>>,
}

impl OrganizationManager {
    pub closed spec fn orgs_view(&self) -> Map<u128, Organization> {
        self.organizations@
    }

    /// Parent id to the ids of its children.
    pub closed spec fn tree_view(&self) -> Map<u128, Vec<u128>> {
        self.hierarchy@
    }

    /// No organizations.
    pub fn new() -> (m: OrganizationManager)
        ensures
            m.orgs_view() == Map::<u128, Organization>::empty(),
            m.tree_view() == Map::<u128, Vec<u128>>::empty(),
    {
        OrganizationManager { organizations: HashMap::new(), hierarchy: HashMap::new() }
    }

    /// Stores the organization under its id (replacing one with that id) and
    /// lists it under its parent, if it has one.
    pub fn create_organization(&mut self, org: Organization) -> (r: Result<u128, OrgError>)
        ensures
            r == Ok::<u128, OrgError>(org.id),
            final(self).orgs_view() == old(self).orgs_view().insert(org.id, org),
            match org.parent_id {
                Some(p) => {
                    &&& final(self).tree_view() == old(self).tree_view().insert(p, final(self).tree_view()[p])
                    &&& final(self).tree_view()[p]@ == list_or_empty(old(self).tree_view(), p).push(org.id)
                },
                None => final(self).tree_view() == old(self).tree_view(),
            },
    {
        let org_id = org.id;
        match org.parent_id {
            Some(p) => {
                let mut list = match self.hierarchy.remove(&p) {
                    Some(v) => v,
                    None => Vec::new(),
                };
                list.push(org_id);
                self.hierarchy.insert(p, list);
                proof {
                    assert(self.hierarchy@ =~= old(self).hierarchy@.insert(p, self.hierarchy@[p]));
                }
            },
            None => {},
        }
        self.organizations.insert(org_id, org);
        Ok(org_id)
    }

    /// The organization with this id.
    pub fn get_organization(&self, id: &u128) -> (r: Option<&Organization>)
        ensures
            match r {
                Some(o) => self.orgs_view().contains_key(*id) && *o == self.orgs_view()[*id],
                None => !self.orgs_view().contains_key(*id),
            },
    {
        self.organizations.get(id)
    }

    /// The existing children listed under `parent_id`, in order of creation.
    pub fn get_children(&self, parent_id: &u128) -> (children: Vec<&Organization>)
        ensures
            children@.map_values(|o: &Organization| *o) == present_values(
                self.orgs_view(),
                list_or_empty(self.tree_view(), *parent_id),
            ),
    {
        let mut out: Vec<&Organization> = Vec::new();
        match self.hierarchy.get(parent_id) {
            None => {
                proof {
                    assert(out@.map_values(|o: &Organization| *o) =~= Seq::<Organization>::empty());
                }
                out
            },
            Some(ids) => {
                let mut i: usize = 0;
                while i < ids.len()
                    invariant
                        0 <= i <= ids.len(),
                        ids@ == list_or_empty(self.hierarchy@, *parent_id),
                        out@.map_values(|o: &Organization| *o) == present_values(
                            self.organizations@,
                            ids@.subrange(0, i as int),
                        ),
                    decreases ids.len() - i,
                {
                    let ghost before = out@;
                    proof {
                        assert(ids@.subrange(0, i + 1).drop_last() == ids@.subrange(0, i as int));
                    }
                    match self.organizations.get(&ids[i]) {
                        Some(o) => {
                            out.push(o);
                            proof {
                                assert(out@.map_values(|o: &Organization| *o) =~= before.map_values(
                                    |o: &Organization| *o,
                                ).push(*o));
                            }
                        },
                        None => {},
                    }
                    i = i + 1;
                }
                proof {
                    assert(ids@.subrange(0, ids@.len() as int) == ids@);
                }
                out
            },
        }
    }

    fn collect<'a>(&'a self, id: u128, k: usize, out: &mut Vec<&'a Organization>)
        requires
            depth_within(self.organizations@, self.hierarchy@, id, k as nat),
        ensures
            final(out)@.map_values(|o: &Organization| *o) == old(out)@.map_values(|o: &Organization| *o)
                + subtree(self.organizations@, self.hierarchy@, id, k as nat),
        decreases k, 0nat,
    {
        let ghost orgs = self.organizations@;
        let ghost tree = self.hierarchy@;
        match self.organizations.get(&id) {
            None => {
                proof {
                    assert(final(out)@.map_values(|o: &Organization| *o) =~= old(out)@.map_values(
                        |o: &Organization| *o,
                    ) + Seq::<Organization>::empty());
                }
            },
            Some(org) => {
                let ghost before = out@.map_values(|o: &Organization| *o);
                out.push(org);
                proof {
                    assert(out@.map_values(|o: &Organization| *o) =~= before + seq![orgs[id]]);
                }
                match self.hierarchy.get(&id) {
                    None => {
                        proof {
                            assert(list_or_empty(tree, id) =~= Seq::<u128>::empty());
                            assert(subtrees(orgs, tree, list_or_empty(tree, id), (k - 1) as nat)
                                =~= Seq::<Organization>::empty());
                            assert(final(out)@.map_values(|o: &Organization| *o) =~= before + subtree(
                                orgs,
                                tree,
                                id,
                                k as nat,
                            ));
                        }
                    },
                    Some(children) => {
                        let ghost mid = out@.map_values(|o: &Organization| *o);
                        let mut j: usize = children.len();
                        proof {
                            assert(children@.take(j as int) =~= children@);
                            assert(depth_within(orgs, tree, id, k as nat));
                            assert forall|i: int| 0 <= i < children@.len() implies depth_within(
                                orgs,
                                tree,
                                #[trigger] children@[i],
                                (k - 1) as nat,
                            ) by {
                                assert(list_or_empty(tree, id)[i] == children@[i]);
                            }
                        }
                        while j > 0
                            invariant
                                0 <= j <= children@.len(),
                                children@ == list_or_empty(tree, id),
                                orgs == self.organizations@,
                                tree == self.hierarchy@,
                                0 < k,
                                forall|i: int|
                                    0 <= i < children@.len() ==> depth_within(
                                        orgs,
                                        tree,
                                        #[trigger] children@[i],
                                        (k - 1) as nat,
                                    ),
                                out@.map_values(|o: &Organization| *o) + subtrees(
                                    orgs,
                                    tree,
                                    children@.take(j as int),
                                    (k - 1) as nat,
                                ) == mid + subtrees(orgs, tree, children@, (k - 1) as nat),
                            decreases j,
                        {
                            let c = children[j - 1];
                            let ghost cur = out@.map_values(|o: &Organization| *o);
                            proof {
                                assert(children@.take(j as int).last() == c);
                                assert(children@.take(j as int).drop_last() =~= children@.take(j - 1));
                                assert(depth_within(orgs, tree, children@[j - 1], (k - 1) as nat));
                            }
                            self.collect(c, k - 1, out);
                            proof {
                                let s = subtree(orgs, tree, c, (k - 1) as nat);
                                let rest = subtrees(orgs, tree, children@.take(j - 1), (k - 1) as nat);
                                assert(subtrees(orgs, tree, children@.take(j as int), (k - 1) as nat) == s + rest);
                                assert(cur + (s + rest) =~= (cur + s) + rest);
                            }
                            j = j - 1;
                        }
                        proof {
                            assert(children@.take(0) =~= Seq::<u128>::empty());
                            assert(out@.map_values(|o: &Organization| *o) + Seq::<Organization>::empty()
                                =~= out@.map_values(|o: &Organization| *o));
                            assert(before + subtree(orgs, tree, id, k as nat) =~= mid + subtrees(
                                orgs,
                                tree,
                                children@,
                                (k - 1) as nat,
                            ));
                        }
                    },
                }
            },
        }
    }

    /// The organization `org_id` and everything below it, depth first: each
    /// organization before its children, the children visited from the last
    /// listed to the first.  Requires that no cycle of organizations is
    /// reachable from `org_id`, on which the walk would not end.
    pub fn get_hierarchy(&self, org_id: &u128) -> (r: Vec<&Organization>)
        requires
            depth_within(self.orgs_view(), self.tree_view(), *org_id, self.orgs_view().len()),
        ensures
            r@.map_values(|o: &Organization| *o) == subtree(
                self.orgs_view(),
                self.tree_view(),
                *org_id,
                self.orgs_view().len(),
            ),
    {
        let mut out: Vec<&Organization> = Vec::new();
        let n = self.organizations.len();
        proof {
            assert(out@.map_values(|o: &Organization| *o) =~= Seq::<Organization>::empty());
            assert(Seq::<Organization>::empty() + subtree(
                self.organizations@,
                self.hierarchy@,
                *org_id,
                n as nat,
            ) =~= subtree(self.organizations@, self.hierarchy@, *org_id, n as nat));
        }
        self.collect(*org_id, n, &mut out);
        out
    }

    /// Moves the organization to `tier` with the tier's quota, updated at
    /// `now`; refused when there is no such organization.
    pub fn update_tier_at(&mut self, org_id: &u128, tier: SubscriptionTier, now: i64) -> (r: Result<(), OrgError>)
        ensures
            r is Ok <==> old(self).orgs_view().contains_key(*org_id),
            r is Err ==> r == Err::<(), OrgError>(OrgError::NotFound) && final(self).orgs_view() == old(
                self,
            ).orgs_view(),
            r is Ok ==> final(self).orgs_view() == old(self).orgs_view().insert(
                *org_id,
                Organization {
                    subscription_tier: tier,
                    quota: tier_quota(tier),
                    updated_at: now,
                    ..old(self).orgs_view()[*org_id]
                },
            ),
            final(self).tree_view() == old(self).tree_view(),
    {
        match self.organizations.remove(org_id) {
            None => Err(OrgError::NotFound),
            Some(org) => {
                let mut o = org;
                o.subscription_tier = tier;
                o.quota = quota_for_tier(tier);
                o.updated_at = now;
                self.organizations.insert(*org_id, o);
                proof {
                    assert(self.organizations@ =~= old(self).organizations@.insert(
                        *org_id,
                        Organization {
                            subscription_tier: tier,
                            quota: tier_quota(tier),
                            updated_at: now,
                            ..old(self).organizations@[*org_id]
                        },
                    ));
                }
                Ok(())
            },
        }
    }

    /// Moves the organization to `tier` with the tier's quota, updated now.
    pub fn update_tier(&mut self, org_id: &u128, tier: SubscriptionTier) -> (r: Result<(), OrgError>)
        ensures
            r is Ok <==> old(self).orgs_view().contains_key(*org_id),
            r is Err ==> r == Err::<(), OrgError>(OrgError::NotFound) && final(self).orgs_view() == old(
                self,
            ).orgs_view(),
            r is Ok ==> final(self).orgs_view().dom() == old(self).orgs_view().dom() && final(self).orgs_view()[*org_id]
                == (Organization {
                subscription_tier: tier,
                quota: tier_quota(tier),
                updated_at: final(self).orgs_view()[*org_id].updated_at,
                ..old(self).orgs_view()[*org_id]
            }) && forall|id: u128|
                id != *org_id && #[trigger] old(self).orgs_view().contains_key(id) ==> final(self).orgs_view()[id]
                    == old(self).orgs_view()[id],
            final(self).tree_view() == old(self).tree_view(),
    {
        let now = clock::now();
        self.update_tier_at(org_id, tier, now)
    }

    /// Removes an organization that has no children listed, and takes it
    /// off its parent's list; refused while children are listed under it.
    pub fn delete_organization(&mut self, org_id: &u128) -> (r: Result<(), OrgError>)
        ensures
            r is Err <==> list_or_empty(old(self).tree_view(), *org_id).len() > 0,
            r is Err ==> r == Err::<(), OrgError>(OrgError::HasChildren) && final(self).orgs_view() == old(
                self,
            ).orgs_view() && final(self).tree_view() == old(self).tree_view(),
            r is Ok ==> final(self).orgs_view() == old(self).orgs_view().remove(*org_id),
            r is Ok ==> match (if old(self).orgs_view().contains_key(*org_id) {
                old(self).orgs_view()[*org_id].parent_id
            } else {
                None
            }) {
                Some(p) => if old(self).tree_view().contains_key(p) {
                    &&& final(self).tree_view() == old(self).tree_view().insert(p, final(self).tree_view()[p])
                    &&& final(self).tree_view()[p]@ == without(old(self).tree_view()[p]@, *org_id)
                } else {
                    final(self).tree_view() == old(self).tree_view()
                },
                None => final(self).tree_view() == old(self).tree_view(),
            },
    {
        let has_children = match self.hierarchy.get(org_id) {
            Some(c) => c.len() > 0,
            None => false,
        };
        if has_children {
            return Err(OrgError::HasChildren);
        }
        let parent = match self.organizations.get(org_id) {
            Some(o) => o.parent_id,
            None => None,
        };
        match parent {
            Some(p) => match self.hierarchy.remove(&p) {
                Some(list) => {
                    let kept = retain_other(&list, *org_id);
                    self.hierarchy.insert(p, kept);
                    proof {
                        assert(self.hierarchy@ =~= old(self).hierarchy@.insert(p, self.hierarchy@[p]));
                    }
                },
                None => {},
            },
            None => {},
        }
        self.organizations.remove(org_id);
        Ok(())
    }
}

/// The ids other than `x`, in order.
fn retain_other(ids: &Vec<u128>, x: u128) -> (r: Vec<u128>)
    ensures
        r@ == without(ids@, x),
{
    let mut out: Vec<u128> = Vec::new();
    let mut i: usize = 0;
    while i < ids.len()
        invariant
            0 <= i <= ids@.len(),
            out@ == without(ids@.take(i as int), x),
        decreases ids.len() - i,
    {
        proof {
            assert(ids@.take(i + 1).drop_last() =~= ids@.take(i as int));
        }
        if ids[i] != x {
            out.push(ids[i]);
        }
        i = i + 1;
    }
    proof {
        assert(ids@.take(ids@.len() as int) =~= ids@);
    }
    out
}

impl Default for OrganizationManager {
    /// No organizations.
    fn default() -> (m: OrganizationManager)
        ensures
            m.orgs_view() == Map::<u128, Organization>::empty(),
            m.tree_view() == Map::<u128, Vec<u128>>::empty(),
    {
        OrganizationManager::new()
    }
}

/// What heads the subtree of one listed id stands in the subtrees of the
/// list.
proof fn lemma_subtrees_contain(orgs: Map<u128, Organization>, tree: Map<u128, Vec<u128>>, ids: Seq<u128>, k: nat, i: int)
    requires
        0 <= i < ids.len(),
        subtree(orgs, tree, ids[i], k).len() > 0,
    ensures
        subtrees(orgs, tree, ids, k).contains(subtree(orgs, tree, ids[i], k)[0]),
    decreases ids.len(),
{
    let head = subtree(orgs, tree, ids.last(), k);
    let rest = subtrees(orgs, tree, ids.drop_last(), k);
    assert(subtrees(orgs, tree, ids, k) == head + rest);
    if i == ids.len() - 1 {
        assert((head + rest)[0] == head[0]);
    } else {
        assert(ids.drop_last()[i] == ids[i]);
        lemma_subtrees_contain(orgs, tree, ids.drop_last(), k, i);
        let w = choose|w: int| 0 <= w < rest.len() && rest[w] == subtree(orgs, tree, ids[i], k)[0];
        assert((head + rest)[head.len() + w] == rest[w]);
    }
}

/// Each existing child listed under an organization belongs to the
/// organization's hierarchy, when no cycle is reachable from it: what
/// `get_children` gives is part of what `get_hierarchy` gives, which starts
/// with the organization itself.
pub proof fn lemma_children_in_hierarchy(m: &OrganizationManager, parent: u128, child: u128)
    requires
        depth_within(m.orgs_view(), m.tree_view(), parent, m.orgs_view().len()),
        m.orgs_view().contains_key(parent),
        m.orgs_view().contains_key(child),
        list_or_empty(m.tree_view(), parent).contains(child),
    ensures
        subtree(m.orgs_view(), m.tree_view(), parent, m.orgs_view().len())[0] == m.orgs_view()[parent],
        subtree(m.orgs_view(), m.tree_view(), parent, m.orgs_view().len()).contains(m.orgs_view()[child]),
{
    let orgs = m.orgs_view();
    let tree = m.tree_view();
    let k = orgs.len();
    let ch = list_or_empty(tree, parent);
    let i = choose|i: int| 0 <= i < ch.len() && ch[i] == child;
    assert(depth_within(orgs, tree, ch[i], (k - 1) as nat));
    let sub = subtree(orgs, tree, child, (k - 1) as nat);
    assert(sub[0] == orgs[child]);
    lemma_subtrees_contain(orgs, tree, ch, (k - 1) as nat, i);
    let rest = subtrees(orgs, tree, ch, (k - 1) as nat);
    let w = choose|w: int| 0 <= w < rest.len() && rest[w] == orgs[child];
    assert((seq![orgs[parent]] + rest)[1 + w] == rest[w]);
}

} // verus!
