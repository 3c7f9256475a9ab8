//! Per-organization resource usage and quotas.
use std::collections::HashMap;
use vstd::prelude::*;

verus! {

broadcast use vstd::std_specs::hash::group_hash_axioms;

/// Resources an organization currently uses.
#[derive(PartialEq, Eq, Structural, Clone, Copy, Debug)]
pub struct ResourceUsage {
    pub sites: u32,
    pub tunnels: u32,
    pub bandwidth_mbps: u32,
    pub users: u32,
}

impl ResourceUsage {
    pub open spec fn zero() -> ResourceUsage {
        ResourceUsage { sites: 0, tunnels: 0, bandwidth_mbps: 0, users: 0 }
    }
}

impl Default for ResourceUsage {
    fn default() -> (u: ResourceUsage)
        ensures
            u == ResourceUsage::zero(),
    {
        ResourceUsage { sites: 0, tunnels: 0, bandwidth_mbps: 0, users: 0 }
    }
}

/// Upper bounds on resources; `None` means unlimited.
#[derive(PartialEq, Eq, Structural, Clone, Copy, Debug)]
pub struct ResourceQuota {
    pub max_sites: Option<u32>,
    pub max_tunnels: Option<u32>,
    pub max_bandwidth_mbps: Option<u32>,
    pub max_users: Option<u32>,
}

/// Whether `current + additional` stays within `limit` (always, when there
/// is no limit).
pub open spec fn within(limit: Option<u32>, current: u32, additional: u32) -> bool {
    match limit {
        Some(max) => current + additional <= max,
        None => true,
    }
}

fn check_limit(limit: Option<u32>, current: u32, additional: u32) -> (b: bool)
    ensures
        b == within(limit, current, additional),
{
    match limit {
        Some(max) => (current as u64) + (additional as u64) <= max as u64,
        None => true,
    }
}

impl ResourceQuota {
    /// A quota without any limit.
    pub fn unlimited() -> (q: ResourceQuota)
        ensures
            q.max_sites is None,
            q.max_tunnels is None,
            q.max_bandwidth_mbps is None,
            q.max_users is None,
    {
        ResourceQuota { max_sites: None, max_tunnels: None, max_bandwidth_mbps: None, max_users: None }
    }

    /// Whether `additional` more sites fit beside `current` ones.
    pub fn check_sites(&self, current: u32, additional: u32) -> (b: bool)
        ensures
            b == within(self.max_sites, current, additional),
    {
        check_limit(self.max_sites, current, additional)
    }

    /// Whether `additional` more tunnels fit beside `current` ones.
    pub fn check_tunnels(&self, current: u32, additional: u32) -> (b: bool)
        ensures
            b == within(self.max_tunnels, current, additional),
    {
        check_limit(self.max_tunnels, current, additional)
    }

    /// Whether `additional` more Mbit/s fit beside `current` ones.
    pub fn check_bandwidth(&self, current: u32, additional: u32) -> (b: bool)
        ensures
            b == within(self.max_bandwidth_mbps, current, additional),
    {
        check_limit(self.max_bandwidth_mbps, current, additional)
    }

    /// Whether `additional` more users fit beside `current` ones.
    pub fn check_users(&self, current: u32, additional: u32) -> (b: bool)
        ensures
            b == within(self.max_users, current, additional),
    {
        check_limit(self.max_users, current, additional)
    }
}

/// The kind of resource a quota error is about.
#[derive(PartialEq, Eq, Structural, Clone, Copy, Debug)]
pub enum ResourceKind {
    Sites,
    Tunnels,
    Bandwidth,
    Users,
}

/// Why a quota request was refused.
#[derive(PartialEq, Eq, Structural, Clone, Copy, Debug)]
pub enum QuotaError {
    /// The organization has no quota.
    NoQuotaSet,
    /// The request would take usage to `requested`, beyond `max`.
    QuotaExceeded { kind: ResourceKind, requested: u64, max: Option<u32> },
    /// A bandwidth setting beyond the quota.
    BandwidthExceedsQuota { bandwidth: u32, limit: u32 },
}

pub open spec fn usage_of(kind: ResourceKind, u: ResourceUsage) -> u32 {
    match kind {
        ResourceKind::Sites => u.sites,
        ResourceKind::Tunnels => u.tunnels,
        ResourceKind::Bandwidth => u.bandwidth_mbps,
        ResourceKind::Users => u.users,
    }
}

pub open spec fn limit_of(kind: ResourceKind, q: ResourceQuota) -> Option<u32> {
    match kind {
        ResourceKind::Sites => q.max_sites,
        ResourceKind::Tunnels => q.max_tunnels,
        ResourceKind::Bandwidth => q.max_bandwidth_mbps,
        ResourceKind::Users => q.max_users,
    }
}

pub open spec fn with_usage(kind: ResourceKind, u: ResourceUsage, v: u32) -> ResourceUsage {
    match kind {
        ResourceKind::Sites => ResourceUsage { sites: v, ..u },
        ResourceKind::Tunnels => ResourceUsage { tunnels: v, ..u },
        ResourceKind::Bandwidth => ResourceUsage { bandwidth_mbps: v, ..u },
        ResourceKind::Users => ResourceUsage { users: v, ..u },
    }
}

/// The usage recorded for an organization, zero when none is recorded.
pub open spec fn usage_or_zero(m: Map<u128, ResourceUsage>, org: u128) -> ResourceUsage {
    if m.contains_key(org) {
        m[org]
    } else {
        ResourceUsage::zero()
    }
}

/// The outcome of asking for `additional` more of a resource.
pub open spec fn quota_check(
    usage: Map<u128, ResourceUsage>,
    quotas: Map<u128, ResourceQuota>,
    org: u128,
    kind: ResourceKind,
    additional: u32,
) -> Result<(), QuotaError> {
    let current = usage_of(kind, usage_or_zero(usage, org));
    if !quotas.contains_key(org) {
        Err(QuotaError::NoQuotaSet)
    } else if within(limit_of(kind, quotas[org]), current, additional) {
        Ok(())
    } else {
        Err(
            QuotaError::QuotaExceeded {
                kind,
                requested: (current + additional) as u64,
                max: limit_of(kind, quotas[org]),
            },
        )
    }
}

/// Keeps the usage and the quota of each organization.
pub struct IsolationManager {
    usage: HashMap<u128, ResourceUsage>,
    quotas: HashMap<u128, ResourceQuota>,
}

impl IsolationManager {
    pub closed spec fn usage_view(&self) -> Map<u128, ResourceUsage> {
        self.usage@
    }

    pub closed spec fn quota_view(&self) -> Map<u128, ResourceQuota> {
        self.quotas@
    }

    /// No usage and no quota.
    pub fn new() -> (m: IsolationManager)
        ensures
            m.usage_view() == Map::<u128, ResourceUsage>::empty(),
            m.quota_view() == Map::<u128, ResourceQuota>::empty(),
    {
        IsolationManager { usage: HashMap::new(), quotas: HashMap::new() }
    }

    /// Sets (or replaces) the quota of an organization.
    pub fn set_quota(&mut self, org_id: u128, quota: ResourceQuota)
        ensures
            final(self).quota_view() == old(self).quota_view().insert(org_id, quota),
            final(self).usage_view() == old(self).usage_view(),
    {
        self.quotas.insert(org_id, quota);
    }

    /// The recorded usage, zero when none is recorded.
    pub fn get_usage(&self, org_id: &u128) -> (u: ResourceUsage)
        ensures
            u == usage_or_zero(self.usage_view(), *org_id),
    {
        match self.usage.get(org_id) {
            Some(u) => *u,
            None => ResourceUsage::default(),
        }
    }

    /// The quota, if one is set.
    pub fn get_quota(&self, org_id: &u128) -> (q: Option<ResourceQuota>)
        ensures
            q == (if self.quota_view().contains_key(*org_id) {
                Some(self.quota_view()[*org_id])
            } else {
                None::<ResourceQuota>
            }),
    {
        match self.quotas.get(org_id) {
            Some(q) => Some(*q),
            None => None,
        }
    }

    fn check_quota(&self, org_id: &u128, kind: ResourceKind, additional: u32) -> (r: Result<
        (),
        QuotaError,
    >)
        ensures
            r == quota_check(self.usage_view(), self.quota_view(), *org_id, kind, additional),
    {
        let usage = self.get_usage(org_id);
        let current = match kind {
            ResourceKind::Sites => usage.sites,
            ResourceKind::Tunnels => usage.tunnels,
            ResourceKind::Bandwidth => usage.bandwidth_mbps,
            ResourceKind::Users => usage.users,
        };
        match self.quotas.get(org_id) {
            None => Err(QuotaError::NoQuotaSet),
            Some(quota) => {
                let limit = match kind {
                    ResourceKind::Sites => quota.max_sites,
                    ResourceKind::Tunnels => quota.max_tunnels,
                    ResourceKind::Bandwidth => quota.max_bandwidth_mbps,
                    ResourceKind::Users => quota.max_users,
                };
                if check_limit(limit, current, additional) {
                    Ok(())
                } else {
                    Err(
                        QuotaError::QuotaExceeded {
                            kind,
                            requested: current as u64 + additional as u64,
                            max: limit,
                        },
                    )
                }
            },
        }
    }

    /// Whether `additional` more sites fit the organization's quota.
    pub fn check_site_quota(&self, org_id: &u128, additional: u32) -> (r: Result<(), QuotaError>)
        ensures
            r == quota_check(
                self.usage_view(),
                self.quota_view(),
                *org_id,
                ResourceKind::Sites,
                additional,
            ),
    {
        self.check_quota(org_id, ResourceKind::Sites, additional)
    }

    /// Whether `additional` more tunnels fit the organization's quota.
    pub fn check_tunnel_quota(&self, org_id: &u128, additional: u32) -> (r: Result<(), QuotaError>)
        ensures
            r == quota_check(
                self.usage_view(),
                self.quota_view(),
                *org_id,
                ResourceKind::Tunnels,
                additional,
            ),
    {
        self.check_quota(org_id, ResourceKind::Tunnels, additional)
    }

    /// Whether `additional` more Mbit/s fit the organization's quota.
    pub fn check_bandwidth_quota(&self, org_id: &u128, additional: u32) -> (r: Result<
        (),
        QuotaError,
    >)
        ensures
            r == quota_check(
                self.usage_view(),
                self.quota_view(),
                *org_id,
                ResourceKind::Bandwidth,
                additional,
            ),
    {
        self.check_quota(org_id, ResourceKind::Bandwidth, additional)
    }

    /// Whether `additional` more users fit the organization's quota.
    pub fn check_user_quota(&self, org_id: &u128, additional: u32) -> (r: Result<(), QuotaError>)
        ensures
            r == quota_check(
                self.usage_view(),
                self.quota_view(),
                *org_id,
                ResourceKind::Users,
                additional,
            ),
    {
        self.check_quota(org_id, ResourceKind::Users, additional)
    }

    fn increment(&mut self, org_id: u128, kind: ResourceKind, count: u32) -> (r: Result<
        (),
        QuotaError,
    >)
        requires
            usage_of(kind, usage_or_zero(old(self).usage_view(), org_id)) + count <= u32::MAX,
        ensures
            r == quota_check(old(self).usage_view(), old(self).quota_view(), org_id, kind, count),
            r is Ok ==> final(self).usage_view() == old(self).usage_view().insert(
                org_id,
                with_usage(
                    kind,
                    usage_or_zero(old(self).usage_view(), org_id),
                    (usage_of(kind, usage_or_zero(old(self).usage_view(), org_id)) + count) as u32,
                ),
            ),
            r is Err ==> final(self).usage_view() == old(self).usage_view(),
            final(self).quota_view() == old(self).quota_view(),
    {
        let r = self.check_quota(&org_id, kind, count);
        if r.is_err() {
            return r;
        }
        let mut u = self.get_usage(&org_id);
        match kind {
            ResourceKind::Sites => { u.sites = u.sites + count; },
            ResourceKind::Tunnels => { u.tunnels = u.tunnels + count; },
            ResourceKind::Bandwidth => { u.bandwidth_mbps = u.bandwidth_mbps + count; },
            ResourceKind::Users => { u.users = u.users + count; },
        }
        self.usage.insert(org_id, u);
        Ok(())
    }

    /// Adds `count` sites when the quota allows it; a site count above the
    /// quota's limit is never recorded.
    pub fn increment_sites(&mut self, org_id: u128, count: u32) -> (r: Result<(), QuotaError>)
        requires
            usage_or_zero(old(self).usage_view(), org_id).sites + count <= u32::MAX,
        ensures
            r == quota_check(
                old(self).usage_view(),
                old(self).quota_view(),
                org_id,
                ResourceKind::Sites,
                count,
            ),
            r is Ok ==> final(self).usage_view() == old(self).usage_view().insert(
                org_id,
                ResourceUsage {
                    sites: (usage_or_zero(old(self).usage_view(), org_id).sites + count) as u32,
                    ..usage_or_zero(old(self).usage_view(), org_id)
                },
            ),
            r is Ok ==> (old(self).quota_view()[org_id].max_sites matches Some(max) ==>
                final(self).usage_view()[org_id].sites <= max),
            r is Err ==> final(self).usage_view() == old(self).usage_view(),
            final(self).quota_view() == old(self).quota_view(),
    {
        self.increment(org_id, ResourceKind::Sites, count)
    }

    /// Adds `count` tunnels when the quota allows it.
    pub fn increment_tunnels(&mut self, org_id: u128, count: u32) -> (r: Result<(), QuotaError>)
        requires
            usage_or_zero(old(self).usage_view(), org_id).tunnels + count <= u32::MAX,
        ensures
            r == quota_check(
                old(self).usage_view(),
                old(self).quota_view(),
                org_id,
                ResourceKind::Tunnels,
                count,
            ),
            r is Ok ==> final(self).usage_view() == old(self).usage_view().insert(
                org_id,
                ResourceUsage {
                    tunnels: (usage_or_zero(old(self).usage_view(), org_id).tunnels + count) as u32,
                    ..usage_or_zero(old(self).usage_view(), org_id)
                },
            ),
            r is Ok ==> (old(self).quota_view()[org_id].max_tunnels matches Some(max) ==>
                final(self).usage_view()[org_id].tunnels <= max),
            r is Err ==> final(self).usage_view() == old(self).usage_view(),
            final(self).quota_view() == old(self).quota_view(),
    {
        self.increment(org_id, ResourceKind::Tunnels, count)
    }

    /// Adds `count` users when the quota allows it.
    pub fn increment_users(&mut self, org_id: u128, count: u32) -> (r: Result<(), QuotaError>)
        requires
            usage_or_zero(old(self).usage_view(), org_id).users + count <= u32::MAX,
        ensures
            r == quota_check(
                old(self).usage_view(),
                old(self).quota_view(),
                org_id,
                ResourceKind::Users,
                count,
            ),
            r is Ok ==> final(self).usage_view() == old(self).usage_view().insert(
                org_id,
                ResourceUsage {
                    users: (usage_or_zero(old(self).usage_view(), org_id).users + count) as u32,
                    ..usage_or_zero(old(self).usage_view(), org_id)
                },
            ),
            r is Ok ==> (old(self).quota_view()[org_id].max_users matches Some(max) ==>
                final(self).usage_view()[org_id].users <= max),
            r is Err ==> final(self).usage_view() == old(self).usage_view(),
            final(self).quota_view() == old(self).quota_view(),
    {
        self.increment(org_id, ResourceKind::Users, count)
    }

    fn decrement(&mut self, org_id: u128, kind: ResourceKind, count: u32)
        ensures
            old(self).usage_view().contains_key(org_id) ==> final(self).usage_view()
                == old(self).usage_view().insert(
                org_id,
                with_usage(
                    kind,
                    old(self).usage_view()[org_id],
                    if usage_of(kind, old(self).usage_view()[org_id]) >= count {
                        (usage_of(kind, old(self).usage_view()[org_id]) - count) as u32
                    } else {
                        0
                    },
                ),
            ),
            !old(self).usage_view().contains_key(org_id) ==> final(self).usage_view() == old(
                self,
            ).usage_view(),
            final(self).quota_view() == old(self).quota_view(),
    {
        match self.usage.get(&org_id) {
            None => {},
            Some(cur) => {
                let mut u = *cur;
                match kind {
                    ResourceKind::Sites => { u.sites = u.sites.saturating_sub(count); },
                    ResourceKind::Tunnels => { u.tunnels = u.tunnels.saturating_sub(count); },
                    ResourceKind::Bandwidth => {
                        u.bandwidth_mbps = u.bandwidth_mbps.saturating_sub(count);
                    },
                    ResourceKind::Users => { u.users = u.users.saturating_sub(count); },
                }
                self.usage.insert(org_id, u);
            },
        }
    }

    /// Removes `count` sites, stopping at zero; nothing happens for an
    /// organization without recorded usage.
    pub fn decrement_sites(&mut self, org_id: u128, count: u32)
        ensures
            old(self).usage_view().contains_key(org_id) ==> final(self).usage_view()
                == old(self).usage_view().insert(
                org_id,
                ResourceUsage {
                    sites: if old(self).usage_view()[org_id].sites >= count {
                        (old(self).usage_view()[org_id].sites - count) as u32
                    } else {
                        0
                    },
                    ..old(self).usage_view()[org_id]
                },
            ),
            !old(self).usage_view().contains_key(org_id) ==> final(self).usage_view() == old(
                self,
            ).usage_view(),
            final(self).quota_view() == old(self).quota_view(),
    {
        self.decrement(org_id, ResourceKind::Sites, count)
    }

    /// Removes `count` tunnels, stopping at zero.
    pub fn decrement_tunnels(&mut self, org_id: u128, count: u32)
        ensures
            old(self).usage_view().contains_key(org_id) ==> final(self).usage_view()
                == old(self).usage_view().insert(
                org_id,
                ResourceUsage {
                    tunnels: if old(self).usage_view()[org_id].tunnels >= count {
                        (old(self).usage_view()[org_id].tunnels - count) as u32
                    } else {
                        0
                    },
                    ..old(self).usage_view()[org_id]
                },
            ),
            !old(self).usage_view().contains_key(org_id) ==> final(self).usage_view() == old(
                self,
            ).usage_view(),
            final(self).quota_view() == old(self).quota_view(),
    {
        self.decrement(org_id, ResourceKind::Tunnels, count)
    }

    /// Removes `count` users, stopping at zero.
    pub fn decrement_users(&mut self, org_id: u128, count: u32)
        ensures
            old(self).usage_view().contains_key(org_id) ==> final(self).usage_view()
                == old(self).usage_view().insert(
                org_id,
                ResourceUsage {
                    users: if old(self).usage_view()[org_id].users >= count {
                        (old(self).usage_view()[org_id].users - count) as u32
                    } else {
                        0
                    },
                    ..old(self).usage_view()[org_id]
                },
            ),
            !old(self).usage_view().contains_key(org_id) ==> final(self).usage_view() == old(
                self,
            ).usage_view(),
            final(self).quota_view() == old(self).quota_view(),
    {
        self.decrement(org_id, ResourceKind::Users, count)
    }

    /// Sets the bandwidth in use, when a quota is set and allows it.
    pub fn set_bandwidth(&mut self, org_id: u128, bandwidth_mbps: u32) -> (r: Result<(), QuotaError>)
        ensures
            !old(self).quota_view().contains_key(org_id) ==> r == Err::<(), QuotaError>(
                QuotaError::NoQuotaSet,
            ),
            old(self).quota_view().contains_key(org_id) ==> match old(
                self,
            ).quota_view()[org_id].max_bandwidth_mbps {
                Some(max) if bandwidth_mbps > max => r == Err::<(), QuotaError>(
                    QuotaError::BandwidthExceedsQuota { bandwidth: bandwidth_mbps, limit: max },
                ),
                _ => r == Ok::<(), QuotaError>(()),
            },
            r is Ok ==> final(self).usage_view() == old(self).usage_view().insert(
                org_id,
                ResourceUsage {
                    bandwidth_mbps,
                    ..usage_or_zero(old(self).usage_view(), org_id)
                },
            ),
            r is Err ==> final(self).usage_view() == old(self).usage_view(),
            final(self).quota_view() == old(self).quota_view(),
    {
        match self.quotas.get(&org_id) {
            None => {
                return Err(QuotaError::NoQuotaSet);
            },
            Some(quota) => {
                match quota.max_bandwidth_mbps {
                    Some(max) => {
                        if bandwidth_mbps > max {
                            return Err(
                                QuotaError::BandwidthExceedsQuota { bandwidth: bandwidth_mbps, limit: max },
                            );
                        }
                    },
                    None => {},
                }
            },
        }
        let mut u = self.get_usage(&org_id);
        u.bandwidth_mbps = bandwidth_mbps;
        self.usage.insert(org_id, u);
        Ok(())
    }
}

impl Default for IsolationManager {
    fn default() -> (m: IsolationManager)
        ensures
            m.usage_view() == Map::<u128, ResourceUsage>::empty(),
            m.quota_view() == Map::<u128, ResourceQuota>::empty(),
    {
        IsolationManager::new()
    }
}

/// An increment that the quota check lets through never leaves the usage
/// above a limited quota.
pub proof fn lemma_checked_increment_within_quota(
    usage: Map<u128, ResourceUsage>,
    quotas: Map<u128, ResourceQuota>,
    org: u128,
    kind: ResourceKind,
    count: u32,
)
    requires
        quota_check(usage, quotas, org, kind, count) is Ok,
    ensures
        quotas.contains_key(org),
        limit_of(kind, quotas[org]) matches Some(max) ==> usage_of(kind, usage_or_zero(usage, org))
            + count <= max,
{
}

} // verus!
