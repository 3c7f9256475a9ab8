//! SD-WAN as a service: tenants, their subscriptions and tiers, and what
//! a tier allows.
use vstd::prelude::*;
use crate::clock;
use crate::ids::new_v4;
use crate::text::owned;

verus! {

#[derive(PartialEq, Eq, Structural, Clone, Copy, Debug)]
pub enum SubscriptionTier {
    Free,
    Starter,
    Professional,
    Enterprise,
}

/// How many sites a tier allows: 2, 10, 100, or any number.
pub open spec fn tier_max_sites(t: SubscriptionTier) -> usize {
    match t {
        SubscriptionTier::Free => 2,
        SubscriptionTier::Starter => 10,
        SubscriptionTier::Professional => 100,
        SubscriptionTier::Enterprise => usize::MAX,
    }
}

/// The name of a tier, as `{:?}` writes it.
pub open spec fn tier_name(t: SubscriptionTier) -> Seq<char> {
    match t {
        SubscriptionTier::Free => "Free"@,
        SubscriptionTier::Starter => "Starter"@,
        SubscriptionTier::Professional => "Professional"@,
        SubscriptionTier::Enterprise => "Enterprise"@,
    }
}

impl SubscriptionTier {
    /// How many sites the tier allows.
    pub fn max_sites(&self) -> (n: usize)
        ensures
            n == tier_max_sites(*self),
    {
        match self {
            SubscriptionTier::Free => 2,
            SubscriptionTier::Starter => 10,
            SubscriptionTier::Professional => 100,
            SubscriptionTier::Enterprise => usize::MAX,
        }
    }

    /// The name of the tier, as `{:?}` writes it.
    pub fn name(&self) -> (r: String)
        ensures
            r@ == tier_name(*self),
    {
        match self {
            SubscriptionTier::Free => owned("Free"),
            SubscriptionTier::Starter => owned("Starter"),
            SubscriptionTier::Professional => owned("Professional"),
            SubscriptionTier::Enterprise => owned("Enterprise"),
        }
    }
}

/// A tenant's subscription to a tier.
#[derive(PartialEq, Eq, Structural, Clone, Copy, Debug)]
pub struct Subscription {
    pub id: u128,
    pub tenant_id: u128,
    pub tier: SubscriptionTier,
    /// In seconds since the Unix epoch.
    pub created_at: i64,
    /// In seconds since the Unix epoch; `None` never expires.
    pub expires_at: Option<i64>,
    pub active: bool,
}

/// Whether a subscription has expired at time `now`.
pub open spec fn expired_at(s: Subscription, now: i64) -> bool {
    match s.expires_at {
        Some(e) => e < now,
        None => false,
    }
}

/// Whether a subscription is in force at time `now`: active and not
/// expired.
pub open spec fn active_at(s: Subscription, now: i64) -> bool {
    s.active && !expired_at(s, now)
}

impl Subscription {
    /// A new active subscription with a fresh random id, created now,
    /// without expiry.
    pub fn new(tenant_id: u128, tier: SubscriptionTier) -> (s: Subscription)
        ensures
            s.tenant_id == tenant_id,
            s.tier == tier,
            s.expires_at is None,
            s.active,
    {
        Subscription {
            id: new_v4(),
            tenant_id,
            tier,
            created_at: clock::now(),
            expires_at: None,
            active: true,
        }
    }

    /// Whether it has expired at time `now`.
    pub fn is_expired_at(&self, now: i64) -> (b: bool)
        ensures
            b == expired_at(*self, now),
    {
        match self.expires_at {
            Some(e) => e < now,
            None => false,
        }
    }

    /// Whether it has expired by now.
    pub fn is_expired(&self) -> (b: bool)
        ensures
            self.expires_at is None ==> !b,
    {
        self.is_expired_at(clock::now())
    }

    /// Whether it is in force at time `now`.
    pub fn is_active_at(&self, now: i64) -> (b: bool)
        ensures
            b == active_at(*self, now),
    {
        self.active && !self.is_expired_at(now)
    }

    /// Whether it is in force now.
    pub fn is_active(&self) -> (b: bool)
        ensures
            !self.active ==> !b,
            self.active && self.expires_at is None ==> b,
    {
        self.is_active_at(clock::now())
    }
}

/// A customer of the platform.
#[derive(Clone, Debug)]
pub struct Tenant {
    pub id: u128,
    pub name: String,
    pub email: String,
    /// In seconds since the Unix epoch.
    pub created_at: i64,
    pub subscription_id: Option<u128>,
}

impl Tenant {
    /// A new tenant with a fresh random id, created now, without
    /// subscription.
    pub fn new(name: String, email: String) -> (t: Tenant)
        ensures
            t.name == name,
            t.email == email,
            t.subscription_id is None,
    {
        Tenant { id: new_v4(), name, email, created_at: clock::now(), subscription_id: None }
    }
}

/// How many tenants there are and how many subscriptions are in force,
/// with the number in force per tier, by the tier's name, in the order of
/// the tiers and only for tiers that have one.
#[derive(Clone, Debug)]
pub struct PlatformStats {
    pub total_tenants: usize,
    pub active_subscriptions: usize,
    pub tier_distribution: Vec<(String, usize)>,
}

/// The position of the tenant with that id.
pub open spec fn tenant_pos(ts: Seq<Tenant>, id: u128) -> Option<int>
    decreases ts.len(),
{
    if ts.len() == 0 {
        None
    } else if ts.last().id == id {
        Some(ts.len() - 1)
    } else {
        tenant_pos(ts.drop_last(), id)
    }
}

/// The position of the subscription with that id.
pub open spec fn sub_pos(ss: Seq<Subscription>, id: u128) -> Option<int>
    decreases ss.len(),
{
    if ss.len() == 0 {
        None
    } else if ss.last().id == id {
        Some(ss.len() - 1)
    } else {
        sub_pos(ss.drop_last(), id)
    }
}

proof fn lemma_tenant_pos(ts: Seq<Tenant>, id: u128)
    ensures
        match tenant_pos(ts, id) {
            Some(k) => 0 <= k < ts.len() && ts[k].id == id,
            None => forall|j: int| 0 <= j < ts.len() ==> (#[trigger] ts[j]).id != id,
        },
    decreases ts.len(),
{
    if ts.len() > 0 {
        lemma_tenant_pos(ts.drop_last(), id);
        if ts.last().id != id {
            match tenant_pos(ts.drop_last(), id) {
                Some(k) => {
                    assert(ts.drop_last()[k] == ts[k]);
                },
                None => {
                    assert forall|j: int| 0 <= j < ts.len() implies (#[trigger] ts[j]).id != id by {
                        if j < ts.len() - 1 {
                            assert(ts.drop_last()[j] == ts[j]);
                        }
                    }
                },
            }
        }
    }
}

proof fn lemma_sub_pos(ss: Seq<Subscription>, id: u128)
    ensures
        match sub_pos(ss, id) {
            Some(k) => 0 <= k < ss.len() && ss[k].id == id,
            None => forall|j: int| 0 <= j < ss.len() ==> (#[trigger] ss[j]).id != id,
        },
    decreases ss.len(),
{
    if ss.len() > 0 {
        lemma_sub_pos(ss.drop_last(), id);
        if ss.last().id != id {
            match sub_pos(ss.drop_last(), id) {
                Some(k) => {
                    assert(ss.drop_last()[k] == ss[k]);
                },
                None => {
                    assert forall|j: int| 0 <= j < ss.len() implies (#[trigger] ss[j]).id != id by {
                        if j < ss.len() - 1 {
                            assert(ss.drop_last()[j] == ss[j]);
                        }
                    }
                },
            }
        }
    }
}

/// The tier of the subscription in force for a tenant at time `now`: the
/// tenant exists, has a subscription, the subscription exists and is in
/// force.
pub open spec fn quota_tier_spec(ts: Seq<Tenant>, ss: Seq<Subscription>, tenant_id: u128, now: i64) -> Option<
    SubscriptionTier,
> {
    match tenant_pos(ts, tenant_id) {
        Some(k) => match ts[k].subscription_id {
            Some(sid) => match sub_pos(ss, sid) {
                Some(j) => if active_at(ss[j], now) {
                    Some(ss[j].tier)
                } else {
                    None
                },
                None => None,
            },
            None => None,
        },
        None => None,
    }
}

/// Whether a tenant's subscription is in force at time `now`.
pub open spec fn tenant_active(t: Tenant, ss: Seq<Subscription>, now: i64) -> bool {
    match t.subscription_id {
        Some(sid) => match sub_pos(ss, sid) {
            Some(j) => active_at(ss[j], now),
            None => false,
        },
        None => false,
    }
}

/// The tenants whose subscription is in force, in order.
pub open spec fn active_tenants_spec(ts: Seq<Tenant>, ss: Seq<Subscription>, now: i64) -> Seq<Tenant>
    decreases ts.len(),
{
    if ts.len() == 0 {
        Seq::empty()
    } else if tenant_active(ts.last(), ss, now) {
        active_tenants_spec(ts.drop_last(), ss, now).push(ts.last())
    } else {
        active_tenants_spec(ts.drop_last(), ss, now)
    }
}

/// How many subscriptions of the tier (any tier, for `None`) are in force.
pub open spec fn count_active(ss: Seq<Subscription>, tier: Option<SubscriptionTier>, now: i64) -> nat
    decreases ss.len(),
{
    if ss.len() == 0 {
        0
    } else {
        count_active(ss.drop_last(), tier, now) + if active_at(ss.last(), now) && (tier is None || tier
            == Some(ss.last().tier)) {
            1nat
        } else {
            0nat
        }
    }
}

/// The entry of a tier in the distribution: its name and number in force,
/// when there is one.
pub open spec fn tier_entry(ss: Seq<Subscription>, t: SubscriptionTier, now: i64) -> Seq<(Seq<char>, nat)> {
    if count_active(ss, Some(t), now) > 0 {
        seq![(tier_name(t), count_active(ss, Some(t), now))]
    } else {
        Seq::empty()
    }
}

/// The number in force per tier, by name, for the tiers that have one.
pub open spec fn distribution_spec(ss: Seq<Subscription>, now: i64) -> Seq<(Seq<char>, nat)> {
    tier_entry(ss, SubscriptionTier::Free, now) + tier_entry(ss, SubscriptionTier::Starter, now) + tier_entry(
        ss,
        SubscriptionTier::Professional,
        now,
    ) + tier_entry(ss, SubscriptionTier::Enterprise, now)
}

/// Keeps tenants and subscriptions, each under a unique id.
pub struct SaaSPlatform {
    tenants: Vec<Tenant>,
    subscriptions: Vec<Subscription>,
}

impl SaaSPlatform {
    pub closed spec fn tenants_view(&self) -> Seq<Tenant> {
        self.tenants@
    }

    pub closed spec fn subs_view(&self) -> Seq<Subscription> {
        self.subscriptions@
    }

    /// No tenants, no subscriptions.
    pub fn new() -> (p: SaaSPlatform)
        ensures
            p.tenants_view().len() == 0,
            p.subs_view().len() == 0,
    {
        SaaSPlatform { tenants: Vec::new(), subscriptions: Vec::new() }
    }

    fn find_tenant(&self, id: u128) -> (r: Option<usize>)
        ensures
            match r {
                Some(k) => tenant_pos(self.tenants@, id) == Some(k as int),
                None => tenant_pos(self.tenants@, id) is None,
            },
    {
        let mut i: usize = self.tenants.len();
        proof {
            assert(self.tenants@.take(i as int) =~= self.tenants@);
        }
        while i > 0
            invariant
                0 <= i <= self.tenants@.len(),
                tenant_pos(self.tenants@, id) == tenant_pos(self.tenants@.take(i as int), id),
            decreases i,
        {
            proof {
                assert(self.tenants@.take(i as int).drop_last() =~= self.tenants@.take(i - 1));
            }
            if self.tenants[i - 1].id == id {
                return Some(i - 1);
            }
            i = i - 1;
        }
        None
    }

    fn find_sub(&self, id: u128) -> (r: Option<usize>)
        ensures
            match r {
                Some(k) => sub_pos(self.subscriptions@, id) == Some(k as int),
                None => sub_pos(self.subscriptions@, id) is None,
            },
    {
        let mut i: usize = self.subscriptions.len();
        proof {
            assert(self.subscriptions@.take(i as int) =~= self.subscriptions@);
        }
        while i > 0
            invariant
                0 <= i <= self.subscriptions@.len(),
                sub_pos(self.subscriptions@, id) == sub_pos(self.subscriptions@.take(i as int), id),
            decreases i,
        {
            proof {
                assert(self.subscriptions@.take(i as int).drop_last() =~= self.subscriptions@.take(i - 1));
            }
            if self.subscriptions[i - 1].id == id {
                return Some(i - 1);
            }
            i = i - 1;
        }
        None
    }

    /// Adds a new tenant, replacing one with the same id, and hands back its
    /// id.
    pub fn create_tenant(&mut self, name: String, email: String) -> (id: u128)
        ensures
            tenant_pos(final(self).tenants_view(), id) matches Some(k) && final(self).tenants_view()[k].name
                == name && final(self).tenants_view()[k].email == email
                && final(self).tenants_view()[k].subscription_id is None && final(self).tenants_view()[k].id == id,
            match tenant_pos(old(self).tenants_view(), id) {
                Some(k) => final(self).tenants_view() == old(self).tenants_view().update(
                    k,
                    final(self).tenants_view()[k],
                ),
                None => final(self).tenants_view() == old(self).tenants_view().push(final(self).tenants_view().last()),
            },
            final(self).subs_view() == old(self).subs_view(),
    {
        let t = Tenant::new(name, email);
        let id = t.id;
        proof {
            lemma_tenant_pos(self.tenants@, id);
        }
        match self.find_tenant(id) {
            Some(k) => {
                proof {
                    lemma_tenant_pos(self.tenants@, id);
                }
                self.tenants.set(k, t);
                proof {
                    assert(tenant_pos(self.tenants@, id) == Some(k as int)) by {
                        assert(self.tenants@ =~= old(self).tenants@.update(k as int, self.tenants@[k as int]));
                        lemma_tenant_pos_update(old(self).tenants@, id, k as int, self.tenants@[k as int]);
                    }
                    assert(self.tenants@ =~= old(self).tenants@.update(k as int, self.tenants@[k as int]));
                }
            },
            None => {
                self.tenants.push(t);
                proof {
                    assert(self.tenants@.drop_last() =~= old(self).tenants@);
                    assert(self.tenants@ =~= old(self).tenants@.push(self.tenants@.last()));
                }
            },
        }
        proof {
            lemma_tenant_pos(self.tenants@, id);
        }
        id
    }

    /// The tenant with that id.
    pub fn get_tenant(&self, id: &u128) -> (r: Option<&Tenant>)
        ensures
            match tenant_pos(self.tenants_view(), *id) {
                Some(k) => r == Some(&self.tenants_view()[k]),
                None => r is None,
            },
    {
        proof {
            lemma_tenant_pos(self.tenants@, *id);
        }
        match self.find_tenant(*id) {
            Some(k) => Some(&self.tenants[k]),
            None => None,
        }
    }

    /// Subscribes an existing tenant to a tier: the new subscription is
    /// stored and becomes the tenant's; none for an unknown tenant.
    pub fn create_subscription(&mut self, tenant_id: u128, tier: SubscriptionTier) -> (r: Option<u128>)
        ensures
            r is Some <==> tenant_pos(old(self).tenants_view(), tenant_id) is Some,
            r is None ==> final(self).tenants_view() == old(self).tenants_view() && final(self).subs_view() == old(
                self,
            ).subs_view(),
            r matches Some(sid) ==> forall|now: i64|
                #[trigger] quota_tier_spec(final(self).tenants_view(), final(self).subs_view(), tenant_id, now)
                    == Some(tier),
            r matches Some(sid) ==> sub_pos(final(self).subs_view(), sid) matches Some(j)
                && final(self).subs_view()[j].tier == tier && final(self).subs_view()[j].tenant_id == tenant_id,
            r matches Some(sid) ==> tenant_pos(old(self).tenants_view(), tenant_id) matches Some(k)
                && final(self).tenants_view() == old(self).tenants_view().update(
                k,
                Tenant { subscription_id: Some(sid), ..old(self).tenants_view()[k] },
            ),
            r matches Some(sid) ==> match sub_pos(old(self).subs_view(), sid) {
                Some(j) => final(self).subs_view() == old(self).subs_view().update(j, final(self).subs_view()[j]),
                None => final(self).subs_view() == old(self).subs_view().push(final(self).subs_view().last()),
            },
    {
        let sub = Subscription::new(tenant_id, tier);
        let sid = sub.id;
        proof {
            lemma_tenant_pos(self.tenants@, tenant_id);
        }
        match self.find_tenant(tenant_id) {
            None => None,
            Some(k) => {
                let mut t = self.tenants.remove(k);
                t.subscription_id = Some(sid);
                self.tenants.insert(k, t);
                proof {
                    assert(self.tenants@ =~= old(self).tenants@.update(k as int, self.tenants@[k as int]));
                    lemma_tenant_pos_update(old(self).tenants@, tenant_id, k as int, self.tenants@[k as int]);
                    lemma_sub_pos(self.subscriptions@, sid);
                }
                match self.find_sub(sid) {
                    Some(j) => {
                        let ghost before = self.subscriptions@;
                        self.subscriptions.set(j, sub);
                        proof {
                            assert(self.subscriptions@ =~= before.update(j as int, sub));
                            lemma_sub_pos_update(before, sid, j as int, sub);
                        }
                    },
                    None => {
                        let ghost before = self.subscriptions@;
                        self.subscriptions.push(sub);
                        proof {
                            assert(self.subscriptions@.drop_last() =~= before);
                            assert(self.subscriptions@ =~= before.push(self.subscriptions@.last()));
                        }
                    },
                }
                Some(sid)
            },
        }
    }

    /// The subscription with that id.
    pub fn get_subscription(&self, id: &u128) -> (r: Option<&Subscription>)
        ensures
            match sub_pos(self.subs_view(), *id) {
                Some(k) => r == Some(&self.subs_view()[k]),
                None => r is None,
            },
    {
        proof {
            lemma_sub_pos(self.subscriptions@, *id);
        }
        match self.find_sub(*id) {
            Some(k) => Some(&self.subscriptions[k]),
            None => None,
        }
    }

    /// Moves a subscription to another tier; false for an unknown one.
    pub fn upgrade_subscription(&mut self, subscription_id: &u128, new_tier: SubscriptionTier) -> (b: bool)
        ensures
            b <==> sub_pos(old(self).subs_view(), *subscription_id) is Some,
            match sub_pos(old(self).subs_view(), *subscription_id) {
                Some(k) => final(self).subs_view() == old(self).subs_view().update(
                    k,
                    Subscription { tier: new_tier, ..old(self).subs_view()[k] },
                ),
                None => final(self).subs_view() == old(self).subs_view(),
            },
            final(self).tenants_view() == old(self).tenants_view(),
    {
        proof {
            lemma_sub_pos(self.subscriptions@, *subscription_id);
        }
        match self.find_sub(*subscription_id) {
            Some(k) => {
                let mut s = self.subscriptions[k];
                s.tier = new_tier;
                self.subscriptions.set(k, s);
                true
            },
            None => false,
        }
    }

    /// Ends a subscription; false for an unknown one.
    pub fn cancel_subscription(&mut self, subscription_id: &u128) -> (b: bool)
        ensures
            b <==> sub_pos(old(self).subs_view(), *subscription_id) is Some,
            match sub_pos(old(self).subs_view(), *subscription_id) {
                Some(k) => final(self).subs_view() == old(self).subs_view().update(
                    k,
                    Subscription { active: false, ..old(self).subs_view()[k] },
                ),
                None => final(self).subs_view() == old(self).subs_view(),
            },
            final(self).tenants_view() == old(self).tenants_view(),
    {
        proof {
            lemma_sub_pos(self.subscriptions@, *subscription_id);
        }
        match self.find_sub(*subscription_id) {
            Some(k) => {
                let mut s = self.subscriptions[k];
                s.active = false;
                self.subscriptions.set(k, s);
                true
            },
            None => false,
        }
    }

    /// The tier whose limits a tenant's requests are held to at time `now`:
    /// that of its subscription, when it is in force.
    pub fn quota_tier_at(&self, tenant_id: &u128, now: i64) -> (r: Option<SubscriptionTier>)
        ensures
            r == quota_tier_spec(self.tenants_view(), self.subs_view(), *tenant_id, now),
    {
        proof {
            lemma_tenant_pos(self.tenants@, *tenant_id);
        }
        match self.find_tenant(*tenant_id) {
            None => None,
            Some(k) => match self.tenants[k].subscription_id {
                None => None,
                Some(sid) => {
                    proof {
                        lemma_sub_pos(self.subscriptions@, sid);
                    }
                    match self.find_sub(sid) {
                        None => None,
                        Some(j) => {
                            let s = &self.subscriptions[j];
                            if s.is_active_at(now) {
                                Some(s.tier)
                            } else {
                                None
                            }
                        },
                    }
                },
            },
        }
    }

    /// Whether a tenant may have `sites` sites at time `now`: it has a
    /// subscription in force whose tier allows that many.
    pub fn check_sites_at(&self, tenant_id: &u128, sites: usize, now: i64) -> (b: bool)
        ensures
            b == (quota_tier_spec(self.tenants_view(), self.subs_view(), *tenant_id, now) matches Some(t)
                && sites <= tier_max_sites(t)),
    {
        match self.quota_tier_at(tenant_id, now) {
            Some(t) => sites <= t.max_sites(),
            None => false,
        }
    }

    /// The tenants whose subscription is in force at time `now`, in order.
    pub fn list_active_tenants_at(&self, now: i64) -> (r: Vec<&Tenant>)
        ensures
            r@.map_values(|t: &Tenant| *t) == active_tenants_spec(self.tenants_view(), self.subs_view(), now),
    {
        let mut out: Vec<&Tenant> = Vec::new();
        let mut i: usize = 0;
        while i < self.tenants.len()
            invariant
                0 <= i <= self.tenants@.len(),
                out@.map_values(|t: &Tenant| *t) == active_tenants_spec(
                    self.tenants@.take(i as int),
                    self.subscriptions@,
                    now,
                ),
            decreases self.tenants.len() - i,
        {
            proof {
                assert(self.tenants@.take(i + 1).drop_last() =~= self.tenants@.take(i as int));
                assert(self.tenants@.take(i + 1).last() == self.tenants@[i as int]);
            }
            let t = &self.tenants[i];
            let active = match t.subscription_id {
                Some(sid) => match self.find_sub(sid) {
                    Some(j) => {
                        proof {
                            lemma_sub_pos(self.subscriptions@, sid);
                        }
                        self.subscriptions[j].is_active_at(now)
                    },
                    None => false,
                },
                None => false,
            };
            if active {
                let ghost before = out@.map_values(|t: &Tenant| *t);
                out.push(t);
                proof {
                    assert(out@.map_values(|t: &Tenant| *t) =~= before.push(*t));
                }
            }
            i = i + 1;
        }
        proof {
            assert(self.tenants@.take(self.tenants@.len() as int) =~= self.tenants@);
        }
        out
    }

    fn count_in_force(&self, tier: Option<SubscriptionTier>, now: i64) -> (n: usize)
        ensures
            n == count_active(self.subscriptions@, tier, now),
    {
        let mut n: usize = 0;
        let mut i: usize = 0;
        while i < self.subscriptions.len()
            invariant
                0 <= i <= self.subscriptions@.len(),
                n == count_active(self.subscriptions@.take(i as int), tier, now),
                n <= i,
            decreases self.subscriptions.len() - i,
        {
            proof {
                assert(self.subscriptions@.take(i + 1).drop_last() =~= self.subscriptions@.take(i as int));
                assert(self.subscriptions@.take(i + 1).last() == self.subscriptions@[i as int]);
            }
            let s = &self.subscriptions[i];
            let matches = match tier {
                Some(t) => s.tier == t,
                None => true,
            };
            if s.is_active_at(now) && matches {
                n = n + 1;
            }
            i = i + 1;
        }
        proof {
            assert(self.subscriptions@.take(self.subscriptions@.len() as int) =~= self.subscriptions@);
        }
        n
    }

    /// The platform's numbers at time `now`.
    pub fn platform_stats_at(&self, now: i64) -> (s: PlatformStats)
        ensures
            s.total_tenants == self.tenants_view().len(),
            s.active_subscriptions == count_active(self.subs_view(), None, now),
            s.tier_distribution@.map_values(|e: (String, usize)| (e.0@, e.1 as nat)) == distribution_spec(
                self.subs_view(),
                now,
            ),
    {
        let mut dist: Vec<(String, usize)> = Vec::new();
        let tiers = [
            SubscriptionTier::Free,
            SubscriptionTier::Starter,
            SubscriptionTier::Professional,
            SubscriptionTier::Enterprise,
        ];
        let ghost ss = self.subscriptions@;
        let mut i: usize = 0;
        while i < 4
            invariant
                0 <= i <= 4,
                tiers@ == seq![
                    SubscriptionTier::Free,
                    SubscriptionTier::Starter,
                    SubscriptionTier::Professional,
                    SubscriptionTier::Enterprise,
                ],
                ss == self.subscriptions@,
                dist@.map_values(|e: (String, usize)| (e.0@, e.1 as nat)) == (if i == 0 {
                    Seq::empty()
                } else if i == 1 {
                    tier_entry(ss, tiers@[0], now)
                } else if i == 2 {
                    tier_entry(ss, tiers@[0], now) + tier_entry(ss, tiers@[1], now)
                } else if i == 3 {
                    tier_entry(ss, tiers@[0], now) + tier_entry(ss, tiers@[1], now) + tier_entry(ss, tiers@[2], now)
                } else {
                    tier_entry(ss, tiers@[0], now) + tier_entry(ss, tiers@[1], now) + tier_entry(ss, tiers@[2], now) + tier_entry(ss, tiers@[3], now)
                }),
            decreases 4 - i,
        {
            let t = tiers[i];
            let c = self.count_in_force(Some(t), now);
            let ghost before = dist@.map_values(|e: (String, usize)| (e.0@, e.1 as nat));
            proof {
                assert(tier_entry(ss, t, now) == (if c > 0 {
                    seq![(tier_name(t), c as nat)]
                } else {
                    Seq::<(Seq<char>, nat)>::empty()
                }));
            }
            if c > 0 {
                dist.push((t.name(), c));
                proof {
                    assert(dist@.map_values(|e: (String, usize)| (e.0@, e.1 as nat)) =~= before + tier_entry(ss, t, now));
                }
            } else {
                proof {
                    assert(before + tier_entry(ss, t, now) =~= before);
                }
            }
            proof {
                if i == 0 {
                    assert(Seq::<(Seq<char>, nat)>::empty() + tier_entry(ss, t, now) =~= tier_entry(ss, t, now));
                }
            }
            i = i + 1;
        }
        PlatformStats {
            total_tenants: self.tenants.len(),
            active_subscriptions: self.count_in_force(None, now),
            tier_distribution: dist,
        }
    }
}

proof fn lemma_tenant_pos_update(ts: Seq<Tenant>, id: u128, k: int, t: Tenant)
    requires
        tenant_pos(ts, id) == Some(k),
        t.id == id,
    ensures
        tenant_pos(ts.update(k, t), id) == Some(k),
    decreases ts.len(),
{
    lemma_tenant_pos(ts, id);
    let u = ts.update(k, t);
    if ts.last().id != id {
        lemma_tenant_pos(ts.drop_last(), id);
        assert(u.drop_last() =~= ts.drop_last().update(k, t));
        assert(u.last() == ts.last());
        lemma_tenant_pos_update(ts.drop_last(), id, k, t);
    } else {
        assert(u.last().id == id);
    }
}

proof fn lemma_sub_pos_update(ss: Seq<Subscription>, id: u128, k: int, s: Subscription)
    requires
        sub_pos(ss, id) == Some(k),
        s.id == id,
    ensures
        sub_pos(ss.update(k, s), id) == Some(k),
    decreases ss.len(),
{
    lemma_sub_pos(ss, id);
    let u = ss.update(k, s);
    if ss.last().id != id {
        lemma_sub_pos(ss.drop_last(), id);
        assert(u.drop_last() =~= ss.drop_last().update(k, s));
        assert(u.last() == ss.last());
        lemma_sub_pos_update(ss.drop_last(), id, k, s);
    } else {
        assert(u.last().id == id);
    }
}

/// Once a tenant's subscription is cancelled, the tenant has no tier in
/// force: quota checks refuse it at any time.
pub proof fn lemma_cancelled_subscription_gives_no_quota(
    ts: Seq<Tenant>,
    ss: Seq<Subscription>,
    tenant_id: u128,
    sid: u128,
    now: i64,
)
    requires
        tenant_pos(ts, tenant_id) matches Some(k) && ts[k].subscription_id == Some(sid),
        sub_pos(ss, sid) is Some,
    ensures
        quota_tier_spec(
            ts,
            ss.update(sub_pos(ss, sid).unwrap(), Subscription { active: false, ..ss[sub_pos(ss, sid).unwrap()] }),
            tenant_id,
            now,
        ) is None,
{
    let j = sub_pos(ss, sid).unwrap();
    lemma_sub_pos(ss, sid);
    lemma_sub_pos_update(ss, sid, j, Subscription { active: false, ..ss[j] });
}

impl Default for SaaSPlatform {
    /// No tenants, no subscriptions.
    fn default() -> (p: SaaSPlatform)
        ensures
            p.tenants_view().len() == 0,
            p.subs_view().len() == 0,
    {
        SaaSPlatform::new()
    }
}

} // verus!
