//! Gateway groups with tiered failover: the lowest tier that has an online
//! gateway carries the traffic, load balanced over its online members.
use vstd::prelude::*;
use crate::net::IpAddress;
use crate::text::{copy, owned, str_eq};

verus! {

/// A gateway of a group, with its failover tier (1 is preferred) and its
/// load-balancing weight within the tier.
#[derive(Debug)]
pub struct GatewayGroupMember {
    pub gateway_name: String,
    pub tier: u8,
    pub weight: u32,
}

/// A gateway group with tiered failover.
#[derive(Debug)]
pub struct AdvancedGatewayGroup {
    pub name: String,
    pub description: String,
    pub enabled: bool,
    pub members: Vec<GatewayGroupMember>,
    pub trigger_level: u8,
    pub sticky_connections: bool,
}

/// Why a gateway group or a request about one was refused.
#[derive(PartialEq, Eq, Structural, Clone, Copy, Debug)]
pub enum GatewayGroupErrorKind {
    NoMembers,
    DuplicateGateway,
    InvalidTier,
    InvalidWeight,
    GroupNotFound,
    GroupDisabled,
    NoOnlineGateways,
    GatewayIpNotFound,
    GatewayInterfaceNotFound,
}

/// An error with the name (of a gateway or a group) or the value it is about.
#[derive(Debug)]
pub struct GatewayGroupError {
    pub kind: GatewayGroupErrorKind,
    /// The gateway or group name the error is about (empty when none).
    pub name: String,
    /// The offending tier or weight (zero when none).
    pub value: u32,
}

/// Gateway selection of a firewall rule.
#[derive(Debug)]
pub enum GatewaySelection {
    Default,
    Gateway(String),
    GatewayGroup(String),
}

/// The gateway selection of one firewall rule.
#[derive(Debug)]
pub struct FirewallRuleGateway {
    pub rule_id: String,
    pub gateway_selection: GatewaySelection,
}

/// One next hop of a multipath route.
#[derive(Debug)]
pub struct Nexthop {
    pub gateway: IpAddress,
    pub interface: String,
    pub weight: u32,
}

/// The route that a gateway group yields for the current gateway states.
#[derive(Debug)]
pub struct RoutingConfig {
    pub group_name: String,
    pub active_tier: u8,
    pub nexthops: Vec<Nexthop>,
    pub sticky: bool,
}

/// Health of a gateway group.
#[derive(PartialEq, Eq, Structural, Clone, Copy, Debug)]
pub struct GroupStatus {
    pub enabled: bool,
    pub active_tier: Option<u8>,
    pub active_gateways: usize,
    pub total_gateways: usize,
    /// Every tier-1 gateway is online (and there is one).
    pub is_healthy: bool,
    /// Traffic has failed over to tier 2 or higher.
    pub is_degraded: bool,
    /// No gateway is online.
    pub is_down: bool,
}

/// Whether a name occurs among `names`.
pub open spec fn name_in(names: Seq<String>, n: Seq<char>) -> bool {
    exists|j: int| 0 <= j < names.len() && (#[trigger] names[j])@ == n
}

/// Whether member `i` is online.
pub open spec fn member_online(members: Seq<GatewayGroupMember>, online: Seq<String>, i: int) -> bool {
    name_in(online, members[i].gateway_name@)
}

/// Whether tier `t` has an online member.
pub open spec fn tier_online(members: Seq<GatewayGroupMember>, online: Seq<String>, t: u8) -> bool {
    exists|i: int| 0 <= i < members.len() && (#[trigger] members[i]).tier == t && member_online(members, online, i)
}

/// The group has a tier-1 member and every tier-1 member is online.
pub open spec fn tier_one_all_online(members: Seq<GatewayGroupMember>, online: Seq<String>) -> bool {
    &&& exists|i: int| 0 <= i < members.len() && (#[trigger] members[i]).tier == 1
    &&& forall|i: int| 0 <= i < members.len() && (#[trigger] members[i]).tier == 1 ==> member_online(members, online, i)
}

/// Whether the group has a tier-1 member and every tier-1 member is online.
fn all_tier_one_online(members: &Vec<GatewayGroupMember>, online: &[String]) -> (b: bool)
    ensures
        b == tier_one_all_online(members@, online@),
{
    let mut any = false;
    let mut i: usize = 0;
    while i < members.len()
        invariant
            0 <= i <= members@.len(),
            any == exists|k: int| 0 <= k < i && (#[trigger] members@[k]).tier == 1,
            forall|k: int| 0 <= k < i && (#[trigger] members@[k]).tier == 1 ==> member_online(members@, online@, k),
        decreases members.len() - i,
    {
        if members[i].tier == 1 {
            if !contains_name(online, &members[i].gateway_name) {
                return false;
            }
            any = true;
        }
        i = i + 1;
    }
    any
}

/// `t` has an online member and no online member has a lower tier.
pub open spec fn is_active_tier(members: Seq<GatewayGroupMember>, online: Seq<String>, t: u8) -> bool {
    &&& tier_online(members, online, t)
    &&& forall|i: int|
        0 <= i < members.len() && member_online(members, online, i) ==> t <= (#[trigger] members[i]).tier
}

/// The lowest tier with an online member, if any member is online.
pub open spec fn active_tier(members: Seq<GatewayGroupMember>, online: Seq<String>) -> Option<u8> {
    if exists|t: u8| is_active_tier(members, online, t) {
        Some(choose|t: u8| is_active_tier(members, online, t))
    } else {
        None
    }
}

/// The members that are in tier `t` and online, in order.
pub open spec fn active_in_tier(members: Seq<GatewayGroupMember>, online: Seq<String>, t: u8) -> Seq<
    GatewayGroupMember,
>
    decreases members.len(),
{
    if members.len() == 0 {
        Seq::empty()
    } else {
        let rest = active_in_tier(members.drop_last(), online, t);
        let m = members.last();
        if m.tier == t && name_in(online, m.gateway_name@) {
            rest.push(m)
        } else {
            rest
        }
    }
}

/// The names of the members in tier `t`, in order.
pub open spec fn tier_names(members: Seq<GatewayGroupMember>, t: u8) -> Seq<Seq<char>>
    decreases members.len(),
{
    if members.len() == 0 {
        Seq::empty()
    } else {
        let rest = tier_names(members.drop_last(), t);
        if members.last().tier == t {
            rest.push(members.last().gateway_name@)
        } else {
            rest
        }
    }
}

/// The tiers that occur among the members.
pub open spec fn tier_set(members: Seq<GatewayGroupMember>) -> Set<u8> {
    Set::new(|t: u8| exists|i: int| 0 <= i < members.len() && (#[trigger] members[i]).tier == t)
}

/// Member `j` repeats the name of an earlier member.
pub open spec fn repeats_name(members: Seq<GatewayGroupMember>, j: int) -> bool {
    exists|i: int| 0 <= i < j && (#[trigger] members[i]).gateway_name@ == members[j].gateway_name@
}

pub open spec fn bad_tier(m: GatewayGroupMember) -> bool {
    m.tier == 0 || m.tier > 10
}

pub open spec fn bad_weight(m: GatewayGroupMember) -> bool {
    m.weight == 0 || m.weight > 256
}

/// The group passes validation: it has members, no gateway twice, tiers in
/// 1..=10 and weights in 1..=256.
pub open spec fn group_valid(members: Seq<GatewayGroupMember>) -> bool {
    &&& members.len() > 0
    &&& forall|j: int| 0 <= j < members.len() ==> !repeats_name(members, j)
    &&& forall|j: int| 0 <= j < members.len() ==> !bad_tier(#[trigger] members[j])
    &&& forall|j: int| 0 <= j < members.len() ==> !bad_weight(#[trigger] members[j])
}

/// The error that validation reports: the first failing check, at the first
/// member that fails it.
pub open spec fn validation_error(members: Seq<GatewayGroupMember>, e: GatewayGroupError) -> bool {
    if members.len() == 0 {
        e.kind == GatewayGroupErrorKind::NoMembers
    } else if exists|j: int| 0 <= j < members.len() && repeats_name(members, j) {
        exists|j: int|
            0 <= j < members.len() && repeats_name(members, j) && (forall|k: int|
                0 <= k < j ==> !repeats_name(members, k)) && e.kind
                == GatewayGroupErrorKind::DuplicateGateway && e.name@ == members[j].gateway_name@
    } else if exists|j: int| 0 <= j < members.len() && bad_tier(#[trigger] members[j]) {
        exists|j: int|
            0 <= j < members.len() && bad_tier(#[trigger] members[j]) && (forall|k: int|
                0 <= k < j ==> !bad_tier(#[trigger] members[k])) && e.kind
                == GatewayGroupErrorKind::InvalidTier && e.value == members[j].tier
    } else {
        exists|j: int|
            0 <= j < members.len() && bad_weight(#[trigger] members[j]) && (forall|k: int|
                0 <= k < j ==> !bad_weight(#[trigger] members[k])) && e.kind
                == GatewayGroupErrorKind::InvalidWeight && e.value == members[j].weight
    }
}

fn copy_string(s: &String) -> (r: String)
    ensures
        r@ == s@,
{
    s.clone()
}

fn empty_string() -> (r: String)
    ensures
        r@ == Seq::<char>::empty(),
{
    String::new()
}

fn error(kind: GatewayGroupErrorKind, name: String, value: u32) -> (e: GatewayGroupError)
    ensures
        e.kind == kind,
        e.name == name,
        e.value == value,
{
    GatewayGroupError { kind, name, value }
}

/// Whether `n` occurs among `names`.
pub fn contains_name(names: &[String], n: &String) -> (b: bool)
    ensures
        b == name_in(names@, n@),
{
    let mut j: usize = 0;
    while j < names.len()
        invariant
            0 <= j <= names.len(),
            forall|k: int| 0 <= k < j ==> (#[trigger] names@[k])@ != n@,
        decreases names.len() - j,
    {
        if names[j] == *n {
            return true;
        }
        j = j + 1;
    }
    false
}

impl GatewayGroupMember {
    /// A copy of the member.
    pub fn copy(&self) -> (m: GatewayGroupMember)
        ensures
            m.gateway_name@ == self.gateway_name@,
            m.tier == self.tier,
            m.weight == self.weight,
    {
        GatewayGroupMember { gateway_name: copy_string(&self.gateway_name), tier: self.tier, weight: self.weight }
    }
}

/// Member views agree: same names (as text), tiers and weights.
pub open spec fn same_members(a: Seq<GatewayGroupMember>, b: Seq<GatewayGroupMember>) -> bool {
    &&& a.len() == b.len()
    &&& forall|i: int|
        0 <= i < a.len() ==> (#[trigger] a[i]).gateway_name@ == b[i].gateway_name@ && a[i].tier
            == b[i].tier && a[i].weight == b[i].weight
}

impl AdvancedGatewayGroup {
    /// The names of the members in `tier`, in order.
    pub fn get_tier_gateways(&self, tier: u8) -> (names: Vec<String>)
        ensures
            names@.map_values(|s: String| s@) == tier_names(self.members@, tier),
    {
        let mut out: Vec<String> = Vec::new();
        let mut i: usize = 0;
        while i < self.members.len()
            invariant
                0 <= i <= self.members.len(),
                out@.map_values(|s: String| s@) == tier_names(self.members@.subrange(0, i as int), tier),
            decreases self.members.len() - i,
        {
            let ghost before = out@;
            proof {
                assert(self.members@.subrange(0, i + 1).drop_last() == self.members@.subrange(0, i as int));
            }
            if self.members[i].tier == tier {
                out.push(copy_string(&self.members[i].gateway_name));
                proof {
                    assert(out@.map_values(|s: String| s@) =~= before.map_values(|s: String| s@).push(
                        self.members@[i as int].gateway_name@,
                    ));
                }
            }
            i = i + 1;
        }
        proof {
            assert(self.members@.subrange(0, self.members@.len() as int) == self.members@);
        }
        out
    }

    /// The tiers in use, from best (lowest) to worst, each once.
    pub fn get_tiers(&self) -> (tiers: Vec<u8>)
        ensures
            forall|a: int, b: int| 0 <= a < b < tiers@.len() ==> tiers@[a] < tiers@[b],
            tiers@.to_set() == tier_set(self.members@),
    {
        let mut tiers: Vec<u8> = Vec::new();
        let mut i: usize = 0;
        while i < self.members.len()
            invariant
                0 <= i <= self.members.len(),
                forall|a: int, b: int| 0 <= a < b < tiers@.len() ==> tiers@[a] < tiers@[b],
                tiers@.to_set() == tier_set(self.members@.subrange(0, i as int)),
            decreases self.members.len() - i,
        {
            let t = self.members[i].tier;
            let ghost old_tiers = tiers@;
            // find the insertion position
            let mut pos: usize = 0;
            while pos < tiers.len() && tiers[pos] < t
                invariant
                    0 <= pos <= tiers.len(),
                    forall|a: int| 0 <= a < pos ==> tiers@[a] < t,
                decreases tiers.len() - pos,
            {
                pos = pos + 1;
            }
            if pos < tiers.len() && tiers[pos] == t {
                // already present
            } else {
                tiers.insert(pos, t);
                proof {
                    assert forall|a: int, b: int| 0 <= a < b < tiers@.len() implies tiers@[a] < tiers@[b] by {
                        if b < pos {
                            assert(tiers@[a] == old_tiers[a] && tiers@[b] == old_tiers[b]);
                        } else if b == pos {
                            assert(tiers@[a] == old_tiers[a]);
                        } else if a == pos {
                            assert(tiers@[b] == old_tiers[b - 1]);
                            assert(old_tiers[pos as int] > t) by {
                                assert(old_tiers[pos as int] >= t);
                            }
                            if b - 1 > pos {
                                assert(old_tiers[pos as int] < old_tiers[b - 1]);
                            }
                        } else if a < pos {
                            assert(tiers@[a] == old_tiers[a] && tiers@[b] == old_tiers[b - 1]);
                        } else {
                            assert(tiers@[a] == old_tiers[a - 1] && tiers@[b] == old_tiers[b - 1]);
                        }
                    }
                }
            }
            proof {
                let pre = self.members@.subrange(0, i as int);
                let post = self.members@.subrange(0, i + 1);
                assert(post == pre.push(self.members@[i as int]));
                assert(tiers@.to_set() =~= tier_set(post)) by {
                    assert forall|x: u8| tiers@.to_set().contains(x) <==> tier_set(post).contains(x) by {
                        if tier_set(pre).contains(x) {
                            let w = choose|w: int| 0 <= w < pre.len() && (#[trigger] pre[w]).tier == x;
                            assert(post[w].tier == x);
                        }
                        if tier_set(post).contains(x) {
                            let w = choose|w: int| 0 <= w < post.len() && (#[trigger] post[w]).tier == x;
                            if w < pre.len() {
                                assert(pre[w].tier == x);
                                assert(tier_set(pre).contains(x));
                            }
                        }
                        if x == t {
                            assert(post[i as int].tier == t);
                        }
                        if tiers@.len() != old_tiers.len() {
                            if tiers@.contains(x) {
                                let w = choose|w: int| 0 <= w < tiers@.len() && tiers@[w] == x;
                                if w < pos {
                                    assert(old_tiers[w] == x);
                                } else if w > pos {
                                    assert(old_tiers[w - 1] == x);
                                }
                            }
                            if old_tiers.contains(x) {
                                let w = choose|w: int| 0 <= w < old_tiers.len() && old_tiers[w] == x;
                                if w < pos {
                                    assert(tiers@[w] == x);
                                } else {
                                    assert(tiers@[w + 1] == x);
                                }
                            }
                            if x == t {
                                assert(tiers@[pos as int] == t);
                            }
                        } else {
                            if x == t {
                                assert(tiers@[pos as int] == t);
                            }
                        }
                        assert(old_tiers.to_set().contains(x) == tier_set(pre).contains(x));
                    }
                }
            }
            i = i + 1;
        }
        proof {
            assert(self.members@.subrange(0, self.members@.len() as int) == self.members@);
        }
        tiers
    }

    /// The lowest tier that has an online member, if any member is online.
    pub fn get_active_tier(&self, online_gateways: &[String]) -> (t: Option<u8>)
        ensures
            t == active_tier(self.members@, online_gateways@),
            t is None <==> forall|i: int|
                0 <= i < self.members@.len() ==> !member_online(self.members@, online_gateways@, i),
    {
        let tiers = self.get_tiers();
        let ghost members = self.members@;
        let ghost online = online_gateways@;
        let mut k: usize = 0;
        while k < tiers.len()
            invariant
                0 <= k <= tiers.len(),
                members == self.members@,
                online == online_gateways@,
                forall|a: int, b: int| 0 <= a < b < tiers@.len() ==> tiers@[a] < tiers@[b],
                tiers@.to_set() == tier_set(members),
                forall|a: int| 0 <= a < k ==> !tier_online(members, online, #[trigger] tiers@[a]),
            decreases tiers.len() - k,
        {
            let tier = tiers[k];
            let mut i: usize = 0;
            while i < self.members.len()
                invariant
                    0 <= i <= self.members.len(),
                    members == self.members@,
                    online == online_gateways@,
                    0 <= k < tiers.len(),
                    tier == tiers@[k as int],
                    forall|a: int, b: int| 0 <= a < b < tiers@.len() ==> tiers@[a] < tiers@[b],
                    tiers@.to_set() == tier_set(members),
                    forall|a: int| 0 <= a < k ==> !tier_online(members, online, #[trigger] tiers@[a]),
                    forall|w: int|
                        0 <= w < i ==> !((#[trigger] members[w]).tier == tier && member_online(
                            members,
                            online,
                            w,
                        )),
                decreases self.members.len() - i,
            {
                if self.members[i].tier == tier && contains_name(
                    online_gateways,
                    &self.members[i].gateway_name,
                ) {
                    proof {
                        assert(tier_online(members, online, tier));
                        assert forall|w: int|
                            0 <= w < members.len() && member_online(members, online, w) implies tier
                            <= (#[trigger] members[w]).tier by {
                            let tw = members[w].tier;
                            assert(tier_set(members).contains(tw));
                            assert(tiers@.to_set().contains(tw));
                            let a = choose|a: int| 0 <= a < tiers@.len() && tiers@[a] == tw;
                            if a < k {
                                assert(tier_online(members, online, tiers@[a]));
                            } else if a > k {
                                assert(tiers@[k as int] < tiers@[a]);
                            }
                        }
                        assert(is_active_tier(members, online, tier));
                        let c = choose|c: u8| is_active_tier(members, online, c);
                        assert(c == tier) by {
                            let wc = choose|x: int| 0 <= x < members.len() && (#[trigger] members[x]).tier == c
                                && member_online(members, online, x);
                            assert(tier <= members[wc].tier);
                            assert(c <= members[i as int].tier);
                        }
                    }
                    return Some(tier);
                }
                i = i + 1;
            }
            proof {
                assert(!tier_online(members, online, tier)) by {
                    if tier_online(members, online, tier) {
                        let w = choose|w: int| 0 <= w < members.len() && (#[trigger] members[w]).tier == tier
                            && member_online(members, online, w);
                    }
                }
            }
            k = k + 1;
        }
        proof {
            assert forall|i: int|
                0 <= i < members.len() implies !member_online(members, online, i) by {
                if member_online(members, online, i) {
                    let tw = members[i].tier;
                    assert(tier_set(members).contains(tw));
                    assert(tiers@.to_set().contains(tw));
                    let a = choose|a: int| 0 <= a < tiers@.len() && tiers@[a] == tw;
                    assert(tier_online(members, online, tiers@[a]));
                }
            }
            assert(!exists|t: u8| is_active_tier(members, online, t)) by {
                if exists|t: u8| is_active_tier(members, online, t) {
                    let c = choose|c: u8| is_active_tier(members, online, c);
                    let wc = choose|x: int| 0 <= x < members.len() && (#[trigger] members[x]).tier == c
                        && member_online(members, online, x);
                    assert(!member_online(members, online, wc));
                }
            }
        }
        None
    }

    /// The online members of the active tier, in order (none when no member
    /// is online).
    pub fn get_active_members(&self, online_gateways: &[String]) -> (ms: Vec<GatewayGroupMember>)
        ensures
            active_tier(self.members@, online_gateways@) matches Some(t) ==> same_members(
                ms@,
                active_in_tier(self.members@, online_gateways@, t),
            ),
            active_tier(self.members@, online_gateways@) is None ==> ms@.len() == 0,
    {
        let mut out: Vec<GatewayGroupMember> = Vec::new();
        match self.get_active_tier(online_gateways) {
            None => out,
            Some(tier) => {
                let mut i: usize = 0;
                while i < self.members.len()
                    invariant
                        0 <= i <= self.members.len(),
                        same_members(
                            out@,
                            active_in_tier(self.members@.subrange(0, i as int), online_gateways@, tier),
                        ),
                    decreases self.members.len() - i,
                {
                    proof {
                        assert(self.members@.subrange(0, i + 1).drop_last() == self.members@.subrange(
                            0,
                            i as int,
                        ));
                    }
                    if self.members[i].tier == tier && contains_name(
                        online_gateways,
                        &self.members[i].gateway_name,
                    ) {
                        out.push(self.members[i].copy());
                    }
                    i = i + 1;
                }
                proof {
                    assert(self.members@.subrange(0, self.members@.len() as int) == self.members@);
                }
                out
            },
        }
    }

    /// Checks the group: members present, no gateway twice, tiers 1..=10,
    /// weights 1..=256, reporting the first failure found.
    pub fn validate(&self) -> (r: Result<(), GatewayGroupError>)
        ensures
            r is Ok <==> group_valid(self.members@),
            r matches Err(e) ==> validation_error(self.members@, e),
    {
        let members = &self.members;
        if members.len() == 0 {
            return Err(error(GatewayGroupErrorKind::NoMembers, empty_string(), 0));
        }
        let mut j: usize = 0;
        while j < members.len()
            invariant
                0 <= j <= members.len(),
                members@ == self.members@,
                forall|k: int| 0 <= k < j ==> !repeats_name(members@, k),
            decreases members.len() - j,
        {
            let mut i: usize = 0;
            while i < j
                invariant
                    0 <= i <= j < members.len(),
                    members@ == self.members@,
                    forall|k: int| 0 <= k < j ==> !repeats_name(members@, k),
                    forall|k: int| 0 <= k < i ==> (#[trigger] members@[k]).gateway_name@ != members@[j as int].gateway_name@,
                decreases j - i,
            {
                if members[i].gateway_name == members[j].gateway_name {
                    proof {
                        assert(repeats_name(members@, j as int));
                    }
                    return Err(
                        error(
                            GatewayGroupErrorKind::DuplicateGateway,
                            copy_string(&members[j].gateway_name),
                            0,
                        ),
                    );
                }
                i = i + 1;
            }
            j = j + 1;
        }
        let mut j: usize = 0;
        while j < members.len()
            invariant
                0 <= j <= members.len(),
                members@ == self.members@,
                forall|k: int| 0 <= k < members.len() ==> !repeats_name(members@, k),
                forall|k: int| 0 <= k < j ==> !bad_tier(#[trigger] members@[k]),
            decreases members.len() - j,
        {
            let t = members[j].tier;
            if t == 0 || t > 10 {
                return Err(error(GatewayGroupErrorKind::InvalidTier, empty_string(), t as u32));
            }
            j = j + 1;
        }
        let mut j: usize = 0;
        while j < members.len()
            invariant
                0 <= j <= members.len(),
                members@ == self.members@,
                forall|k: int| 0 <= k < members.len() ==> !repeats_name(members@, k),
                forall|k: int| 0 <= k < members.len() ==> !bad_tier(#[trigger] members@[k]),
                forall|k: int| 0 <= k < j ==> !bad_weight(#[trigger] members@[k]),
            decreases members.len() - j,
        {
            let w = members[j].weight;
            if w == 0 || w > 256 {
                return Err(error(GatewayGroupErrorKind::InvalidWeight, empty_string(), w));
            }
            j = j + 1;
        }
        Ok(())
    }
}


fn member(name: &str, tier: u8, weight: u32) -> (m: GatewayGroupMember)
    ensures
        m.gateway_name@ == name@,
        m.tier == tier,
        m.weight == weight,
{
    GatewayGroupMember { gateway_name: owned(name), tier, weight }
}

impl AdvancedGatewayGroup {
    /// Fiber primary (tier 1), cable backup (tier 2), LTE emergency (tier 3).
    pub fn example_tiered_failover() -> (g: AdvancedGatewayGroup)
        ensures
            g.name@ == "WAN_Failover"@,
            g.description@ == "Fiber primary, cable backup, 4G emergency"@,
            g.enabled,
            g.members@.len() == 3,
            g.members@[0].gateway_name@ == "fiber_wan"@ && g.members@[0].tier == 1
                && g.members@[0].weight == 100,
            g.members@[1].gateway_name@ == "cable_wan"@ && g.members@[1].tier == 2
                && g.members@[1].weight == 100,
            g.members@[2].gateway_name@ == "lte_wan"@ && g.members@[2].tier == 3
                && g.members@[2].weight == 100,
            g.trigger_level == 1,
            g.sticky_connections,
    {
        AdvancedGatewayGroup {
            name: owned("WAN_Failover"),
            description: owned("Fiber primary, cable backup, 4G emergency"),
            enabled: true,
            members: vec![
                member("fiber_wan", 1, 100),
                member("cable_wan", 2, 100),
                member("lte_wan", 3, 100),
            ],
            trigger_level: 1,
            sticky_connections: true,
        }
    }

    /// Two fiber links load balanced in tier 1, cable in tier 2.
    pub fn example_load_balance_with_backup() -> (g: AdvancedGatewayGroup)
        ensures
            g.name@ == "WAN_LoadBalance"@,
            g.description@ == "Load balance 2 fiber links, fail to cable"@,
            g.enabled,
            g.members@.len() == 3,
            g.members@[0].gateway_name@ == "fiber1_wan"@ && g.members@[0].tier == 1
                && g.members@[0].weight == 100,
            g.members@[1].gateway_name@ == "fiber2_wan"@ && g.members@[1].tier == 1
                && g.members@[1].weight == 100,
            g.members@[2].gateway_name@ == "cable_wan"@ && g.members@[2].tier == 2
                && g.members@[2].weight == 100,
            g.trigger_level == 1,
            !g.sticky_connections,
    {
        AdvancedGatewayGroup {
            name: owned("WAN_LoadBalance"),
            description: owned("Load balance 2 fiber links, fail to cable"),
            enabled: true,
            members: vec![
                member("fiber1_wan", 1, 100),
                member("fiber2_wan", 1, 100),
                member("cable_wan", 2, 100),
            ],
            trigger_level: 1,
            sticky_connections: false,
        }
    }

    /// A 1 Gbit/s and a 500 Mbit/s link in tier 1, weighted 2:1.
    pub fn example_weighted_load_balance() -> (g: AdvancedGatewayGroup)
        ensures
            g.name@ == "WAN_Weighted"@,
            g.description@ == "Weighted 2:1 for different link speeds"@,
            g.enabled,
            g.members@.len() == 2,
            g.members@[0].gateway_name@ == "wan_1gbps"@ && g.members@[0].tier == 1
                && g.members@[0].weight == 200,
            g.members@[1].gateway_name@ == "wan_500mbps"@ && g.members@[1].tier == 1
                && g.members@[1].weight == 100,
            g.trigger_level == 1,
            g.sticky_connections,
    {
        AdvancedGatewayGroup {
            name: owned("WAN_Weighted"),
            description: owned("Weighted 2:1 for different link speeds"),
            enabled: true,
            members: vec![member("wan_1gbps", 1, 200), member("wan_500mbps", 1, 100)],
            trigger_level: 1,
            sticky_connections: true,
        }
    }
}

/// The position of the group named `name`, if there is one.
pub open spec fn group_named(groups: Seq<AdvancedGatewayGroup>, name: Seq<char>, i: int) -> bool {
    0 <= i < groups.len() && groups[i].name@ == name
}

/// No two groups share a name.
pub open spec fn names_unique(groups: Seq<AdvancedGatewayGroup>) -> bool {
    forall|i: int, j: int|
        0 <= i < groups.len() && 0 <= j < groups.len() && i != j ==> (#[trigger] groups[i]).name@
            != (#[trigger] groups[j]).name@
}

/// The status of a group for the given online gateways.
pub open spec fn group_status(g: AdvancedGatewayGroup, online: Seq<String>) -> GroupStatus {
    let t = active_tier(g.members@, online);
    GroupStatus {
        enabled: g.enabled,
        active_tier: t,
        active_gateways: match t {
            Some(tier) => active_in_tier(g.members@, online, tier).len() as usize,
            None => 0,
        },
        total_gateways: g.members@.len() as usize,
        is_healthy: tier_one_all_online(g.members@, online),
        is_degraded: t is Some && t != Some(1u8),
        is_down: t is None,
    }
}

/// The gateway groups, by unique name, in the order they were first added.
pub struct GatewayGroupManager {
    groups: Vec<AdvancedGatewayGroup>,
}

impl GatewayGroupManager {
    pub closed spec fn groups_view(&self) -> Seq<AdvancedGatewayGroup> {
        self.groups@
    }

    /// Group names are unique.
    pub closed spec fn wf(&self) -> bool {
        names_unique(self.groups@)
    }

    /// No groups.
    pub fn new() -> (m: GatewayGroupManager)
        ensures
            m.wf(),
            m.groups_view() == Seq::<AdvancedGatewayGroup>::empty(),
    {
        GatewayGroupManager { groups: Vec::new() }
    }

    fn find(&self, name: &str) -> (r: Option<usize>)
        ensures
            r matches Some(i) ==> group_named(self.groups@, name@, i as int),
            r is None ==> forall|i: int| !group_named(self.groups@, name@, i),
    {
        let mut i: usize = 0;
        while i < self.groups.len()
            invariant
                0 <= i <= self.groups.len(),
                forall|k: int| 0 <= k < i ==> !group_named(self.groups@, name@, k),
            decreases self.groups.len() - i,
        {
            if str_eq(self.groups[i].name.as_str(), name) {
                return Some(i);
            }
            i = i + 1;
        }
        None
    }

    /// Adds a valid group, replacing a group of the same name in its place.
    pub fn add_group(&mut self, group: AdvancedGatewayGroup) -> (r: Result<(), GatewayGroupError>)
        requires
            old(self).wf(),
        ensures
            final(self).wf(),
            r is Ok <==> group_valid(group.members@),
            r matches Err(e) ==> validation_error(group.members@, e),
            r is Err ==> final(self).groups_view() == old(self).groups_view(),
            r is Ok ==> (exists|i: int| group_named(old(self).groups_view(), group.name@, i))
                ==> (exists|i: int|
                group_named(old(self).groups_view(), group.name@, i)
                    && final(self).groups_view() == old(self).groups_view().update(i, group)),
            r is Ok ==> (forall|i: int| !group_named(old(self).groups_view(), group.name@, i))
                ==> final(self).groups_view() == old(self).groups_view().push(group),
    {
        match group.validate() {
            Err(e) => {
                return Err(e);
            },
            Ok(()) => {},
        }
        match self.find(group.name.as_str()) {
            Some(i) => {
                let ghost old_groups = self.groups@;
                self.groups.set(i, group);
                proof {
                    assert forall|a: int, b: int|
                        0 <= a < self.groups@.len() && 0 <= b < self.groups@.len() && a != b
                            implies (#[trigger] self.groups@[a]).name@ != (
                        #[trigger] self.groups@[b]).name@ by {
                        if a != i && b != i {
                            assert(old_groups[a] == self.groups@[a] && old_groups[b]
                                == self.groups@[b]);
                        } else if a == i {
                            assert(old_groups[b] == self.groups@[b]);
                            assert(old_groups[i as int].name@ != old_groups[b].name@);
                        } else {
                            assert(old_groups[a] == self.groups@[a]);
                            assert(old_groups[i as int].name@ != old_groups[a].name@);
                        }
                    }
                }
            },
            None => {
                let ghost old_groups = self.groups@;
                self.groups.push(group);
                proof {
                    assert forall|a: int, b: int|
                        0 <= a < self.groups@.len() && 0 <= b < self.groups@.len() && a != b
                            implies (#[trigger] self.groups@[a]).name@ != (
                        #[trigger] self.groups@[b]).name@ by {
                        if a < old_groups.len() && b < old_groups.len() {
                            assert(old_groups[a] == self.groups@[a] && old_groups[b]
                                == self.groups@[b]);
                        } else if a < old_groups.len() {
                            assert(!group_named(old_groups, self.groups@[b].name@, a));
                        } else {
                            assert(!group_named(old_groups, self.groups@[a].name@, b));
                        }
                    }
                }
            },
        }
        Ok(())
    }

    /// Removes the group of that name.
    pub fn remove_group(&mut self, name: &str) -> (r: Result<(), GatewayGroupError>)
        requires
            old(self).wf(),
        ensures
            final(self).wf(),
            (forall|i: int| !group_named(old(self).groups_view(), name@, i)) ==> (r matches Err(e)
                && e.kind == GatewayGroupErrorKind::GroupNotFound && e.name@ == name@
                && final(self).groups_view() == old(self).groups_view()),
            (exists|i: int| group_named(old(self).groups_view(), name@, i)) ==> r is Ok && exists|
                i: int,
            |
                group_named(old(self).groups_view(), name@, i) && final(self).groups_view()
                    == old(self).groups_view().remove(i),
    {
        match self.find(name) {
            None => {
                let e = error(GatewayGroupErrorKind::GroupNotFound, owned(name), 0);
                assert(e.name@ == name@);
                assert(forall|i: int| !group_named(self.groups@, name@, i));
                Err(e)
            },
            Some(i) => {
                let ghost old_groups = self.groups@;
                assert(group_named(old(self).groups_view(), name@, i as int));
                self.groups.remove(i);
                proof {
                    assert forall|a: int, b: int|
                        0 <= a < self.groups@.len() && 0 <= b < self.groups@.len() && a != b
                            implies (#[trigger] self.groups@[a]).name@ != (
                        #[trigger] self.groups@[b]).name@ by {
                        let oa = if a < i { a } else { a + 1 };
                        let ob = if b < i { b } else { b + 1 };
                        assert(self.groups@[a] == old_groups[oa]);
                        assert(self.groups@[b] == old_groups[ob]);
                    }
                }
                Ok(())
            },
        }
    }

    /// The group of that name.
    pub fn get_group(&self, name: &str) -> (g: Option<&AdvancedGatewayGroup>)
        ensures
            g matches Some(x) ==> exists|i: int|
                group_named(self.groups_view(), name@, i) && *x == self.groups_view()[i],
            g is None ==> forall|i: int| !group_named(self.groups_view(), name@, i),
    {
        match self.find(name) {
            Some(i) => {
                assert(group_named(self.groups_view(), name@, i as int));
                let r = &self.groups[i];
                assert(*r == self.groups_view()[i as int]);
                Some(r)
            },
            None => None,
        }
    }

    /// All groups.
    pub fn list_groups(&self) -> (gs: Vec<&AdvancedGatewayGroup>)
        ensures
            gs@.map_values(|g: &AdvancedGatewayGroup| *g) == self.groups_view(),
    {
        let mut out: Vec<&AdvancedGatewayGroup> = Vec::new();
        let mut i: usize = 0;
        while i < self.groups.len()
            invariant
                0 <= i <= self.groups.len(),
                out@.len() == i,
                forall|k: int| 0 <= k < i ==> *(#[trigger] out@[k]) == self.groups@[k],
            decreases self.groups.len() - i,
        {
            out.push(&self.groups[i]);
            i = i + 1;
        }
        proof {
            assert(out@.map_values(|g: &AdvancedGatewayGroup| *g) =~= self.groups@);
        }
        out
    }

    /// The status of each group, by name, in the order of the groups.
    pub fn get_status_summary(&self, online_gateways: &[String]) -> (summary: Vec<
        (String, GroupStatus),
    >)
        ensures
            summary@.len() == self.groups_view().len(),
            forall|i: int|
                0 <= i < summary@.len() ==> (#[trigger] summary@[i]).0@
                    == self.groups_view()[i].name@ && summary@[i].1 == group_status(
                    self.groups_view()[i],
                    online_gateways@,
                ),
    {
        let mut out: Vec<(String, GroupStatus)> = Vec::new();
        let mut i: usize = 0;
        while i < self.groups.len()
            invariant
                0 <= i <= self.groups.len(),
                out@.len() == i,
                forall|k: int|
                    0 <= k < i ==> (#[trigger] out@[k]).0@ == self.groups@[k].name@ && out@[k].1
                        == group_status(self.groups@[k], online_gateways@),
            decreases self.groups.len() - i,
        {
            let group = &self.groups[i];
            let active_tier = group.get_active_tier(online_gateways);
            let active_count = group.get_active_members(online_gateways).len();
            let total_count = group.members.len();
            let status = GroupStatus {
                enabled: group.enabled,
                active_tier,
                active_gateways: active_count,
                total_gateways: total_count,
                is_healthy: all_tier_one_online(&group.members, online_gateways),
                is_degraded: active_tier.is_some() && active_tier != Some(1u8),
                is_down: active_tier.is_none(),
            };
            out.push((copy(&group.name), status));
            i = i + 1;
        }
        out
    }

    #[verifier::loop_isolation(false)]
    /// The multipath route of an enabled group: one next hop per online member
    /// of the active tier, with the member's IP address, interface and weight.
    pub fn generate_routing_config(
        &self,
        group_name: &str,
        online_gateways: &[String],
        gateway_ips: &[(String, IpAddress)],
        gateway_interfaces: &[(String, String)],
    ) -> (r: Result<RoutingConfig, GatewayGroupError>)
        requires
            self.wf(),
        ensures
            (forall|i: int| !group_named(self.groups_view(), group_name@, i)) ==> (r matches Err(e)
                && e.kind == GatewayGroupErrorKind::GroupNotFound && e.name@ == group_name@),
            (exists|i: int| group_named(self.groups_view(), group_name@, i)) ==> {
                let g = self.groups_view()[choose|i: int| group_named(self.groups_view(), group_name@, i)];
                let act = active_in_tier(g.members@, online_gateways@, active_tier(g.members@, online_gateways@)->0);
                &&& !g.enabled ==> (r matches Err(e) && e.kind
                    == GatewayGroupErrorKind::GroupDisabled && e.name@ == group_name@)
                &&& g.enabled && active_tier(g.members@, online_gateways@) is None ==> (r matches Err(
                    e,
                ) && e.kind == GatewayGroupErrorKind::NoOnlineGateways && e.name@ == group_name@)
                &&& r matches Ok(cfg) ==> {
                    &&& g.enabled
                    &&& active_tier(g.members@, online_gateways@) == Some(cfg.active_tier)
                    &&& cfg.group_name@ == group_name@
                    &&& cfg.sticky == g.sticky_connections
                    &&& nexthops_match(cfg.nexthops@, act, gateway_ips@, gateway_interfaces@)
                }
                &&& (g.enabled && active_tier(g.members@, online_gateways@) is Some) ==> (r is Ok
                    <==> forall|k: int| 0 <= k < act.len() ==> has_key(gateway_ips@, (#[trigger] act[k]).gateway_name@)
                        && has_key(gateway_interfaces@, act[k].gateway_name@))
                &&& (r is Err && g.enabled && active_tier(g.members@, online_gateways@) is Some)
                    ==> lookup_failed(act, gateway_ips@, gateway_interfaces@, r->Err_0)
            },
    {
        let idx = match self.find(group_name) {
            None => {
                return Err(error(GatewayGroupErrorKind::GroupNotFound, owned(group_name), 0));
            },
            Some(i) => i,
        };
        let group = &self.groups[idx];
        proof {
            let c = choose|i: int| group_named(self.groups_view(), group_name@, i);
            assert(group_named(self.groups_view(), group_name@, idx as int));
            assert(c == idx) by {
                if c != idx {
                    assert(self.groups@[c].name@ != self.groups@[idx as int].name@);
                }
            }
        }
        if !group.enabled {
            return Err(error(GatewayGroupErrorKind::GroupDisabled, owned(group_name), 0));
        }
        let active_members = group.get_active_members(online_gateways);
        let active_tier = match group.get_active_tier(online_gateways) {
            None => {
                return Err(error(GatewayGroupErrorKind::NoOnlineGateways, owned(group_name), 0));
            },
            Some(t) => t,
        };
        if active_members.len() == 0 {
            proof {
                lemma_active_tier_has_member(group.members@, online_gateways@, active_tier);
            }
            return Err(error(GatewayGroupErrorKind::NoOnlineGateways, owned(group_name), 0));
        }
        let ghost act = active_in_tier(group.members@, online_gateways@, active_tier);
        let mut nexthops: Vec<Nexthop> = Vec::new();
        let mut i: usize = 0;
        while i < active_members.len()
            invariant
                0 <= i <= active_members.len(),
                same_members(active_members@, act),
                nexthops_match(nexthops@, act.subrange(0, i as int), gateway_ips@, gateway_interfaces@),
                forall|x: int| 0 <= x < i ==> has_key(gateway_ips@, (#[trigger] act[x]).gateway_name@)
                    && has_key(gateway_interfaces@, act[x].gateway_name@),
            decreases active_members.len() - i,
        {
            let m = &active_members[i];
            proof {
                assert(act.subrange(0, i + 1).drop_last() =~= act.subrange(0, i as int));
                assert(act.subrange(0, i + 1).last() == act[i as int]);
            }
            let ip = match lookup_ip(gateway_ips, &m.gateway_name) {
                None => {
                    proof {
                        assert(lookup_failed(act, gateway_ips@, gateway_interfaces@, GatewayGroupError {
                            kind: GatewayGroupErrorKind::GatewayIpNotFound,
                            name: m.gateway_name,
                            value: 0,
                        })) by {
                            assert(first_failure(act, gateway_ips@, gateway_interfaces@, i as int));
                        }
                    }
                    return Err(error(GatewayGroupErrorKind::GatewayIpNotFound, copy(&m.gateway_name), 0));
                },
                Some(ip) => ip,
            };
            let iface = match lookup_interface(gateway_interfaces, &m.gateway_name) {
                None => {
                    proof {
                        assert(first_failure(act, gateway_ips@, gateway_interfaces@, i as int));
                    }
                    return Err(
                        error(GatewayGroupErrorKind::GatewayInterfaceNotFound, copy(&m.gateway_name), 0),
                    );
                },
                Some(s) => s,
            };
            let ghost pre_hops = nexthops@;
            nexthops.push(Nexthop { gateway: ip, interface: iface, weight: m.weight });
            proof {
                let pre = act.subrange(0, i as int);
                let post = act.subrange(0, i + 1);
                assert forall|k: int| 0 <= k < nexthops@.len() implies {
                    &&& first_value(gateway_ips@, post[k].gateway_name@, (#[trigger] nexthops@[k]).gateway)
                    &&& exists|j: int|
                        0 <= j < gateway_interfaces@.len() && (#[trigger] gateway_interfaces@[j]).0@
                            == post[k].gateway_name@ && gateway_interfaces@[j].1@ == nexthops@[k].interface@
                            && forall|x: int|
                            0 <= x < j ==> (#[trigger] gateway_interfaces@[x]).0@ != post[k].gateway_name@
                    &&& nexthops@[k].weight == post[k].weight
                } by {
                    if k < i {
                        assert(nexthops@[k] == pre_hops[k]);
                        assert(post[k] == pre[k]);
                    } else {
                        assert(post[k] == act[i as int]);
                    }
                }
            }
            i = i + 1;
        }
        proof {
            assert(act.subrange(0, act.len() as int) == act);
        }
        Ok(RoutingConfig { group_name: owned(group_name), active_tier, nexthops, sticky: group.sticky_connections })
    }
}

impl Default for GatewayGroupManager {
    fn default() -> (m: GatewayGroupManager)
        ensures
            m.wf(),
            m.groups_view() == Seq::<AdvancedGatewayGroup>::empty(),
    {
        GatewayGroupManager::new()
    }
}

/// Whether `name` has an entry among `pairs`.
pub open spec fn has_key<V>(pairs: Seq<(String, V)>, name: Seq<char>) -> bool {
    exists|j: int| 0 <= j < pairs.len() && (#[trigger] pairs[j]).0@ == name
}

/// `v` is the value of the first entry of `pairs` for `name`.
pub open spec fn first_value<V>(pairs: Seq<(String, V)>, name: Seq<char>, v: V) -> bool {
    exists|j: int|
        0 <= j < pairs.len() && (#[trigger] pairs[j]).0@ == name && pairs[j].1 == v && forall|k: int|
            0 <= k < j ==> (#[trigger] pairs[k]).0@ != name
}

/// The next hops are, in order, the members' first listed IP addresses,
/// first listed interfaces and weights.
pub open spec fn nexthops_match(
    hops: Seq<Nexthop>,
    members: Seq<GatewayGroupMember>,
    ips: Seq<(String, IpAddress)>,
    ifaces: Seq<(String, String)>,
) -> bool {
    &&& hops.len() == members.len()
    &&& forall|k: int|
        0 <= k < hops.len() ==> {
            &&& first_value(ips, members[k].gateway_name@, (#[trigger] hops[k]).gateway)
            &&& exists|j: int|
                0 <= j < ifaces.len() && (#[trigger] ifaces[j]).0@ == members[k].gateway_name@
                    && ifaces[j].1@ == hops[k].interface@ && forall|x: int|
                    0 <= x < j ==> (#[trigger] ifaces[x]).0@ != members[k].gateway_name@
            &&& hops[k].weight == members[k].weight
        }
}

/// Member `k` is the first whose address or interface is missing.
pub open spec fn first_failure(
    members: Seq<GatewayGroupMember>,
    ips: Seq<(String, IpAddress)>,
    ifaces: Seq<(String, String)>,
    k: int,
) -> bool {
    &&& 0 <= k < members.len()
    &&& !has_key(ips, members[k].gateway_name@) || !has_key(ifaces, members[k].gateway_name@)
    &&& forall|x: int|
        0 <= x < k ==> has_key(ips, (#[trigger] members[x]).gateway_name@) && has_key(
            ifaces,
            members[x].gateway_name@,
        )
}

/// The error reports the first member whose IP address (checked first) or
/// interface is missing.
pub open spec fn lookup_failed(
    members: Seq<GatewayGroupMember>,
    ips: Seq<(String, IpAddress)>,
    ifaces: Seq<(String, String)>,
    e: GatewayGroupError,
) -> bool {
    exists|k: int|
        first_failure(members, ips, ifaces, k) && e.name@ == members[k].gateway_name@ && if !has_key(
            ips,
            members[k].gateway_name@,
        ) {
            e.kind == GatewayGroupErrorKind::GatewayIpNotFound
        } else {
            e.kind == GatewayGroupErrorKind::GatewayInterfaceNotFound
        }
}

fn lookup_ip(ips: &[(String, IpAddress)], name: &String) -> (r: Option<IpAddress>)
    ensures
        r is None <==> !has_key(ips@, name@),
        r matches Some(v) ==> first_value(ips@, name@, v),
{
    let mut j: usize = 0;
    while j < ips.len()
        invariant
            0 <= j <= ips.len(),
            forall|k: int| 0 <= k < j ==> (#[trigger] ips@[k]).0@ != name@,
        decreases ips.len() - j,
    {
        if ips[j].0 == *name {
            return Some(ips[j].1);
        }
        j = j + 1;
    }
    None
}

fn lookup_interface(ifaces: &[(String, String)], name: &String) -> (r: Option<String>)
    ensures
        r is None <==> !has_key(ifaces@, name@),
        r matches Some(v) ==> exists|j: int|
            0 <= j < ifaces@.len() && (#[trigger] ifaces@[j]).0@ == name@ && ifaces@[j].1@ == v@
                && forall|x: int| 0 <= x < j ==> (#[trigger] ifaces@[x]).0@ != name@,
{
    let mut j: usize = 0;
    while j < ifaces.len()
        invariant
            0 <= j <= ifaces.len(),
            forall|k: int| 0 <= k < j ==> (#[trigger] ifaces@[k]).0@ != name@,
        decreases ifaces.len() - j,
    {
        if ifaces[j].0 == *name {
            return Some(copy(&ifaces[j].1));
        }
        j = j + 1;
    }
    None
}

/// The active tier has at least one online member in it.
pub proof fn lemma_active_tier_has_member(members: Seq<GatewayGroupMember>, online: Seq<String>, t: u8)
    requires
        active_tier(members, online) == Some(t),
    ensures
        active_in_tier(members, online, t).len() > 0,
    decreases members.len(),
{
    assert(is_active_tier(members, online, t));
    let w = choose|w: int| 0 <= w < members.len() && (#[trigger] members[w]).tier == t && member_online(members, online, w);
    lemma_in_tier_nonempty(members, online, t, w);
}

proof fn lemma_in_tier_nonempty(members: Seq<GatewayGroupMember>, online: Seq<String>, t: u8, w: int)
    requires
        0 <= w < members.len(),
        members[w].tier == t,
        member_online(members, online, w),
    ensures
        active_in_tier(members, online, t).len() > 0,
    decreases members.len(),
{
    if w < members.len() - 1 {
        assert(members.drop_last()[w] == members[w]);
        lemma_in_tier_nonempty(members.drop_last(), online, t, w);
    }
}

/// Tiered failover: when some gateway of the group is online, the active tier
/// is the lowest tier that has an online gateway, and every member handed out
/// for load balancing is online and in that tier.
pub proof fn lemma_failover_picks_lowest_online_tier(
    members: Seq<GatewayGroupMember>,
    online: Seq<String>,
    i: int,
)
    requires
        0 <= i < members.len(),
        member_online(members, online, i),
    ensures
        active_tier(members, online) matches Some(t) && t <= members[i].tier && tier_online(
            members,
            online,
            t,
        ),
        forall|k: int|
            0 <= k < active_in_tier(members, online, active_tier(members, online)->0).len() ==> {
                let m = #[trigger] active_in_tier(members, online, active_tier(members, online)->0)[k];
                m.tier == active_tier(members, online)->0 && name_in(online, m.gateway_name@)
            },
{
    lemma_min_online_tier_exists(members, online, i);
    let t = choose|t: u8| is_active_tier(members, online, t);
    lemma_in_tier_members(members, online, t);
}

proof fn lemma_in_tier_members(members: Seq<GatewayGroupMember>, online: Seq<String>, t: u8)
    ensures
        forall|k: int|
            0 <= k < active_in_tier(members, online, t).len() ==> (#[trigger] active_in_tier(
                members,
                online,
                t,
            )[k]).tier == t && name_in(online, active_in_tier(members, online, t)[k].gateway_name@),
    decreases members.len(),
{
    if members.len() > 0 {
        lemma_in_tier_members(members.drop_last(), online, t);
        let rest = active_in_tier(members.drop_last(), online, t);
        let m = members.last();
        if m.tier == t && name_in(online, m.gateway_name@) {
            assert(active_in_tier(members, online, t) == rest.push(m));
            assert forall|k: int| 0 <= k < rest.len() + 1 implies (#[trigger] rest.push(m)[k]).tier == t
                && name_in(online, rest.push(m)[k].gateway_name@) by {
                if k < rest.len() {
                    assert(rest.push(m)[k] == rest[k]);
                }
            }
        } else {
            assert(active_in_tier(members, online, t) == rest);
        }
    }
}

proof fn lemma_min_online_tier_exists(members: Seq<GatewayGroupMember>, online: Seq<String>, i: int)
    requires
        0 <= i < members.len(),
        member_online(members, online, i),
    ensures
        exists|t: u8| is_active_tier(members, online, t),
    decreases members.len(),
{
    // the minimum over online members, found by induction on the prefix
    let n = members.len() as int;
    let last = members[n - 1];
    if n == 1 {
        assert(is_active_tier(members, online, members[0].tier));
    } else {
        let pre = members.drop_last();
        if exists|j: int| 0 <= j < pre.len() && member_online(pre, online, j) {
            let j = choose|j: int| 0 <= j < pre.len() && member_online(pre, online, j);
            lemma_min_online_tier_exists(pre, online, j);
            let t = choose|t: u8| is_active_tier(pre, online, t);
            let wt = choose|x: int| 0 <= x < pre.len() && (#[trigger] pre[x]).tier == t && member_online(pre, online, x);
            assert(members[wt] == pre[wt]);
            if member_online(members, online, n - 1) && last.tier < t {
                assert forall|x: int| 0 <= x < members.len() && member_online(members, online, x) implies last.tier
                    <= (#[trigger] members[x]).tier by {
                    if x < n - 1 {
                        assert(members[x] == pre[x]);
                        assert(member_online(pre, online, x));
                    }
                }
                assert(is_active_tier(members, online, last.tier));
            } else {
                assert forall|x: int| 0 <= x < members.len() && member_online(members, online, x) implies t
                    <= (#[trigger] members[x]).tier by {
                    if x < n - 1 {
                        assert(members[x] == pre[x]);
                        assert(member_online(pre, online, x));
                    }
                }
                assert(is_active_tier(members, online, t));
            }
        } else {
            assert(i == n - 1) by {
                if i < n - 1 {
                    assert(members[i] == pre[i]);
                    assert(member_online(pre, online, i));
                }
            }
            assert forall|x: int| 0 <= x < members.len() && member_online(members, online, x) implies last.tier
                <= (#[trigger] members[x]).tier by {
                if x < n - 1 {
                    assert(members[x] == pre[x]);
                    assert(member_online(pre, online, x));
                }
            }
            assert(is_active_tier(members, online, last.tier));
        }
    }
}

} // verus!
