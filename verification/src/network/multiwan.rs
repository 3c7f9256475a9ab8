//! Several WAN uplinks: gateways, their health by consecutive checks,
//! groups for load balancing and failover, policy routes, and the `ip`
//! commands that put them into effect.
use vstd::prelude::*;
use crate::net::{IpAddress, ip_text, push_ip};
use crate::text::{
    chars_of, decimal, owned, prefix_at, push_decimal, push_string, split_on, split_ranges, str_eq, string_of, trim,
    trim_end_range, trim_start_range, views,
};

verus! {

/// How a gateway is checked.
#[derive(PartialEq, Eq, Structural, Clone, Copy, Debug)]
pub enum MonitorMethod {
    Ping,
    TcpPort,
    HttpGet,
}

#[derive(PartialEq, Eq, Structural, Clone, Copy, Debug)]
pub enum GatewayStatus {
    Online,
    Offline,
    Degraded,
    Unknown,
}

#[derive(PartialEq, Eq, Structural, Clone, Copy, Debug)]
pub enum LoadBalanceAlgorithm {
    RoundRobin,
    WeightedRandom,
    LeastConnections,
    /// Primary and backups only.
    Failover,
}

/// A WAN gateway, its check settings and its health.
#[derive(Clone, Debug)]
pub struct WanGateway {
    pub name: String,
    pub enabled: bool,
    pub interface: String,
    pub gateway_ip: IpAddress,
    /// For load balancing, from 1 to 100.
    pub weight: u32,
    /// Lower is preferred in failover.
    pub priority: u32,
    pub monitor_enabled: bool,
    pub monitor_method: MonitorMethod,
    /// The address or host name that is checked.
    pub monitor_target: Option<String>,
    /// In seconds.
    pub monitor_interval: u32,
    /// In seconds.
    pub monitor_timeout: u32,
    /// Failures in a row before the gateway counts as offline.
    pub failure_threshold: u32,
    /// Successes in a row before the gateway counts as online.
    pub recovery_threshold: u32,
    /// Time of the last check, in seconds since the Unix epoch.
    pub last_check: Option<i64>,
    pub status: GatewayStatus,
    pub consecutive_failures: u32,
    pub consecutive_successes: u32,
}

/// Gateways that balance load or fail over, by name.
#[derive(Clone, Debug)]
pub struct GatewayGroup {
    pub name: String,
    pub enabled: bool,
    pub algorithm: LoadBalanceAlgorithm,
    pub gateways: Vec<String>,
    /// Session persistence by source address.
    pub sticky: bool,
}

/// A policy route: matching traffic uses a gateway group.
#[derive(Clone, Debug)]
pub struct PolicyRoute {
    pub name: String,
    pub enabled: bool,
    pub priority: u32,
    pub source_network: Option<String>,
    pub destination_network: Option<String>,
    pub protocol: Option<String>,
    pub source_port: Option<u16>,
    pub destination_port: Option<u16>,
    pub gateway_group: String,
}

/// Why a multi-WAN request failed.
#[derive(PartialEq, Eq, Structural, Clone, Copy, Debug)]
pub enum MultiWanError {
    GatewayNotFound,
    GroupNotFound,
    NoMonitorTarget,
    /// A TCP target is not of the form `host:port`.
    InvalidTcpTarget,
}

/// What a gateway's check finds: the new health after one more success or
/// failure.  Successes reset the failures and count up; at the recovery
/// threshold the gateway is online.  Failures reset the successes and count
/// up; at the failure threshold it is offline.  Otherwise the status stays.
pub open spec fn after_check(g: WanGateway, is_up: bool, now: i64) -> WanGateway {
    if is_up {
        let s = (g.consecutive_successes + 1) as u32;
        WanGateway {
            last_check: Some(now),
            consecutive_failures: 0,
            consecutive_successes: s,
            status: if s >= g.recovery_threshold {
                GatewayStatus::Online
            } else {
                g.status
            },
            ..g
        }
    } else {
        let f = (g.consecutive_failures + 1) as u32;
        WanGateway {
            last_check: Some(now),
            consecutive_successes: 0,
            consecutive_failures: f,
            status: if f >= g.failure_threshold {
                GatewayStatus::Offline
            } else {
                g.status
            },
            ..g
        }
    }
}

/// Whether no two gateways, groups or policies of a list share a name.
pub open spec fn gateway_names_unique(v: Seq<WanGateway>) -> bool {
    forall|i: int, j: int| 0 <= i < j < v.len() ==> (#[trigger] v[i]).name@ != (#[trigger] v[j]).name@
}

pub open spec fn group_names_unique(v: Seq<GatewayGroup>) -> bool {
    forall|i: int, j: int| 0 <= i < j < v.len() ==> (#[trigger] v[i]).name@ != (#[trigger] v[j]).name@
}

/// Whether the policies are ordered by priority.
pub open spec fn by_priority(v: Seq<PolicyRoute>) -> bool {
    forall|i: int, j: int| 0 <= i < j < v.len() ==> (#[trigger] v[i]).priority <= (#[trigger] v[j]).priority
}

/// The index of the gateway of that name, if any.
pub open spec fn gateway_index(v: Seq<WanGateway>, name: Seq<char>) -> Option<int> {
    if exists|i: int| 0 <= i < v.len() && v[i].name@ == name {
        Some(choose|i: int| 0 <= i < v.len() && v[i].name@ == name)
    } else {
        None
    }
}

/// The gateways of a group, in the group's order, that exist, are enabled
/// and are online.
pub open spec fn online_members(gws: Seq<WanGateway>, names: Seq<String>) -> Seq<WanGateway>
    decreases names.len(),
{
    if names.len() == 0 {
        Seq::empty()
    } else {
        online_members(gws, names.drop_last()) + match gateway_index(gws, names.last()@) {
            Some(i) => if gws[i].enabled && gws[i].status == GatewayStatus::Online {
                seq![gws[i]]
            } else {
                Seq::empty()
            },
            None => Seq::empty(),
        }
    }
}

/// The next hops of multipath routing: `nexthop via <ip> dev <if> weight
/// <w> ` for each gateway, all weights 1 unless weighted.
pub open spec fn nexthops_text(gws: Seq<WanGateway>, weighted: bool) -> Seq<char>
    decreases gws.len(),
{
    if gws.len() == 0 {
        Seq::empty()
    } else {
        nexthops_text(gws.drop_last(), weighted) + "nexthop via "@ + ip_text(gws.last().gateway_ip) + " dev "@
            + gws.last().interface@ + " weight "@ + (if weighted {
            decimal(gws.last().weight as nat)
        } else {
            "1"@
        }) + " "@
    }
}

/// The first gateway of least priority number.
pub open spec fn primary_index(gws: Seq<WanGateway>) -> int
    decreases gws.len(),
{
    if gws.len() <= 1 {
        0
    } else {
        let k = primary_index(gws.drop_last());
        if gws.last().priority < gws[k].priority {
            gws.len() - 1
        } else {
            k
        }
    }
}

/// The `ip` arguments that route through a group's online gateways.
pub open spec fn group_route_args(alg: LoadBalanceAlgorithm, gws: Seq<WanGateway>) -> Seq<Seq<char>> {
    if alg == LoadBalanceAlgorithm::Failover {
        let p = gws[primary_index(gws)];
        seq!["route"@, "replace"@, "default"@, "via"@, ip_text(p.gateway_ip), "dev"@, p.interface@]
    } else {
        seq![
            "route"@,
            "replace"@,
            "default"@,
            trim(nexthops_text(gws, alg == LoadBalanceAlgorithm::WeightedRandom)),
        ]
    }
}

/// The commands of load balancing: one per enabled group with an online
/// gateway, in the order of the groups.
pub open spec fn balancing_commands(gws: Seq<WanGateway>, groups: Seq<GatewayGroup>) -> Seq<Seq<Seq<char>>>
    decreases groups.len(),
{
    if groups.len() == 0 {
        Seq::empty()
    } else {
        let g = groups.last();
        let on = online_members(gws, g.gateways@);
        balancing_commands(gws, groups.drop_last()) + if g.enabled && on.len() > 0 {
            seq![group_route_args(g.algorithm, on)]
        } else {
            Seq::empty()
        }
    }
}

/// The `ip rule` arguments of a policy with its routing table.
pub open spec fn policy_rule_args(p: PolicyRoute, table: nat) -> Seq<Seq<char>> {
    seq!["rule"@, "add"@] + (match p.source_network {
        Some(s) => seq!["from"@, s@],
        None => Seq::empty(),
    }) + (match p.destination_network {
        Some(d) => seq!["to"@, d@],
        None => Seq::empty(),
    }) + seq!["table"@, decimal(table), "priority"@, decimal(p.priority as nat)]
}

/// The `ip route` arguments of a policy's table, through a gateway.
pub open spec fn policy_route_args(g: WanGateway, table: nat) -> Seq<Seq<char>> {
    seq!["route"@, "replace"@, "default"@, "via"@, ip_text(g.gateway_ip), "dev"@, g.interface@, "table"@, decimal(table)]
}

/// The index of the group of that name, if any.
pub open spec fn group_index(v: Seq<GatewayGroup>, name: Seq<char>) -> Option<int> {
    if exists|i: int| 0 <= i < v.len() && v[i].name@ == name {
        Some(choose|i: int| 0 <= i < v.len() && v[i].name@ == name)
    } else {
        None
    }
}

/// The commands of the first `n` policies, each enabled one with a table
/// numbered from 100 by its place, and where they stop: at the first
/// enabled policy whose group does not exist.
pub open spec fn policy_commands(
    gws: Seq<WanGateway>,
    groups: Seq<GatewayGroup>,
    ps: Seq<PolicyRoute>,
    n: nat,
) -> (Seq<Seq<Seq<char>>>, Option<MultiWanError>)
    decreases n,
{
    if n == 0 {
        (Seq::empty(), None)
    } else {
        let prev = policy_commands(gws, groups, ps, (n - 1) as nat);
        let p = ps[n - 1];
        if prev.1 is Some || !p.enabled {
            prev
        } else {
            match group_index(groups, p.gateway_group@) {
                None => (prev.0, Some(MultiWanError::GroupNotFound)),
                Some(gi) => {
                    let on = online_members(gws, groups[gi].gateways@);
                    if on.len() == 0 {
                        prev
                    } else {
                        (
                            prev.0 + seq![
                                policy_rule_args(p, (n - 1 + 100) as nat),
                                policy_route_args(on[0], (n - 1 + 100) as nat),
                            ],
                            None,
                        )
                    }
                },
            }
        }
    }
}

/// Gateways, groups and policy routes.
pub struct MultiWanManager {
    gateways: Vec<WanGateway>,
    groups: Vec<GatewayGroup>,
    policies: Vec<PolicyRoute>,
    monitoring_enabled: bool,
}

impl MultiWanManager {
    pub closed spec fn gateways_view(&self) -> Seq<WanGateway> {
        self.gateways@
    }

    pub closed spec fn groups_view(&self) -> Seq<GatewayGroup> {
        self.groups@
    }

    pub closed spec fn policies_view(&self) -> Seq<PolicyRoute> {
        self.policies@
    }

    pub closed spec fn monitoring_view(&self) -> bool {
        self.monitoring_enabled
    }

    /// Names are unique, and the policies are ordered by priority.
    pub closed spec fn wf(&self) -> bool {
        &&& gateway_names_unique(self.gateways@)
        &&& group_names_unique(self.groups@)
        &&& by_priority(self.policies@)
    }

    /// Nothing configured, monitoring off.
    pub fn new() -> (m: MultiWanManager)
        ensures
            m.wf(),
            m.gateways_view().len() == 0,
            m.groups_view().len() == 0,
            m.policies_view().len() == 0,
            !m.monitoring_view(),
    {
        MultiWanManager { gateways: Vec::new(), groups: Vec::new(), policies: Vec::new(), monitoring_enabled: false }
    }

    fn find_gateway(&self, name: &str) -> (r: Option<usize>)
        requires
            gateway_names_unique(self.gateways@),
        ensures
            match r {
                Some(i) => i < self.gateways@.len() && self.gateways@[i as int].name@ == name@ && gateway_index(
                    self.gateways@,
                    name@,
                ) == Some(i as int),
                None => gateway_index(self.gateways@, name@) is None,
            },
    {
        let mut i: usize = 0;
        while i < self.gateways.len()
            invariant
                0 <= i <= self.gateways@.len(),
                forall|k: int| 0 <= k < i ==> (#[trigger] self.gateways@[k]).name@ != name@,
                gateway_names_unique(self.gateways@),
            decreases self.gateways.len() - i,
        {
            if str_eq(self.gateways[i].name.as_str(), name) {
                proof {
                    let c = choose|k: int| 0 <= k < self.gateways@.len() && self.gateways@[k].name@ == name@;
                    if c != i {
                        if c < i {
                            assert(self.gateways@[c].name@ != self.gateways@[i as int].name@);
                        } else {
                            assert(self.gateways@[i as int].name@ != self.gateways@[c].name@);
                        }
                    }
                }
                return Some(i);
            }
            i = i + 1;
        }
        None
    }

    fn find_group(&self, name: &str) -> (r: Option<usize>)
        requires
            group_names_unique(self.groups@),
        ensures
            match r {
                Some(i) => i < self.groups@.len() && self.groups@[i as int].name@ == name@ && group_index(
                    self.groups@,
                    name@,
                ) == Some(i as int),
                None => group_index(self.groups@, name@) is None,
            },
    {
        let mut i: usize = 0;
        while i < self.groups.len()
            invariant
                0 <= i <= self.groups@.len(),
                forall|k: int| 0 <= k < i ==> (#[trigger] self.groups@[k]).name@ != name@,
                group_names_unique(self.groups@),
            decreases self.groups.len() - i,
        {
            if str_eq(self.groups[i].name.as_str(), name) {
                proof {
                    let c = choose|k: int| 0 <= k < self.groups@.len() && self.groups@[k].name@ == name@;
                    if c != i {
                        if c < i {
                            assert(self.groups@[c].name@ != self.groups@[i as int].name@);
                        } else {
                            assert(self.groups@[i as int].name@ != self.groups@[c].name@);
                        }
                    }
                }
                return Some(i);
            }
            i = i + 1;
        }
        None
    }

    /// Adds a gateway, or replaces the one of the same name in its place.
    pub fn add_gateway(&mut self, gateway: WanGateway) -> (r: Result<(), MultiWanError>)
        requires
            old(self).wf(),
        ensures
            final(self).wf(),
            r is Ok,
            gateway_index(old(self).gateways_view(), gateway.name@) matches Some(i) ==> final(self).gateways_view()
                == old(self).gateways_view().update(i, gateway),
            gateway_index(old(self).gateways_view(), gateway.name@) is None ==> final(self).gateways_view() == old(
                self,
            ).gateways_view().push(gateway),
            final(self).groups_view() == old(self).groups_view(),
            final(self).policies_view() == old(self).policies_view(),
            final(self).monitoring_view() == old(self).monitoring_view(),
    {
        let ghost old_v = self.gateways@;
        match self.find_gateway(gateway.name.as_str()) {
            Some(i) => {
                self.gateways.set(i, gateway);
                proof {
                    assert forall|a: int, b: int| 0 <= a < b < self.gateways@.len() implies (
                    #[trigger] self.gateways@[a]).name@ != (#[trigger] self.gateways@[b]).name@ by {
                        if a != i && b != i {
                            assert(self.gateways@[a] == old_v[a] && self.gateways@[b] == old_v[b]);
                        } else if a == i {
                            assert(self.gateways@[b] == old_v[b]);
                            assert(old_v[i as int].name@ != old_v[b].name@);
                        } else {
                            assert(self.gateways@[a] == old_v[a]);
                            assert(old_v[a].name@ != old_v[i as int].name@);
                        }
                    }
                }
            },
            None => {
                self.gateways.push(gateway);
                proof {
                    assert forall|a: int, b: int| 0 <= a < b < self.gateways@.len() implies (
                    #[trigger] self.gateways@[a]).name@ != (#[trigger] self.gateways@[b]).name@ by {
                        assert(self.gateways@[a] == old_v[a]);
                        if b < old_v.len() {
                            assert(self.gateways@[b] == old_v[b]);
                        } else {
                            assert(!(0 <= a < old_v.len() && old_v[a].name@ == gateway.name@));
                        }
                    }
                }
            },
        }
        Ok(())
    }

    /// Removes the gateway of that name, if there is one.
    pub fn remove_gateway(&mut self, name: &str) -> (r: Result<(), MultiWanError>)
        requires
            old(self).wf(),
        ensures
            final(self).wf(),
            r is Ok,
            gateway_index(old(self).gateways_view(), name@) matches Some(i) ==> final(self).gateways_view() == old(
                self,
            ).gateways_view().remove(i),
            gateway_index(old(self).gateways_view(), name@) is None ==> final(self).gateways_view() == old(
                self,
            ).gateways_view(),
            final(self).groups_view() == old(self).groups_view(),
            final(self).policies_view() == old(self).policies_view(),
            final(self).monitoring_view() == old(self).monitoring_view(),
    {
        let ghost old_v = self.gateways@;
        match self.find_gateway(name) {
            Some(i) => {
                self.gateways.remove(i);
                proof {
                    assert forall|a: int, b: int| 0 <= a < b < self.gateways@.len() implies (
                    #[trigger] self.gateways@[a]).name@ != (#[trigger] self.gateways@[b]).name@ by {
                        let oa = if a < i { a } else { a + 1 };
                        let ob = if b < i { b } else { b + 1 };
                        assert(self.gateways@[a] == old_v[oa]);
                        assert(self.gateways@[b] == old_v[ob]);
                    }
                }
            },
            None => {},
        }
        Ok(())
    }

    /// A copy of the gateway of that name.
    pub fn get_gateway(&self, name: &str) -> (r: Result<WanGateway, MultiWanError>)
        requires
            self.wf(),
        ensures
            gateway_index(self.gateways_view(), name@) is None ==> r == Err::<WanGateway, MultiWanError>(
                MultiWanError::GatewayNotFound,
            ),
            gateway_index(self.gateways_view(), name@) matches Some(i) ==> (r matches Ok(g) && g.name@
                == self.gateways_view()[i].name@ && g.status == self.gateways_view()[i].status
                && g.consecutive_failures == self.gateways_view()[i].consecutive_failures
                && g.consecutive_successes == self.gateways_view()[i].consecutive_successes && g.enabled
                == self.gateways_view()[i].enabled && g.gateway_ip == self.gateways_view()[i].gateway_ip
                && g.priority == self.gateways_view()[i].priority && g.weight == self.gateways_view()[i].weight),
    {
        match self.find_gateway(name) {
            Some(i) => {
                let g = &self.gateways[i];
                Ok(
                    WanGateway {
                        name: g.name.clone(),
                        enabled: g.enabled,
                        interface: g.interface.clone(),
                        gateway_ip: g.gateway_ip,
                        weight: g.weight,
                        priority: g.priority,
                        monitor_enabled: g.monitor_enabled,
                        monitor_method: g.monitor_method,
                        monitor_target: g.monitor_target.clone(),
                        monitor_interval: g.monitor_interval,
                        monitor_timeout: g.monitor_timeout,
                        failure_threshold: g.failure_threshold,
                        recovery_threshold: g.recovery_threshold,
                        last_check: g.last_check,
                        status: g.status,
                        consecutive_failures: g.consecutive_failures,
                        consecutive_successes: g.consecutive_successes,
                    },
                )
            },
            None => Err(MultiWanError::GatewayNotFound),
        }
    }

    /// The gateways, in the order they were added.
    pub fn list_gateways(&self) -> (r: Result<Vec<&WanGateway>, MultiWanError>)
        ensures
            r matches Ok(v) && v@.len() == self.gateways_view().len() && forall|k: int|
                0 <= k < v@.len() ==> *(#[trigger] v@[k]) == self.gateways_view()[k],
    {
        let mut v: Vec<&WanGateway> = Vec::new();
        let mut i: usize = 0;
        while i < self.gateways.len()
            invariant
                0 <= i <= self.gateways@.len(),
                v@.len() == i,
                forall|k: int| 0 <= k < i ==> *(#[trigger] v@[k]) == self.gateways@[k],
            decreases self.gateways.len() - i,
        {
            v.push(&self.gateways[i]);
            i = i + 1;
        }
        Ok(v)
    }

    /// Adds a group, or replaces the one of the same name in its place.
    pub fn add_group(&mut self, group: GatewayGroup) -> (r: Result<(), MultiWanError>)
        requires
            old(self).wf(),
        ensures
            final(self).wf(),
            r is Ok,
            group_index(old(self).groups_view(), group.name@) matches Some(i) ==> final(self).groups_view() == old(
                self,
            ).groups_view().update(i, group),
            group_index(old(self).groups_view(), group.name@) is None ==> final(self).groups_view() == old(
                self,
            ).groups_view().push(group),
            final(self).gateways_view() == old(self).gateways_view(),
            final(self).policies_view() == old(self).policies_view(),
            final(self).monitoring_view() == old(self).monitoring_view(),
    {
        let ghost old_v = self.groups@;
        match self.find_group(group.name.as_str()) {
            Some(i) => {
                self.groups.set(i, group);
                proof {
                    assert forall|a: int, b: int| 0 <= a < b < self.groups@.len() implies (
                    #[trigger] self.groups@[a]).name@ != (#[trigger] self.groups@[b]).name@ by {
                        if a != i && b != i {
                            assert(self.groups@[a] == old_v[a] && self.groups@[b] == old_v[b]);
                        } else if a == i {
                            assert(self.groups@[b] == old_v[b]);
                            assert(old_v[i as int].name@ != old_v[b].name@);
                        } else {
                            assert(self.groups@[a] == old_v[a]);
                            assert(old_v[a].name@ != old_v[i as int].name@);
                        }
                    }
                }
            },
            None => {
                self.groups.push(group);
                proof {
                    assert forall|a: int, b: int| 0 <= a < b < self.groups@.len() implies (
                    #[trigger] self.groups@[a]).name@ != (#[trigger] self.groups@[b]).name@ by {
                        assert(self.groups@[a] == old_v[a]);
                        if b < old_v.len() {
                            assert(self.groups@[b] == old_v[b]);
                        } else {
                            assert(!(0 <= a < old_v.len() && old_v[a].name@ == group.name@));
                        }
                    }
                }
            },
        }
        Ok(())
    }

    /// Removes the group of that name, if there is one.
    pub fn remove_group(&mut self, name: &str) -> (r: Result<(), MultiWanError>)
        requires
            old(self).wf(),
        ensures
            final(self).wf(),
            r is Ok,
            group_index(old(self).groups_view(), name@) matches Some(i) ==> final(self).groups_view() == old(
                self,
            ).groups_view().remove(i),
            group_index(old(self).groups_view(), name@) is None ==> final(self).groups_view() == old(
                self,
            ).groups_view(),
            final(self).gateways_view() == old(self).gateways_view(),
            final(self).policies_view() == old(self).policies_view(),
            final(self).monitoring_view() == old(self).monitoring_view(),
    {
        let ghost old_v = self.groups@;
        match self.find_group(name) {
            Some(i) => {
                self.groups.remove(i);
                proof {
                    assert forall|a: int, b: int| 0 <= a < b < self.groups@.len() implies (
                    #[trigger] self.groups@[a]).name@ != (#[trigger] self.groups@[b]).name@ by {
                        let oa = if a < i { a } else { a + 1 };
                        let ob = if b < i { b } else { b + 1 };
                        assert(self.groups@[a] == old_v[oa]);
                        assert(self.groups@[b] == old_v[ob]);
                    }
                }
            },
            None => {},
        }
        Ok(())
    }

    /// The groups, in the order they were added.
    pub fn list_groups(&self) -> (r: Result<Vec<&GatewayGroup>, MultiWanError>)
        ensures
            r matches Ok(v) && v@.len() == self.groups_view().len() && forall|k: int|
                0 <= k < v@.len() ==> *(#[trigger] v@[k]) == self.groups_view()[k],
    {
        let mut v: Vec<&GatewayGroup> = Vec::new();
        let mut i: usize = 0;
        while i < self.groups.len()
            invariant
                0 <= i <= self.groups@.len(),
                v@.len() == i,
                forall|k: int| 0 <= k < i ==> *(#[trigger] v@[k]) == self.groups@[k],
            decreases self.groups.len() - i,
        {
            v.push(&self.groups[i]);
            i = i + 1;
        }
        Ok(v)
    }

    /// Adds a policy after all policies of lower or equal priority, so that
    /// the list stays ordered by priority and equal priorities keep their
    /// order of addition.
    pub fn add_policy(&mut self, policy: PolicyRoute) -> (r: Result<(), MultiWanError>)
        requires
            old(self).wf(),
        ensures
            final(self).wf(),
            r is Ok,
            exists|k: int|
                0 <= k <= old(self).policies_view().len() && final(self).policies_view() == old(
                    self,
                ).policies_view().insert(k, policy) && (forall|j: int|
                    0 <= j < k ==> (#[trigger] old(self).policies_view()[j]).priority <= policy.priority) && (forall|
                    j: int,
                |
                    k <= j < old(self).policies_view().len() ==> (#[trigger] old(
                        self,
                    ).policies_view()[j]).priority > policy.priority),
            final(self).gateways_view() == old(self).gateways_view(),
            final(self).groups_view() == old(self).groups_view(),
            final(self).monitoring_view() == old(self).monitoring_view(),
    {
        let ghost old_v = self.policies@;
        let mut k: usize = 0;
        while k < self.policies.len() && self.policies[k].priority <= policy.priority
            invariant
                0 <= k <= self.policies@.len(),
                self.policies@ == old_v,
                by_priority(old_v),
                forall|j: int| 0 <= j < k ==> (#[trigger] old_v[j]).priority <= policy.priority,
            decreases self.policies.len() - k,
        {
            k = k + 1;
        }
        proof {
            assert forall|j: int| k <= j < old_v.len() implies (#[trigger] old_v[j]).priority > policy.priority by {
                assert(old_v[k as int].priority > policy.priority);
                if j > k {
                    assert(old_v[k as int].priority <= old_v[j].priority);
                }
            }
        }
        self.policies.insert(k, policy);
        proof {
            let nv = self.policies@;
            assert(nv == old_v.insert(k as int, policy));
            assert forall|a: int, b: int| 0 <= a < b < nv.len() implies (#[trigger] nv[a]).priority <= (
            #[trigger] nv[b]).priority by {
                if b < k {
                    assert(nv[a] == old_v[a] && nv[b] == old_v[b]);
                } else if b == k {
                    assert(nv[a] == old_v[a]);
                } else if a < k {
                    assert(nv[a] == old_v[a] && nv[b] == old_v[b - 1]);
                } else if a == k {
                    assert(nv[b] == old_v[b - 1]);
                } else {
                    assert(nv[a] == old_v[a - 1] && nv[b] == old_v[b - 1]);
                }
            }
            let kk = k as int;
            assert(old(self).policies_view() == old_v);
            assert(self.policies_view() == nv);
            assert(0 <= kk <= old(self).policies_view().len() && self.policies_view() == old(self).policies_view().insert(
                kk,
                policy,
            ) && (forall|j: int|
                0 <= j < kk ==> (#[trigger] old(self).policies_view()[j]).priority <= policy.priority) && (forall|j: int|
                kk <= j < old(self).policies_view().len() ==> (#[trigger] old(self).policies_view()[j]).priority
                    > policy.priority));
        }
        Ok(())
    }

    /// Removes every policy of that name.
    pub fn remove_policy(&mut self, name: &str) -> (r: Result<(), MultiWanError>)
        requires
            old(self).wf(),
        ensures
            final(self).wf(),
            r is Ok,
            final(self).policies_view() == policies_without(old(self).policies_view(), name@),
            final(self).gateways_view() == old(self).gateways_view(),
            final(self).groups_view() == old(self).groups_view(),
            final(self).monitoring_view() == old(self).monitoring_view(),
    {
        let ghost old_v = self.policies@;
        let mut kept: Vec<PolicyRoute> = Vec::new();
        let mut i: usize = 0;
        while i < self.policies.len()
            invariant
                0 <= i <= old_v.len(),
                self.policies@ == old_v,
                kept@ == policies_without(old_v.subrange(0, i as int), name@),
            decreases self.policies.len() - i,
        {
            proof {
                assert(old_v.subrange(0, i + 1).drop_last() =~= old_v.subrange(0, i as int));
            }
            if !str_eq(self.policies[i].name.as_str(), name) {
                kept.push(copy_policy(&self.policies[i]));
            }
            i = i + 1;
        }
        proof {
            assert(old_v.subrange(0, old_v.len() as int) =~= old_v);
            lemma_without_keeps_order(old_v, name@);
        }
        self.policies = kept;
        Ok(())
    }

    /// What checking a gateway needs: nothing for a disabled or unmonitored
    /// gateway; else its method, target and timeout.
    pub fn monitor_target(&self, name: &str) -> (r: Result<Option<(MonitorMethod, String, u32)>, MultiWanError>)
        requires
            self.wf(),
        ensures
            gateway_index(self.gateways_view(), name@) is None ==> r == Err::<
                Option<(MonitorMethod, String, u32)>,
                MultiWanError,
            >(MultiWanError::GatewayNotFound),
            gateway_index(self.gateways_view(), name@) matches Some(i) ==> {
                let g = self.gateways_view()[i];
                &&& (!g.enabled || !g.monitor_enabled) ==> (r matches Ok(None))
                &&& (g.enabled && g.monitor_enabled && g.monitor_target is None) ==> r == Err::<
                    Option<(MonitorMethod, String, u32)>,
                    MultiWanError,
                >(MultiWanError::NoMonitorTarget)
                &&& (g.enabled && g.monitor_enabled && g.monitor_target is Some) ==> (r matches Ok(Some(t)) && t.0
                    == g.monitor_method && t.1@ == g.monitor_target->Some_0@ && t.2 == g.monitor_timeout)
            },
    {
        match self.find_gateway(name) {
            None => Err(MultiWanError::GatewayNotFound),
            Some(i) => {
                let g = &self.gateways[i];
                if !g.enabled || !g.monitor_enabled {
                    return Ok(None);
                }
                match &g.monitor_target {
                    None => Err(MultiWanError::NoMonitorTarget),
                    Some(t) => Ok(Some((g.monitor_method, t.clone(), g.monitor_timeout))),
                }
            },
        }
    }

    /// Records the outcome of a check of a gateway at `now`; see
    /// `after_check`.
    pub fn record_check(&mut self, name: &str, is_up: bool, now: i64) -> (r: Result<(), MultiWanError>)
        requires
            old(self).wf(),
            forall|k: int|
                0 <= k < old(self).gateways_view().len() ==> (#[trigger] old(self).gateways_view()[k]).consecutive_successes
                    < u32::MAX && old(self).gateways_view()[k].consecutive_failures < u32::MAX,
        ensures
            final(self).wf(),
            gateway_index(old(self).gateways_view(), name@) is None ==> r == Err::<(), MultiWanError>(
                MultiWanError::GatewayNotFound,
            ) && final(self).gateways_view() == old(self).gateways_view(),
            gateway_index(old(self).gateways_view(), name@) matches Some(i) ==> r is Ok && final(self).gateways_view()
                == old(self).gateways_view().update(i, after_check(old(self).gateways_view()[i], is_up, now)),
            final(self).groups_view() == old(self).groups_view(),
            final(self).policies_view() == old(self).policies_view(),
            final(self).monitoring_view() == old(self).monitoring_view(),
    {
        match self.find_gateway(name) {
            None => Err(MultiWanError::GatewayNotFound),
            Some(i) => {
                let ghost old_v = self.gateways@;
                let mut g = self.gateways.remove(i);
                g.last_check = Some(now);
                if is_up {
                    g.consecutive_failures = 0;
                    g.consecutive_successes = g.consecutive_successes + 1;
                    if g.consecutive_successes >= g.recovery_threshold {
                        g.status = GatewayStatus::Online;
                    }
                } else {
                    g.consecutive_successes = 0;
                    g.consecutive_failures = g.consecutive_failures + 1;
                    if g.consecutive_failures >= g.failure_threshold {
                        g.status = GatewayStatus::Offline;
                    }
                }
                self.gateways.insert(i, g);
                proof {
                    assert(self.gateways@ =~= old_v.update(i as int, after_check(old_v[i as int], is_up, now)));
                    assert forall|a: int, b: int| 0 <= a < b < self.gateways@.len() implies (
                    #[trigger] self.gateways@[a]).name@ != (#[trigger] self.gateways@[b]).name@ by {
                        assert(self.gateways@[a].name == old_v[a].name);
                        assert(self.gateways@[b].name == old_v[b].name);
                    }
                }
                Ok(())
            },
        }
    }

    /// Turns monitoring on.
    pub fn start_monitoring(&mut self) -> (r: Result<(), MultiWanError>)
        ensures
            r is Ok,
            final(self).monitoring_view(),
            final(self).gateways_view() == old(self).gateways_view(),
            final(self).groups_view() == old(self).groups_view(),
            final(self).policies_view() == old(self).policies_view(),
            old(self).wf() ==> final(self).wf(),
    {
        self.monitoring_enabled = true;
        Ok(())
    }

    /// Turns monitoring off.
    pub fn stop_monitoring(&mut self) -> (r: Result<(), MultiWanError>)
        ensures
            r is Ok,
            !final(self).monitoring_view(),
            final(self).gateways_view() == old(self).gateways_view(),
            final(self).groups_view() == old(self).groups_view(),
            final(self).policies_view() == old(self).policies_view(),
            old(self).wf() ==> final(self).wf(),
    {
        self.monitoring_enabled = false;
        Ok(())
    }

    /// Whether monitoring is on.
    pub fn is_monitoring(&self) -> (b: bool)
        ensures
            b == self.monitoring_view(),
    {
        self.monitoring_enabled
    }

    fn online_of(&self, names: &Vec<String>) -> (v: Vec<usize>)
        requires
            self.wf(),
        ensures
            v@.len() == online_members(self.gateways@, names@).len(),
            forall|k: int|
                0 <= k < v@.len() ==> (#[trigger] v@[k]) < self.gateways@.len() && self.gateways@[v@[k] as int]
                    == online_members(self.gateways@, names@)[k],
    {
        let mut v: Vec<usize> = Vec::new();
        let mut i: usize = 0;
        while i < names.len()
            invariant
                0 <= i <= names@.len(),
                self.wf(),
                v@.len() == online_members(self.gateways@, names@.subrange(0, i as int)).len(),
                forall|k: int|
                    0 <= k < v@.len() ==> (#[trigger] v@[k]) < self.gateways@.len() && self.gateways@[v@[k] as int]
                        == online_members(self.gateways@, names@.subrange(0, i as int))[k],
            decreases names.len() - i,
        {
            let ghost pre = online_members(self.gateways@, names@.subrange(0, i as int));
            proof {
                assert(names@.subrange(0, i + 1).drop_last() =~= names@.subrange(0, i as int));
                assert(names@.subrange(0, i + 1).last() == names@[i as int]);
            }
            match self.find_gateway(names[i].as_str()) {
                Some(j) => {
                    if self.gateways[j].enabled && self.gateways[j].status == GatewayStatus::Online {
                        v.push(j);
                        proof {
                            let post = online_members(self.gateways@, names@.subrange(0, i + 1));
                            assert(post == pre.push(self.gateways@[j as int]));
                        }
                    }
                },
                None => {},
            }
            i = i + 1;
        }
        proof {
            assert(names@.subrange(0, names@.len() as int) =~= names@);
        }
        v
    }

    fn push_nexthops(&self, out: &mut String, idx: &Vec<usize>, weighted: bool, gws: Ghost<Seq<WanGateway>>)
        requires
            forall|k: int| 0 <= k < idx@.len() ==> (#[trigger] idx@[k]) < self.gateways@.len(),
            gws@.len() == idx@.len(),
            forall|k: int| 0 <= k < idx@.len() ==> self.gateways@[(#[trigger] idx@[k]) as int] == gws@[k],
        ensures
            final(out)@ == old(out)@ + nexthops_text(gws@, weighted),
    {
        let ghost base = out@;
        let mut k: usize = 0;
        while k < idx.len()
            invariant
                0 <= k <= idx@.len(),
                forall|j: int| 0 <= j < idx@.len() ==> (#[trigger] idx@[j]) < self.gateways@.len(),
                gws@.len() == idx@.len(),
                forall|j: int| 0 <= j < idx@.len() ==> self.gateways@[(#[trigger] idx@[j]) as int] == gws@[j],
                out@ == base + nexthops_text(gws@.subrange(0, k as int), weighted),
            decreases idx.len() - k,
        {
            let g = &self.gateways[idx[k]];
            proof {
                assert(gws@.subrange(0, k + 1).drop_last() =~= gws@.subrange(0, k as int));
                assert(gws@.subrange(0, k + 1).last() == *g);
            }
            let ghost before = out@;
            out.append("nexthop via ");
            push_ip(out, g.gateway_ip);
            out.append(" dev ");
            out.append(g.interface.as_str());
            out.append(" weight ");
            if weighted {
                push_decimal(out, g.weight as u64);
            } else {
                out.append("1");
            }
            out.append(" ");
            proof {
                assert(out@ =~= base + nexthops_text(gws@.subrange(0, k + 1), weighted));
            }
            k = k + 1;
        }
        proof {
            assert(gws@.subrange(0, idx@.len() as int) =~= gws@);
        }
    }

    fn route_args_for(&self, alg: LoadBalanceAlgorithm, idx: &Vec<usize>, gws: Ghost<Seq<WanGateway>>) -> (args: Vec<String>)
        requires
            idx@.len() > 0,
            forall|k: int| 0 <= k < idx@.len() ==> (#[trigger] idx@[k]) < self.gateways@.len(),
            gws@.len() == idx@.len(),
            forall|k: int| 0 <= k < idx@.len() ==> self.gateways@[(#[trigger] idx@[k]) as int] == gws@[k],
        ensures
            views(args@) == group_route_args(alg, gws@),
    {
        let mut args: Vec<String> = Vec::new();
        push_string(&mut args, owned("route"));
        push_string(&mut args, owned("replace"));
        push_string(&mut args, owned("default"));
        if alg == LoadBalanceAlgorithm::Failover {
            let mut best: usize = 0;
            let mut k: usize = 1;
            proof {
                assert(gws@.subrange(0, 1).drop_last() =~= Seq::<WanGateway>::empty());
            }
            while k < idx.len()
                invariant
                    1 <= k <= idx@.len(),
                    best < k,
                    forall|j: int| 0 <= j < idx@.len() ==> (#[trigger] idx@[j]) < self.gateways@.len(),
                    gws@.len() == idx@.len(),
                    forall|j: int| 0 <= j < idx@.len() ==> self.gateways@[(#[trigger] idx@[j]) as int] == gws@[j],
                    best == primary_index(gws@.subrange(0, k as int)),
                decreases idx.len() - k,
            {
                proof {
                    assert(gws@.subrange(0, k + 1).drop_last() =~= gws@.subrange(0, k as int));
                    assert(gws@.subrange(0, k + 1).last() == gws@[k as int]);
                    assert(gws@.subrange(0, k + 1)[best as int] == gws@[best as int]);
                }
                if self.gateways[idx[k]].priority < self.gateways[idx[best]].priority {
                    best = k;
                }
                k = k + 1;
            }
            proof {
                assert(gws@.subrange(0, idx@.len() as int) =~= gws@);
            }
            let g = &self.gateways[idx[best]];
            push_string(&mut args, owned("via"));
            let mut ip = String::new();
            push_ip(&mut ip, g.gateway_ip);
            proof {
                assert(ip@ =~= ip_text(g.gateway_ip));
            }
            push_string(&mut args, ip);
            push_string(&mut args, owned("dev"));
            push_string(&mut args, g.interface.clone());
            proof {
                assert(views(args@) =~= group_route_args(alg, gws@));
            }
        } else {
            let mut hops = String::new();
            self.push_nexthops(&mut hops, idx, alg == LoadBalanceAlgorithm::WeightedRandom, gws);
            let v = chars_of(hops.as_str());
            let a = trim_start_range(&v, 0, v.len());
            let b = trim_end_range(&v, a, v.len());
            proof {
                assert(v@.subrange(0, v@.len() as int) =~= v@);
            }
            push_string(&mut args, string_of(&v, a, b));
            proof {
                assert(views(args@) =~= group_route_args(alg, gws@));
            }
        }
        args
    }

    /// The `ip` commands of load balancing: for each enabled group with an
    /// online gateway, multipath routing over its online gateways (weighted
    /// for weighted balancing), or routing through the first of least
    /// priority number for failover.
    pub fn load_balancing_commands(&self) -> (cmds: Vec<Vec<String>>)
        requires
            self.wf(),
        ensures
            cmds@.map_values(|c: Vec<String>| views(c@)) == balancing_commands(self.gateways_view(), self.groups_view()),
    {
        let mut cmds: Vec<Vec<String>> = Vec::new();
        let mut i: usize = 0;
        while i < self.groups.len()
            invariant
                0 <= i <= self.groups@.len(),
                self.wf(),
                cmds@.map_values(|c: Vec<String>| views(c@)) == balancing_commands(
                    self.gateways@,
                    self.groups@.subrange(0, i as int),
                ),
            decreases self.groups.len() - i,
        {
            let g = &self.groups[i];
            proof {
                assert(self.groups@.subrange(0, i + 1).drop_last() =~= self.groups@.subrange(0, i as int));
                assert(self.groups@.subrange(0, i + 1).last() == *g);
            }
            let ghost before = cmds@.map_values(|c: Vec<String>| views(c@));
            if g.enabled {
                let idx = self.online_of(&g.gateways);
                if idx.len() > 0 {
                    let ghost on = online_members(self.gateways@, g.gateways@);
                    let args = self.route_args_for(g.algorithm, &idx, Ghost(on));
                    cmds.push(args);
                    proof {
                        assert(cmds@.map_values(|c: Vec<String>| views(c@)) =~= before.push(
                            group_route_args(g.algorithm, on),
                        ));
                    }
                }
            }
            proof {
                assert(cmds@.map_values(|c: Vec<String>| views(c@)) =~= balancing_commands(
                    self.gateways@,
                    self.groups@.subrange(0, i + 1),
                ));
            }
            i = i + 1;
        }
        proof {
            assert(self.groups@.subrange(0, self.groups@.len() as int) =~= self.groups@);
        }
        cmds
    }

    /// The `ip` commands of the policy routes, and the error that stops
    /// them; see `policy_commands`.
    pub fn policy_commands(&self) -> (r: (Vec<Vec<String>>, Option<MultiWanError>))
        requires
            self.wf(),
            self.policies_view().len() + 100 <= u64::MAX,
        ensures
            r.0@.map_values(|c: Vec<String>| views(c@)) == policy_commands(
                self.gateways_view(),
                self.groups_view(),
                self.policies_view(),
                self.policies_view().len(),
            ).0,
            r.1 == policy_commands(
                self.gateways_view(),
                self.groups_view(),
                self.policies_view(),
                self.policies_view().len(),
            ).1,
    {
        let mut cmds: Vec<Vec<String>> = Vec::new();
        let mut i: usize = 0;
        while i < self.policies.len()
            invariant
                0 <= i <= self.policies@.len(),
                self.policies@.len() + 100 <= u64::MAX,
                self.wf(),
                cmds@.map_values(|c: Vec<String>| views(c@)) == policy_commands(
                    self.gateways@,
                    self.groups@,
                    self.policies@,
                    i as nat,
                ).0,
                policy_commands(self.gateways@, self.groups@, self.policies@, i as nat).1 is None,
            decreases self.policies.len() - i,
        {
            let p = &self.policies[i];
            let ghost before = cmds@.map_values(|c: Vec<String>| views(c@));
            if p.enabled {
                match self.find_group(p.gateway_group.as_str()) {
                    None => {
                        proof {
                            lemma_policy_error_sticks(
                                self.gateways@,
                                self.groups@,
                                self.policies@,
                                (i + 1) as nat,
                                self.policies@.len(),
                            );
                        }
                        return (cmds, Some(MultiWanError::GroupNotFound));
                    },
                    Some(gi) => {
                        let idx = self.online_of(&self.groups[gi].gateways);
                        if idx.len() > 0 {
                            let table = (i as u64) + 100;
                            let mut rule: Vec<String> = Vec::new();
                            push_string(&mut rule, owned("rule"));
                            push_string(&mut rule, owned("add"));
                            match &p.source_network {
                                Some(src) => {
                                    push_string(&mut rule, owned("from"));
                                    push_string(&mut rule, src.clone());
                                },
                                None => {},
                            }
                            match &p.destination_network {
                                Some(dst) => {
                                    push_string(&mut rule, owned("to"));
                                    push_string(&mut rule, dst.clone());
                                },
                                None => {},
                            }
                            push_string(&mut rule, owned("table"));
                            push_string(&mut rule, decimal_of(table));
                            push_string(&mut rule, owned("priority"));
                            push_string(&mut rule, decimal_of(p.priority as u64));
                            proof {
                                assert(views(rule@) =~= policy_rule_args(*p, table as nat));
                            }
                            let g = &self.gateways[idx[0]];
                            let mut route: Vec<String> = Vec::new();
                            push_string(&mut route, owned("route"));
                            push_string(&mut route, owned("replace"));
                            push_string(&mut route, owned("default"));
                            push_string(&mut route, owned("via"));
                            let mut ip = String::new();
                            push_ip(&mut ip, g.gateway_ip);
                            proof {
                                assert(ip@ =~= ip_text(g.gateway_ip));
                            }
                            push_string(&mut route, ip);
                            push_string(&mut route, owned("dev"));
                            push_string(&mut route, g.interface.clone());
                            push_string(&mut route, owned("table"));
                            push_string(&mut route, decimal_of(table));
                            proof {
                                assert(views(route@) =~= policy_route_args(*g, table as nat));
                            }
                            cmds.push(rule);
                            cmds.push(route);
                            proof {
                                assert(cmds@.map_values(|c: Vec<String>| views(c@)) =~= before + seq![
                                    policy_rule_args(*p, table as nat),
                                    policy_route_args(*g, table as nat),
                                ]);
                            }
                        }
                    },
                }
            }
            i = i + 1;
        }
        (cmds, None)
    }

    /// The arguments of `ping` for one check with the timeout.
    pub fn ping_args(&self, target: &str, timeout: u32) -> (args: Vec<String>)
        ensures
            views(args@) == seq!["-c"@, "1"@, "-W"@, decimal(timeout as nat), target@],
    {
        let mut args: Vec<String> = Vec::new();
        push_string(&mut args, owned("-c"));
        push_string(&mut args, owned("1"));
        push_string(&mut args, owned("-W"));
        push_string(&mut args, decimal_of(timeout as u64));
        push_string(&mut args, owned(target));
        proof {
            assert(views(args@) =~= seq!["-c"@, "1"@, "-W"@, decimal(timeout as nat), target@]);
        }
        args
    }

    /// The policies, by priority.
    pub fn list_policies(&self) -> (r: Result<Vec<&PolicyRoute>, MultiWanError>)
        ensures
            r matches Ok(v) && v@.len() == self.policies_view().len() && forall|k: int|
                0 <= k < v@.len() ==> *(#[trigger] v@[k]) == self.policies_view()[k],
    {
        let mut v: Vec<&PolicyRoute> = Vec::new();
        let mut i: usize = 0;
        while i < self.policies.len()
            invariant
                0 <= i <= self.policies@.len(),
                v@.len() == i,
                forall|k: int| 0 <= k < i ==> *(#[trigger] v@[k]) == self.policies@[k],
            decreases self.policies.len() - i,
        {
            v.push(&self.policies[i]);
            i = i + 1;
        }
        Ok(v)
    }
}

/// `s` without every leading copy of `p`.
pub open spec fn strip_all_prefixes(s: Seq<char>, p: Seq<char>) -> Seq<char>
    decreases s.len(),
{
    if p.len() > 0 && p.is_prefix_of(s) {
        strip_all_prefixes(s.skip(p.len() as int), p)
    } else {
        s
    }
}

/// The characters of `s` before its first `/`, or all of them.
pub open spec fn before_slash(s: Seq<char>) -> Seq<char> {
    split_on(s, '/')[0]
}

/// The `host:port` that checking a URL connects to: the host without the
/// scheme, port 443 for `https://` and 80 otherwise.
pub open spec fn http_target(url: Seq<char>) -> Seq<char> {
    before_slash(strip_all_prefixes(strip_all_prefixes(url, "http://"@), "https://"@)) + ":"@ + (if "https://"@.is_prefix_of(
        url,
    ) {
        "443"@
    } else {
        "80"@
    })
}

fn strip_all_range(v: &Vec<char>, lo: usize, hi: usize, p: &str) -> (r: usize)
    requires
        lo <= hi <= v@.len(),
        p@.len() > 0,
    ensures
        lo <= r <= hi,
        v@.subrange(r as int, hi as int) == strip_all_prefixes(v@.subrange(lo as int, hi as int), p@),
{
    let m = p.unicode_len();
    let mut i = lo;
    while prefix_at(v, i, hi, p)
        invariant
            lo <= i <= hi <= v@.len(),
            m == p@.len() > 0,
            strip_all_prefixes(v@.subrange(i as int, hi as int), p@) == strip_all_prefixes(
                v@.subrange(lo as int, hi as int),
                p@,
            ),
        decreases hi - i,
    {
        proof {
            assert(v@.subrange(i as int, hi as int).skip(m as int) =~= v@.subrange(i + m, hi as int));
        }
        i = i + m;
    }
    i
}

/// Where checking a URL connects to; see `http_target`.
pub fn http_check_target(url: &str) -> (t: String)
    ensures
        t@ == http_target(url@),
{
    let v = chars_of(url);
    let n = v.len();
    proof {
        reveal_strlit("http://");
        reveal_strlit("https://");
        assert(v@.subrange(0, n as int) =~= v@);
    }
    let a = strip_all_range(&v, 0, n, "http://");
    let b = strip_all_range(&v, a, n, "https://");
    let pieces = split_ranges(&v, b, n, '/');
    proof {
        crate::text::lemma_split_on_nonempty(v@.subrange(b as int, n as int), '/');
    }
    let (x, y) = pieces[0];
    let mut t = string_of(&v, x, y);
    t.append(":");
    if prefix_at(&v, 0, n, "https://") {
        t.append("443");
    } else {
        t.append("80");
    }
    proof {
        assert(t@ =~= http_target(url@));
    }
    t
}

/// Whether a TCP target has the form `host:port`: exactly one colon.
pub fn validate_tcp_target(target: &str) -> (r: Result<(), MultiWanError>)
    ensures
        r is Ok <==> split_on(target@, ':').len() == 2,
        r is Err ==> r == Err::<(), MultiWanError>(MultiWanError::InvalidTcpTarget),
{
    let v = chars_of(target);
    let pieces = split_ranges(&v, 0, v.len(), ':');
    proof {
        assert(v@.subrange(0, v@.len() as int) =~= v@);
    }
    if pieces.len() != 2 {
        Err(MultiWanError::InvalidTcpTarget)
    } else {
        Ok(())
    }
}

impl Default for WanGateway {
    /// `wan1` on `eth0` through 192.168.1.1: enabled, weight 50, priority 1,
    /// pinging 8.8.8.8 every 10 seconds with a 5-second timeout, three
    /// failures or successes to change state, status unknown.
    fn default() -> (g: WanGateway)
        ensures
            g.name@ == "wan1"@,
            g.enabled,
            g.interface@ == "eth0"@,
            g.gateway_ip == IpAddress::V4(192, 168, 1, 1),
            g.weight == 50,
            g.priority == 1,
            g.monitor_enabled,
            g.monitor_method == MonitorMethod::Ping,
            g.monitor_target matches Some(t) && t@ == "8.8.8.8"@,
            g.monitor_interval == 10,
            g.monitor_timeout == 5,
            g.failure_threshold == 3,
            g.recovery_threshold == 3,
            g.last_check is None,
            g.status == GatewayStatus::Unknown,
            g.consecutive_failures == 0,
            g.consecutive_successes == 0,
    {
        WanGateway {
            name: owned("wan1"),
            enabled: true,
            interface: owned("eth0"),
            gateway_ip: IpAddress::V4(192, 168, 1, 1),
            weight: 50,
            priority: 1,
            monitor_enabled: true,
            monitor_method: MonitorMethod::Ping,
            monitor_target: Some(owned("8.8.8.8")),
            monitor_interval: 10,
            monitor_timeout: 5,
            failure_threshold: 3,
            recovery_threshold: 3,
            last_check: None,
            status: GatewayStatus::Unknown,
            consecutive_failures: 0,
            consecutive_successes: 0,
        }
    }
}

impl Default for MultiWanManager {
    fn default() -> (m: MultiWanManager)
        ensures
            m.wf(),
            m.gateways_view().len() == 0,
            m.groups_view().len() == 0,
            m.policies_view().len() == 0,
            !m.monitoring_view(),
    {
        MultiWanManager::new()
    }
}

fn decimal_of(n: u64) -> (s: String)
    ensures
        s@ == decimal(n as nat),
{
    let mut s = String::new();
    push_decimal(&mut s, n);
    proof {
        assert(s@ =~= decimal(n as nat));
    }
    s
}

/// Once the policy commands stop at an error, later policies change
/// nothing.
pub proof fn lemma_policy_error_sticks(
    gws: Seq<WanGateway>,
    groups: Seq<GatewayGroup>,
    ps: Seq<PolicyRoute>,
    m: nat,
    n: nat,
)
    requires
        m <= n,
        policy_commands(gws, groups, ps, m).1 is Some,
    ensures
        policy_commands(gws, groups, ps, n) == policy_commands(gws, groups, ps, m),
    decreases n,
{
    if n > m {
        lemma_policy_error_sticks(gws, groups, ps, m, (n - 1) as nat);
    }
}

/// The gateway after `n` failed checks in a row.
pub open spec fn after_failures(g: WanGateway, n: nat, now: i64) -> WanGateway
    decreases n,
{
    if n == 0 {
        g
    } else {
        after_check(after_failures(g, (n - 1) as nat, now), false, now)
    }
}

/// The gateway after `n` successful checks in a row.
pub open spec fn after_successes(g: WanGateway, n: nat, now: i64) -> WanGateway
    decreases n,
{
    if n == 0 {
        g
    } else {
        after_check(after_successes(g, (n - 1) as nat, now), true, now)
    }
}

/// A gateway that fails as many checks in a row as its failure threshold
/// (at least one) is offline, with that many failures counted.
pub proof fn lemma_failures_take_gateway_offline(g: WanGateway, n: nat, now: i64)
    requires
        n >= 1,
        n >= g.failure_threshold,
        g.consecutive_failures + n <= u32::MAX,
    ensures
        after_failures(g, n, now).status == GatewayStatus::Offline,
        after_failures(g, n, now).consecutive_failures == g.consecutive_failures + n,
        after_failures(g, n, now).consecutive_successes == 0,
    decreases n,
{
    lemma_failure_count(g, (n - 1) as nat, now);
}

proof fn lemma_failure_count(g: WanGateway, n: nat, now: i64)
    requires
        g.consecutive_failures + n <= u32::MAX,
    ensures
        after_failures(g, n, now).consecutive_failures == g.consecutive_failures + n,
        n > 0 ==> after_failures(g, n, now).consecutive_successes == 0,
        after_failures(g, n, now).failure_threshold == g.failure_threshold,
    decreases n,
{
    if n > 0 {
        lemma_failure_count(g, (n - 1) as nat, now);
    }
}

/// A gateway that passes as many checks in a row as its recovery threshold
/// (at least one) is online, with that many successes counted.
pub proof fn lemma_successes_bring_gateway_online(g: WanGateway, n: nat, now: i64)
    requires
        n >= 1,
        n >= g.recovery_threshold,
        g.consecutive_successes + n <= u32::MAX,
    ensures
        after_successes(g, n, now).status == GatewayStatus::Online,
        after_successes(g, n, now).consecutive_successes == g.consecutive_successes + n,
        after_successes(g, n, now).consecutive_failures == 0,
    decreases n,
{
    lemma_success_count(g, (n - 1) as nat, now);
}

proof fn lemma_success_count(g: WanGateway, n: nat, now: i64)
    requires
        g.consecutive_successes + n <= u32::MAX,
    ensures
        after_successes(g, n, now).consecutive_successes == g.consecutive_successes + n,
        n > 0 ==> after_successes(g, n, now).consecutive_failures == 0,
        after_successes(g, n, now).recovery_threshold == g.recovery_threshold,
    decreases n,
{
    if n > 0 {
        lemma_success_count(g, (n - 1) as nat, now);
    }
}

/// A check never changes what a gateway is; only its health.
pub proof fn lemma_check_keeps_identity(g: WanGateway, is_up: bool, now: i64)
    ensures
        after_check(g, is_up, now).name == g.name,
        after_check(g, is_up, now).gateway_ip == g.gateway_ip,
        after_check(g, is_up, now).enabled == g.enabled,
        after_check(g, is_up, now).last_check == Some(now),
        is_up ==> after_check(g, is_up, now).consecutive_failures == 0,
        !is_up ==> after_check(g, is_up, now).consecutive_successes == 0,
{
}

fn copy_opt(o: &Option<String>) -> (r: Option<String>)
    ensures
        r == *o,
{
    match o {
        Some(x) => Some(x.clone()),
        None => None,
    }
}

fn copy_policy(p: &PolicyRoute) -> (r: PolicyRoute)
    ensures
        r == *p,
{
    PolicyRoute {
        name: p.name.clone(),
        enabled: p.enabled,
        priority: p.priority,
        source_network: copy_opt(&p.source_network),
        destination_network: copy_opt(&p.destination_network),
        protocol: copy_opt(&p.protocol),
        source_port: p.source_port,
        destination_port: p.destination_port,
        gateway_group: p.gateway_group.clone(),
    }
}

/// The policies not of that name, in order.
pub open spec fn policies_without(v: Seq<PolicyRoute>, name: Seq<char>) -> Seq<PolicyRoute>
    decreases v.len(),
{
    if v.len() == 0 {
        Seq::empty()
    } else {
        policies_without(v.drop_last(), name) + if v.last().name@ != name {
            seq![v.last()]
        } else {
            Seq::empty()
        }
    }
}

/// What is kept comes from the list, keeps its order by priority, and has
/// another name.
pub proof fn lemma_without_keeps_order(v: Seq<PolicyRoute>, name: Seq<char>)
    requires
        by_priority(v),
    ensures
        by_priority(policies_without(v, name)),
        forall|k: int|
            0 <= k < policies_without(v, name).len() ==> (#[trigger] policies_without(v, name)[k]).name@ != name
                && exists|i: int| 0 <= i < v.len() && v[i] == policies_without(v, name)[k],
    decreases v.len(),
{
    if v.len() > 0 {
        let init = v.drop_last();
        assert forall|a: int, b: int| 0 <= a < b < init.len() implies (#[trigger] init[a]).priority <= (
        #[trigger] init[b]).priority by {
            assert(init[a] == v[a] && init[b] == v[b]);
        }
        lemma_without_keeps_order(init, name);
        let w0 = policies_without(init, name);
        let w = policies_without(v, name);
        assert forall|k: int| 0 <= k < w.len() implies (#[trigger] w[k]).name@ != name && exists|i: int|
            0 <= i < v.len() && v[i] == w[k] by {
            if k < w0.len() {
                assert(w[k] == w0[k]);
                let i = choose|i: int| 0 <= i < init.len() && init[i] == w0[k];
                assert(v[i] == w[k]);
            } else {
                assert(w[k] == v.last());
                assert(v[v.len() - 1] == w[k]);
            }
        }
        assert forall|a: int, b: int| 0 <= a < b < w.len() implies (#[trigger] w[a]).priority <= (
        #[trigger] w[b]).priority by {
            if b < w0.len() {
                assert(w[a] == w0[a] && w[b] == w0[b]);
            } else {
                assert(w[b] == v.last());
                assert(w[a] == w0[a]);
                let i = choose|i: int| 0 <= i < init.len() && init[i] == w0[a];
                assert(v[i] == w[a]);
                assert(v[i].priority <= v[v.len() - 1].priority);
            }
        }
    }
}

} // verus!
