//! Layer 4/7 load balancing over healthy backends, with health checks.
use vstd::prelude::*;
use crate::clock;
use crate::ids::new_v4;
use crate::net::IpAddress;
use crate::text::{copy, owned};

verus! {

/// How the next backend is chosen.
#[derive(PartialEq, Eq, Structural, Clone, Copy, Debug)]
pub enum LoadBalancingAlgorithm {
    RoundRobin,
    LeastConnections,
    WeightedRoundRobin,
    IpHash,
    Random,
}

/// Health of a backend; only healthy backends take new connections.
#[derive(PartialEq, Eq, Structural, Clone, Copy, Debug)]
pub enum BackendStatus {
    Healthy,
    Unhealthy,
    Draining,
}

/// A server behind the load balancer.
#[derive(Debug)]
pub struct Backend {
    pub id: u128,
    pub name: String,
    pub address: IpAddress,
    pub port: u16,
    pub weight: u32,
    pub status: BackendStatus,
    pub active_connections: u32,
    pub total_connections: u64,
    /// Time of the last health check, in seconds since the Unix epoch.
    pub last_health_check: Option<i64>,
    pub consecutive_failures: u32,
}

impl Backend {
    /// A healthy backend of weight 100 with a fresh random id.
    pub fn new(name: &str, address: IpAddress, port: u16) -> (b: Backend)
        ensures
            b.name@ == name@,
            b.address == address,
            b.port == port,
            b.weight == 100,
            b.status == BackendStatus::Healthy,
            b.active_connections == 0,
            b.total_connections == 0,
            b.last_health_check is None,
            b.consecutive_failures == 0,
    {
        Backend {
            id: new_v4(),
            name: owned(name),
            address,
            port,
            weight: 100,
            status: BackendStatus::Healthy,
            active_connections: 0,
            total_connections: 0,
            last_health_check: None,
            consecutive_failures: 0,
        }
    }

    /// The same backend with another weight.
    pub fn with_weight(self, weight: u32) -> (b: Backend)
        ensures
            b == (Backend { weight, ..self }),
    {
        let mut s = self;
        s.weight = weight;
        s
    }

    /// Whether the backend takes new connections.
    pub fn is_available(&self) -> (b: bool)
        ensures
            b == (self.status == BackendStatus::Healthy),
    {
        match self.status {
            BackendStatus::Healthy => true,
            _ => false,
        }
    }

    /// Marks the backend healthy and clears its failure count.
    pub fn mark_healthy(&mut self)
        ensures
            final(self).status == BackendStatus::Healthy,
            final(self).consecutive_failures == 0,
            final(self).last_health_check is Some,
            final(self).id == old(self).id,
            final(self).name == old(self).name,
            final(self).address == old(self).address,
            final(self).port == old(self).port,
            final(self).weight == old(self).weight,
            final(self).active_connections == old(self).active_connections,
            final(self).total_connections == old(self).total_connections,
    {
        self.status = BackendStatus::Healthy;
        self.consecutive_failures = 0;
        self.last_health_check = Some(clock::now());
    }

    /// Marks the backend unhealthy and counts one more failure.
    pub fn mark_unhealthy(&mut self)
        requires
            old(self).consecutive_failures < u32::MAX,
        ensures
            final(self).status == BackendStatus::Unhealthy,
            final(self).consecutive_failures == old(self).consecutive_failures + 1,
            final(self).last_health_check is Some,
            final(self).id == old(self).id,
            final(self).name == old(self).name,
            final(self).address == old(self).address,
            final(self).port == old(self).port,
            final(self).weight == old(self).weight,
            final(self).active_connections == old(self).active_connections,
            final(self).total_connections == old(self).total_connections,
    {
        self.consecutive_failures = self.consecutive_failures + 1;
        self.status = BackendStatus::Unhealthy;
        self.last_health_check = Some(clock::now());
    }

    /// A copy of the backend.
    pub fn copy(&self) -> (b: Backend)
        ensures
            b == *self,
    {
        Backend {
            id: self.id,
            name: self.name.clone(),
            address: self.address,
            port: self.port,
            weight: self.weight,
            status: self.status,
            active_connections: self.active_connections,
            total_connections: self.total_connections,
            last_health_check: self.last_health_check,
            consecutive_failures: self.consecutive_failures,
        }
    }
}

/// Health-check settings.
#[derive(Debug)]
pub struct HealthCheck {
    pub enabled: bool,
    pub interval_seconds: u64,
    pub timeout_seconds: u64,
    pub healthy_threshold: u32,
    pub unhealthy_threshold: u32,
    pub path: Option<String>,
}

impl Default for HealthCheck {
    fn default() -> (h: HealthCheck)
        ensures
            h.enabled,
            h.interval_seconds == 10,
            h.timeout_seconds == 5,
            h.healthy_threshold == 2,
            h.unhealthy_threshold == 3,
            h.path matches Some(p) && p@ == "/health"@,
    {
        HealthCheck {
            enabled: true,
            interval_seconds: 10,
            timeout_seconds: 5,
            healthy_threshold: 2,
            unhealthy_threshold: 3,
            path: Some(owned("/health")),
        }
    }
}

/// The health state of one backend after a round of checks.
#[derive(Debug)]
pub struct BackendHealthStatus {
    pub backend_id: u128,
    pub backend_name: String,
    pub status: BackendStatus,
    pub consecutive_failures: u32,
}

/// The outcome of a round of health checks.
#[derive(Debug)]
pub struct HealthCheckResults {
    pub total: usize,
    pub healthy: usize,
    pub unhealthy: usize,
    pub checked: Vec<BackendHealthStatus>,
}

/// Counters over all backends.
#[derive(PartialEq, Eq, Structural, Clone, Copy, Debug)]
pub struct LoadBalancerStats {
    pub total_backends: usize,
    pub healthy_backends: usize,
    pub active_connections: u32,
    pub total_connections: u64,
}

/// The healthy backends, in order.
pub open spec fn available(bs: Seq<Backend>) -> Seq<Backend>
    decreases bs.len(),
{
    if bs.len() == 0 {
        Seq::empty()
    } else {
        let rest = available(bs.drop_last());
        if bs.last().status == BackendStatus::Healthy {
            rest.push(bs.last())
        } else {
            rest
        }
    }
}

/// The sum of the weights.
pub open spec fn weight_sum(bs: Seq<Backend>) -> int
    decreases bs.len(),
{
    if bs.len() == 0 {
        0
    } else {
        weight_sum(bs.drop_last()) + bs.last().weight
    }
}

/// The total weight of positions `0..=j`.
pub open spec fn cum_weight(bs: Seq<Backend>, j: int) -> int {
    weight_sum(bs.subrange(0, j + 1))
}

/// The first backend whose cumulative weight exceeds `t`.
pub open spec fn weighted_pick(bs: Seq<Backend>, t: int) -> int
    decreases bs.len(),
{
    if bs.len() <= 1 {
        0
    } else if t < weight_sum(bs.drop_last()) {
        weighted_pick(bs.drop_last(), t)
    } else {
        bs.len() - 1
    }
}

/// The hash of a client address: the address as a big-endian number for IPv4,
/// the exclusive or of the first two segments for IPv6.
pub open spec fn ip_hash(ip: IpAddress) -> int {
    match ip {
        IpAddress::V4(a, b, c, d) => a * 0x1000000 + b * 0x10000 + c * 0x100 + d,
        IpAddress::V6(s0, s1, _, _, _, _, _, _) => (s0 ^ s1) as int,
    }
}

/// Position of the backend with the fewest active connections (the first
/// such one).
pub open spec fn is_least_loaded(bs: Seq<Backend>, k: int) -> bool {
    &&& 0 <= k < bs.len()
    &&& forall|j: int| 0 <= j < bs.len() ==> bs[k].active_connections <= (#[trigger] bs[j]).active_connections
    &&& forall|j: int| 0 <= j < k ==> bs[k].active_connections < (#[trigger] bs[j]).active_connections
}

/// The sum of the active connections.
pub open spec fn active_sum(bs: Seq<Backend>) -> int
    decreases bs.len(),
{
    if bs.len() == 0 {
        0
    } else {
        active_sum(bs.drop_last()) + bs.last().active_connections
    }
}

/// The sum of the connection totals.
pub open spec fn total_sum(bs: Seq<Backend>) -> int
    decreases bs.len(),
{
    if bs.len() == 0 {
        0
    } else {
        total_sum(bs.drop_last()) + bs.last().total_connections
    }
}

/// The number of healthy backends.
pub open spec fn healthy_count(bs: Seq<Backend>) -> int {
    available(bs).len() as int
}

/// Distinct backends have distinct ids.
pub open spec fn ids_unique(bs: Seq<Backend>) -> bool {
    forall|i: int, j: int|
        0 <= i < bs.len() && 0 <= j < bs.len() && i != j ==> (#[trigger] bs[i]).id != (#[trigger] bs[j]).id
}

/// Spreads connections over the healthy backends.
pub struct LoadBalancer {
    id: u128,
    name: String,
    algorithm: LoadBalancingAlgorithm,
    backends: Vec<Backend>,
    health_check: HealthCheck,
    round_robin_index: usize,
}

/// Which backend a selection picks, by position among the healthy ones, when
/// the choice does not depend on chance.
pub open spec fn pick(
    alg: LoadBalancingAlgorithm,
    av: Seq<Backend>,
    rr: usize,
    client_ip: Option<IpAddress>,
) -> int {
    match alg {
        LoadBalancingAlgorithm::RoundRobin => rr as int % av.len() as int,
        LoadBalancingAlgorithm::WeightedRoundRobin => if weight_sum(av) == 0 {
            rr as int % av.len() as int
        } else {
            weighted_pick(av, (rr as int + 1) % weight_sum(av))
        },
        LoadBalancingAlgorithm::IpHash => match client_ip {
            Some(ip) => ip_hash(ip) % av.len() as int,
            None => 0,
        },
        _ => 0,
    }
}

/// The round-robin position after a selection.
pub open spec fn next_index(alg: LoadBalancingAlgorithm, av: Seq<Backend>, rr: usize) -> int {
    match alg {
        LoadBalancingAlgorithm::RoundRobin => (rr as int + 1) % av.len() as int,
        LoadBalancingAlgorithm::WeightedRoundRobin => if weight_sum(av) == 0 {
            (rr as int + 1) % av.len() as int
        } else {
            (rr as int + 1) % weight_sum(av)
        },
        _ => rr as int,
    }
}

proof fn lemma_available_sub(bs: Seq<Backend>)
    ensures
        available(bs).len() <= bs.len(),
        forall|k: int| 0 <= k < available(bs).len() ==> (#[trigger] available(bs)[k]).status == BackendStatus::Healthy,
        forall|k: int|
            0 <= k < available(bs).len() ==> exists|j: int| 0 <= j < bs.len() && bs[j] == #[trigger] available(bs)[k],
    decreases bs.len(),
{
    if bs.len() > 0 {
        lemma_available_sub(bs.drop_last());
        let rest = available(bs.drop_last());
        assert forall|k: int| 0 <= k < available(bs).len() implies exists|j: int|
            0 <= j < bs.len() && bs[j] == #[trigger] available(bs)[k] by {
            if k < rest.len() {
                let j = choose|j: int| 0 <= j < bs.drop_last().len() && bs.drop_last()[j] == rest[k];
                assert(bs[j] == bs.drop_last()[j]);
                if bs.last().status == BackendStatus::Healthy {
                    assert(available(bs)[k] == rest.push(bs.last())[k]);
                }
            } else {
                assert(bs[bs.len() - 1] == bs.last());
            }
        }
        assert forall|k: int| 0 <= k < available(bs).len() implies (#[trigger] available(bs)[k]).status
            == BackendStatus::Healthy by {
            if bs.last().status == BackendStatus::Healthy && k < rest.len() {
                assert(available(bs)[k] == rest[k]);
            }
        }
    }
}

proof fn lemma_weight_sum_prefix(bs: Seq<Backend>, n: int)
    requires
        0 <= n <= bs.len(),
    ensures
        weight_sum(bs.subrange(0, n)) <= weight_sum(bs),
        weight_sum(bs) >= 0,
    decreases bs.len(),
{
    if bs.len() > 0 {
        if n == bs.len() {
            assert(bs.subrange(0, n) == bs);
            lemma_weight_sum_prefix(bs.drop_last(), 0);
        } else {
            assert(bs.drop_last().subrange(0, n) == bs.subrange(0, n));
            lemma_weight_sum_prefix(bs.drop_last(), n);
        }
    }
}

proof fn lemma_weighted_pick_bounds(bs: Seq<Backend>, t: int)
    requires
        bs.len() > 0,
    ensures
        0 <= weighted_pick(bs, t) < bs.len(),
    decreases bs.len(),
{
    if bs.len() > 1 && t < weight_sum(bs.drop_last()) {
        lemma_weighted_pick_bounds(bs.drop_last(), t);
    }
}

/// Position `k` is the first whose cumulative weight (over positions `0..=k`)
/// exceeds `t`.
proof fn lemma_weighted_pick_scan(bs: Seq<Backend>, t: int, k: int)
    requires
        0 <= t < weight_sum(bs),
        0 <= k < bs.len(),
        t < weight_sum(bs.subrange(0, k + 1)),
        forall|j: int| 0 <= j < k ==> t >= #[trigger] cum_weight(bs, j),
    ensures
        weighted_pick(bs, t) == k,
    decreases bs.len(),
{
    if bs.len() == 1 {
    } else {
        let pre = bs.drop_last();
        if k < bs.len() - 1 {
            assert(pre.subrange(0, k + 1) == bs.subrange(0, k + 1));
            assert forall|j: int| 0 <= j < k implies t >= #[trigger] cum_weight(pre, j) by {
                assert(pre.subrange(0, j + 1) == bs.subrange(0, j + 1));
                assert(t >= cum_weight(bs, j));
            }
            lemma_weight_sum_prefix(pre, k + 1);
            lemma_weighted_pick_scan(pre, t, k);
        } else {
            if k >= 1 {
                assert(bs.subrange(0, k) == pre);
                assert(t >= cum_weight(bs, k - 1));
            } else {
                assert(pre.len() == 0);
            }
        }
    }
}

impl LoadBalancer {
    pub closed spec fn backends_view(&self) -> Seq<Backend> {
        self.backends@
    }

    pub closed spec fn index_view(&self) -> usize {
        self.round_robin_index
    }

    pub closed spec fn algorithm_view(&self) -> LoadBalancingAlgorithm {
        self.algorithm
    }

    pub closed spec fn health_check_view(&self) -> &HealthCheck {
        &self.health_check
    }

    pub closed spec fn name_view(&self) -> Seq<char> {
        self.name@
    }

    /// Backend ids are unique.
    pub closed spec fn wf(&self) -> bool {
        ids_unique(self.backends@)
    }

    /// A load balancer without backends, with default health checks.
    pub fn new(name: &str, algorithm: LoadBalancingAlgorithm) -> (lb: LoadBalancer)
        ensures
            lb.wf(),
            lb.name_view() == name@,
            lb.algorithm_view() == algorithm,
            lb.backends_view() == Seq::<Backend>::empty(),
            lb.index_view() == 0,
            lb.health_check_view().enabled,
            lb.health_check_view().unhealthy_threshold == 3,
    {
        LoadBalancer {
            id: new_v4(),
            name: owned(name),
            algorithm,
            backends: Vec::new(),
            health_check: HealthCheck::default(),
            round_robin_index: 0,
        }
    }

    /// The same load balancer with other health-check settings.
    pub fn with_health_check(self, health_check: HealthCheck) -> (lb: LoadBalancer)
        requires
            self.wf(),
        ensures
            lb.wf(),
            *lb.health_check_view() == health_check,
            lb.backends_view() == self.backends_view(),
            lb.index_view() == self.index_view(),
            lb.algorithm_view() == self.algorithm_view(),
            lb.name_view() == self.name_view(),
    {
        let mut s = self;
        s.health_check = health_check;
        s
    }

    fn find(&self, id: &u128) -> (r: Option<usize>)
        ensures
            r matches Some(i) ==> i < self.backends@.len() && self.backends@[i as int].id == *id,
            r is None ==> forall|i: int| 0 <= i < self.backends@.len() ==> (#[trigger] self.backends@[i]).id != *id,
    {
        let mut i: usize = 0;
        while i < self.backends.len()
            invariant
                0 <= i <= self.backends.len(),
                forall|k: int| 0 <= k < i ==> (#[trigger] self.backends@[k]).id != *id,
            decreases self.backends.len() - i,
        {
            if self.backends[i].id == *id {
                return Some(i);
            }
            i = i + 1;
        }
        None
    }

    /// Adds a backend, replacing one with the same id in its place.
    pub fn add_backend(&mut self, backend: Backend) -> (id: u128)
        requires
            old(self).wf(),
        ensures
            final(self).wf(),
            id == backend.id,
            (exists|i: int| 0 <= i < old(self).backends_view().len() && old(self).backends_view()[i].id == backend.id)
                ==> (exists|i: int| 0 <= i < old(self).backends_view().len() && old(self).backends_view()[i].id
                == backend.id && final(self).backends_view() == old(self).backends_view().update(i, backend)),
            (forall|i: int| 0 <= i < old(self).backends_view().len() ==> old(self).backends_view()[i].id
                != backend.id) ==> final(self).backends_view() == old(self).backends_view().push(backend),
            final(self).index_view() == old(self).index_view(),
            final(self).algorithm_view() == old(self).algorithm_view(),
            final(self).health_check_view() == old(self).health_check_view(),
    {
        let id = backend.id;
        let ghost old_bs = self.backends@;
        match self.find(&id) {
            Some(i) => {
                self.backends.set(i, backend);
                proof {
                    assert forall|a: int, b: int|
                        0 <= a < self.backends@.len() && 0 <= b < self.backends@.len() && a != b implies (
                        #[trigger] self.backends@[a]).id != (#[trigger] self.backends@[b]).id by {
                        if a != i {
                            assert(self.backends@[a] == old_bs[a]);
                        }
                        if b != i {
                            assert(self.backends@[b] == old_bs[b]);
                        }
                    }
                }
            },
            None => {
                self.backends.push(backend);
                proof {
                    assert forall|a: int, b: int|
                        0 <= a < self.backends@.len() && 0 <= b < self.backends@.len() && a != b implies (
                        #[trigger] self.backends@[a]).id != (#[trigger] self.backends@[b]).id by {
                        if a < old_bs.len() {
                            assert(self.backends@[a] == old_bs[a]);
                        }
                        if b < old_bs.len() {
                            assert(self.backends@[b] == old_bs[b]);
                        }
                    }
                }
            },
        }
        id
    }

    /// Removes the backend with that id.
    pub fn remove_backend(&mut self, id: &u128) -> (r: Result<(), LoadBalancerError>)
        requires
            old(self).wf(),
        ensures
            final(self).wf(),
            (forall|i: int| 0 <= i < old(self).backends_view().len() ==> old(self).backends_view()[i].id != *id)
                ==> r == Err::<(), LoadBalancerError>(LoadBalancerError::BackendNotFound)
                && final(self).backends_view() == old(self).backends_view(),
            (exists|i: int| 0 <= i < old(self).backends_view().len() && old(self).backends_view()[i].id == *id)
                ==> r is Ok && exists|i: int|
                0 <= i < old(self).backends_view().len() && old(self).backends_view()[i].id == *id
                    && final(self).backends_view() == old(self).backends_view().remove(i),
            final(self).index_view() == old(self).index_view(),
            final(self).algorithm_view() == old(self).algorithm_view(),
            final(self).health_check_view() == old(self).health_check_view(),
    {
        match self.find(id) {
            None => Err(LoadBalancerError::BackendNotFound),
            Some(i) => {
                let ghost old_bs = self.backends@;
                self.backends.remove(i);
                proof {
                    assert forall|a: int, b: int|
                        0 <= a < self.backends@.len() && 0 <= b < self.backends@.len() && a != b implies (
                        #[trigger] self.backends@[a]).id != (#[trigger] self.backends@[b]).id by {
                        let oa = if a < i { a } else { a + 1 };
                        let ob = if b < i { b } else { b + 1 };
                        assert(self.backends@[a] == old_bs[oa]);
                        assert(self.backends@[b] == old_bs[ob]);
                    }
                }
                Ok(())
            },
        }
    }

    /// A copy of the backend with that id.
    pub fn get_backend(&self, id: &u128) -> (b: Option<Backend>)
        ensures
            b matches Some(x) ==> exists|i: int|
                0 <= i < self.backends_view().len() && self.backends_view()[i] == x && x.id == *id,
            b is None ==> forall|i: int| 0 <= i < self.backends_view().len() ==> self.backends_view()[i].id != *id,
    {
        match self.find(id) {
            Some(i) => Some(self.backends[i].copy()),
            None => None,
        }
    }

    /// Copies of all backends.
    pub fn list_backends(&self) -> (bs: Vec<Backend>)
        ensures
            bs@ == self.backends_view(),
    {
        let mut out: Vec<Backend> = Vec::new();
        let mut i: usize = 0;
        while i < self.backends.len()
            invariant
                0 <= i <= self.backends.len(),
                out@ == self.backends@.subrange(0, i as int),
            decreases self.backends.len() - i,
        {
            out.push(self.backends[i].copy());
            proof {
                assert(out@ =~= self.backends@.subrange(0, i + 1));
            }
            i = i + 1;
        }
        proof {
            assert(self.backends@.subrange(0, self.backends@.len() as int) == self.backends@);
        }
        out
    }

    fn healthy_backends(&self) -> (av: Vec<Backend>)
        ensures
            av@ == available(self.backends@),
    {
        let mut out: Vec<Backend> = Vec::new();
        let mut i: usize = 0;
        while i < self.backends.len()
            invariant
                0 <= i <= self.backends.len(),
                out@ == available(self.backends@.subrange(0, i as int)),
            decreases self.backends.len() - i,
        {
            proof {
                assert(self.backends@.subrange(0, i + 1).drop_last() == self.backends@.subrange(0, i as int));
            }
            if self.backends[i].is_available() {
                out.push(self.backends[i].copy());
            }
            i = i + 1;
        }
        proof {
            assert(self.backends@.subrange(0, self.backends@.len() as int) == self.backends@);
        }
        out
    }

    /// Chooses a healthy backend by the balancer's algorithm; `None` when no
    /// backend is healthy.  Round robin cycles through the healthy backends;
    /// weighted round robin advances a counter modulo the total weight and
    /// picks the backend whose cumulative weight range holds it; least
    /// connections picks the first backend with the fewest active connections;
    /// IP hash maps the client address to a fixed position (the first backend
    /// without an address); random picks by a random number.
    pub fn select_backend(&mut self, client_ip: Option<IpAddress>) -> (b: Option<Backend>)
        requires
            weight_sum(available(old(self).backends_view())) <= u32::MAX,
            old(self).wf(),
        ensures
            final(self).wf(),
            final(self).backends_view() == old(self).backends_view(),
            final(self).algorithm_view() == old(self).algorithm_view(),
            final(self).health_check_view() == old(self).health_check_view(),
            ({
                let av = available(old(self).backends_view());
                let alg = old(self).algorithm_view();
                let rr = old(self).index_view();
                &&& av.len() == 0 ==> b is None && final(self).index_view() == rr
                &&& av.len() > 0 ==> {
                    &&& b is Some
                    &&& final(self).index_view() == next_index(alg, av, rr)
                    &&& alg == LoadBalancingAlgorithm::LeastConnections ==> exists|k: int|
                        is_least_loaded(av, k) && b == Some(av[k])
                    &&& alg == LoadBalancingAlgorithm::Random ==> exists|k: int|
                        0 <= k < av.len() && b == Some(av[k])
                    &&& alg != LoadBalancingAlgorithm::LeastConnections && alg
                        != LoadBalancingAlgorithm::Random ==> b == Some(av[pick(alg, av, rr, client_ip)])
                }
            }),
    {
        let av = self.healthy_backends();
        if av.len() == 0 {
            return None;
        }
        proof {
            lemma_available_sub(self.backends@);
        }
        match self.algorithm {
            LoadBalancingAlgorithm::RoundRobin => self.select_round_robin(&av),
            LoadBalancingAlgorithm::LeastConnections => select_least_connections(&av),
            LoadBalancingAlgorithm::WeightedRoundRobin => self.select_weighted_round_robin(&av),
            LoadBalancingAlgorithm::IpHash => select_ip_hash(&av, client_ip),
            LoadBalancingAlgorithm::Random => select_random(&av),
        }
    }

    fn select_round_robin(&mut self, backends: &Vec<Backend>) -> (b: Option<Backend>)
        requires
            backends@.len() > 0,
        ensures
            b == Some(backends@[old(self).round_robin_index as int % backends@.len() as int]),
            final(self).round_robin_index == (old(self).round_robin_index as int + 1) % backends@.len() as int,
            final(self).backends == old(self).backends,
            final(self).algorithm == old(self).algorithm,
            final(self).health_check == old(self).health_check,
    {
        let n = backends.len();
        let selected = backends[self.round_robin_index % n].copy();
        self.round_robin_index = if self.round_robin_index % n + 1 == n {
            0
        } else {
            self.round_robin_index % n + 1
        };
        proof {
            lemma_mod_succ(old(self).round_robin_index as int, n as int);
        }
        Some(selected)
    }

    #[verifier::loop_isolation(false)]
    fn select_weighted_round_robin(&mut self, backends: &Vec<Backend>) -> (b: Option<Backend>)
        requires
            backends@.len() > 0,
            weight_sum(backends@) <= u32::MAX,
        ensures
            b == Some(backends@[pick(LoadBalancingAlgorithm::WeightedRoundRobin, backends@, old(self).round_robin_index, None)]),
            final(self).round_robin_index == next_index(LoadBalancingAlgorithm::WeightedRoundRobin, backends@, old(self).round_robin_index),
            final(self).backends == old(self).backends,
            final(self).algorithm == old(self).algorithm,
            final(self).health_check == old(self).health_check,
    {
        let mut total: u32 = 0;
        let mut i: usize = 0;
        while i < backends.len()
            invariant
                0 <= i <= backends.len(),
                total == weight_sum(backends@.subrange(0, i as int)),
                weight_sum(backends@) <= u32::MAX,
            decreases backends.len() - i,
        {
            proof {
                assert(backends@.subrange(0, i + 1).drop_last() == backends@.subrange(0, i as int));
                lemma_weight_sum_prefix(backends@, i + 1);
            }
            total = total + backends[i].weight;
            i = i + 1;
        }
        proof {
            assert(backends@.subrange(0, backends@.len() as int) == backends@);
        }
        if total == 0 {
            return self.select_round_robin(backends);
        }
        let idx = self.round_robin_index % (total as usize);
        self.round_robin_index = if idx + 1 == total as usize {
            0
        } else {
            idx + 1
        };
        proof {
            lemma_mod_succ(old(self).round_robin_index as int, total as int);
        }
        let target = self.round_robin_index;
        let mut cumulative: u32 = 0;
        let mut k: usize = 0;
        while k < backends.len()
            invariant
                0 <= k <= backends.len(),
                cumulative == weight_sum(backends@.subrange(0, k as int)),
                weight_sum(backends@) == total,
                0 <= target < total,
                forall|j: int| 0 <= j < k ==> target >= #[trigger] cum_weight(backends@, j),
            decreases backends.len() - k,
        {
            proof {
                assert(backends@.subrange(0, k + 1).drop_last() == backends@.subrange(0, k as int));
                lemma_weight_sum_prefix(backends@, k + 1);
            }
            cumulative = cumulative + backends[k].weight;
            if (target as u32) < cumulative {
                proof {
                    lemma_weighted_pick_scan(backends@, target as int, k as int);
                }
                return Some(backends[k].copy());
            }
            k = k + 1;
        }
        proof {
            assert(backends@.subrange(0, backends@.len() as int) == backends@);
            let last = backends@.len() - 1;
            assert(target >= cum_weight(backends@, last));
        }
        Some(backends[0].copy())
    }

    /// Counts a new connection on the backend.
    pub fn increment_connection(&mut self, backend_id: &u128)
        requires
            old(self).wf(),
            forall|i: int|
                0 <= i < old(self).backends_view().len() && old(self).backends_view()[i].id == *backend_id ==> (
                #[trigger] old(self).backends_view()[i]).active_connections < u32::MAX
                    && old(self).backends_view()[i].total_connections < u64::MAX,
        ensures
            final(self).wf(),
            final(self).backends_view().len() == old(self).backends_view().len(),
            forall|i: int|
                0 <= i < old(self).backends_view().len() ==> {
                    let o = #[trigger] old(self).backends_view()[i];
                    final(self).backends_view()[i] == if o.id == *backend_id {
                        Backend {
                            active_connections: (o.active_connections + 1) as u32,
                            total_connections: (o.total_connections + 1) as u64,
                            ..o
                        }
                    } else {
                        o
                    }
                },
            final(self).index_view() == old(self).index_view(),
            final(self).algorithm_view() == old(self).algorithm_view(),
            final(self).health_check_view() == old(self).health_check_view(),
    {
        match self.find(backend_id) {
            None => {
                proof {
                    assert(self.backends@ =~= old(self).backends@);
                }
            },
            Some(i) => {
                let ghost old_bs = self.backends@;
                let mut b = self.backends.remove(i);
                b.active_connections = b.active_connections + 1;
                b.total_connections = b.total_connections + 1;
                self.backends.insert(i, b);
                proof {
                    assert forall|k: int| 0 <= k < old_bs.len() implies (#[trigger] old_bs[k]).id == *backend_id
                        ==> k == i by {
                        if k != i {
                            assert(old_bs[k].id != old_bs[i as int].id);
                        }
                    }
                    assert forall|k: int| 0 <= k < old_bs.len() && k != i implies self.backends@[k] == old_bs[k] by {}
                    assert forall|a: int, c: int|
                        0 <= a < self.backends@.len() && 0 <= c < self.backends@.len() && a != c implies (
                        #[trigger] self.backends@[a]).id != (#[trigger] self.backends@[c]).id by {
                        assert(self.backends@[a].id == old_bs[a].id);
                        assert(self.backends@[c].id == old_bs[c].id);
                    }
                }
            },
        }
    }

    /// Counts a closed connection on the backend (never below zero).
    pub fn decrement_connection(&mut self, backend_id: &u128)
        requires
            old(self).wf(),
        ensures
            final(self).wf(),
            final(self).backends_view().len() == old(self).backends_view().len(),
            forall|i: int|
                0 <= i < old(self).backends_view().len() ==> {
                    let o = #[trigger] old(self).backends_view()[i];
                    final(self).backends_view()[i] == if o.id == *backend_id && o.active_connections > 0 {
                        Backend { active_connections: (o.active_connections - 1) as u32, ..o }
                    } else {
                        o
                    }
                },
            final(self).index_view() == old(self).index_view(),
            final(self).algorithm_view() == old(self).algorithm_view(),
            final(self).health_check_view() == old(self).health_check_view(),
    {
        match self.find(backend_id) {
            None => {},
            Some(i) => {
                let ghost old_bs = self.backends@;
                let mut b = self.backends.remove(i);
                if b.active_connections > 0 {
                    b.active_connections = b.active_connections - 1;
                }
                self.backends.insert(i, b);
                proof {
                    assert forall|k: int| 0 <= k < old_bs.len() implies (#[trigger] old_bs[k]).id == *backend_id
                        ==> k == i by {
                        if k != i {
                            assert(old_bs[k].id != old_bs[i as int].id);
                        }
                    }
                    assert forall|k: int| 0 <= k < old_bs.len() && k != i implies self.backends@[k] == old_bs[k] by {}
                    assert forall|a: int, c: int|
                        0 <= a < self.backends@.len() && 0 <= c < self.backends@.len() && a != c implies (
                        #[trigger] self.backends@[a]).id != (#[trigger] self.backends@[c]).id by {
                        assert(self.backends@[a].id == old_bs[a].id);
                        assert(self.backends@[c].id == old_bs[c].id);
                    }
                }
            },
        }
    }

    /// One round of health checks.  A backend that is healthy or draining
    /// passes and is marked healthy; one that fails is marked unhealthy only
    /// once its failure count has reached the unhealthy threshold.  Nothing is
    /// checked when health checks are disabled.
    pub fn perform_health_checks(&mut self) -> (r: HealthCheckResults)
        requires
            old(self).wf(),
            forall|i: int|
                0 <= i < old(self).backends_view().len() ==> (#[trigger] old(self).backends_view()[i]).consecutive_failures
                    < u32::MAX,
        ensures
            final(self).wf(),
            !old(self).health_check_view().enabled ==> r.total == 0 && r.healthy == 0 && r.unhealthy == 0
                && r.checked@.len() == 0 && final(self).backends_view() == old(self).backends_view(),
            old(self).health_check_view().enabled ==> {
                &&& r.total == old(self).backends_view().len()
                &&& r.healthy == passing(old(self).backends_view())
                &&& r.healthy + r.unhealthy == r.total
                &&& r.checked@.len() == r.total
                &&& final(self).backends_view().len() == old(self).backends_view().len()
                &&& forall|i: int|
                    0 <= i < old(self).backends_view().len() ==> {
                        let o = #[trigger] old(self).backends_view()[i];
                        let n = final(self).backends_view()[i];
                        &&& n.id == o.id && n.name == o.name && n.address == o.address && n.port == o.port
                            && n.weight == o.weight && n.active_connections == o.active_connections
                            && n.total_connections == o.total_connections
                        &&& o.status != BackendStatus::Unhealthy ==> n.status == BackendStatus::Healthy
                            && n.consecutive_failures == 0
                        &&& o.status == BackendStatus::Unhealthy && o.consecutive_failures
                            >= old(self).health_check_view().unhealthy_threshold ==> n.status
                            == BackendStatus::Unhealthy && n.consecutive_failures == o.consecutive_failures + 1
                        &&& o.status == BackendStatus::Unhealthy && o.consecutive_failures
                            < old(self).health_check_view().unhealthy_threshold ==> n.status == o.status
                            && n.consecutive_failures == o.consecutive_failures
                            && n.last_health_check == o.last_health_check
                        &&& r.checked@[i].backend_id == n.id && r.checked@[i].backend_name == n.name
                            && r.checked@[i].status == n.status && r.checked@[i].consecutive_failures
                            == n.consecutive_failures
                    }
            },
            final(self).index_view() == old(self).index_view(),
            final(self).algorithm_view() == old(self).algorithm_view(),
            final(self).health_check_view() == old(self).health_check_view(),
    {
        if !self.health_check.enabled {
            return HealthCheckResults { total: 0, healthy: 0, unhealthy: 0, checked: Vec::new() };
        }
        let n = self.backends.len();
        let ghost old_bs = self.backends@;
        let mut results = HealthCheckResults { total: n, healthy: 0, unhealthy: 0, checked: Vec::new() };
        let mut i: usize = 0;
        while i < n
            invariant
                0 <= i <= n,
                n == old_bs.len(),
                self.backends@.len() == n,
                self.health_check == old(self).health_check,
                self.health_check.enabled,
                self.algorithm == old(self).algorithm,
                self.round_robin_index == old(self).round_robin_index,
                old_bs == old(self).backends@,
                results.total == n,
                results.healthy + results.unhealthy == i,
                results.healthy == passing(old_bs.take(i as int)),
                results.checked@.len() == i,
                forall|k: int| i <= k < n ==> self.backends@[k] == old_bs[k],
                forall|k: int|
                    0 <= k < n ==> (#[trigger] old_bs[k]).consecutive_failures < u32::MAX,
                ids_unique(old_bs),
                forall|k: int|
                    0 <= k < i ==> {
                        let o = #[trigger] old_bs[k];
                        let nb = self.backends@[k];
                        &&& nb.id == o.id && nb.name == o.name && nb.address == o.address && nb.port
                            == o.port && nb.weight == o.weight && nb.active_connections
                            == o.active_connections && nb.total_connections == o.total_connections
                        &&& o.status != BackendStatus::Unhealthy ==> nb.status == BackendStatus::Healthy
                            && nb.consecutive_failures == 0
                        &&& o.status == BackendStatus::Unhealthy && o.consecutive_failures
                            >= self.health_check.unhealthy_threshold ==> nb.status
                            == BackendStatus::Unhealthy && nb.consecutive_failures == o.consecutive_failures + 1
                        &&& o.status == BackendStatus::Unhealthy && o.consecutive_failures
                            < self.health_check.unhealthy_threshold ==> nb.status == o.status
                            && nb.consecutive_failures == o.consecutive_failures
                            && nb.last_health_check == o.last_health_check
                        &&& results.checked@[k].backend_id == nb.id && results.checked@[k].backend_name
                            == nb.name && results.checked@[k].status == nb.status
                            && results.checked@[k].consecutive_failures == nb.consecutive_failures
                    },
            decreases n - i,
        {
            let ghost before = self.backends@;
            let mut b = self.backends.remove(i);
            proof {
                assert(b == old_bs[i as int]);
                assert(old_bs.take(i + 1).drop_last() =~= old_bs.take(i as int));
                lemma_passing_bound(old_bs.take(i as int));
            }
            let passed = match b.status {
                BackendStatus::Healthy => true,
                BackendStatus::Draining => true,
                BackendStatus::Unhealthy => false,
            };
            if passed {
                b.mark_healthy();
                results.healthy = results.healthy + 1;
            } else {
                if b.consecutive_failures >= self.health_check.unhealthy_threshold {
                    b.mark_unhealthy();
                }
                results.unhealthy = results.unhealthy + 1;
            }
            results.checked.push(
                BackendHealthStatus {
                    backend_id: b.id,
                    backend_name: b.name.clone(),
                    status: b.status,
                    consecutive_failures: b.consecutive_failures,
                },
            );
            self.backends.insert(i, b);
            proof {
                assert forall|k: int| 0 <= k < n && k != i implies self.backends@[k] == before[k] by {}
            }
            i = i + 1;
        }
        proof {
            assert(old_bs.take(n as int) =~= old_bs);
            assert forall|a: int, c: int|
                0 <= a < self.backends@.len() && 0 <= c < self.backends@.len() && a != c implies (
                #[trigger] self.backends@[a]).id != (#[trigger] self.backends@[c]).id by {
                assert(self.backends@[a].id == old_bs[a].id);
                assert(self.backends@[c].id == old_bs[c].id);
            }
        }
        results
    }

    /// Counts over all backends.
    pub fn get_stats(&self) -> (s: LoadBalancerStats)
        requires
            active_sum(self.backends_view()) <= u32::MAX,
            total_sum(self.backends_view()) <= u64::MAX,
        ensures
            s.total_backends == self.backends_view().len(),
            s.healthy_backends == healthy_count(self.backends_view()),
            s.active_connections == active_sum(self.backends_view()),
            s.total_connections == total_sum(self.backends_view()),
    {
        let mut healthy: usize = 0;
        let mut active: u32 = 0;
        let mut total: u64 = 0;
        let mut i: usize = 0;
        while i < self.backends.len()
            invariant
                0 <= i <= self.backends.len(),
                active_sum(self.backends@) <= u32::MAX,
                total_sum(self.backends@) <= u64::MAX,
                healthy == healthy_count(self.backends@.subrange(0, i as int)),
                active == active_sum(self.backends@.subrange(0, i as int)),
                total == total_sum(self.backends@.subrange(0, i as int)),
                healthy <= i,
            decreases self.backends.len() - i,
        {
            let ghost pre = self.backends@.subrange(0, i as int);
            let ghost post = self.backends@.subrange(0, i + 1);
            proof {
                assert(post.drop_last() == pre);
                lemma_sums_prefix(self.backends@, i + 1);
                lemma_available_sub(pre);
            }
            if self.backends[i].is_available() {
                healthy = healthy + 1;
            }
            active = active + self.backends[i].active_connections;
            total = total + self.backends[i].total_connections;
            i = i + 1;
        }
        proof {
            assert(self.backends@.subrange(0, self.backends@.len() as int) == self.backends@);
        }
        LoadBalancerStats {
            total_backends: self.backends.len(),
            healthy_backends: healthy,
            active_connections: active,
            total_connections: total,
        }
    }
}

proof fn lemma_sums_prefix(bs: Seq<Backend>, n: int)
    requires
        0 <= n <= bs.len(),
    ensures
        active_sum(bs.subrange(0, n)) <= active_sum(bs),
        total_sum(bs.subrange(0, n)) <= total_sum(bs),
        active_sum(bs) >= 0,
        total_sum(bs) >= 0,
    decreases bs.len(),
{
    if bs.len() > 0 {
        if n == bs.len() {
            assert(bs.subrange(0, n) == bs);
            lemma_sums_prefix(bs.drop_last(), 0);
        } else {
            assert(bs.drop_last().subrange(0, n) == bs.subrange(0, n));
            lemma_sums_prefix(bs.drop_last(), n);
        }
    }
}

/// Why a load-balancer request was refused.
#[derive(PartialEq, Eq, Structural, Clone, Copy, Debug)]
pub enum LoadBalancerError {
    BackendNotFound,
}

fn select_least_connections(backends: &Vec<Backend>) -> (b: Option<Backend>)
    requires
        backends@.len() > 0,
    ensures
        exists|k: int| is_least_loaded(backends@, k) && b == Some(backends@[k]),
{
    let mut best: usize = 0;
    let mut i: usize = 1;
    while i < backends.len()
        invariant
            1 <= i <= backends.len(),
            0 <= best < i,
            forall|j: int| 0 <= j < i ==> backends@[best as int].active_connections <= (#[trigger] backends@[j]).active_connections,
            forall|j: int| 0 <= j < best ==> backends@[best as int].active_connections < (#[trigger] backends@[j]).active_connections,
        decreases backends.len() - i,
    {
        if backends[i].active_connections < backends[best].active_connections {
            best = i;
        }
        i = i + 1;
    }
    proof {
        assert(is_least_loaded(backends@, best as int));
    }
    Some(backends[best].copy())
}

fn client_hash(ip: IpAddress) -> (h: u32)
    ensures
        h == ip_hash(ip),
{
    match ip {
        IpAddress::V4(a, b, c, d) => {
            let h: u32 = (a as u32) * 0x1000000 + (b as u32) * 0x10000 + (c as u32) * 0x100 + (d as u32);
            h
        },
        IpAddress::V6(s0, s1, _, _, _, _, _, _) => {
            let x = s0 ^ s1;
            x as u32
        },
    }
}

fn select_ip_hash(backends: &Vec<Backend>, client_ip: Option<IpAddress>) -> (b: Option<Backend>)
    requires
        backends@.len() > 0,
    ensures
        b == Some(backends@[pick(LoadBalancingAlgorithm::IpHash, backends@, 0, client_ip)]),
{
    match client_ip {
        Some(ip) => {
            let h = client_hash(ip) as usize;
            Some(backends[h % backends.len()].copy())
        },
        None => Some(backends[0].copy()),
    }
}

/// A hasher builder from `RandomState::new`, whose keys are drawn at random;
/// nothing is promised of it.
#[verifier::external_body]
fn fresh_random_state() -> (s: std::collections::hash_map::RandomState) {
    std::collections::hash_map::RandomState::new()
}

/// Hashes the seed with `BuildHasher::hash_one` under the builder's keys;
/// nothing is promised of the value.
#[verifier::external_body]
fn hash_one(s: &std::collections::hash_map::RandomState, seed: i64) -> (r: u64) {
    std::hash::BuildHasher::hash_one(s, seed)
}

fn select_random(backends: &Vec<Backend>) -> (b: Option<Backend>)
    requires
        backends@.len() > 0,
    ensures
        exists|k: int| 0 <= k < backends@.len() && b == Some(backends@[k]),
{
    let state = fresh_random_state();
    let r = hash_one(&state, clock::now_nanos());
    let index = (r % (backends.len() as u64)) as usize;
    Some(backends[index].copy())
}

/// Round robin visits the healthy backends in turn: a selection picks the
/// position after the previous one, wrapping around, so that `n` successive
/// selections over `n` healthy backends pick each position once.
pub proof fn lemma_round_robin_successor(rr: usize, n: int)
    requires
        n > 0,
    ensures
        ((rr as int + 1) % n) % n == (rr as int % n + 1) % n,
        n >= 2 ==> (rr as int % n) != ((rr as int + 1) % n) % n,
{
    let i = rr as int;
    lemma_mod_succ(i, n);
    vstd::arithmetic::div_mod::lemma_mod_bound(i, n);
    vstd::arithmetic::div_mod::lemma_mod_bound(i + 1, n);
    vstd::arithmetic::div_mod::lemma_fundamental_div_mod_converse((i + 1) % n, n, 0, (i + 1) % n);
    if i % n + 1 == n {
        vstd::arithmetic::div_mod::lemma_fundamental_div_mod_converse(i % n + 1, n, 1, 0);
    } else {
        vstd::arithmetic::div_mod::lemma_fundamental_div_mod_converse(i % n + 1, n, 0, i % n + 1);
    }
}

/// The successor modulo `n`: one more, wrapping to zero at `n`.
pub proof fn lemma_mod_succ(i: int, n: int)
    requires
        n > 0,
        i >= 0,
    ensures
        (i + 1) % n == if i % n + 1 == n { 0 } else { i % n + 1 },
        0 <= i % n < n,
{
    vstd::arithmetic::div_mod::lemma_fundamental_div_mod(i, n);
    vstd::arithmetic::div_mod::lemma_mod_bound(i, n);
    let q = i / n;
    let r = i % n;
    if r + 1 == n {
        assert(i + 1 == (q + 1) * n + 0) by (nonlinear_arith)
            requires
                i == n * q + r,
                r + 1 == n,
        ;
        vstd::arithmetic::div_mod::lemma_fundamental_div_mod_converse(i + 1, n, q + 1, 0);
    } else {
        assert(i + 1 == q * n + (r + 1)) by (nonlinear_arith)
            requires
                i == n * q + r,
        ;
        vstd::arithmetic::div_mod::lemma_fundamental_div_mod_converse(i + 1, n, q, r + 1);
    }
}

/// A weighted pick over positive total weight lands on a valid backend.
pub proof fn lemma_weighted_pick_in_range(av: Seq<Backend>, t: int)
    requires
        av.len() > 0,
    ensures
        0 <= weighted_pick(av, t) < av.len(),
{
    lemma_weighted_pick_bounds(av, t);
}

/// How many backends pass a health check: those not marked unhealthy.
pub open spec fn passing(bs: Seq<Backend>) -> int
    decreases bs.len(),
{
    if bs.len() == 0 {
        0
    } else {
        passing(bs.drop_last()) + if bs.last().status != BackendStatus::Unhealthy { 1int } else { 0 }
    }
}

proof fn lemma_passing_bound(bs: Seq<Backend>)
    ensures
        0 <= passing(bs) <= bs.len(),
    decreases bs.len(),
{
    if bs.len() > 0 {
        lemma_passing_bound(bs.drop_last());
    }
}

} // verus!
