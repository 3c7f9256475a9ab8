//! The metrics of every subsystem: which families there are, with their
//! kinds, names, help texts and labels, and their registration in a
//! Prometheus registry.  Setting and recording values is left to the
//! caller, through the handles registration gives back.
use vstd::prelude::*;
use crate::text::owned;

verus! {

#[verifier::external_type_specification]
#[verifier::external_body]
pub struct ExRegistry(prometheus::Registry);

#[verifier::external_type_specification]
#[verifier::external_body]
pub struct ExPrometheusError(prometheus::Error);

/// A registered metric, through which its values are set.  Verus sees
/// nothing inside it: the vector kinds are generic over builder types that
/// the `prometheus` crate keeps private, so they cannot be declared here.
/// Exactly one of its fields is set, the one of the metric's kind.
#[verifier::external_body]
pub struct MetricHandle {
    pub counter: Option<prometheus::Counter>,
    pub counter_vec: Option<prometheus::CounterVec>,
    pub gauge: Option<prometheus::Gauge>,
    pub gauge_vec: Option<prometheus::GaugeVec>,
    pub histogram_vec: Option<prometheus::HistogramVec>,
}

/// The names of the metrics registered in a registry.
pub uninterp spec fn registered_names(r: prometheus::Registry) -> Set<Seq<char>>;

/// Whether the registry was made by `Registry::new`: without a common
/// prefix or common labels, so that a metric is registered under its own
/// name.
pub uninterp spec fn plain_registry(r: prometheus::Registry) -> bool;

/// A character that may start a name: a letter, `_`, and `:` where
/// `colon` allows it.
pub open spec fn name_start(c: char, colon: bool) -> bool {
    ('a' <= c && c <= 'z') || ('A' <= c && c <= 'Z') || c == '_' || (colon && c == ':')
}

/// A name of the form `[a-zA-Z_(:)][a-zA-Z0-9_(:)]*`.
pub open spec fn valid_ident(s: Seq<char>, colon: bool) -> bool {
    &&& s.len() > 0
    &&& name_start(s[0], colon)
    &&& forall|i: int| 1 <= i < s.len() ==> name_start(#[trigger] s[i], colon) || ('0' <= s[i] && s[i] <= '9')
}

/// What Prometheus accepts as the description of a metric: a help text, a
/// valid metric name, and valid, distinct label names.
pub open spec fn valid_desc(name: Seq<char>, help: Seq<char>, labels: Seq<Seq<char>>) -> bool {
    &&& help.len() > 0
    &&& valid_ident(name, true)
    &&& forall|i: int| 0 <= i < labels.len() ==> valid_ident(#[trigger] labels[i], false)
    &&& forall|i: int, j: int| 0 <= i < j < labels.len() ==> #[trigger] labels[i] != #[trigger] labels[j]
}

/// What a registration did to the registered names, `ok` telling whether it
/// succeeded: it succeeds only for a valid description whose name is not
/// yet registered, and then adds that name; a failure changes nothing.
pub open spec fn registration(
    before: Set<Seq<char>>,
    after: Set<Seq<char>>,
    name: Seq<char>,
    help: Seq<char>,
    labels: Seq<Seq<char>>,
    ok: bool,
) -> bool {
    &&& ok ==> valid_desc(name, help, labels) && !before.contains(name) && after == before.insert(name)
    &&& !valid_desc(name, help, labels) || before.contains(name) ==> !ok
    &&& !ok ==> after == before
}

pub open spec fn label_views(labels: Seq<String>) -> Seq<Seq<char>> {
    labels.map_values(|l: String| l@)
}

/// Makes a registry with `Registry::new`: nothing is registered in it yet.
#[verifier::external_body]
fn new_registry() -> (r: prometheus::Registry)
    ensures
        plain_registry(r),
        registered_names(r) == Set::<Seq<char>>::empty(),
{
    prometheus::Registry::new()
}

/// Makes a gauge with `Gauge::with_opts` and registers a clone of it with
/// `Registry::register`.  `Desc::new` refuses an empty help text or an
/// invalid name; `register` refuses a name already registered, and may
/// refuse a new one whose descriptor hash collides, so success is not
/// promised.  A refusal registers nothing.
#[verifier::external_body]
fn register_gauge(reg: &mut prometheus::Registry, name: &str, help: &str) -> (r: Result<MetricHandle, prometheus::Error>)
    requires
        plain_registry(*old(reg)),
    ensures
        plain_registry(*final(reg)),
        registration(registered_names(*old(reg)), registered_names(*final(reg)), name@, help@, Seq::empty(), r is Ok),
{
    let g = prometheus::Gauge::with_opts(prometheus::Opts::new(name, help))?;
    reg.register(Box::new(g.clone()))?;
    Ok(MetricHandle { gauge: Some(g), counter: None, counter_vec: None, gauge_vec: None, histogram_vec: None })
}

/// Makes a counter with `Counter::with_opts` and registers a clone of it;
/// as for a gauge.
#[verifier::external_body]
fn register_counter(reg: &mut prometheus::Registry, name: &str, help: &str) -> (r: Result<MetricHandle, prometheus::Error>)
    requires
        plain_registry(*old(reg)),
    ensures
        plain_registry(*final(reg)),
        registration(registered_names(*old(reg)), registered_names(*final(reg)), name@, help@, Seq::empty(), r is Ok),
{
    let c = prometheus::Counter::with_opts(prometheus::Opts::new(name, help))?;
    reg.register(Box::new(c.clone()))?;
    Ok(MetricHandle { counter: Some(c), counter_vec: None, gauge: None, gauge_vec: None, histogram_vec: None })
}

/// Makes a labelled gauge with `GaugeVec::new` and registers a clone of it;
/// `Desc::new` also refuses invalid or repeated label names.
#[verifier::external_body]
fn register_gauge_vec(reg: &mut prometheus::Registry, name: &str, help: &str, labels: &Vec<String>) -> (r: Result<MetricHandle, prometheus::Error>)
    requires
        plain_registry(*old(reg)),
    ensures
        plain_registry(*final(reg)),
        registration(registered_names(*old(reg)), registered_names(*final(reg)), name@, help@, label_views(labels@), r is Ok),
{
    let ls: Vec<&str> = labels.iter().map(|l| l.as_str()).collect();
    let g = prometheus::GaugeVec::new(prometheus::Opts::new(name, help), &ls)?;
    reg.register(Box::new(g.clone()))?;
    Ok(MetricHandle { gauge_vec: Some(g), counter: None, counter_vec: None, gauge: None, histogram_vec: None })
}

/// Makes a labelled counter with `CounterVec::new` and registers a clone of
/// it; as for a labelled gauge.
#[verifier::external_body]
fn register_counter_vec(reg: &mut prometheus::Registry, name: &str, help: &str, labels: &Vec<String>) -> (r: Result<MetricHandle, prometheus::Error>)
    requires
        plain_registry(*old(reg)),
    ensures
        plain_registry(*final(reg)),
        registration(registered_names(*old(reg)), registered_names(*final(reg)), name@, help@, label_views(labels@), r is Ok),
{
    let ls: Vec<&str> = labels.iter().map(|l| l.as_str()).collect();
    let c = prometheus::CounterVec::new(prometheus::Opts::new(name, help), &ls)?;
    reg.register(Box::new(c.clone()))?;
    Ok(MetricHandle { counter_vec: Some(c), counter: None, gauge: None, gauge_vec: None, histogram_vec: None })
}

/// Makes a labelled histogram with the default buckets by `HistogramVec::new`
/// and registers a clone of it; as for a labelled gauge.
#[verifier::external_body]
fn register_histogram_vec(reg: &mut prometheus::Registry, name: &str, help: &str, labels: &Vec<String>) -> (r: Result<MetricHandle, prometheus::Error>)
    requires
        plain_registry(*old(reg)),
    ensures
        plain_registry(*final(reg)),
        registration(registered_names(*old(reg)), registered_names(*final(reg)), name@, help@, label_views(labels@), r is Ok),
{
    let ls: Vec<&str> = labels.iter().map(|l| l.as_str()).collect();
    let h = prometheus::HistogramVec::new(prometheus::HistogramOpts::new(name, help), &ls)?;
    reg.register(Box::new(h.clone()))?;
    Ok(MetricHandle { histogram_vec: Some(h), counter: None, counter_vec: None, gauge: None, gauge_vec: None })
}

/// How a metric counts: up only, up and down, or into buckets.
#[derive(PartialEq, Eq, Structural, Clone, Copy, Debug)]
pub enum MetricKind {
    Counter,
    Gauge,
    Histogram,
}

/// A family of metrics: its kind, name, help text and label names.  A
/// counter or gauge without labels is a single metric.
#[derive(Clone, Debug)]
pub struct MetricFamily {
    pub kind: MetricKind,
    pub name: String,
    pub help: String,
    pub labels: Vec<String>,
}

/// A family as plain values.
pub open spec fn family_view(f: MetricFamily) -> (MetricKind, Seq<char>, Seq<char>, Seq<Seq<char>>) {
    (f.kind, f.name@, f.help@, label_views(f.labels@))
}

pub open spec fn family_views(fs: Seq<MetricFamily>) -> Seq<(MetricKind, Seq<char>, Seq<char>, Seq<Seq<char>>)> {
    fs.map_values(|f: MetricFamily| family_view(f))
}

/// Why the metrics could not be set up: the family of that name was
/// refused.
#[derive(Clone, Debug)]
pub struct MetricsError {
    pub name: String,
}

pub(crate) fn l0() -> (r: Vec<String>)
    ensures
        label_views(r@) == Seq::<Seq<char>>::empty(),
{
    let r: Vec<String> = Vec::new();
    proof {
        assert(label_views(r@) =~= Seq::<Seq<char>>::empty());
    }
    r
}

fn l1(a: &str) -> (r: Vec<String>)
    ensures
        label_views(r@) == seq![a@],
{
    let mut r: Vec<String> = Vec::new();
    r.push(owned(a));
    proof {
        assert(label_views(r@) =~= seq![a@]);
    }
    r
}

fn l2(a: &str, b: &str) -> (r: Vec<String>)
    ensures
        label_views(r@) == seq![a@, b@],
{
    let mut r: Vec<String> = Vec::new();
    r.push(owned(a));
    r.push(owned(b));
    proof {
        assert(label_views(r@) =~= seq![a@, b@]);
    }
    r
}

fn l3(a: &str, b: &str, c: &str) -> (r: Vec<String>)
    ensures
        label_views(r@) == seq![a@, b@, c@],
{
    let mut r: Vec<String> = Vec::new();
    r.push(owned(a));
    r.push(owned(b));
    r.push(owned(c));
    proof {
        assert(label_views(r@) =~= seq![a@, b@, c@]);
    }
    r
}

pub(crate) fn family(kind: MetricKind, name: &str, help: &str, labels: Vec<String>) -> (f: MetricFamily)
    ensures
        family_view(f) == (kind, name@, help@, label_views(labels@)),
{
    MetricFamily { kind, name: owned(name), help: owned(help), labels }
}

/// The system families, in order.
pub open spec fn system_families() -> Seq<(MetricKind, Seq<char>, Seq<char>, Seq<Seq<char>>)> {
    seq![
        (MetricKind::Gauge, "patronus_cpu_usage_percent"@, "Current CPU usage percentage"@, Seq::<Seq<char>>::empty()),
        (MetricKind::Gauge, "patronus_memory_used_bytes"@, "Current memory usage in bytes"@, Seq::<Seq<char>>::empty()),
        (MetricKind::Gauge, "patronus_memory_total_bytes"@, "Total system memory in bytes"@, Seq::<Seq<char>>::empty()),
        (MetricKind::Gauge, "patronus_disk_used_bytes"@, "Disk space used in bytes"@, seq!["device"@, "mount_point"@]),
        (MetricKind::Gauge, "patronus_disk_total_bytes"@, "Total disk space in bytes"@, seq!["device"@, "mount_point"@]),
        (MetricKind::Gauge, "patronus_system_load"@, "System load average"@, seq!["period"@]),
        (MetricKind::Gauge, "patronus_uptime_seconds"@, "System uptime in seconds"@, Seq::<Seq<char>>::empty()),
        (MetricKind::Gauge, "patronus_cpu_temperature_celsius"@, "CPU temperature"@, seq!["core"@]),
    ]
}

fn system_family_list() -> (v: Vec<MetricFamily>)
    ensures
        family_views(v@) == system_families(),
{
    let mut v: Vec<MetricFamily> = Vec::new();
    v.push(family(MetricKind::Gauge, "patronus_cpu_usage_percent", "Current CPU usage percentage", l0()));
    v.push(family(MetricKind::Gauge, "patronus_memory_used_bytes", "Current memory usage in bytes", l0()));
    v.push(family(MetricKind::Gauge, "patronus_memory_total_bytes", "Total system memory in bytes", l0()));
    v.push(family(MetricKind::Gauge, "patronus_disk_used_bytes", "Disk space used in bytes", l2("device", "mount_point")));
    v.push(family(MetricKind::Gauge, "patronus_disk_total_bytes", "Total disk space in bytes", l2("device", "mount_point")));
    v.push(family(MetricKind::Gauge, "patronus_system_load", "System load average", l1("period")));
    v.push(family(MetricKind::Gauge, "patronus_uptime_seconds", "System uptime in seconds", l0()));
    v.push(family(MetricKind::Gauge, "patronus_cpu_temperature_celsius", "CPU temperature", l1("core")));
    proof {
        assert(family_views(v@) =~= system_families());
    }
    v
}

/// The interfaces families, in order.
pub open spec fn interfaces_families() -> Seq<(MetricKind, Seq<char>, Seq<char>, Seq<Seq<char>>)> {
    seq![
        (MetricKind::Gauge, "patronus_interface_rx_bytes_total"@, "Total bytes received"@, seq!["interface"@]),
        (MetricKind::Gauge, "patronus_interface_tx_bytes_total"@, "Total bytes transmitted"@, seq!["interface"@]),
        (MetricKind::Gauge, "patronus_interface_rx_packets_total"@, "Total packets received"@, seq!["interface"@]),
        (MetricKind::Gauge, "patronus_interface_tx_packets_total"@, "Total packets transmitted"@, seq!["interface"@]),
        (MetricKind::Gauge, "patronus_interface_rx_errors_total"@, "Total receive errors"@, seq!["interface"@]),
        (MetricKind::Gauge, "patronus_interface_tx_errors_total"@, "Total transmit errors"@, seq!["interface"@]),
        (MetricKind::Gauge, "patronus_interface_rx_dropped_total"@, "Total receive dropped"@, seq!["interface"@]),
        (MetricKind::Gauge, "patronus_interface_tx_dropped_total"@, "Total transmit dropped"@, seq!["interface"@]),
        (MetricKind::Gauge, "patronus_interface_speed_bps"@, "Interface speed in bits per second"@, seq!["interface"@]),
    ]
}

fn interfaces_family_list() -> (v: Vec<MetricFamily>)
    ensures
        family_views(v@) == interfaces_families(),
{
    let mut v: Vec<MetricFamily> = Vec::new();
    v.push(family(MetricKind::Gauge, "patronus_interface_rx_bytes_total", "Total bytes received", l1("interface")));
    v.push(family(MetricKind::Gauge, "patronus_interface_tx_bytes_total", "Total bytes transmitted", l1("interface")));
    v.push(family(MetricKind::Gauge, "patronus_interface_rx_packets_total", "Total packets received", l1("interface")));
    v.push(family(MetricKind::Gauge, "patronus_interface_tx_packets_total", "Total packets transmitted", l1("interface")));
    v.push(family(MetricKind::Gauge, "patronus_interface_rx_errors_total", "Total receive errors", l1("interface")));
    v.push(family(MetricKind::Gauge, "patronus_interface_tx_errors_total", "Total transmit errors", l1("interface")));
    v.push(family(MetricKind::Gauge, "patronus_interface_rx_dropped_total", "Total receive dropped", l1("interface")));
    v.push(family(MetricKind::Gauge, "patronus_interface_tx_dropped_total", "Total transmit dropped", l1("interface")));
    v.push(family(MetricKind::Gauge, "patronus_interface_speed_bps", "Interface speed in bits per second", l1("interface")));
    proof {
        assert(family_views(v@) =~= interfaces_families());
    }
    v
}

/// The firewall families, in order.
pub open spec fn firewall_families() -> Seq<(MetricKind, Seq<char>, Seq<char>, Seq<Seq<char>>)> {
    seq![
        (MetricKind::Counter, "patronus_firewall_packets_total"@, "Total packets processed"@, seq!["chain"@, "action"@]),
        (MetricKind::Counter, "patronus_firewall_bytes_total"@, "Total bytes processed"@, seq!["chain"@, "action"@]),
        (MetricKind::Gauge, "patronus_firewall_connections_active"@, "Active connection tracking entries"@, Seq::<Seq<char>>::empty()),
        (MetricKind::Counter, "patronus_firewall_connections_total"@, "Total connections tracked"@, Seq::<Seq<char>>::empty()),
        (MetricKind::Gauge, "patronus_firewall_rules_count"@, "Number of active firewall rules"@, Seq::<Seq<char>>::empty()),
        (MetricKind::Counter, "patronus_firewall_rule_hits_total"@, "Firewall rule hit counter"@, seq!["rule_id"@, "action"@]),
        (MetricKind::Gauge, "patronus_firewall_nat_translations_active"@, "Active NAT translations"@, Seq::<Seq<char>>::empty()),
    ]
}

fn firewall_family_list() -> (v: Vec<MetricFamily>)
    ensures
        family_views(v@) == firewall_families(),
{
    let mut v: Vec<MetricFamily> = Vec::new();
    v.push(family(MetricKind::Counter, "patronus_firewall_packets_total", "Total packets processed", l2("chain", "action")));
    v.push(family(MetricKind::Counter, "patronus_firewall_bytes_total", "Total bytes processed", l2("chain", "action")));
    v.push(family(MetricKind::Gauge, "patronus_firewall_connections_active", "Active connection tracking entries", l0()));
    v.push(family(MetricKind::Counter, "patronus_firewall_connections_total", "Total connections tracked", l0()));
    v.push(family(MetricKind::Gauge, "patronus_firewall_rules_count", "Number of active firewall rules", l0()));
    v.push(family(MetricKind::Counter, "patronus_firewall_rule_hits_total", "Firewall rule hit counter", l2("rule_id", "action")));
    v.push(family(MetricKind::Gauge, "patronus_firewall_nat_translations_active", "Active NAT translations", l0()));
    proof {
        assert(family_views(v@) =~= firewall_families());
    }
    v
}

/// The vpn and dhcp families, in order.
pub open spec fn vpn_dhcp_families() -> Seq<(MetricKind, Seq<char>, Seq<char>, Seq<Seq<char>>)> {
    seq![
        (MetricKind::Gauge, "patronus_vpn_sessions_active"@, "Active VPN sessions"@, seq!["type"@, "server"@]),
        (MetricKind::Counter, "patronus_vpn_sessions_total"@, "Total VPN sessions created"@, seq!["type"@, "server"@]),
        (MetricKind::Counter, "patronus_vpn_bytes_rx_total"@, "Total VPN bytes received"@, seq!["type"@, "server"@, "user"@]),
        (MetricKind::Counter, "patronus_vpn_bytes_tx_total"@, "Total VPN bytes transmitted"@, seq!["type"@, "server"@, "user"@]),
        (MetricKind::Gauge, "patronus_vpn_tunnel_up"@, "VPN tunnel status (1=up, 0=down)"@, seq!["type"@, "name"@, "remote"@]),
        (MetricKind::Gauge, "patronus_dhcp_leases_active"@, "Active DHCP leases"@, Seq::<Seq<char>>::empty()),
        (MetricKind::Counter, "patronus_dhcp_leases_total"@, "Total DHCP leases issued"@, Seq::<Seq<char>>::empty()),
        (MetricKind::Counter, "patronus_dhcp_requests_total"@, "DHCP requests by type"@, seq!["type"@]),
    ]
}

fn vpn_dhcp_family_list() -> (v: Vec<MetricFamily>)
    ensures
        family_views(v@) == vpn_dhcp_families(),
{
    let mut v: Vec<MetricFamily> = Vec::new();
    v.push(family(MetricKind::Gauge, "patronus_vpn_sessions_active", "Active VPN sessions", l2("type", "server")));
    v.push(family(MetricKind::Counter, "patronus_vpn_sessions_total", "Total VPN sessions created", l2("type", "server")));
    v.push(family(MetricKind::Counter, "patronus_vpn_bytes_rx_total", "Total VPN bytes received", l3("type", "server", "user")));
    v.push(family(MetricKind::Counter, "patronus_vpn_bytes_tx_total", "Total VPN bytes transmitted", l3("type", "server", "user")));
    v.push(family(MetricKind::Gauge, "patronus_vpn_tunnel_up", "VPN tunnel status (1=up, 0=down)", l3("type", "name", "remote")));
    v.push(family(MetricKind::Gauge, "patronus_dhcp_leases_active", "Active DHCP leases", l0()));
    v.push(family(MetricKind::Counter, "patronus_dhcp_leases_total", "Total DHCP leases issued", l0()));
    v.push(family(MetricKind::Counter, "patronus_dhcp_requests_total", "DHCP requests by type", l1("type")));
    proof {
        assert(family_views(v@) =~= vpn_dhcp_families());
    }
    v
}

/// The dns and ha families, in order.
pub open spec fn dns_ha_families() -> Seq<(MetricKind, Seq<char>, Seq<char>, Seq<Seq<char>>)> {
    seq![
        (MetricKind::Counter, "patronus_dns_queries_total"@, "Total DNS queries"@, seq!["type"@, "result"@]),
        (MetricKind::Histogram, "patronus_dns_query_duration_seconds"@, "DNS query duration"@, seq!["type"@]),
        (MetricKind::Counter, "patronus_dns_cache_hits_total"@, "DNS cache hits"@, Seq::<Seq<char>>::empty()),
        (MetricKind::Counter, "patronus_dns_cache_misses_total"@, "DNS cache misses"@, Seq::<Seq<char>>::empty()),
        (MetricKind::Counter, "patronus_dns_blocked_queries_total"@, "Blocked DNS queries"@, seq!["list"@, "domain"@]),
        (MetricKind::Gauge, "patronus_ha_state"@, "HA state (1=master, 0=backup)"@, seq!["node"@]),
        (MetricKind::Counter, "patronus_ha_failovers_total"@, "Total HA failovers"@, Seq::<Seq<char>>::empty()),
        (MetricKind::Counter, "patronus_ha_sync_errors_total"@, "Configuration sync errors"@, Seq::<Seq<char>>::empty()),
        (MetricKind::Gauge, "patronus_ha_last_sync_timestamp"@, "Timestamp of last successful sync"@, Seq::<Seq<char>>::empty()),
    ]
}

fn dns_ha_family_list() -> (v: Vec<MetricFamily>)
    ensures
        family_views(v@) == dns_ha_families(),
{
    let mut v: Vec<MetricFamily> = Vec::new();
    v.push(family(MetricKind::Counter, "patronus_dns_queries_total", "Total DNS queries", l2("type", "result")));
    v.push(family(MetricKind::Histogram, "patronus_dns_query_duration_seconds", "DNS query duration", l1("type")));
    v.push(family(MetricKind::Counter, "patronus_dns_cache_hits_total", "DNS cache hits", l0()));
    v.push(family(MetricKind::Counter, "patronus_dns_cache_misses_total", "DNS cache misses", l0()));
    v.push(family(MetricKind::Counter, "patronus_dns_blocked_queries_total", "Blocked DNS queries", l2("list", "domain")));
    v.push(family(MetricKind::Gauge, "patronus_ha_state", "HA state (1=master, 0=backup)", l1("node")));
    v.push(family(MetricKind::Counter, "patronus_ha_failovers_total", "Total HA failovers", l0()));
    v.push(family(MetricKind::Counter, "patronus_ha_sync_errors_total", "Configuration sync errors", l0()));
    v.push(family(MetricKind::Gauge, "patronus_ha_last_sync_timestamp", "Timestamp of last successful sync", l0()));
    proof {
        assert(family_views(v@) =~= dns_ha_families());
    }
    v
}

/// The ids and qos families, in order.
pub open spec fn ids_qos_families() -> Seq<(MetricKind, Seq<char>, Seq<char>, Seq<Seq<char>>)> {
    seq![
        (MetricKind::Counter, "patronus_ids_alerts_total"@, "IDS/IPS alerts"@, seq!["severity"@, "category"@, "signature"@]),
        (MetricKind::Counter, "patronus_ids_packets_processed_total"@, "Packets processed by IDS/IPS"@, Seq::<Seq<char>>::empty()),
        (MetricKind::Counter, "patronus_ids_packets_dropped_total"@, "Packets dropped by IPS"@, Seq::<Seq<char>>::empty()),
        (MetricKind::Gauge, "patronus_ids_signatures_loaded"@, "Number of loaded IDS signatures"@, Seq::<Seq<char>>::empty()),
        (MetricKind::Gauge, "patronus_qos_bandwidth_used_bps"@, "Current bandwidth usage"@, seq!["interface"@, "class"@]),
        (MetricKind::Gauge, "patronus_qos_bandwidth_limit_bps"@, "Bandwidth limit"@, seq!["interface"@, "class"@]),
        (MetricKind::Counter, "patronus_qos_packets_shaped_total"@, "Packets shaped by QoS"@, seq!["interface"@, "class"@]),
        (MetricKind::Counter, "patronus_qos_packets_dropped_total"@, "Packets dropped by QoS"@, seq!["interface"@, "class"@, "reason"@]),
    ]
}

fn ids_qos_family_list() -> (v: Vec<MetricFamily>)
    ensures
        family_views(v@) == ids_qos_families(),
{
    let mut v: Vec<MetricFamily> = Vec::new();
    v.push(family(MetricKind::Counter, "patronus_ids_alerts_total", "IDS/IPS alerts", l3("severity", "category", "signature")));
    v.push(family(MetricKind::Counter, "patronus_ids_packets_processed_total", "Packets processed by IDS/IPS", l0()));
    v.push(family(MetricKind::Counter, "patronus_ids_packets_dropped_total", "Packets dropped by IPS", l0()));
    v.push(family(MetricKind::Gauge, "patronus_ids_signatures_loaded", "Number of loaded IDS signatures", l0()));
    v.push(family(MetricKind::Gauge, "patronus_qos_bandwidth_used_bps", "Current bandwidth usage", l2("interface", "class")));
    v.push(family(MetricKind::Gauge, "patronus_qos_bandwidth_limit_bps", "Bandwidth limit", l2("interface", "class")));
    v.push(family(MetricKind::Counter, "patronus_qos_packets_shaped_total", "Packets shaped by QoS", l2("interface", "class")));
    v.push(family(MetricKind::Counter, "patronus_qos_packets_dropped_total", "Packets dropped by QoS", l3("interface", "class", "reason")));
    proof {
        assert(family_views(v@) =~= ids_qos_families());
    }
    v
}

/// The services families, in order.
pub open spec fn services_families() -> Seq<(MetricKind, Seq<char>, Seq<char>, Seq<Seq<char>>)> {
    seq![
        (MetricKind::Gauge, "patronus_cert_expiry_days"@, "Days until certificate expiry"@, seq!["domain"@, "issuer"@]),
        (MetricKind::Counter, "patronus_cert_renewals_total"@, "Certificate renewals"@, seq!["domain"@, "status"@]),
        (MetricKind::Counter, "patronus_cert_errors_total"@, "Certificate errors"@, seq!["domain"@, "error_type"@]),
        (MetricKind::Counter, "patronus_http_requests_total"@, "HTTP requests"@, seq!["method"@, "path"@, "status"@]),
        (MetricKind::Histogram, "patronus_http_request_duration_seconds"@, "HTTP request duration"@, seq!["method"@, "path"@]),
        (MetricKind::Gauge, "patronus_http_requests_in_flight"@, "HTTP requests currently being processed"@, Seq::<Seq<char>>::empty()),
        (MetricKind::Gauge, "patronus_service_up"@, "Service health (1=up, 0=down)"@, seq!["service"@]),
        (MetricKind::Counter, "patronus_service_restarts_total"@, "Service restart count"@, seq!["service"@]),
    ]
}

fn services_family_list() -> (v: Vec<MetricFamily>)
    ensures
        family_views(v@) == services_families(),
{
    let mut v: Vec<MetricFamily> = Vec::new();
    v.push(family(MetricKind::Gauge, "patronus_cert_expiry_days", "Days until certificate expiry", l2("domain", "issuer")));
    v.push(family(MetricKind::Counter, "patronus_cert_renewals_total", "Certificate renewals", l2("domain", "status")));
    v.push(family(MetricKind::Counter, "patronus_cert_errors_total", "Certificate errors", l2("domain", "error_type")));
    v.push(family(MetricKind::Counter, "patronus_http_requests_total", "HTTP requests", l3("method", "path", "status")));
    v.push(family(MetricKind::Histogram, "patronus_http_request_duration_seconds", "HTTP request duration", l2("method", "path")));
    v.push(family(MetricKind::Gauge, "patronus_http_requests_in_flight", "HTTP requests currently being processed", l0()));
    v.push(family(MetricKind::Gauge, "patronus_service_up", "Service health (1=up, 0=down)", l1("service")));
    v.push(family(MetricKind::Counter, "patronus_service_restarts_total", "Service restart count", l1("service")));
    proof {
        assert(family_views(v@) =~= services_families());
    }
    v
}

/// Every family the collector registers, in order: system, interfaces,
/// firewall, VPN, DHCP, DNS, HA, IDS, QoS, certificates, the web interface
/// and services.
pub open spec fn collector_families() -> Seq<(MetricKind, Seq<char>, Seq<char>, Seq<Seq<char>>)> {
    system_families() + interfaces_families() + firewall_families() + vpn_dhcp_families() + dns_ha_families() + ids_qos_families() + services_families()
}

proof fn lemma_views_append(a: Seq<MetricFamily>, b: Seq<MetricFamily>)
    ensures
        family_views(a + b) == family_views(a) + family_views(b),
{
    assert(family_views(a + b) =~= family_views(a) + family_views(b));
}

/// Every family the collector registers, in order.
pub fn collector_family_list() -> (v: Vec<MetricFamily>)
    ensures
        family_views(v@) == collector_families(),
{

    let mut v = system_family_list();
    let mut more = interfaces_family_list();
    let ghost before = v@;
    let ghost m = more@;
    v.append(&mut more);
    proof {
        lemma_views_append(before, m);
    }
    let mut more = firewall_family_list();
    let ghost before = v@;
    let ghost m = more@;
    v.append(&mut more);
    proof {
        lemma_views_append(before, m);
    }
    let mut more = vpn_dhcp_family_list();
    let ghost before = v@;
    let ghost m = more@;
    v.append(&mut more);
    proof {
        lemma_views_append(before, m);
    }
    let mut more = dns_ha_family_list();
    let ghost before = v@;
    let ghost m = more@;
    v.append(&mut more);
    proof {
        lemma_views_append(before, m);
    }
    let mut more = ids_qos_family_list();
    let ghost before = v@;
    let ghost m = more@;
    v.append(&mut more);
    proof {
        lemma_views_append(before, m);
    }
    let mut more = services_family_list();
    let ghost before = v@;
    let ghost m = more@;
    v.append(&mut more);
    proof {
        lemma_views_append(before, m);
    }
    v
}

/// The names of the first `n` families.
pub open spec fn names_upto(fs: Seq<(MetricKind, Seq<char>, Seq<char>, Seq<Seq<char>>)>, n: int) -> Set<Seq<char>> {
    Set::new(|x: Seq<char>| exists|k: int| 0 <= k < n && (#[trigger] fs[k]).1 == x)
}

/// No two of the first `n` families share a name.
pub open spec fn names_distinct_upto(fs: Seq<(MetricKind, Seq<char>, Seq<char>, Seq<Seq<char>>)>, n: int) -> bool {
    forall|a: int, b: int| 0 <= a < b < n ==> (#[trigger] fs[a]).1 != (#[trigger] fs[b]).1
}

/// Registers a family in a registry made by `Registry::new`: a gauge or
/// counter without labels as a single metric, with labels as a labelled
/// one, a histogram always labelled.  Refused, with the family's name, as
/// the registry refuses it.
pub fn register_family(reg: &mut prometheus::Registry, f: &MetricFamily) -> (r: Result<MetricHandle, MetricsError>)
    requires
        plain_registry(*old(reg)),
    ensures
        plain_registry(*final(reg)),
        registration(
            registered_names(*old(reg)),
            registered_names(*final(reg)),
            f.name@,
            f.help@,
            label_views(f.labels@),
            r is Ok,
        ),
        r matches Err(e) ==> e.name@ == f.name@,
{
    let outcome = match f.kind {
        MetricKind::Gauge => if f.labels.len() == 0 {
            proof {
                assert(label_views(f.labels@) =~= Seq::<Seq<char>>::empty());
            }
            register_gauge(reg, f.name.as_str(), f.help.as_str())
        } else {
            register_gauge_vec(reg, f.name.as_str(), f.help.as_str(), &f.labels)
        },
        MetricKind::Counter => if f.labels.len() == 0 {
            proof {
                assert(label_views(f.labels@) =~= Seq::<Seq<char>>::empty());
            }
            register_counter(reg, f.name.as_str(), f.help.as_str())
        } else {
            register_counter_vec(reg, f.name.as_str(), f.help.as_str(), &f.labels)
        },
        MetricKind::Histogram => register_histogram_vec(reg, f.name.as_str(), f.help.as_str(), &f.labels),
    };
    match outcome {
        Ok(h) => Ok(h),
        Err(_) => Err(MetricsError { name: f.name.clone() }),
    }
}

/// A registry made by `Registry::new` with the families registered in it,
/// in order, and their handles in the same order; refused with the name of
/// the first family the registry refuses.  When it succeeds the registered
/// names are exactly the families' names, and no two families share a name.
pub fn register_all(families: &Vec<MetricFamily>) -> (r: Result<(prometheus::Registry, Vec<MetricHandle>), MetricsError>)
    ensures
        r matches Ok((reg, hs)) ==> {
            &&& plain_registry(reg)
            &&& registered_names(reg) == names_upto(family_views(families@), families@.len() as int)
            &&& names_distinct_upto(family_views(families@), families@.len() as int)
            &&& hs@.len() == families@.len()
        },
        r matches Err(e) ==> exists|k: int| 0 <= k < families@.len() && e.name@ == (#[trigger] families@[k]).name@,
{
    let mut reg = new_registry();
    let mut handles: Vec<MetricHandle> = Vec::new();
    let ghost fs = family_views(families@);
    proof {
        assert(names_upto(fs, 0) =~= Set::<Seq<char>>::empty());
    }
    let mut i: usize = 0;
    while i < families.len()
        invariant
            0 <= i <= families@.len(),
            fs == family_views(families@),
            plain_registry(reg),
            registered_names(reg) == names_upto(fs, i as int),
            names_distinct_upto(fs, i as int),
            handles@.len() == i,
        decreases families.len() - i,
    {
        let ghost before = registered_names(reg);
        proof {
            assert(fs[i as int] == family_view(families@[i as int]));
        }
        match register_family(&mut reg, &families[i]) {
            Ok(h) => {
                handles.push(h);
                proof {
                    let x = fs[i as int].1;
                    assert(!before.contains(x));
                    assert forall|y: Seq<char>| #[trigger] names_upto(fs, i + 1).contains(y) == before.insert(x).contains(y) by {
                        if names_upto(fs, i + 1).contains(y) {
                            let k = choose|k: int| 0 <= k < i + 1 && (#[trigger] fs[k]).1 == y;
                            if k < i {
                                assert(names_upto(fs, i as int).contains(y));
                            }
                        }
                        if before.contains(y) {
                            let k = choose|k: int| 0 <= k < i && (#[trigger] fs[k]).1 == y;
                            assert(names_upto(fs, i + 1).contains(y));
                        }
                        if y == x {
                            assert(names_upto(fs, i + 1).contains(y));
                        }
                    }
                    assert(names_upto(fs, i + 1) =~= before.insert(x));
                    assert forall|a: int, b: int| 0 <= a < b < i + 1 implies (#[trigger] fs[a]).1 != (#[trigger] fs[b]).1 by {
                        if b == i {
                            assert(names_upto(fs, i as int).contains(fs[a].1));
                        }
                    }
                }
            },
            Err(e) => {
                return Err(e);
            },
        }
        i = i + 1;
    }
    Ok((reg, handles))
}

/// A registry with every family of the collector registered in it, in
/// order, and their handles in the same order; refused with the name of
/// the first family the registry refuses.  When it succeeds the registered
/// names are exactly the families' names, and no two families share a name.
pub fn new_collector_registry() -> (r: Result<(prometheus::Registry, Vec<MetricHandle>), MetricsError>)
    ensures
        r matches Ok((reg, hs)) ==> {
            &&& registered_names(reg) == names_upto(collector_families(), collector_families().len() as int)
            &&& names_distinct_upto(collector_families(), collector_families().len() as int)
            &&& hs@.len() == collector_families().len()
        },
        r matches Err(e) ==> exists|k: int| 0 <= k < collector_families().len() && e.name@ == (#[trigger] collector_families()[k]).1,
{
    let families = collector_family_list();
    let r = register_all(&families);
    proof {
        if r is Err {
            let e = r->Err_0;
            let k = choose|k: int| 0 <= k < families@.len() && e.name@ == (#[trigger] families@[k]).name@;
            assert(family_views(families@)[k] == family_view(families@[k]));
        }
    }
    r
}

/// The position of a collector family's name in the catalog, or -1.
pub open spec fn name_index(n: Seq<char>) -> int {
    if n == "patronus_cpu_usage_percent"@ {
        0
    } else if n == "patronus_memory_used_bytes"@ {
        1
    } else if n == "patronus_memory_total_bytes"@ {
        2
    } else if n == "patronus_disk_used_bytes"@ {
        3
    } else if n == "patronus_disk_total_bytes"@ {
        4
    } else if n == "patronus_system_load"@ {
        5
    } else if n == "patronus_uptime_seconds"@ {
        6
    } else if n == "patronus_cpu_temperature_celsius"@ {
        7
    } else if n == "patronus_interface_rx_bytes_total"@ {
        8
    } else if n == "patronus_interface_tx_bytes_total"@ {
        9
    } else if n == "patronus_interface_rx_packets_total"@ {
        10
    } else if n == "patronus_interface_tx_packets_total"@ {
        11
    } else if n == "patronus_interface_rx_errors_total"@ {
        12
    } else if n == "patronus_interface_tx_errors_total"@ {
        13
    } else if n == "patronus_interface_rx_dropped_total"@ {
        14
    } else if n == "patronus_interface_tx_dropped_total"@ {
        15
    } else if n == "patronus_interface_speed_bps"@ {
        16
    } else if n == "patronus_firewall_packets_total"@ {
        17
    } else if n == "patronus_firewall_bytes_total"@ {
        18
    } else if n == "patronus_firewall_connections_active"@ {
        19
    } else if n == "patronus_firewall_connections_total"@ {
        20
    } else if n == "patronus_firewall_rules_count"@ {
        21
    } else if n == "patronus_firewall_rule_hits_total"@ {
        22
    } else if n == "patronus_firewall_nat_translations_active"@ {
        23
    } else if n == "patronus_vpn_sessions_active"@ {
        24
    } else if n == "patronus_vpn_sessions_total"@ {
        25
    } else if n == "patronus_vpn_bytes_rx_total"@ {
        26
    } else if n == "patronus_vpn_bytes_tx_total"@ {
        27
    } else if n == "patronus_vpn_tunnel_up"@ {
        28
    } else if n == "patronus_dhcp_leases_active"@ {
        29
    } else if n == "patronus_dhcp_leases_total"@ {
        30
    } else if n == "patronus_dhcp_requests_total"@ {
        31
    } else if n == "patronus_dns_queries_total"@ {
        32
    } else if n == "patronus_dns_query_duration_seconds"@ {
        33
    } else if n == "patronus_dns_cache_hits_total"@ {
        34
    } else if n == "patronus_dns_cache_misses_total"@ {
        35
    } else if n == "patronus_dns_blocked_queries_total"@ {
        36
    } else if n == "patronus_ha_state"@ {
        37
    } else if n == "patronus_ha_failovers_total"@ {
        38
    } else if n == "patronus_ha_sync_errors_total"@ {
        39
    } else if n == "patronus_ha_last_sync_timestamp"@ {
        40
    } else if n == "patronus_ids_alerts_total"@ {
        41
    } else if n == "patronus_ids_packets_processed_total"@ {
        42
    } else if n == "patronus_ids_packets_dropped_total"@ {
        43
    } else if n == "patronus_ids_signatures_loaded"@ {
        44
    } else if n == "patronus_qos_bandwidth_used_bps"@ {
        45
    } else if n == "patronus_qos_bandwidth_limit_bps"@ {
        46
    } else if n == "patronus_qos_packets_shaped_total"@ {
        47
    } else if n == "patronus_qos_packets_dropped_total"@ {
        48
    } else if n == "patronus_cert_expiry_days"@ {
        49
    } else if n == "patronus_cert_renewals_total"@ {
        50
    } else if n == "patronus_cert_errors_total"@ {
        51
    } else if n == "patronus_http_requests_total"@ {
        52
    } else if n == "patronus_http_request_duration_seconds"@ {
        53
    } else if n == "patronus_http_requests_in_flight"@ {
        54
    } else if n == "patronus_service_up"@ {
        55
    } else if n == "patronus_service_restarts_total"@ {
        56
    } else {
        -1
    }
}

/// No two of the collector's families share a name.
#[verifier::rlimit(100)]
pub proof fn lemma_family_names_distinct()
    ensures
        names_distinct_upto(collector_families(), collector_families().len() as int),
{
    reveal_strlit("patronus_cpu_usage_percent");
    reveal_strlit("patronus_memory_used_bytes");
    reveal_strlit("patronus_memory_total_bytes");
    reveal_strlit("patronus_disk_used_bytes");
    reveal_strlit("patronus_disk_total_bytes");
    reveal_strlit("patronus_system_load");
    reveal_strlit("patronus_uptime_seconds");
    reveal_strlit("patronus_cpu_temperature_celsius");
    reveal_strlit("patronus_interface_rx_bytes_total");
    reveal_strlit("patronus_interface_tx_bytes_total");
    reveal_strlit("patronus_interface_rx_packets_total");
    reveal_strlit("patronus_interface_tx_packets_total");
    reveal_strlit("patronus_interface_rx_errors_total");
    reveal_strlit("patronus_interface_tx_errors_total");
    reveal_strlit("patronus_interface_rx_dropped_total");
    reveal_strlit("patronus_interface_tx_dropped_total");
    reveal_strlit("patronus_interface_speed_bps");
    reveal_strlit("patronus_firewall_packets_total");
    reveal_strlit("patronus_firewall_bytes_total");
    reveal_strlit("patronus_firewall_connections_active");
    reveal_strlit("patronus_firewall_connections_total");
    reveal_strlit("patronus_firewall_rules_count");
    reveal_strlit("patronus_firewall_rule_hits_total");
    reveal_strlit("patronus_firewall_nat_translations_active");
    reveal_strlit("patronus_vpn_sessions_active");
    reveal_strlit("patronus_vpn_sessions_total");
    reveal_strlit("patronus_vpn_bytes_rx_total");
    reveal_strlit("patronus_vpn_bytes_tx_total");
    reveal_strlit("patronus_vpn_tunnel_up");
    reveal_strlit("patronus_dhcp_leases_active");
    reveal_strlit("patronus_dhcp_leases_total");
    reveal_strlit("patronus_dhcp_requests_total");
    reveal_strlit("patronus_dns_queries_total");
    reveal_strlit("patronus_dns_query_duration_seconds");
    reveal_strlit("patronus_dns_cache_hits_total");
    reveal_strlit("patronus_dns_cache_misses_total");
    reveal_strlit("patronus_dns_blocked_queries_total");
    reveal_strlit("patronus_ha_state");
    reveal_strlit("patronus_ha_failovers_total");
    reveal_strlit("patronus_ha_sync_errors_total");
    reveal_strlit("patronus_ha_last_sync_timestamp");
    reveal_strlit("patronus_ids_alerts_total");
    reveal_strlit("patronus_ids_packets_processed_total");
    reveal_strlit("patronus_ids_packets_dropped_total");
    reveal_strlit("patronus_ids_signatures_loaded");
    reveal_strlit("patronus_qos_bandwidth_used_bps");
    reveal_strlit("patronus_qos_bandwidth_limit_bps");
    reveal_strlit("patronus_qos_packets_shaped_total");
    reveal_strlit("patronus_qos_packets_dropped_total");
    reveal_strlit("patronus_cert_expiry_days");
    reveal_strlit("patronus_cert_renewals_total");
    reveal_strlit("patronus_cert_errors_total");
    reveal_strlit("patronus_http_requests_total");
    reveal_strlit("patronus_http_request_duration_seconds");
    reveal_strlit("patronus_http_requests_in_flight");
    reveal_strlit("patronus_service_up");
    reveal_strlit("patronus_service_restarts_total");
    let fs = collector_families();
    assert(fs.len() == 57);
    assert(fs[0].1 == "patronus_cpu_usage_percent"@);
    assert(name_index(fs[0].1) == 0);
    assert(fs[1].1 == "patronus_memory_used_bytes"@);
    assert("patronus_memory_used_bytes"@[9] != "patronus_cpu_usage_percent"@[9]);
    assert(name_index(fs[1].1) == 1);
    assert(fs[2].1 == "patronus_memory_total_bytes"@);
    assert(name_index(fs[2].1) == 2);
    assert(fs[3].1 == "patronus_disk_used_bytes"@);
    assert(name_index(fs[3].1) == 3);
    assert(fs[4].1 == "patronus_disk_total_bytes"@);
    assert(name_index(fs[4].1) == 4);
    assert(fs[5].1 == "patronus_system_load"@);
    assert(name_index(fs[5].1) == 5);
    assert(fs[6].1 == "patronus_uptime_seconds"@);
    assert(name_index(fs[6].1) == 6);
    assert(fs[7].1 == "patronus_cpu_temperature_celsius"@);
    assert(name_index(fs[7].1) == 7);
    assert(fs[8].1 == "patronus_interface_rx_bytes_total"@);
    assert(name_index(fs[8].1) == 8);
    assert(fs[9].1 == "patronus_interface_tx_bytes_total"@);
    assert("patronus_interface_tx_bytes_total"@[19] != "patronus_interface_rx_bytes_total"@[19]);
    assert(name_index(fs[9].1) == 9);
    assert(fs[10].1 == "patronus_interface_rx_packets_total"@);
    assert(name_index(fs[10].1) == 10);
    assert(fs[11].1 == "patronus_interface_tx_packets_total"@);
    assert("patronus_interface_tx_packets_total"@[19] != "patronus_interface_rx_packets_total"@[19]);
    assert(name_index(fs[11].1) == 11);
    assert(fs[12].1 == "patronus_interface_rx_errors_total"@);
    assert(name_index(fs[12].1) == 12);
    assert(fs[13].1 == "patronus_interface_tx_errors_total"@);
    assert("patronus_interface_tx_errors_total"@[19] != "patronus_interface_rx_errors_total"@[19]);
    assert(name_index(fs[13].1) == 13);
    assert(fs[14].1 == "patronus_interface_rx_dropped_total"@);
    assert("patronus_interface_rx_dropped_total"@[22] != "patronus_interface_rx_packets_total"@[22]);
    assert("patronus_interface_rx_dropped_total"@[19] != "patronus_interface_tx_packets_total"@[19]);
    assert(name_index(fs[14].1) == 14);
    assert(fs[15].1 == "patronus_interface_tx_dropped_total"@);
    assert("patronus_interface_tx_dropped_total"@[19] != "patronus_interface_rx_packets_total"@[19]);
    assert("patronus_interface_tx_dropped_total"@[22] != "patronus_interface_tx_packets_total"@[22]);
    assert("patronus_interface_tx_dropped_total"@[19] != "patronus_interface_rx_dropped_total"@[19]);
    assert(name_index(fs[15].1) == 15);
    assert(fs[16].1 == "patronus_interface_speed_bps"@);
    assert(name_index(fs[16].1) == 16);
    assert(fs[17].1 == "patronus_firewall_packets_total"@);
    assert(name_index(fs[17].1) == 17);
    assert(fs[18].1 == "patronus_firewall_bytes_total"@);
    assert(name_index(fs[18].1) == 18);
    assert(fs[19].1 == "patronus_firewall_connections_active"@);
    assert(name_index(fs[19].1) == 19);
    assert(fs[20].1 == "patronus_firewall_connections_total"@);
    assert("patronus_firewall_connections_total"@[9] != "patronus_interface_rx_packets_total"@[9]);
    assert("patronus_firewall_connections_total"@[9] != "patronus_interface_tx_packets_total"@[9]);
    assert("patronus_firewall_connections_total"@[9] != "patronus_interface_rx_dropped_total"@[9]);
    assert("patronus_firewall_connections_total"@[9] != "patronus_interface_tx_dropped_total"@[9]);
    assert(name_index(fs[20].1) == 20);
    assert(fs[21].1 == "patronus_firewall_rules_count"@);
    assert("patronus_firewall_rules_count"@[18] != "patronus_firewall_bytes_total"@[18]);
    assert(name_index(fs[21].1) == 21);
    assert(fs[22].1 == "patronus_firewall_rule_hits_total"@);
    assert("patronus_firewall_rule_hits_total"@[9] != "patronus_interface_rx_bytes_total"@[9]);
    assert("patronus_firewall_rule_hits_total"@[9] != "patronus_interface_tx_bytes_total"@[9]);
    assert(name_index(fs[22].1) == 22);
    assert(fs[23].1 == "patronus_firewall_nat_translations_active"@);
    assert(name_index(fs[23].1) == 23);
    assert(fs[24].1 == "patronus_vpn_sessions_active"@);
    assert("patronus_vpn_sessions_active"@[9] != "patronus_interface_speed_bps"@[9]);
    assert(name_index(fs[24].1) == 24);
    assert(fs[25].1 == "patronus_vpn_sessions_total"@);
    assert("patronus_vpn_sessions_total"@[9] != "patronus_memory_total_bytes"@[9]);
    assert(name_index(fs[25].1) == 25);
    assert(fs[26].1 == "patronus_vpn_bytes_rx_total"@);
    assert("patronus_vpn_bytes_rx_total"@[9] != "patronus_memory_total_bytes"@[9]);
    assert("patronus_vpn_bytes_rx_total"@[13] != "patronus_vpn_sessions_total"@[13]);
    assert(name_index(fs[26].1) == 26);
    assert(fs[27].1 == "patronus_vpn_bytes_tx_total"@);
    assert("patronus_vpn_bytes_tx_total"@[9] != "patronus_memory_total_bytes"@[9]);
    assert("patronus_vpn_bytes_tx_total"@[13] != "patronus_vpn_sessions_total"@[13]);
    assert("patronus_vpn_bytes_tx_total"@[19] != "patronus_vpn_bytes_rx_total"@[19]);
    assert(name_index(fs[27].1) == 27);
    assert(fs[28].1 == "patronus_vpn_tunnel_up"@);
    assert(name_index(fs[28].1) == 28);
    assert(fs[29].1 == "patronus_dhcp_leases_active"@);
    assert("patronus_dhcp_leases_active"@[9] != "patronus_memory_total_bytes"@[9]);
    assert("patronus_dhcp_leases_active"@[9] != "patronus_vpn_sessions_total"@[9]);
    assert("patronus_dhcp_leases_active"@[9] != "patronus_vpn_bytes_rx_total"@[9]);
    assert("patronus_dhcp_leases_active"@[9] != "patronus_vpn_bytes_tx_total"@[9]);
    assert(name_index(fs[29].1) == 29);
    assert(fs[30].1 == "patronus_dhcp_leases_total"@);
    assert("patronus_dhcp_leases_total"@[9] != "patronus_cpu_usage_percent"@[9]);
    assert("patronus_dhcp_leases_total"@[9] != "patronus_memory_used_bytes"@[9]);
    assert(name_index(fs[30].1) == 30);
    assert(fs[31].1 == "patronus_dhcp_requests_total"@);
    assert("patronus_dhcp_requests_total"@[9] != "patronus_interface_speed_bps"@[9]);
    assert("patronus_dhcp_requests_total"@[9] != "patronus_vpn_sessions_active"@[9]);
    assert(name_index(fs[31].1) == 31);
    assert(fs[32].1 == "patronus_dns_queries_total"@);
    assert("patronus_dns_queries_total"@[9] != "patronus_cpu_usage_percent"@[9]);
    assert("patronus_dns_queries_total"@[9] != "patronus_memory_used_bytes"@[9]);
    assert("patronus_dns_queries_total"@[10] != "patronus_dhcp_leases_total"@[10]);
    assert(name_index(fs[32].1) == 32);
    assert(fs[33].1 == "patronus_dns_query_duration_seconds"@);
    assert("patronus_dns_query_duration_seconds"@[9] != "patronus_interface_rx_packets_total"@[9]);
    assert("patronus_dns_query_duration_seconds"@[9] != "patronus_interface_tx_packets_total"@[9]);
    assert("patronus_dns_query_duration_seconds"@[9] != "patronus_interface_rx_dropped_total"@[9]);
    assert("patronus_dns_query_duration_seconds"@[9] != "patronus_interface_tx_dropped_total"@[9]);
    assert("patronus_dns_query_duration_seconds"@[9] != "patronus_firewall_connections_total"@[9]);
    assert(name_index(fs[33].1) == 33);
    assert(fs[34].1 == "patronus_dns_cache_hits_total"@);
    assert("patronus_dns_cache_hits_total"@[9] != "patronus_firewall_bytes_total"@[9]);
    assert("patronus_dns_cache_hits_total"@[9] != "patronus_firewall_rules_count"@[9]);
    assert(name_index(fs[34].1) == 34);
    assert(fs[35].1 == "patronus_dns_cache_misses_total"@);
    assert("patronus_dns_cache_misses_total"@[9] != "patronus_firewall_packets_total"@[9]);
    assert(name_index(fs[35].1) == 35);
    assert(fs[36].1 == "patronus_dns_blocked_queries_total"@);
    assert("patronus_dns_blocked_queries_total"@[9] != "patronus_interface_rx_errors_total"@[9]);
    assert("patronus_dns_blocked_queries_total"@[9] != "patronus_interface_tx_errors_total"@[9]);
    assert(name_index(fs[36].1) == 36);
    assert(fs[37].1 == "patronus_ha_state"@);
    assert(name_index(fs[37].1) == 37);
    assert(fs[38].1 == "patronus_ha_failovers_total"@);
    assert("patronus_ha_failovers_total"@[9] != "patronus_memory_total_bytes"@[9]);
    assert("patronus_ha_failovers_total"@[9] != "patronus_vpn_sessions_total"@[9]);
    assert("patronus_ha_failovers_total"@[9] != "patronus_vpn_bytes_rx_total"@[9]);
    assert("patronus_ha_failovers_total"@[9] != "patronus_vpn_bytes_tx_total"@[9]);
    assert("patronus_ha_failovers_total"@[9] != "patronus_dhcp_leases_active"@[9]);
    assert(name_index(fs[38].1) == 38);
    assert(fs[39].1 == "patronus_ha_sync_errors_total"@);
    assert("patronus_ha_sync_errors_total"@[9] != "patronus_firewall_bytes_total"@[9]);
    assert("patronus_ha_sync_errors_total"@[9] != "patronus_firewall_rules_count"@[9]);
    assert("patronus_ha_sync_errors_total"@[9] != "patronus_dns_cache_hits_total"@[9]);
    assert(name_index(fs[39].1) == 39);
    assert(fs[40].1 == "patronus_ha_last_sync_timestamp"@);
    assert("patronus_ha_last_sync_timestamp"@[9] != "patronus_firewall_packets_total"@[9]);
    assert("patronus_ha_last_sync_timestamp"@[9] != "patronus_dns_cache_misses_total"@[9]);
    assert(name_index(fs[40].1) == 40);
    assert(fs[41].1 == "patronus_ids_alerts_total"@);
    assert("patronus_ids_alerts_total"@[9] != "patronus_disk_total_bytes"@[9]);
    assert(name_index(fs[41].1) == 41);
    assert(fs[42].1 == "patronus_ids_packets_processed_total"@);
    assert("patronus_ids_packets_processed_total"@[9] != "patronus_firewall_connections_active"@[9]);
    assert(name_index(fs[42].1) == 42);
    assert(fs[43].1 == "patronus_ids_packets_dropped_total"@);
    assert("patronus_ids_packets_dropped_total"@[10] != "patronus_interface_rx_errors_total"@[10]);
    assert("patronus_ids_packets_dropped_total"@[10] != "patronus_interface_tx_errors_total"@[10]);
    assert("patronus_ids_packets_dropped_total"@[9] != "patronus_dns_blocked_queries_total"@[9]);
    assert(name_index(fs[43].1) == 43);
    assert(fs[44].1 == "patronus_ids_signatures_loaded"@);
    assert(name_index(fs[44].1) == 44);
    assert(fs[45].1 == "patronus_qos_bandwidth_used_bps"@);
    assert("patronus_qos_bandwidth_used_bps"@[9] != "patronus_firewall_packets_total"@[9]);
    assert("patronus_qos_bandwidth_used_bps"@[9] != "patronus_dns_cache_misses_total"@[9]);
    assert("patronus_qos_bandwidth_used_bps"@[9] != "patronus_ha_last_sync_timestamp"@[9]);
    assert(name_index(fs[45].1) == 45);
    assert(fs[46].1 == "patronus_qos_bandwidth_limit_bps"@);
    assert("patronus_qos_bandwidth_limit_bps"@[9] != "patronus_cpu_temperature_celsius"@[9]);
    assert(name_index(fs[46].1) == 46);
    assert(fs[47].1 == "patronus_qos_packets_shaped_total"@);
    assert("patronus_qos_packets_shaped_total"@[9] != "patronus_interface_rx_bytes_total"@[9]);
    assert("patronus_qos_packets_shaped_total"@[9] != "patronus_interface_tx_bytes_total"@[9]);
    assert("patronus_qos_packets_shaped_total"@[9] != "patronus_firewall_rule_hits_total"@[9]);
    assert(name_index(fs[47].1) == 47);
    assert(fs[48].1 == "patronus_qos_packets_dropped_total"@);
    assert("patronus_qos_packets_dropped_total"@[9] != "patronus_interface_rx_errors_total"@[9]);
    assert("patronus_qos_packets_dropped_total"@[9] != "patronus_interface_tx_errors_total"@[9]);
    assert("patronus_qos_packets_dropped_total"@[9] != "patronus_dns_blocked_queries_total"@[9]);
    assert("patronus_qos_packets_dropped_total"@[9] != "patronus_ids_packets_dropped_total"@[9]);
    assert(name_index(fs[48].1) == 48);
    assert(fs[49].1 == "patronus_cert_expiry_days"@);
    assert("patronus_cert_expiry_days"@[9] != "patronus_disk_total_bytes"@[9]);
    assert("patronus_cert_expiry_days"@[9] != "patronus_ids_alerts_total"@[9]);
    assert(name_index(fs[49].1) == 49);
    assert(fs[50].1 == "patronus_cert_renewals_total"@);
    assert("patronus_cert_renewals_total"@[9] != "patronus_interface_speed_bps"@[9]);
    assert("patronus_cert_renewals_total"@[9] != "patronus_vpn_sessions_active"@[9]);
    assert("patronus_cert_renewals_total"@[9] != "patronus_dhcp_requests_total"@[9]);
    assert(name_index(fs[50].1) == 50);
    assert(fs[51].1 == "patronus_cert_errors_total"@);
    assert("patronus_cert_errors_total"@[10] != "patronus_cpu_usage_percent"@[10]);
    assert("patronus_cert_errors_total"@[9] != "patronus_memory_used_bytes"@[9]);
    assert("patronus_cert_errors_total"@[9] != "patronus_dhcp_leases_total"@[9]);
    assert("patronus_cert_errors_total"@[9] != "patronus_dns_queries_total"@[9]);
    assert(name_index(fs[51].1) == 51);
    assert(fs[52].1 == "patronus_http_requests_total"@);
    assert("patronus_http_requests_total"@[9] != "patronus_interface_speed_bps"@[9]);
    assert("patronus_http_requests_total"@[9] != "patronus_vpn_sessions_active"@[9]);
    assert("patronus_http_requests_total"@[9] != "patronus_dhcp_requests_total"@[9]);
    assert("patronus_http_requests_total"@[9] != "patronus_cert_renewals_total"@[9]);
    assert(name_index(fs[52].1) == 52);
    assert(fs[53].1 == "patronus_http_request_duration_seconds"@);
    assert(name_index(fs[53].1) == 53);
    assert(fs[54].1 == "patronus_http_requests_in_flight"@);
    assert("patronus_http_requests_in_flight"@[9] != "patronus_cpu_temperature_celsius"@[9]);
    assert("patronus_http_requests_in_flight"@[9] != "patronus_qos_bandwidth_limit_bps"@[9]);
    assert(name_index(fs[54].1) == 54);
    assert(fs[55].1 == "patronus_service_up"@);
    assert(name_index(fs[55].1) == 55);
    assert(fs[56].1 == "patronus_service_restarts_total"@);
    assert("patronus_service_restarts_total"@[9] != "patronus_firewall_packets_total"@[9]);
    assert("patronus_service_restarts_total"@[9] != "patronus_dns_cache_misses_total"@[9]);
    assert("patronus_service_restarts_total"@[9] != "patronus_ha_last_sync_timestamp"@[9]);
    assert("patronus_service_restarts_total"@[9] != "patronus_qos_bandwidth_used_bps"@[9]);
    assert(name_index(fs[56].1) == 56);
    assert forall|a: int, b: int| 0 <= a < b < fs.len() implies (#[trigger] fs[a]).1 != (#[trigger] fs[b]).1 by {
        assert(name_index(fs[a].1) == a && name_index(fs[b].1) == b);
    }
}

} // verus!
