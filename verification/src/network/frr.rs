//! Dynamic routing with FRRouting: the daemons to run, and the text of the
//! BGP, OSPF and RIP configuration files.
use vstd::prelude::*;
use crate::net::{IpAddress, ip_text, push_ip};
use crate::text::{concat_map, decimal, join, lemma_concat_map_full, lemma_concat_map_step, owned, push_decimal};

verus! {

/// A routing protocol daemon of FRR.
#[derive(PartialEq, Eq, Structural, Clone, Copy, Debug)]
pub enum RoutingDaemon {
    /// Border Gateway Protocol.
    BGP,
    /// Open Shortest Path First.
    OSPF,
    /// OSPF for IPv6.
    OSPF6,
    /// Routing Information Protocol.
    RIP,
    /// RIP for IPv6.
    RIPNG,
    /// Intermediate System to Intermediate System.
    ISIS,
    /// Enhanced Interior Gateway Routing Protocol.
    EIGRP,
    /// Protocol Independent Multicast.
    PIM,
    /// Bidirectional Forwarding Detection.
    BFD,
}

impl RoutingDaemon {
    /// The name of the daemon's program.
    pub open spec fn name_spec(self) -> Seq<char> {
        match self {
            RoutingDaemon::BGP => "bgpd"@,
            RoutingDaemon::OSPF => "ospfd"@,
            RoutingDaemon::OSPF6 => "ospf6d"@,
            RoutingDaemon::RIP => "ripd"@,
            RoutingDaemon::RIPNG => "ripngd"@,
            RoutingDaemon::ISIS => "isisd"@,
            RoutingDaemon::EIGRP => "eigrpd"@,
            RoutingDaemon::PIM => "pimd"@,
            RoutingDaemon::BFD => "bfdd"@,
        }
    }

    /// The name of the daemon's program, such as `bgpd`.
    pub fn name(&self) -> (s: &'static str)
        ensures
            s@ == self.name_spec(),
    {
        match self {
            RoutingDaemon::BGP => "bgpd",
            RoutingDaemon::OSPF => "ospfd",
            RoutingDaemon::OSPF6 => "ospf6d",
            RoutingDaemon::RIP => "ripd",
            RoutingDaemon::RIPNG => "ripngd",
            RoutingDaemon::ISIS => "isisd",
            RoutingDaemon::EIGRP => "eigrpd",
            RoutingDaemon::PIM => "pimd",
            RoutingDaemon::BFD => "bfdd",
        }
    }

    /// The name of the daemon's program, as a string.
    pub fn to_string(&self) -> (s: String)
        ensures
            s@ == self.name_spec(),
    {
        owned(self.name())
    }
}

/// BGP: the local autonomous system, its router id, the networks it
/// announces, its neighbors and its route maps.
#[derive(Clone, Debug)]
pub struct BgpConfig {
    pub enabled: bool,
    /// Autonomous system number.
    pub asn: u32,
    pub router_id: IpAddress,
    pub networks: Vec<BgpNetwork>,
    pub neighbors: Vec<BgpNeighbor>,
    pub route_maps: Vec<RouteMap>,
}

/// A prefix announced over BGP, such as `10.0.0.0/8`.
#[derive(Clone, Debug)]
pub struct BgpNetwork {
    pub prefix: String,
    pub route_map: Option<String>,
}

/// A BGP peer.
#[derive(Clone, Debug)]
pub struct BgpNeighbor {
    pub address: IpAddress,
    pub remote_asn: u32,
    pub description: Option<String>,
    pub password: Option<String>,
    pub ebgp_multihop: Option<u8>,
    pub update_source: Option<String>,
    pub route_map_in: Option<String>,
    pub route_map_out: Option<String>,
    pub prefix_list_in: Option<String>,
    pub prefix_list_out: Option<String>,
}

/// OSPF: the router id, the areas, what is redistributed and the passive
/// interfaces.
#[derive(Clone, Debug)]
pub struct OspfConfig {
    pub enabled: bool,
    pub router_id: IpAddress,
    pub areas: Vec<OspfArea>,
    pub redistribute: Vec<RedistributeProtocol>,
    pub passive_interfaces: Vec<String>,
}

/// An OSPF area, such as the backbone `0.0.0.0`, and its networks.
#[derive(Clone, Debug)]
pub struct OspfArea {
    pub area_id: String,
    pub networks: Vec<String>,
    pub area_type: OspfAreaType,
    pub authentication: Option<OspfAuth>,
}

#[derive(PartialEq, Eq, Structural, Clone, Copy, Debug)]
pub enum OspfAreaType {
    Normal,
    Stub,
    TotallyStubby,
    NSSA,
    TotallyNSSA,
}

/// OSPF area authentication.
#[derive(Clone, Debug)]
pub enum OspfAuth {
    Simple { password: String },
    MD5 { key_id: u8, password: String },
}

/// RIP: version, networks, passive interfaces and redistribution.
#[derive(Clone, Debug)]
pub struct RipConfig {
    pub enabled: bool,
    pub version: RipVersion,
    pub networks: Vec<String>,
    pub passive_interfaces: Vec<String>,
    pub redistribute: Vec<RedistributeProtocol>,
}

#[derive(PartialEq, Eq, Structural, Clone, Copy, Debug)]
pub enum RipVersion {
    V1,
    V2,
}

/// A protocol whose routes are redistributed, such as `connected` or
/// `static`.
#[derive(Clone, Debug)]
pub struct RedistributeProtocol {
    pub protocol: String,
    pub route_map: Option<String>,
    pub metric: Option<u32>,
}

/// A route map entry for policy routing.
#[derive(Clone, Debug)]
pub struct RouteMap {
    pub name: String,
    pub action: RouteMapAction,
    pub sequence: u32,
    pub match_rules: Vec<RouteMapMatch>,
    pub set_actions: Vec<RouteMapSet>,
}

#[derive(PartialEq, Eq, Structural, Clone, Copy, Debug)]
pub enum RouteMapAction {
    Permit,
    Deny,
}

#[derive(Clone, Debug)]
pub enum RouteMapMatch {
    IpAddress { prefix_list: String },
    IpNextHop { prefix_list: String },
    AsPath { access_list: String },
    Community { list: String },
    Interface { name: String },
}

#[derive(Clone, Debug)]
pub enum RouteMapSet {
    LocalPreference { value: u32 },
    Metric { value: u32 },
    NextHop { ip: IpAddress },
    AsPathPrepend { asn: u32, count: u8 },
    Community { community: String },
    Weight { value: u32 },
}

/// A named prefix list for filtering.
#[derive(Clone, Debug)]
pub struct PrefixList {
    pub name: String,
    pub entries: Vec<PrefixListEntry>,
}

#[derive(Clone, Debug)]
pub struct PrefixListEntry {
    pub sequence: u32,
    pub action: PrefixListAction,
    pub prefix: String,
    /// Minimum prefix length.
    pub ge: Option<u8>,
    /// Maximum prefix length.
    pub le: Option<u8>,
}

#[derive(PartialEq, Eq, Structural, Clone, Copy, Debug)]
pub enum PrefixListAction {
    Permit,
    Deny,
}

// ---------------------------------------------------------------------------
// The configuration texts.

/// The items of `v`, each between `pre` and `post`.
pub open spec fn wrapped_lines(v: Seq<String>, pre: Seq<char>, post: Seq<char>) -> Seq<char> {
    concat_map(v, |s: String| pre + s@ + post)
}

/// A line for an optional neighbor setting: nothing when it is absent.
pub open spec fn neighbor_opt(indent: Seq<char>, ip: IpAddress, key: Seq<char>, o: Option<String>, tail: Seq<char>) -> Seq<char> {
    match o {
        Some(x) => indent + "neighbor "@ + ip_text(ip) + key + x@ + tail,
        None => Seq::empty(),
    }
}

/// The lines that declare a BGP neighbor.
pub open spec fn neighbor_text(n: BgpNeighbor) -> Seq<char> {
    "  neighbor "@ + ip_text(n.address) + " remote-as "@ + decimal(n.remote_asn as nat) + "\n"@
        + neighbor_opt("  "@, n.address, " description "@, n.description, "\n"@)
        + neighbor_opt("  "@, n.address, " password "@, n.password, "\n"@)
        + match n.ebgp_multihop {
        Some(h) => "  neighbor "@ + ip_text(n.address) + " ebgp-multihop "@ + decimal(h as nat) + "\n"@,
        None => Seq::empty(),
    } + neighbor_opt("  "@, n.address, " update-source "@, n.update_source, "\n"@)
}

/// The lines of a BGP neighbor in the IPv4 unicast address family.
pub open spec fn neighbor_af_text(n: BgpNeighbor) -> Seq<char> {
    "    neighbor "@ + ip_text(n.address) + " activate\n"@
        + neighbor_opt("    "@, n.address, " route-map "@, n.route_map_in, " in\n"@)
        + neighbor_opt("    "@, n.address, " route-map "@, n.route_map_out, " out\n"@)
        + neighbor_opt("    "@, n.address, " prefix-list "@, n.prefix_list_in, " in\n"@)
        + neighbor_opt("    "@, n.address, " prefix-list "@, n.prefix_list_out, " out\n"@)
}

/// The lines of an announced network.
pub open spec fn network_text(n: BgpNetwork) -> Seq<char> {
    "    network "@ + n.prefix@ + "\n"@ + match n.route_map {
        Some(r) => "      route-map "@ + r@ + " out\n"@,
        None => Seq::empty(),
    }
}

/// `permit` or `deny`.
pub open spec fn action_word(a: RouteMapAction) -> Seq<char> {
    match a {
        RouteMapAction::Permit => "permit"@,
        RouteMapAction::Deny => "deny"@,
    }
}

/// The line of a match rule; next-hop and interface matches give none.
pub open spec fn match_text(m: RouteMapMatch) -> Seq<char> {
    match m {
        RouteMapMatch::IpAddress { prefix_list } => "  match ip address prefix-list "@ + prefix_list@ + "\n"@,
        RouteMapMatch::AsPath { access_list } => "  match as-path "@ + access_list@ + "\n"@,
        RouteMapMatch::Community { list } => "  match community "@ + list@ + "\n"@,
        _ => Seq::empty(),
    }
}

/// `asn` written `count` times, separated by spaces.
pub open spec fn prepend_text(asn: u32, count: u8) -> Seq<char> {
    join(Seq::new(count as nat, |_i: int| decimal(asn as nat)), " "@)
}

/// The line of a set action.
pub open spec fn set_text(s: RouteMapSet) -> Seq<char> {
    match s {
        RouteMapSet::LocalPreference { value } => "  set local-preference "@ + decimal(value as nat) + "\n"@,
        RouteMapSet::Metric { value } => "  set metric "@ + decimal(value as nat) + "\n"@,
        RouteMapSet::NextHop { ip } => "  set ip next-hop "@ + ip_text(ip) + "\n"@,
        RouteMapSet::AsPathPrepend { asn, count } => "  set as-path prepend "@ + prepend_text(asn, count) + "\n"@,
        RouteMapSet::Community { community } => "  set community "@ + community@ + "\n"@,
        RouteMapSet::Weight { value } => "  set weight "@ + decimal(value as nat) + "\n"@,
    }
}

/// The lines of a route map.
pub open spec fn route_map_text(r: RouteMap) -> Seq<char> {
    "route-map "@ + r.name@ + " "@ + action_word(r.action) + " "@ + decimal(r.sequence as nat) + "\n"@
        + concat_map(r.match_rules@, |m: RouteMapMatch| match_text(m))
        + concat_map(r.set_actions@, |s: RouteMapSet| set_text(s)) + "!\n"@
}

/// The text of `bgpd.conf`.
pub open spec fn bgp_config_text(c: BgpConfig) -> Seq<char> {
    "! BGP Configuration - Managed by Patronus\n!\n"@ + "hostname patronus-bgp\n"@ + "log syslog informational\n"@
        + "!\n"@ + "router bgp "@ + decimal(c.asn as nat) + "\n"@ + "  bgp router-id "@ + ip_text(c.router_id)
        + "\n"@ + "  bgp log-neighbor-changes\n"@ + "  no bgp default ipv4-unicast\n"@ + "!\n"@
        + concat_map(c.neighbors@, |n: BgpNeighbor| neighbor_text(n)) + "!\n"@ + "  address-family ipv4 unicast\n"@
        + concat_map(c.networks@, |n: BgpNetwork| network_text(n))
        + concat_map(c.neighbors@, |n: BgpNeighbor| neighbor_af_text(n)) + "  exit-address-family\n"@ + "!\n"@
        + concat_map(c.route_maps@, |r: RouteMap| route_map_text(r)) + "line vty\n!\n"@
}

/// The line that gives an OSPF area its type; none for a normal area.
pub open spec fn area_type_text(a: OspfArea) -> Seq<char> {
    match a.area_type {
        OspfAreaType::Stub => "  area "@ + a.area_id@ + " stub\n"@,
        OspfAreaType::TotallyStubby => "  area "@ + a.area_id@ + " stub no-summary\n"@,
        OspfAreaType::NSSA => "  area "@ + a.area_id@ + " nssa\n"@,
        OspfAreaType::TotallyNSSA => "  area "@ + a.area_id@ + " nssa no-summary\n"@,
        OspfAreaType::Normal => Seq::empty(),
    }
}

/// The line that turns on an OSPF area's authentication; none without it.
pub open spec fn area_auth_text(a: OspfArea) -> Seq<char> {
    match a.authentication {
        Some(OspfAuth::Simple { .. }) => "  area "@ + a.area_id@ + " authentication\n"@,
        Some(OspfAuth::MD5 { .. }) => "  area "@ + a.area_id@ + " authentication message-digest\n"@,
        None => Seq::empty(),
    }
}

/// The lines of an OSPF area: its networks, its type, its authentication.
pub open spec fn area_text(a: OspfArea) -> Seq<char> {
    wrapped_lines(a.networks@, "  network "@, " area "@ + a.area_id@ + "\n"@) + area_type_text(a) + area_auth_text(a)
}

/// An OSPF redistribution line, with its metric and route map if any.
pub open spec fn ospf_redistribute_text(r: RedistributeProtocol) -> Seq<char> {
    "  redistribute "@ + r.protocol@ + match r.metric {
        Some(m) => " metric "@ + decimal(m as nat),
        None => Seq::empty(),
    } + match r.route_map {
        Some(x) => " route-map "@ + x@,
        None => Seq::empty(),
    } + "\n"@
}

/// The text of `ospfd.conf`.
pub open spec fn ospf_config_text(c: OspfConfig) -> Seq<char> {
    "! OSPF Configuration - Managed by Patronus\n!\n"@ + "hostname patronus-ospf\n"@ + "log syslog informational\n"@
        + "!\n"@ + "router ospf\n"@ + "  ospf router-id "@ + ip_text(c.router_id) + "\n"@ + "  log-adjacency-changes\n"@
        + "!\n"@ + concat_map(c.areas@, |a: OspfArea| area_text(a))
        + wrapped_lines(c.passive_interfaces@, "  passive-interface "@, "\n"@)
        + concat_map(c.redistribute@, |r: RedistributeProtocol| ospf_redistribute_text(r)) + "!\n"@ + "line vty\n!\n"@
}

/// `1` or `2`.
pub open spec fn rip_version_text(v: RipVersion) -> Seq<char> {
    match v {
        RipVersion::V1 => "1"@,
        RipVersion::V2 => "2"@,
    }
}

/// The text of `ripd.conf`.
pub open spec fn rip_config_text(c: RipConfig) -> Seq<char> {
    "! RIP Configuration - Managed by Patronus\n!\n"@ + "hostname patronus-rip\n"@ + "log syslog informational\n"@
        + "!\n"@ + "router rip\n"@ + "  version "@ + rip_version_text(c.version) + "\n"@
        + wrapped_lines(c.networks@, "  network "@, "\n"@)
        + wrapped_lines(c.passive_interfaces@, "  passive-interface "@, "\n"@)
        + concat_map(c.redistribute@, |r: RedistributeProtocol| "  redistribute "@ + r.protocol@ + "\n"@) + "!\n"@
        + "line vty\n!\n"@
}

/// The text of FRR's `daemons` file.
pub open spec fn daemons_text(daemons: Seq<RoutingDaemon>) -> Seq<char> {
    "# FRR Daemons - Managed by Patronus\n\n"@ + "# Always enabled\n"@ + "zebra=yes\n"@ + "staticd=yes\n\n"@
        + concat_map(daemons, |d: RoutingDaemon| d.name_spec() + "=yes\n"@) + "\n# Global options\n"@
        + "vtysh_enable=yes\n"@ + "zebra_options=\"--retain -A 127.0.0.1 -s 90000000\"\n"@
}

// ---------------------------------------------------------------------------
// Writing the texts.

/// Appends each string of `v` between `pre` and `post`.
pub fn push_wrapped_lines(conf: &mut String, v: &Vec<String>, pre: &str, post: &str)
    ensures
        final(conf)@ == old(conf)@ + wrapped_lines(v@, pre@, post@),
{
    let ghost base = conf@;
    let ghost f = |s: String| pre@ + s@ + post@;
    let mut i: usize = 0;
    while i < v.len()
        invariant
            0 <= i <= v.len(),
            f == (|s: String| pre@ + s@ + post@),
            conf@ == base + concat_map(v@.subrange(0, i as int), f),
        decreases v.len() - i,
    {
        conf.append(pre);
        conf.append(v[i].as_str());
        conf.append(post);
        proof {
            lemma_concat_map_step(v@, f, i as int);
            assert(conf@ =~= base + concat_map(v@.subrange(0, i + 1), f));
        }
        i = i + 1;
    }
    proof {
        lemma_concat_map_full(v@, f);
    }
}

fn push_neighbor_opt(conf: &mut String, indent: &str, ip: IpAddress, key: &str, o: &Option<String>, tail: &str)
    ensures
        final(conf)@ == old(conf)@ + neighbor_opt(indent@, ip, key@, *o, tail@),
{
    match o {
        Some(x) => {
            conf.append(indent);
            conf.append("neighbor ");
            push_ip(conf, ip);
            conf.append(key);
            conf.append(x.as_str());
            conf.append(tail);
            proof {
                assert(final(conf)@ =~= old(conf)@ + neighbor_opt(indent@, ip, key@, *o, tail@));
            }
        },
        None => {
            proof {
                assert(conf@ =~= old(conf)@ + neighbor_opt(indent@, ip, key@, *o, tail@));
            }
        },
    }
}

fn push_neighbor(conf: &mut String, n: &BgpNeighbor)
    ensures
        final(conf)@ == old(conf)@ + neighbor_text(*n),
{
    let ghost base = conf@;
    conf.append("  neighbor ");
    push_ip(conf, n.address);
    conf.append(" remote-as ");
    push_decimal(conf, n.remote_asn as u64);
    conf.append("\n");
    push_neighbor_opt(conf, "  ", n.address, " description ", &n.description, "\n");
    push_neighbor_opt(conf, "  ", n.address, " password ", &n.password, "\n");
    let ghost mid = conf@;
    match n.ebgp_multihop {
        Some(h) => {
            conf.append("  neighbor ");
            push_ip(conf, n.address);
            conf.append(" ebgp-multihop ");
            push_decimal(conf, h as u64);
            conf.append("\n");
        },
        None => {},
    }
    let ghost hop = match n.ebgp_multihop {
        Some(h) => "  neighbor "@ + ip_text(n.address) + " ebgp-multihop "@ + decimal(h as nat) + "\n"@,
        None => Seq::<char>::empty(),
    };
    assert(conf@ =~= mid + hop);
    push_neighbor_opt(conf, "  ", n.address, " update-source ", &n.update_source, "\n");
    proof {
        assert(conf@ =~= base + neighbor_text(*n));
    }
}

fn push_neighbor_af(conf: &mut String, n: &BgpNeighbor)
    ensures
        final(conf)@ == old(conf)@ + neighbor_af_text(*n),
{
    let ghost base = conf@;
    conf.append("    neighbor ");
    push_ip(conf, n.address);
    conf.append(" activate\n");
    push_neighbor_opt(conf, "    ", n.address, " route-map ", &n.route_map_in, " in\n");
    push_neighbor_opt(conf, "    ", n.address, " route-map ", &n.route_map_out, " out\n");
    push_neighbor_opt(conf, "    ", n.address, " prefix-list ", &n.prefix_list_in, " in\n");
    push_neighbor_opt(conf, "    ", n.address, " prefix-list ", &n.prefix_list_out, " out\n");
    proof {
        assert(conf@ =~= base + neighbor_af_text(*n));
    }
}

fn push_network(conf: &mut String, n: &BgpNetwork)
    ensures
        final(conf)@ == old(conf)@ + network_text(*n),
{
    let ghost base = conf@;
    conf.append("    network ");
    conf.append(n.prefix.as_str());
    conf.append("\n");
    match &n.route_map {
        Some(r) => {
            conf.append("      route-map ");
            conf.append(r.as_str());
            conf.append(" out\n");
        },
        None => {},
    }
    proof {
        assert(conf@ =~= base + network_text(*n));
    }
}

fn push_match(conf: &mut String, m: &RouteMapMatch)
    ensures
        final(conf)@ == old(conf)@ + match_text(*m),
{
    let ghost base = conf@;
    match m {
        RouteMapMatch::IpAddress { prefix_list } => {
            conf.append("  match ip address prefix-list ");
            conf.append(prefix_list.as_str());
            conf.append("\n");
        },
        RouteMapMatch::AsPath { access_list } => {
            conf.append("  match as-path ");
            conf.append(access_list.as_str());
            conf.append("\n");
        },
        RouteMapMatch::Community { list } => {
            conf.append("  match community ");
            conf.append(list.as_str());
            conf.append("\n");
        },
        _ => {},
    }
    proof {
        assert(conf@ =~= base + match_text(*m));
    }
}

fn push_prepend(conf: &mut String, asn: u32, count: u8)
    ensures
        final(conf)@ == old(conf)@ + prepend_text(asn, count),
{
    let ghost base = conf@;
    let ghost f = |_i: int| decimal(asn as nat);
    let mut k: u8 = 0;
    while k < count
        invariant
            0 <= k <= count,
            f == (|_i: int| decimal(asn as nat)),
            conf@ == base + join(Seq::new(k as nat, f), " "@),
        decreases count - k,
    {
        let ghost pre = Seq::new(k as nat, f);
        let ghost post = Seq::new((k + 1) as nat, f);
        proof {
            assert(post.drop_last() =~= pre);
        }
        if k > 0 {
            conf.append(" ");
        }
        push_decimal(conf, asn as u64);
        proof {
            assert(conf@ =~= base + join(post, " "@));
        }
        k = k + 1;
    }
}

fn push_set(conf: &mut String, s: &RouteMapSet)
    ensures
        final(conf)@ == old(conf)@ + set_text(*s),
{
    let ghost base = conf@;
    match s {
        RouteMapSet::LocalPreference { value } => {
            conf.append("  set local-preference ");
            push_decimal(conf, *value as u64);
        },
        RouteMapSet::Metric { value } => {
            conf.append("  set metric ");
            push_decimal(conf, *value as u64);
        },
        RouteMapSet::NextHop { ip } => {
            conf.append("  set ip next-hop ");
            push_ip(conf, *ip);
        },
        RouteMapSet::AsPathPrepend { asn, count } => {
            conf.append("  set as-path prepend ");
            push_prepend(conf, *asn, *count);
        },
        RouteMapSet::Community { community } => {
            conf.append("  set community ");
            conf.append(community.as_str());
        },
        RouteMapSet::Weight { value } => {
            conf.append("  set weight ");
            push_decimal(conf, *value as u64);
        },
    }
    conf.append("\n");
    proof {
        assert(conf@ =~= base + set_text(*s));
    }
}

fn push_route_map(conf: &mut String, r: &RouteMap)
    ensures
        final(conf)@ == old(conf)@ + route_map_text(*r),
{
    let ghost base = conf@;
    conf.append("route-map ");
    conf.append(r.name.as_str());
    conf.append(" ");
    match r.action {
        RouteMapAction::Permit => conf.append("permit"),
        RouteMapAction::Deny => conf.append("deny"),
    }
    conf.append(" ");
    push_decimal(conf, r.sequence as u64);
    conf.append("\n");
    let ghost head = conf@;
    let ghost fm = |m: RouteMapMatch| match_text(m);
    let mut i: usize = 0;
    while i < r.match_rules.len()
        invariant
            0 <= i <= r.match_rules.len(),
            fm == (|m: RouteMapMatch| match_text(m)),
            conf@ == head + concat_map(r.match_rules@.subrange(0, i as int), fm),
        decreases r.match_rules.len() - i,
    {
        push_match(conf, &r.match_rules[i]);
        proof {
            lemma_concat_map_step(r.match_rules@, fm, i as int);
            assert(conf@ =~= head + concat_map(r.match_rules@.subrange(0, i + 1), fm));
        }
        i = i + 1;
    }
    proof {
        lemma_concat_map_full(r.match_rules@, fm);
    }
    let ghost mid = conf@;
    let ghost fs = |s: RouteMapSet| set_text(s);
    let mut j: usize = 0;
    while j < r.set_actions.len()
        invariant
            0 <= j <= r.set_actions.len(),
            fs == (|s: RouteMapSet| set_text(s)),
            conf@ == mid + concat_map(r.set_actions@.subrange(0, j as int), fs),
        decreases r.set_actions.len() - j,
    {
        push_set(conf, &r.set_actions[j]);
        proof {
            lemma_concat_map_step(r.set_actions@, fs, j as int);
            assert(conf@ =~= mid + concat_map(r.set_actions@.subrange(0, j + 1), fs));
        }
        j = j + 1;
    }
    proof {
        lemma_concat_map_full(r.set_actions@, fs);
    }
    conf.append("!\n");
    proof {
        assert(conf@ =~= base + route_map_text(*r));
    }
}

fn push_neighbors(conf: &mut String, v: &Vec<BgpNeighbor>)
    ensures
        final(conf)@ == old(conf)@ + concat_map(v@, |n: BgpNeighbor| neighbor_text(n)),
{
    let ghost base = conf@;
    let ghost f = |n: BgpNeighbor| neighbor_text(n);
    let mut i: usize = 0;
    while i < v.len()
        invariant
            0 <= i <= v.len(),
            f == (|n: BgpNeighbor| neighbor_text(n)),
            conf@ == base + concat_map(v@.subrange(0, i as int), f),
        decreases v.len() - i,
    {
        push_neighbor(conf, &v[i]);
        proof {
            lemma_concat_map_step(v@, f, i as int);
            assert(conf@ =~= base + concat_map(v@.subrange(0, i + 1), f));
        }
        i = i + 1;
    }
    proof {
        lemma_concat_map_full(v@, f);
    }
}

fn push_neighbors_af(conf: &mut String, v: &Vec<BgpNeighbor>)
    ensures
        final(conf)@ == old(conf)@ + concat_map(v@, |n: BgpNeighbor| neighbor_af_text(n)),
{
    let ghost base = conf@;
    let ghost f = |n: BgpNeighbor| neighbor_af_text(n);
    let mut i: usize = 0;
    while i < v.len()
        invariant
            0 <= i <= v.len(),
            f == (|n: BgpNeighbor| neighbor_af_text(n)),
            conf@ == base + concat_map(v@.subrange(0, i as int), f),
        decreases v.len() - i,
    {
        push_neighbor_af(conf, &v[i]);
        proof {
            lemma_concat_map_step(v@, f, i as int);
            assert(conf@ =~= base + concat_map(v@.subrange(0, i + 1), f));
        }
        i = i + 1;
    }
    proof {
        lemma_concat_map_full(v@, f);
    }
}

fn push_networks(conf: &mut String, v: &Vec<BgpNetwork>)
    ensures
        final(conf)@ == old(conf)@ + concat_map(v@, |n: BgpNetwork| network_text(n)),
{
    let ghost base = conf@;
    let ghost f = |n: BgpNetwork| network_text(n);
    let mut i: usize = 0;
    while i < v.len()
        invariant
            0 <= i <= v.len(),
            f == (|n: BgpNetwork| network_text(n)),
            conf@ == base + concat_map(v@.subrange(0, i as int), f),
        decreases v.len() - i,
    {
        push_network(conf, &v[i]);
        proof {
            lemma_concat_map_step(v@, f, i as int);
            assert(conf@ =~= base + concat_map(v@.subrange(0, i + 1), f));
        }
        i = i + 1;
    }
    proof {
        lemma_concat_map_full(v@, f);
    }
}

fn push_route_maps(conf: &mut String, v: &Vec<RouteMap>)
    ensures
        final(conf)@ == old(conf)@ + concat_map(v@, |r: RouteMap| route_map_text(r)),
{
    let ghost base = conf@;
    let ghost f = |r: RouteMap| route_map_text(r);
    let mut i: usize = 0;
    while i < v.len()
        invariant
            0 <= i <= v.len(),
            f == (|r: RouteMap| route_map_text(r)),
            conf@ == base + concat_map(v@.subrange(0, i as int), f),
        decreases v.len() - i,
    {
        push_route_map(conf, &v[i]);
        proof {
            lemma_concat_map_step(v@, f, i as int);
            assert(conf@ =~= base + concat_map(v@.subrange(0, i + 1), f));
        }
        i = i + 1;
    }
    proof {
        lemma_concat_map_full(v@, f);
    }
}

fn push_area(conf: &mut String, area: &OspfArea)
    ensures
        final(conf)@ == old(conf)@ + area_text(*area),
{
    let ghost before = conf@;
    let mut post = String::new();
    post.append(" area ");
    post.append(area.area_id.as_str());
    post.append("\n");
    push_wrapped_lines(conf, &area.networks, "  network ", post.as_str());
    let ghost mid = conf@;
    match area.area_type {
        OspfAreaType::Stub => {
            conf.append("  area ");
            conf.append(area.area_id.as_str());
            conf.append(" stub\n");
        },
        OspfAreaType::TotallyStubby => {
            conf.append("  area ");
            conf.append(area.area_id.as_str());
            conf.append(" stub no-summary\n");
        },
        OspfAreaType::NSSA => {
            conf.append("  area ");
            conf.append(area.area_id.as_str());
            conf.append(" nssa\n");
        },
        OspfAreaType::TotallyNSSA => {
            conf.append("  area ");
            conf.append(area.area_id.as_str());
            conf.append(" nssa no-summary\n");
        },
        OspfAreaType::Normal => {},
    }
    assert(conf@ =~= mid + area_type_text(*area));
    let ghost mid2 = conf@;
    match &area.authentication {
        Some(OspfAuth::Simple { .. }) => {
            conf.append("  area ");
            conf.append(area.area_id.as_str());
            conf.append(" authentication\n");
        },
        Some(OspfAuth::MD5 { .. }) => {
            conf.append("  area ");
            conf.append(area.area_id.as_str());
            conf.append(" authentication message-digest\n");
        },
        None => {},
    }
    assert(conf@ =~= mid2 + area_auth_text(*area));
    proof {
        assert(post@ =~= " area "@ + area.area_id@ + "\n"@);
        assert(conf@ =~= before + area_text(*area));
    }
}

fn push_areas(conf: &mut String, v: &Vec<OspfArea>)
    ensures
        final(conf)@ == old(conf)@ + concat_map(v@, |a: OspfArea| area_text(a)),
{
    let ghost base = conf@;
    let ghost f = |a: OspfArea| area_text(a);
    let mut i: usize = 0;
    while i < v.len()
        invariant
            0 <= i <= v.len(),
            f == (|a: OspfArea| area_text(a)),
            conf@ == base + concat_map(v@.subrange(0, i as int), f),
        decreases v.len() - i,
    {
        push_area(conf, &v[i]);
        proof {
            lemma_concat_map_step(v@, f, i as int);
            assert(conf@ =~= base + concat_map(v@.subrange(0, i + 1), f));
        }
        i = i + 1;
    }
    proof {
        lemma_concat_map_full(v@, f);
    }
}

fn push_ospf_redistribute(conf: &mut String, v: &Vec<RedistributeProtocol>)
    ensures
        final(conf)@ == old(conf)@ + concat_map(v@, |r: RedistributeProtocol| ospf_redistribute_text(r)),
{
    let ghost base = conf@;
    let ghost f = |r: RedistributeProtocol| ospf_redistribute_text(r);
    let mut i: usize = 0;
    while i < v.len()
        invariant
            0 <= i <= v.len(),
            f == (|r: RedistributeProtocol| ospf_redistribute_text(r)),
            conf@ == base + concat_map(v@.subrange(0, i as int), f),
        decreases v.len() - i,
    {
        let r = &v[i];
        let ghost before = conf@;
        conf.append("  redistribute ");
        conf.append(r.protocol.as_str());
        match r.metric {
            Some(m) => {
                conf.append(" metric ");
                push_decimal(conf, m as u64);
            },
            None => {},
        }
        match &r.route_map {
            Some(x) => {
                conf.append(" route-map ");
                conf.append(x.as_str());
            },
            None => {},
        }
        conf.append("\n");
        proof {
            assert(conf@ =~= before + ospf_redistribute_text(*r));
            lemma_concat_map_step(v@, f, i as int);
            assert(conf@ =~= base + concat_map(v@.subrange(0, i + 1), f));
        }
        i = i + 1;
    }
    proof {
        lemma_concat_map_full(v@, f);
    }
}

fn push_rip_redistribute(conf: &mut String, v: &Vec<RedistributeProtocol>)
    ensures
        final(conf)@ == old(conf)@ + concat_map(v@, |r: RedistributeProtocol| "  redistribute "@ + r.protocol@ + "\n"@),
{
    let ghost base = conf@;
    let ghost f = |r: RedistributeProtocol| "  redistribute "@ + r.protocol@ + "\n"@;
    let mut i: usize = 0;
    while i < v.len()
        invariant
            0 <= i <= v.len(),
            f == (|r: RedistributeProtocol| "  redistribute "@ + r.protocol@ + "\n"@),
            conf@ == base + concat_map(v@.subrange(0, i as int), f),
        decreases v.len() - i,
    {
        conf.append("  redistribute ");
        conf.append(v[i].protocol.as_str());
        conf.append("\n");
        proof {
            lemma_concat_map_step(v@, f, i as int);
            assert(conf@ =~= base + concat_map(v@.subrange(0, i + 1), f));
        }
        i = i + 1;
    }
    proof {
        lemma_concat_map_full(v@, f);
    }
}

/// The text of `bgpd.conf` for a BGP configuration.
pub fn generate_bgp_config(config: &BgpConfig) -> (conf: String)
    ensures
        conf@ == bgp_config_text(*config),
{
    let mut conf = String::new();
    conf.append("! BGP Configuration - Managed by Patronus\n!\n");
    conf.append("hostname patronus-bgp\n");
    conf.append("log syslog informational\n");
    conf.append("!\n");
    conf.append("router bgp ");
    push_decimal(&mut conf, config.asn as u64);
    conf.append("\n");
    conf.append("  bgp router-id ");
    push_ip(&mut conf, config.router_id);
    conf.append("\n");
    conf.append("  bgp log-neighbor-changes\n");
    conf.append("  no bgp default ipv4-unicast\n");
    conf.append("!\n");
    push_neighbors(&mut conf, &config.neighbors);
    conf.append("!\n");
    conf.append("  address-family ipv4 unicast\n");
    push_networks(&mut conf, &config.networks);
    push_neighbors_af(&mut conf, &config.neighbors);
    conf.append("  exit-address-family\n");
    conf.append("!\n");
    push_route_maps(&mut conf, &config.route_maps);
    conf.append("line vty\n!\n");
    proof {
        assert(conf@ =~= bgp_config_text(*config));
    }
    conf
}

/// The text of `ospfd.conf` for an OSPF configuration.
pub fn generate_ospf_config(config: &OspfConfig) -> (conf: String)
    ensures
        conf@ == ospf_config_text(*config),
{
    let mut conf = String::new();
    conf.append("! OSPF Configuration - Managed by Patronus\n!\n");
    conf.append("hostname patronus-ospf\n");
    conf.append("log syslog informational\n");
    conf.append("!\n");
    conf.append("router ospf\n");
    conf.append("  ospf router-id ");
    push_ip(&mut conf, config.router_id);
    conf.append("\n");
    conf.append("  log-adjacency-changes\n");
    conf.append("!\n");
    push_areas(&mut conf, &config.areas);
    push_wrapped_lines(&mut conf, &config.passive_interfaces, "  passive-interface ", "\n");
    push_ospf_redistribute(&mut conf, &config.redistribute);
    conf.append("!\n");
    conf.append("line vty\n!\n");
    proof {
        assert(conf@ =~= ospf_config_text(*config));
    }
    conf
}

/// The text of `ripd.conf` for a RIP configuration.
pub fn generate_rip_config(config: &RipConfig) -> (conf: String)
    ensures
        conf@ == rip_config_text(*config),
{
    let mut conf = String::new();
    conf.append("! RIP Configuration - Managed by Patronus\n!\n");
    conf.append("hostname patronus-rip\n");
    conf.append("log syslog informational\n");
    conf.append("!\n");
    conf.append("router rip\n");
    conf.append("  version ");
    match config.version {
        RipVersion::V1 => conf.append("1"),
        RipVersion::V2 => conf.append("2"),
    }
    conf.append("\n");
    push_wrapped_lines(&mut conf, &config.networks, "  network ", "\n");
    push_wrapped_lines(&mut conf, &config.passive_interfaces, "  passive-interface ", "\n");
    push_rip_redistribute(&mut conf, &config.redistribute);
    conf.append("!\n");
    conf.append("line vty\n!\n");
    proof {
        assert(conf@ =~= rip_config_text(*config));
    }
    conf
}

/// No daemon occurs twice.
pub open spec fn daemons_distinct(d: Seq<RoutingDaemon>) -> bool {
    forall|i: int, j: int| 0 <= i < j < d.len() ==> d[i] != d[j]
}

/// What a configuration step leaves to write: the file's name under the
/// configuration directory, and its text.
#[derive(Debug)]
pub struct ConfigFile {
    pub file_name: String,
    pub contents: String,
}

/// The FRR daemons to run, in the order they were enabled, and the
/// directory of FRR's configuration files.
pub struct FrrManager {
    config_dir: String,
    daemons: Vec<RoutingDaemon>,
}

impl FrrManager {
    pub closed spec fn daemons_view(&self) -> Seq<RoutingDaemon> {
        self.daemons@
    }

    pub closed spec fn config_dir_view(&self) -> Seq<char> {
        self.config_dir@
    }

    /// No daemon enabled, configuration under `/etc/frr`.
    pub fn new() -> (m: FrrManager)
        ensures
            m.daemons_view() == Seq::<RoutingDaemon>::empty(),
            m.config_dir_view() == "/etc/frr"@,
    {
        FrrManager { config_dir: owned("/etc/frr"), daemons: Vec::new() }
    }

    /// The directory of FRR's configuration files.
    pub fn config_dir(&self) -> (d: String)
        ensures
            d@ == self.config_dir_view(),
    {
        self.config_dir.clone()
    }

    /// The enabled daemons, in the order they were enabled.
    pub fn daemons(&self) -> (d: Vec<RoutingDaemon>)
        ensures
            d@ == self.daemons_view(),
    {
        self.daemons.clone()
    }

    /// Enables a daemon: appended unless it is already enabled.
    pub fn enable_daemon(&mut self, daemon: RoutingDaemon)
        ensures
            old(self).daemons_view().contains(daemon) ==> final(self).daemons_view() == old(self).daemons_view(),
            !old(self).daemons_view().contains(daemon) ==> final(self).daemons_view() == old(self).daemons_view().push(daemon),
            final(self).config_dir_view() == old(self).config_dir_view(),
    {
        let mut i: usize = 0;
        while i < self.daemons.len()
            invariant
                0 <= i <= self.daemons.len(),
                forall|k: int| 0 <= k < i ==> self.daemons@[k] != daemon,
            decreases self.daemons.len() - i,
        {
            if self.daemons[i] == daemon {
                return;
            }
            i = i + 1;
        }
        self.daemons.push(daemon);
    }

    /// The text of FRR's `daemons` file: zebra and staticd always, then
    /// each enabled daemon.
    pub fn daemons_config(&self) -> (conf: String)
        ensures
            conf@ == daemons_text(self.daemons_view()),
    {
        let mut conf = String::new();
        conf.append("# FRR Daemons - Managed by Patronus\n\n");
        conf.append("# Always enabled\n");
        conf.append("zebra=yes\n");
        conf.append("staticd=yes\n\n");
        let ghost base = conf@;
        let ghost f = |d: RoutingDaemon| d.name_spec() + "=yes\n"@;
        let mut i: usize = 0;
        while i < self.daemons.len()
            invariant
                0 <= i <= self.daemons.len(),
                f == (|d: RoutingDaemon| d.name_spec() + "=yes\n"@),
                conf@ == base + concat_map(self.daemons@.subrange(0, i as int), f),
            decreases self.daemons.len() - i,
        {
            conf.append(self.daemons[i].name());
            conf.append("=yes\n");
            proof {
                lemma_concat_map_step(self.daemons@, f, i as int);
                assert(conf@ =~= base + concat_map(self.daemons@.subrange(0, i + 1), f));
            }
            i = i + 1;
        }
        proof {
            lemma_concat_map_full(self.daemons@, f);
        }
        conf.append("\n# Global options\n");
        conf.append("vtysh_enable=yes\n");
        conf.append("zebra_options=\"--retain -A 127.0.0.1 -s 90000000\"\n");
        proof {
            assert(conf@ =~= daemons_text(self.daemons_view()));
        }
        conf
    }

    /// The configuration step for BGP: nothing when BGP is disabled; else
    /// BGP is enabled and `bgpd.conf` is to hold the BGP text.
    pub fn configure_bgp(&mut self, config: &BgpConfig) -> (f: Option<ConfigFile>)
        ensures
            !config.enabled ==> f is None && final(self).daemons_view() == old(self).daemons_view(),
            config.enabled ==> (f matches Some(file) && file.file_name@ == "bgpd.conf"@ && file.contents@ == bgp_config_text(*config)),
            config.enabled && old(self).daemons_view().contains(RoutingDaemon::BGP) ==> final(self).daemons_view()
                == old(self).daemons_view(),
            config.enabled && !old(self).daemons_view().contains(RoutingDaemon::BGP) ==> final(self).daemons_view() == old(self).daemons_view().push(RoutingDaemon::BGP),
            final(self).config_dir_view() == old(self).config_dir_view(),
    {
        if !config.enabled {
            return None;
        }
        self.enable_daemon(RoutingDaemon::BGP);
        Some(ConfigFile { file_name: owned("bgpd.conf"), contents: generate_bgp_config(config) })
    }

    /// The configuration step for OSPF: nothing when OSPF is disabled; else
    /// OSPF is enabled and `ospfd.conf` is to hold the OSPF text.
    pub fn configure_ospf(&mut self, config: &OspfConfig) -> (f: Option<ConfigFile>)
        ensures
            !config.enabled ==> f is None && final(self).daemons_view() == old(self).daemons_view(),
            config.enabled ==> (f matches Some(file) && file.file_name@ == "ospfd.conf"@ && file.contents@ == ospf_config_text(*config)),
            config.enabled && old(self).daemons_view().contains(RoutingDaemon::OSPF) ==> final(self).daemons_view()
                == old(self).daemons_view(),
            config.enabled && !old(self).daemons_view().contains(RoutingDaemon::OSPF) ==> final(self).daemons_view() == old(self).daemons_view().push(RoutingDaemon::OSPF),
            final(self).config_dir_view() == old(self).config_dir_view(),
    {
        if !config.enabled {
            return None;
        }
        self.enable_daemon(RoutingDaemon::OSPF);
        Some(ConfigFile { file_name: owned("ospfd.conf"), contents: generate_ospf_config(config) })
    }

    /// The configuration step for RIP: nothing when RIP is disabled; else
    /// RIP is enabled and `ripd.conf` is to hold the RIP text.
    pub fn configure_rip(&mut self, config: &RipConfig) -> (f: Option<ConfigFile>)
        ensures
            !config.enabled ==> f is None && final(self).daemons_view() == old(self).daemons_view(),
            config.enabled ==> (f matches Some(file) && file.file_name@ == "ripd.conf"@ && file.contents@ == rip_config_text(*config)),
            config.enabled && old(self).daemons_view().contains(RoutingDaemon::RIP) ==> final(self).daemons_view()
                == old(self).daemons_view(),
            config.enabled && !old(self).daemons_view().contains(RoutingDaemon::RIP) ==> final(self).daemons_view() == old(self).daemons_view().push(RoutingDaemon::RIP),
            final(self).config_dir_view() == old(self).config_dir_view(),
    {
        if !config.enabled {
            return None;
        }
        self.enable_daemon(RoutingDaemon::RIP);
        Some(ConfigFile { file_name: owned("ripd.conf"), contents: generate_rip_config(config) })
    }
}

impl Default for FrrManager {
    fn default() -> (m: FrrManager)
        ensures
            m.daemons_view() == Seq::<RoutingDaemon>::empty(),
            m.config_dir_view() == "/etc/frr"@,
    {
        FrrManager::new()
    }
}

impl Default for BgpConfig {
    /// Disabled, private AS 65000, router id 192.168.1.1, nothing else.
    fn default() -> (c: BgpConfig)
        ensures
            !c.enabled,
            c.asn == 65000,
            c.router_id == IpAddress::V4(192, 168, 1, 1),
            c.networks@.len() == 0,
            c.neighbors@.len() == 0,
            c.route_maps@.len() == 0,
    {
        BgpConfig {
            enabled: false,
            asn: 65000,
            router_id: IpAddress::V4(192, 168, 1, 1),
            networks: Vec::new(),
            neighbors: Vec::new(),
            route_maps: Vec::new(),
        }
    }
}

impl Default for OspfConfig {
    /// Disabled, router id 192.168.1.1, the backbone area over
    /// 192.168.1.0/24.
    fn default() -> (c: OspfConfig)
        ensures
            !c.enabled,
            c.router_id == IpAddress::V4(192, 168, 1, 1),
            c.areas@.len() == 1,
            c.areas@[0].area_id@ == "0.0.0.0"@,
            c.areas@[0].networks@.len() == 1,
            c.areas@[0].networks@[0]@ == "192.168.1.0/24"@,
            c.areas@[0].area_type == OspfAreaType::Normal,
            c.areas@[0].authentication is None,
            c.redistribute@.len() == 0,
            c.passive_interfaces@.len() == 0,
    {
        let mut networks: Vec<String> = Vec::new();
        networks.push(owned("192.168.1.0/24"));
        let mut areas: Vec<OspfArea> = Vec::new();
        areas.push(
            OspfArea {
                area_id: owned("0.0.0.0"),
                networks,
                area_type: OspfAreaType::Normal,
                authentication: None,
            },
        );
        OspfConfig {
            enabled: false,
            router_id: IpAddress::V4(192, 168, 1, 1),
            areas,
            redistribute: Vec::new(),
            passive_interfaces: Vec::new(),
        }
    }
}

impl Default for RipConfig {
    /// Disabled, version 2, nothing else.
    fn default() -> (c: RipConfig)
        ensures
            !c.enabled,
            c.version == RipVersion::V2,
            c.networks@.len() == 0,
            c.passive_interfaces@.len() == 0,
            c.redistribute@.len() == 0,
    {
        RipConfig {
            enabled: false,
            version: RipVersion::V2,
            networks: Vec::new(),
            passive_interfaces: Vec::new(),
            redistribute: Vec::new(),
        }
    }
}

/// Enabling a daemon twice is enabling it once, and no daemon is ever
/// listed twice.
pub proof fn lemma_enable_daemon_idempotent(d: Seq<RoutingDaemon>, x: RoutingDaemon)
    requires
        daemons_distinct(d),
    ensures
        daemons_distinct(if d.contains(x) { d } else { d.push(x) }),
        (if d.contains(x) { d } else { d.push(x) }).contains(x),
{
    if !d.contains(x) {
        assert(d.push(x)[d.len() as int] == x);
    }
}

} // verus!
