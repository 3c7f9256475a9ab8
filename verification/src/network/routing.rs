//! Routing table entries as the kernel's route messages describe them,
//! which routes a removal or a flush touches, and what adding a route asks
//! of the kernel.
use vstd::prelude::*;
use crate::net::{IpAddress, Ipv4Address};
use crate::text::owned;

verus! {

/// An address with a prefix length.
#[derive(PartialEq, Eq, Structural, Clone, Copy, Debug)]
pub struct IpNetwork {
    pub addr: IpAddress,
    pub prefix_len: u8,
}

/// A routing table entry.
#[derive(Clone, Debug)]
pub struct Route {
    /// `None` for the default route.
    pub destination: Option<IpNetwork>,
    pub gateway: Option<IpAddress>,
    pub interface: Option<String>,
    pub metric: Option<u32>,
    pub table: u32,
}

/// An address in a route message.
#[derive(PartialEq, Eq, Structural, Clone, Copy, Debug)]
pub enum RouteAddress {
    Inet(Ipv4Address),
    Inet6(u16, u16, u16, u16, u16, u16, u16, u16),
    /// Any other family.
    Other,
}

/// One attribute of a route message, as far as it is read here.
#[derive(PartialEq, Eq, Structural, Clone, Copy, Debug)]
pub enum RouteAttr {
    Destination(RouteAddress),
    Gateway(RouteAddress),
    /// The index of the output interface.
    Oif(u32),
    Priority(u32),
    Other,
}

/// A route message: the destination prefix length and table from its
/// header, and its attributes in order.
#[derive(Clone, Debug)]
pub struct RouteMessage {
    pub prefix_len: u8,
    pub table: u8,
    pub attributes: Vec<RouteAttr>,
}

/// Why a route could not be added.
#[derive(PartialEq, Eq, Clone, Debug)]
pub enum RouteError {
    Network(String),
}

/// The address a route address stands for; an address of another family
/// counts as `0.0.0.0`.
pub open spec fn address_ip(a: RouteAddress) -> IpAddress {
    match a {
        RouteAddress::Inet(v) => IpAddress::V4(v.0, v.1, v.2, v.3),
        RouteAddress::Inet6(s0, s1, s2, s3, s4, s5, s6, s7) => IpAddress::V6(s0, s1, s2, s3, s4, s5, s6, s7),
        RouteAddress::Other => IpAddress::V4(0, 0, 0, 0),
    }
}

/// The address a route address stands for.
pub fn route_address_to_ip(a: RouteAddress) -> (r: IpAddress)
    ensures
        r == address_ip(a),
{
    match a {
        RouteAddress::Inet(v) => IpAddress::V4(v.0, v.1, v.2, v.3),
        RouteAddress::Inet6(s0, s1, s2, s3, s4, s5, s6, s7) => IpAddress::V6(s0, s1, s2, s3, s4, s5, s6, s7),
        RouteAddress::Other => IpAddress::V4(0, 0, 0, 0),
    }
}

/// The last destination among the attributes.
pub open spec fn last_destination(attrs: Seq<RouteAttr>) -> Option<RouteAddress>
    decreases attrs.len(),
{
    if attrs.len() == 0 {
        None
    } else {
        match attrs.last() {
            RouteAttr::Destination(a) => Some(a),
            _ => last_destination(attrs.drop_last()),
        }
    }
}

/// The last gateway among the attributes.
pub open spec fn last_gateway(attrs: Seq<RouteAttr>) -> Option<RouteAddress>
    decreases attrs.len(),
{
    if attrs.len() == 0 {
        None
    } else {
        match attrs.last() {
            RouteAttr::Gateway(a) => Some(a),
            _ => last_gateway(attrs.drop_last()),
        }
    }
}

/// The last output interface among the attributes.
pub open spec fn last_oif(attrs: Seq<RouteAttr>) -> Option<u32>
    decreases attrs.len(),
{
    if attrs.len() == 0 {
        None
    } else {
        match attrs.last() {
            RouteAttr::Oif(x) => Some(x),
            _ => last_oif(attrs.drop_last()),
        }
    }
}

/// The last priority among the attributes.
pub open spec fn last_priority(attrs: Seq<RouteAttr>) -> Option<u32>
    decreases attrs.len(),
{
    if attrs.len() == 0 {
        None
    } else {
        match attrs.last() {
            RouteAttr::Priority(x) => Some(x),
            _ => last_priority(attrs.drop_last()),
        }
    }
}

/// The index of the output interface of a route message, if it has one.
pub fn message_oif(m: &RouteMessage) -> (r: Option<u32>)
    ensures
        r == last_oif(m.attributes@),
{
    let attrs = &m.attributes;
    let mut r: Option<u32> = None;
    let mut i: usize = 0;
    while i < attrs.len()
        invariant
            0 <= i <= attrs@.len(),
            r == last_oif(attrs@.take(i as int)),
        decreases attrs.len() - i,
    {
        proof {
            assert(attrs@.take(i + 1).drop_last() =~= attrs@.take(i as int));
        }
        match attrs[i] {
            RouteAttr::Oif(x) => {
                r = Some(x);
            },
            _ => {},
        }
        i = i + 1;
    }
    proof {
        assert(attrs@.take(attrs@.len() as int) =~= attrs@);
    }
    r
}

/// The route a route message describes, with the name of its output
/// interface: its last destination with the header's prefix length, its
/// last gateway, its last priority as the metric, and the header's table.
pub fn route_from_message(m: &RouteMessage, interface: Option<String>) -> (r: Route)
    ensures
        r.destination == (match last_destination(m.attributes@) {
            Some(a) => Some(IpNetwork { addr: address_ip(a), prefix_len: m.prefix_len }),
            None => None,
        }),
        r.gateway == (match last_gateway(m.attributes@) {
            Some(a) => Some(address_ip(a)),
            None => None,
        }),
        r.interface == interface,
        r.metric == last_priority(m.attributes@),
        r.table == m.table,
{
    let attrs = &m.attributes;
    let mut destination: Option<IpNetwork> = None;
    let mut gateway: Option<IpAddress> = None;
    let mut metric: Option<u32> = None;
    let mut i: usize = 0;
    while i < attrs.len()
        invariant
            0 <= i <= attrs@.len(),
            destination == (match last_destination(attrs@.take(i as int)) {
                Some(a) => Some(IpNetwork { addr: address_ip(a), prefix_len: m.prefix_len }),
                None => None,
            }),
            gateway == (match last_gateway(attrs@.take(i as int)) {
                Some(a) => Some(address_ip(a)),
                None => None,
            }),
            metric == last_priority(attrs@.take(i as int)),
        decreases attrs.len() - i,
    {
        proof {
            assert(attrs@.take(i + 1).drop_last() =~= attrs@.take(i as int));
        }
        match attrs[i] {
            RouteAttr::Destination(a) => {
                destination = Some(IpNetwork { addr: route_address_to_ip(a), prefix_len: m.prefix_len });
            },
            RouteAttr::Gateway(a) => {
                gateway = Some(route_address_to_ip(a));
            },
            RouteAttr::Priority(p) => {
                metric = Some(p);
            },
            _ => {},
        }
        i = i + 1;
    }
    proof {
        assert(attrs@.take(attrs@.len() as int) =~= attrs@);
    }
    Route { destination, gateway, interface, metric, table: m.table as u32 }
}

/// Whether a route's destination is the one asked for: the same network,
/// or both the default.
pub open spec fn destination_matches(want: Option<IpNetwork>, have: Option<IpNetwork>) -> bool {
    match (want, have) {
        (Some(a), Some(b)) => a.addr == b.addr && a.prefix_len == b.prefix_len,
        (None, None) => true,
        _ => false,
    }
}

/// Whether a route's gateway is the one asked for; asking for none matches
/// any.
pub open spec fn gateway_matches(want: Option<IpAddress>, have: Option<IpAddress>) -> bool {
    match (want, have) {
        (Some(a), Some(b)) => a == b,
        (None, _) => true,
        _ => false,
    }
}

/// Whether a route is one that a removal of `destination` via `gateway`
/// touches.
pub fn route_matches(destination: Option<IpNetwork>, gateway: Option<IpAddress>, route: &Route) -> (b: bool)
    ensures
        b == (destination_matches(destination, route.destination) && gateway_matches(gateway, route.gateway)),
{
    let d = match (destination, route.destination) {
        (Some(a), Some(b)) => a.addr == b.addr && a.prefix_len == b.prefix_len,
        (None, None) => true,
        _ => false,
    };
    let g = match (gateway, route.gateway) {
        (Some(a), Some(b)) => a == b,
        (None, _) => true,
        _ => false,
    };
    d && g
}

/// The destinations that a removal deletes, in the order of the routes:
/// those of the matching routes that have one.
pub open spec fn removal_targets_spec(
    destination: Option<IpNetwork>,
    gateway: Option<IpAddress>,
    routes: Seq<Route>,
) -> Seq<IpNetwork>
    decreases routes.len(),
{
    if routes.len() == 0 {
        Seq::empty()
    } else {
        let r = removal_targets_spec(destination, gateway, routes.drop_last());
        let last = routes.last();
        if destination_matches(destination, last.destination) && gateway_matches(gateway, last.gateway)
            && last.destination is Some {
            r.push(last.destination.unwrap())
        } else {
            r
        }
    }
}

/// The destinations that removing `destination` via `gateway` deletes from
/// the listed routes.
pub fn removal_targets(destination: Option<IpNetwork>, gateway: Option<IpAddress>, routes: &Vec<Route>) -> (r: Vec<
    IpNetwork,
>)
    ensures
        r@ == removal_targets_spec(destination, gateway, routes@),
{
    let mut out: Vec<IpNetwork> = Vec::new();
    let mut i: usize = 0;
    while i < routes.len()
        invariant
            0 <= i <= routes@.len(),
            out@ == removal_targets_spec(destination, gateway, routes@.take(i as int)),
        decreases routes.len() - i,
    {
        proof {
            assert(routes@.take(i + 1).drop_last() =~= routes@.take(i as int));
        }
        if route_matches(destination, gateway, &routes[i]) {
            match routes[i].destination {
                Some(d) => {
                    out.push(d);
                },
                None => {},
            }
        }
        i = i + 1;
    }
    proof {
        assert(routes@.take(routes@.len() as int) =~= routes@);
    }
    out
}

/// What a flush removes, in order: the destination and gateway of each
/// route outside the local table 255.
pub open spec fn flush_targets_spec(routes: Seq<Route>) -> Seq<(Option<IpNetwork>, Option<IpAddress>)>
    decreases routes.len(),
{
    if routes.len() == 0 {
        Seq::empty()
    } else {
        let r = flush_targets_spec(routes.drop_last());
        if routes.last().table != 255 {
            r.push((routes.last().destination, routes.last().gateway))
        } else {
            r
        }
    }
}

/// What flushing the listed routes removes.
pub fn flush_targets(routes: &Vec<Route>) -> (r: Vec<(Option<IpNetwork>, Option<IpAddress>)>)
    ensures
        r@ == flush_targets_spec(routes@),
{
    let mut out: Vec<(Option<IpNetwork>, Option<IpAddress>)> = Vec::new();
    let mut i: usize = 0;
    while i < routes.len()
        invariant
            0 <= i <= routes@.len(),
            out@ == flush_targets_spec(routes@.take(i as int)),
        decreases routes.len() - i,
    {
        proof {
            assert(routes@.take(i + 1).drop_last() =~= routes@.take(i as int));
        }
        if routes[i].table != 255 {
            out.push((routes[i].destination, routes[i].gateway));
        }
        i = i + 1;
    }
    proof {
        assert(routes@.take(routes@.len() as int) =~= routes@);
    }
    out
}

/// The IPv4 route that adding asks the kernel for.
#[derive(PartialEq, Eq, Structural, Clone, Copy, Debug)]
pub enum AddRoute {
    /// To a network through a gateway.
    Via { destination: Ipv4Address, prefix_len: u8, gateway: Ipv4Address, oif: Option<u32> },
    /// The default route through a gateway.
    Default { gateway: Ipv4Address, oif: Option<u32> },
    /// To a network directly on an interface.
    Direct { destination: Ipv4Address, prefix_len: u8, oif: u32 },
}

/// The IPv4 address of an address, if it is one.
pub open spec fn v4_of(a: IpAddress) -> Option<Ipv4Address> {
    match a {
        IpAddress::V4(x, y, z, w) => Some(Ipv4Address(x, y, z, w)),
        IpAddress::V6(..) => None,
    }
}

/// What adding a route to `destination` via `gateway` asks for, given the
/// index of the named output interface if one was found; else the message
/// of the error.  Only IPv4 routes are added; a direct route needs an
/// interface, and a route needs a destination or a gateway.
pub open spec fn add_route_spec(
    destination: Option<IpNetwork>,
    gateway: Option<IpAddress>,
    oif: Option<u32>,
) -> Result<AddRoute, Seq<char>> {
    match (destination, gateway) {
        (Some(d), Some(g)) => match (v4_of(d.addr), v4_of(g)) {
            (None, _) => Err("Expected IPv4 address"@),
            (Some(_), None) => Err("Expected IPv4 gateway"@),
            (Some(a), Some(b)) => Ok(AddRoute::Via { destination: a, prefix_len: d.prefix_len, gateway: b, oif }),
        },
        (None, Some(g)) => match v4_of(g) {
            None => Err("Expected IPv4 gateway"@),
            Some(b) => Ok(AddRoute::Default { gateway: b, oif }),
        },
        (Some(d), None) => match oif {
            None => Err("Interface required for direct routes"@),
            Some(i) => match v4_of(d.addr) {
                None => Err("Expected IPv4 address"@),
                Some(a) => Ok(AddRoute::Direct { destination: a, prefix_len: d.prefix_len, oif: i }),
            },
        },
        (None, None) => Err("At least destination or gateway required"@),
    }
}

fn v4_address(a: IpAddress) -> (r: Option<Ipv4Address>)
    ensures
        r == v4_of(a),
{
    match a {
        IpAddress::V4(x, y, z, w) => Some(Ipv4Address(x, y, z, w)),
        IpAddress::V6(..) => None,
    }
}

fn network_error(m: &str) -> (e: RouteError)
    ensures
        e matches RouteError::Network(t) && t@ == m@,
{
    RouteError::Network(owned(m))
}

/// What adding a route to `destination` via `gateway` asks the kernel for,
/// given the index of the output interface if one was named and found.
pub fn plan_add_route(destination: Option<IpNetwork>, gateway: Option<IpAddress>, oif: Option<u32>) -> (r: Result<
    AddRoute,
    RouteError,
>)
    ensures
        match (r, add_route_spec(destination, gateway, oif)) {
            (Ok(a), Ok(b)) => a == b,
            (Err(RouteError::Network(m)), Err(t)) => m@ == t,
            _ => false,
        },
{
    match (destination, gateway) {
        (Some(d), Some(g)) => match v4_address(d.addr) {
            None => Err(network_error("Expected IPv4 address")),
            Some(a) => match v4_address(g) {
                None => Err(network_error("Expected IPv4 gateway")),
                Some(b) => Ok(AddRoute::Via { destination: a, prefix_len: d.prefix_len, gateway: b, oif }),
            },
        },
        (None, Some(g)) => match v4_address(g) {
            None => Err(network_error("Expected IPv4 gateway")),
            Some(b) => Ok(AddRoute::Default { gateway: b, oif }),
        },
        (Some(d), None) => match oif {
            None => Err(network_error("Interface required for direct routes")),
            Some(i) => match v4_address(d.addr) {
                None => Err(network_error("Expected IPv4 address")),
                Some(a) => Ok(AddRoute::Direct { destination: a, prefix_len: d.prefix_len, oif: i }),
            },
        },
        (None, None) => Err(network_error("At least destination or gateway required")),
    }
}

/// What adding a default route via `gateway` asks for.
pub fn plan_default_gateway(gateway: IpAddress, oif: Option<u32>) -> (r: Result<AddRoute, RouteError>)
    ensures
        match (r, add_route_spec(None, Some(gateway), oif)) {
            (Ok(a), Ok(b)) => a == b,
            (Err(RouteError::Network(m)), Err(t)) => m@ == t,
            _ => false,
        },
{
    plan_add_route(None, Some(gateway), oif)
}

} // verus!
