//! Status pages: the dashboard's widgets, and reading what system tools
//! print (the ARP table, `systemctl show`, `wg show … dump`) into the
//! values that the pages show.
use vstd::prelude::*;
use crate::net::{parse_ipv4_range, parse_ipv4_spec, Ipv4Address};
use crate::text::{
    chars_of, decimal, first_token, first_token_range, line_ranges, lines_spec, owned, parse_unsigned_range,
    parse_unsigned_spec, push_decimal, push_string, range_views, split_on, split_ranges, string_of, trim,
    trim_end_range, trim_start_range, views,
};

verus! {

/// What a dashboard widget shows.
#[derive(PartialEq, Eq, Structural, Clone, Copy, Debug)]
pub enum WidgetType {
    SystemInfo,
    InterfaceTraffic,
    GatewayStatus,
    ServiceStatus,
    CpuUsage,
    MemoryUsage,
    DiskUsage,
    FirewallLogs,
    ActiveConnections,
    VpnStatus,
}

/// The name of a widget type, as `{:?}` writes it; the dashboard's data is
/// keyed by it.
pub open spec fn widget_name(w: WidgetType) -> Seq<char> {
    match w {
        WidgetType::SystemInfo => "SystemInfo"@,
        WidgetType::InterfaceTraffic => "InterfaceTraffic"@,
        WidgetType::GatewayStatus => "GatewayStatus"@,
        WidgetType::ServiceStatus => "ServiceStatus"@,
        WidgetType::CpuUsage => "CpuUsage"@,
        WidgetType::MemoryUsage => "MemoryUsage"@,
        WidgetType::DiskUsage => "DiskUsage"@,
        WidgetType::FirewallLogs => "FirewallLogs"@,
        WidgetType::ActiveConnections => "ActiveConnections"@,
        WidgetType::VpnStatus => "VpnStatus"@,
    }
}

impl WidgetType {
    /// The name of the widget type, as `{:?}` writes it.
    pub fn name(&self) -> (r: String)
        ensures
            r@ == widget_name(*self),
    {
        match self {
            WidgetType::SystemInfo => owned("SystemInfo"),
            WidgetType::InterfaceTraffic => owned("InterfaceTraffic"),
            WidgetType::GatewayStatus => owned("GatewayStatus"),
            WidgetType::ServiceStatus => owned("ServiceStatus"),
            WidgetType::CpuUsage => owned("CpuUsage"),
            WidgetType::MemoryUsage => owned("MemoryUsage"),
            WidgetType::DiskUsage => owned("DiskUsage"),
            WidgetType::FirewallLogs => owned("FirewallLogs"),
            WidgetType::ActiveConnections => owned("ActiveConnections"),
            WidgetType::VpnStatus => owned("VpnStatus"),
        }
    }
}

/// A widget on the dashboard.
#[derive(Debug)]
pub struct DashboardWidget {
    pub widget_type: WidgetType,
    /// Row and column.
    pub position: (u32, u32),
    /// Width and height.
    pub size: (u32, u32),
    /// In seconds.
    pub refresh_interval: u32,
}

/// The widgets of the dashboard.
#[derive(Debug)]
pub struct DashboardConfig {
    pub widgets: Vec<DashboardWidget>,
}

/// A DHCP lease as the status page shows it.
#[derive(Clone, Debug)]
pub struct DhcpLease {
    pub ip_address: Ipv4Address,
    pub mac_address: String,
    pub hostname: Option<String>,
    /// In seconds since the Unix epoch.
    pub lease_start: i64,
    /// In seconds since the Unix epoch.
    pub lease_end: i64,
    /// Whether the address is in the ARP table.
    pub is_online: bool,
    /// A static mapping rather than a dynamic lease.
    pub is_static: bool,
}

/// A WireGuard peer as the status page shows it.
#[derive(Clone, Debug)]
pub struct WireGuardPeerStatus {
    pub public_key: String,
    pub endpoint: Option<String>,
    pub allowed_ips: Vec<String>,
    /// In seconds since the Unix epoch; not read from the dump.
    pub latest_handshake: Option<i64>,
    pub transfer_rx: u64,
    pub transfer_tx: u64,
    pub persistent_keepalive: Option<u32>,
}

/// A line of the system log.
#[derive(Clone, Debug)]
pub struct LogEntry {
    /// In seconds since the Unix epoch.
    pub timestamp: i64,
    /// From `emergency` down to `debug`.
    pub severity: String,
    /// Such as `kern` or `auth`.
    pub facility: String,
    pub message: String,
    pub source: Option<String>,
}

/// A WireGuard peer status as plain values.
pub struct PeerModel {
    pub public_key: Seq<char>,
    pub endpoint: Option<Seq<char>>,
    pub allowed_ips: Seq<Seq<char>>,
    pub latest_handshake: Option<i64>,
    pub transfer_rx: u64,
    pub transfer_tx: u64,
    pub persistent_keepalive: Option<u32>,
}

impl View for WireGuardPeerStatus {
    type V = PeerModel;

    open spec fn view(&self) -> PeerModel {
        PeerModel {
            public_key: self.public_key@,
            endpoint: match self.endpoint {
                Some(e) => Some(e@),
                None => None,
            },
            allowed_ips: views(self.allowed_ips@),
            latest_handshake: self.latest_handshake,
            transfer_rx: self.transfer_rx,
            transfer_tx: self.transfer_tx,
            persistent_keepalive: self.persistent_keepalive,
        }
    }
}

/// The lines after the first one.
pub open spec fn after_header(lines: Seq<Seq<char>>) -> Seq<Seq<char>> {
    if lines.len() == 0 {
        Seq::empty()
    } else {
        lines.skip(1)
    }
}

/// The addresses at the start of the lines of `arp -n` after its header
/// line, those that are IPv4 addresses, in order.
pub open spec fn arp_addresses(lines: Seq<Seq<char>>) -> Seq<Ipv4Address>
    decreases lines.len(),
{
    if lines.len() == 0 {
        Seq::empty()
    } else {
        let r = arp_addresses(lines.drop_last());
        match first_token(lines.last()) {
            Some(t) => match parse_ipv4_spec(t) {
                Some(a) => r.push(a),
                None => r,
            },
            None => r,
        }
    }
}

/// The peer that a line of `wg show … dump` describes, when it has at least
/// eight tab-separated fields: key, endpoint (none when empty), the allowed
/// addresses split at commas, the received and sent bytes (0 when not a
/// number) and the keepalive interval (none when not a number).
pub open spec fn peer_of_line(line: Seq<char>) -> Option<PeerModel> {
    let f = split_on(line, '\t');
    if f.len() >= 8 {
        Some(
            PeerModel {
                public_key: f[0],
                endpoint: if f[2].len() == 0 {
                    None
                } else {
                    Some(f[2])
                },
                allowed_ips: split_on(f[3], ','),
                latest_handshake: None,
                transfer_rx: match parse_unsigned_spec(f[5], u64::MAX as nat) {
                    Some(n) => n as u64,
                    None => 0,
                },
                transfer_tx: match parse_unsigned_spec(f[6], u64::MAX as nat) {
                    Some(n) => n as u64,
                    None => 0,
                },
                persistent_keepalive: match parse_unsigned_spec(f[7], u32::MAX as nat) {
                    Some(n) => Some(n as u32),
                    None => None,
                },
            },
        )
    } else {
        None
    }
}

/// The peers that the lines describe, in order.
pub open spec fn peers_of_lines(lines: Seq<Seq<char>>) -> Seq<PeerModel>
    decreases lines.len(),
{
    if lines.len() == 0 {
        Seq::empty()
    } else {
        let r = peers_of_lines(lines.drop_last());
        match peer_of_line(lines.last()) {
            Some(p) => r.push(p),
            None => r,
        }
    }
}

/// The main process id that `systemctl show -p MainPID` reports: the text
/// after the first `=`, trimmed, as a number.
pub open spec fn main_pid_spec(output: Seq<char>) -> Option<u32> {
    let p = split_on(output, '=');
    if p.len() >= 2 {
        match parse_unsigned_spec(trim(p[1]), u32::MAX as nat) {
            Some(n) => Some(n as u32),
            None => None,
        }
    } else {
        None
    }
}

/// The arguments of `journalctl` for the last `limit` entries as JSON, with
/// a priority and a pattern when given.
pub open spec fn journal_args_spec(filter: Option<Seq<char>>, severity: Option<Seq<char>>, limit: u32) -> Seq<
    Seq<char>,
> {
    seq!["-n"@, decimal(limit as nat), "--output=json"@] + match severity {
        Some(s) => seq!["-p"@, s],
        None => Seq::empty(),
    } + match filter {
        Some(f) => seq!["-g"@, f],
        None => Seq::empty(),
    }
}

/// The services the status page reports on, with their descriptions.
pub open spec fn monitored_services_spec() -> Seq<(Seq<char>, Seq<char>)> {
    seq![
        ("unbound"@, "DNS Resolver"@),
        ("dhcpd"@, "DHCP Server"@),
        ("openvpn"@, "OpenVPN"@),
        ("strongswan"@, "IPsec"@),
        ("suricata"@, "IDS/IPS"@),
        ("haproxy"@, "Load Balancer"@),
        ("chrony"@, "NTP Server"@),
        ("snmpd"@, "SNMP Agent"@),
    ]
}

fn strings_of(v: &Vec<char>, rs: &Vec<(usize, usize)>) -> (out: Vec<String>)
    requires
        forall|k: int| 0 <= k < rs@.len() ==> (#[trigger] rs@[k]).0 <= rs@[k].1 <= v@.len(),
    ensures
        views(out@) == range_views(v@, rs@),
{
    let mut out: Vec<String> = Vec::new();
    let mut i: usize = 0;
    while i < rs.len()
        invariant
            0 <= i <= rs@.len(),
            forall|k: int| 0 <= k < rs@.len() ==> (#[trigger] rs@[k]).0 <= rs@[k].1 <= v@.len(),
            views(out@) == range_views(v@, rs@.subrange(0, i as int)),
        decreases rs.len() - i,
    {
        let (a, b) = rs[i];
        push_string(&mut out, string_of(v, a, b));
        proof {
            assert(range_views(v@, rs@.subrange(0, i + 1)) =~= range_views(v@, rs@.subrange(0, i as int)).push(
                v@.subrange(a as int, b as int),
            ));
        }
        i = i + 1;
    }
    proof {
        assert(rs@.subrange(0, rs@.len() as int) =~= rs@);
    }
    out
}

fn peer_from_fields(v: &Vec<char>, fields: &Vec<(usize, usize)>) -> (p: WireGuardPeerStatus)
    requires
        fields@.len() >= 8,
        forall|k: int| 0 <= k < fields@.len() ==> (#[trigger] fields@[k]).0 <= fields@[k].1 <= v@.len(),
    ensures
        ({
            let f = range_views(v@, fields@);
            peer_of_line_fields(f) == p@
        }),
{
    let ghost f = range_views(v@, fields@);
    let (k0, k1) = fields[0];
    let (e0, e1) = fields[2];
    let (a0, a1) = fields[3];
    let (r0, r1) = fields[5];
    let (t0, t1) = fields[6];
    let (p0, p1) = fields[7];
    proof {
        assert(f[0] == v@.subrange(k0 as int, k1 as int));
        assert(f[2] == v@.subrange(e0 as int, e1 as int));
        assert(f[3] == v@.subrange(a0 as int, a1 as int));
        assert(f[5] == v@.subrange(r0 as int, r1 as int));
        assert(f[6] == v@.subrange(t0 as int, t1 as int));
        assert(f[7] == v@.subrange(p0 as int, p1 as int));
    }
    let endpoint = if e0 < e1 {
        Some(string_of(v, e0, e1))
    } else {
        None
    };
    let ips = split_ranges(v, a0, a1, ',');
    let allowed_ips = strings_of(v, &ips);
    let rx = match parse_unsigned_range(v, r0, r1, u64::MAX) {
        Some(n) => n,
        None => 0,
    };
    let tx = match parse_unsigned_range(v, t0, t1, u64::MAX) {
        Some(n) => n,
        None => 0,
    };
    let keepalive = match parse_unsigned_range(v, p0, p1, u32::MAX as u64) {
        Some(n) => Some(n as u32),
        None => None,
    };
    let p = WireGuardPeerStatus {
        public_key: string_of(v, k0, k1),
        endpoint,
        allowed_ips,
        latest_handshake: None,
        transfer_rx: rx,
        transfer_tx: tx,
        persistent_keepalive: keepalive,
    };
    proof {
        assert(p@.allowed_ips =~= split_on(f[3], ','));
    }
    p
}

/// The peer that the fields of a line describe, when there are at least
/// eight.
pub open spec fn peer_of_line_fields(f: Seq<Seq<char>>) -> PeerModel {
    PeerModel {
        public_key: f[0],
        endpoint: if f[2].len() == 0 {
            None
        } else {
            Some(f[2])
        },
        allowed_ips: split_on(f[3], ','),
        latest_handshake: None,
        transfer_rx: match parse_unsigned_spec(f[5], u64::MAX as nat) {
            Some(n) => n as u64,
            None => 0,
        },
        transfer_tx: match parse_unsigned_spec(f[6], u64::MAX as nat) {
            Some(n) => n as u64,
            None => 0,
        },
        persistent_keepalive: match parse_unsigned_spec(f[7], u32::MAX as nat) {
            Some(n) => Some(n as u32),
            None => None,
        },
    }
}

/// Reads the status pages' inputs.
pub struct StatusPageManager;

impl StatusPageManager {
    /// The addresses of the ARP table that `arp -n` prints, those on lines
    /// after the header that start with an IPv4 address.
    pub fn parse_arp_online(arp_output: &str) -> (r: Vec<Ipv4Address>)
        ensures
            r@ == arp_addresses(after_header(lines_spec(arp_output@))),
    {
        let v = chars_of(arp_output);
        let lines = line_ranges(&v);
        let ghost ls = lines_spec(v@);
        let mut out: Vec<Ipv4Address> = Vec::new();
        if lines.len() == 0 {
            proof {
                assert(ls.len() == 0);
            }
            return out;
        }
        let ghost rest = ls.skip(1);
        let mut i: usize = 1;
        while i < lines.len()
            invariant
                1 <= i <= lines@.len(),
                range_views(v@, lines@) == ls,
                ls == lines_spec(arp_output@),
                v@ == arp_output@,
                rest == ls.skip(1),
                forall|k: int| 0 <= k < lines@.len() ==> (#[trigger] lines@[k]).0 <= lines@[k].1 <= v@.len(),
                out@ == arp_addresses(rest.subrange(0, i - 1)),
            decreases lines.len() - i,
        {
            let (a, b) = lines[i];
            proof {
                assert(ls[i as int] == v@.subrange(a as int, b as int));
                assert(rest.subrange(0, i as int).drop_last() =~= rest.subrange(0, i - 1));
                assert(rest.subrange(0, i as int).last() == ls[i as int]);
            }
            match first_token_range(&v, a, b) {
                Some((x, y)) => match parse_ipv4_range(&v, x, y) {
                    Some(ip) => {
                        out.push(ip);
                    },
                    None => {},
                },
                None => {},
            }
            i = i + 1;
        }
        proof {
            assert(rest.subrange(0, lines@.len() - 1) =~= rest);
        }
        out
    }

    /// Marks each lease online whose address is in the ARP table.
    pub fn mark_online(leases: &mut Vec<DhcpLease>, online: &Vec<Ipv4Address>)
        ensures
            final(leases)@.len() == old(leases)@.len(),
            forall|k: int|
                0 <= k < final(leases)@.len() ==> #[trigger] final(leases)@[k] == (DhcpLease {
                    is_online: online@.contains(old(leases)@[k].ip_address),
                    ..old(leases)@[k]
                }),
    {
        let mut i: usize = 0;
        while i < leases.len()
            invariant
                0 <= i <= leases@.len(),
                leases@.len() == old(leases)@.len(),
                forall|k: int|
                    0 <= k < i ==> #[trigger] leases@[k] == (DhcpLease {
                        is_online: online@.contains(old(leases)@[k].ip_address),
                        ..old(leases)@[k]
                    }),
                forall|k: int| i <= k < leases@.len() ==> #[trigger] leases@[k] == old(leases)@[k],
            decreases leases.len() - i,
        {
            let ip = leases[i].ip_address;
            let mut found = false;
            let mut j: usize = 0;
            while j < online.len()
                invariant
                    0 <= j <= online@.len(),
                    found == online@.subrange(0, j as int).contains(ip),
                decreases online.len() - j,
            {
                let ghost s0 = online@.subrange(0, j as int);
                let ghost s1 = online@.subrange(0, j + 1);
                proof {
                    assert(s1 =~= s0.push(online@[j as int]));
                    if s0.contains(ip) {
                        let w = choose|w: int| 0 <= w < s0.len() && s0[w] == ip;
                        assert(s1[w] == ip);
                    }
                    if online@[j as int] == ip {
                        assert(s1[j as int] == ip);
                    }
                    if s1.contains(ip) && online@[j as int] != ip {
                        let w = choose|w: int| 0 <= w < s1.len() && s1[w] == ip;
                        assert(s0[w] == ip);
                    }
                }
                if online[j] == ip {
                    found = true;
                }
                j = j + 1;
            }
            proof {
                assert(online@.subrange(0, online@.len() as int) =~= online@);
            }
            let mut lease = leases.remove(i);
            lease.is_online = found;
            leases.insert(i, lease);
            i = i + 1;
        }
    }

    /// The services that the status page reports on, with their
    /// descriptions.
    pub fn monitored_services() -> (r: Vec<(String, String)>)
        ensures
            r@.map_values(|p: (String, String)| (p.0@, p.1@)) == monitored_services_spec(),
    {
        let mut r: Vec<(String, String)> = Vec::new();
        r.push((owned("unbound"), owned("DNS Resolver")));
        r.push((owned("dhcpd"), owned("DHCP Server")));
        r.push((owned("openvpn"), owned("OpenVPN")));
        r.push((owned("strongswan"), owned("IPsec")));
        r.push((owned("suricata"), owned("IDS/IPS")));
        r.push((owned("haproxy"), owned("Load Balancer")));
        r.push((owned("chrony"), owned("NTP Server")));
        r.push((owned("snmpd"), owned("SNMP Agent")));
        proof {
            assert(r@.map_values(|p: (String, String)| (p.0@, p.1@)) =~= monitored_services_spec());
        }
        r
    }

    /// The main process id in the output of `systemctl show -p MainPID`.
    pub fn parse_main_pid(output: &str) -> (r: Option<u32>)
        ensures
            r == main_pid_spec(output@),
    {
        let v = chars_of(output);
        let n = v.len();
        let parts = split_ranges(&v, 0, n, '=');
        proof {
            assert(v@.subrange(0, n as int) =~= output@);
        }
        if parts.len() < 2 {
            return None;
        }
        let (a, b) = parts[1];
        proof {
            assert(split_on(output@, '=')[1] == v@.subrange(a as int, b as int));
        }
        let x = trim_start_range(&v, a, b);
        let y = trim_end_range(&v, x, b);
        match parse_unsigned_range(&v, x, y, u32::MAX as u64) {
            Some(p) => Some(p as u32),
            None => None,
        }
    }

    /// The arguments of `journalctl` for the last `limit` log entries as
    /// JSON, filtered by priority and by pattern when given.
    pub fn journal_args(filter: Option<&str>, severity: Option<&str>, limit: u32) -> (args: Vec<String>)
        ensures
            views(args@) == journal_args_spec(
                match filter {
                    Some(f) => Some(f@),
                    None => None,
                },
                match severity {
                    Some(s) => Some(s@),
                    None => None,
                },
                limit,
            ),
    {
        let mut args: Vec<String> = Vec::new();
        push_string(&mut args, owned("-n"));
        let mut l = String::new();
        push_decimal(&mut l, limit as u64);
        push_string(&mut args, l);
        push_string(&mut args, owned("--output=json"));
        match severity {
            Some(s) => {
                push_string(&mut args, owned("-p"));
                push_string(&mut args, owned(s));
            },
            None => {},
        }
        match filter {
            Some(f) => {
                push_string(&mut args, owned("-g"));
                push_string(&mut args, owned(f));
            },
            None => {},
        }
        proof {
            assert(views(args@) =~= journal_args_spec(
                match filter {
                    Some(f) => Some(f@),
                    None => None,
                },
                match severity {
                    Some(s) => Some(s@),
                    None => None,
                },
                limit,
            ));
        }
        args
    }

    /// The peers that `wg show <interface> dump` lists after its interface
    /// line.
    pub fn parse_wireguard_status(output: &str) -> (r: Vec<WireGuardPeerStatus>)
        ensures
            r@.map_values(|p: WireGuardPeerStatus| p@) == peers_of_lines(after_header(lines_spec(output@))),
    {
        let v = chars_of(output);
        let lines = line_ranges(&v);
        let ghost ls = lines_spec(v@);
        let mut peers: Vec<WireGuardPeerStatus> = Vec::new();
        if lines.len() == 0 {
            proof {
                assert(ls.len() == 0);
                assert(peers@.map_values(|p: WireGuardPeerStatus| p@) =~= Seq::<PeerModel>::empty());
            }
            return peers;
        }
        let ghost rest = ls.skip(1);
        let mut i: usize = 1;
        proof {
            assert(peers@.map_values(|p: WireGuardPeerStatus| p@) =~= Seq::<PeerModel>::empty());
        }
        while i < lines.len()
            invariant
                1 <= i <= lines@.len(),
                range_views(v@, lines@) == ls,
                ls == lines_spec(output@),
                v@ == output@,
                rest == ls.skip(1),
                forall|k: int| 0 <= k < lines@.len() ==> (#[trigger] lines@[k]).0 <= lines@[k].1 <= v@.len(),
                peers@.map_values(|p: WireGuardPeerStatus| p@) == peers_of_lines(rest.subrange(0, i - 1)),
            decreases lines.len() - i,
        {
            let (a, b) = lines[i];
            let fields = split_ranges(&v, a, b, '\t');
            proof {
                assert(ls[i as int] == v@.subrange(a as int, b as int));
                assert(rest.subrange(0, i as int).drop_last() =~= rest.subrange(0, i - 1));
                assert(rest.subrange(0, i as int).last() == ls[i as int]);
            }
            if fields.len() >= 8 {
                let ghost before = peers@.map_values(|p: WireGuardPeerStatus| p@);
                let peer = peer_from_fields(&v, &fields);
                peers.push(peer);
                proof {
                    assert(peers@.map_values(|p: WireGuardPeerStatus| p@) =~= before.push(peer@));
                }
            }
            i = i + 1;
        }
        proof {
            assert(rest.subrange(0, lines@.len() - 1) =~= rest);
        }
        peers
    }
}

} // verus!
