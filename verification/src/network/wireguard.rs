//! WireGuard tunnels: interfaces and peers, the arguments of the `ip` and
//! `wg` commands that set them up, and the reading of `wg show dump`.
use vstd::prelude::*;
use crate::text::{
    chars_of, decimal, join, join_strings, line_ranges, lines_spec, owned, parse_i64_range, parse_i64_spec,
    parse_unsigned_range, parse_unsigned_spec, push_decimal, push_string, range_views, split_on, split_ranges,
    string_of, views,
};

verus! {

/// A WireGuard interface.
#[derive(Clone, Debug)]
pub struct WireGuardInterface {
    pub name: String,
    pub private_key: String,
    pub public_key: String,
    pub listen_port: u16,
    /// Addresses in CIDR notation.
    pub address: Vec<String>,
}

/// A peer of an interface.
#[derive(Clone, Debug)]
pub struct WireGuardPeer {
    pub public_key: String,
    pub preshared_key: Option<String>,
    /// `address:port`.
    pub endpoint: Option<String>,
    pub allowed_ips: Vec<String>,
    pub persistent_keepalive: Option<u16>,
}

/// What `wg show` reports of an interface.
#[derive(Clone, Debug)]
pub struct WireGuardStatus {
    pub interface: String,
    pub public_key: String,
    pub listen_port: u16,
    pub peers: Vec<PeerStatus>,
}

/// What `wg show` reports of a peer.
#[derive(Clone, Debug)]
pub struct PeerStatus {
    pub public_key: String,
    pub endpoint: Option<String>,
    pub allowed_ips: Vec<String>,
    /// Seconds since the Unix epoch.
    pub latest_handshake: Option<i64>,
    pub transfer_rx: u64,
    pub transfer_tx: u64,
}

/// Why reading a dump failed.
#[derive(PartialEq, Eq, Structural, Clone, Copy, Debug)]
pub enum WireGuardError {
    /// The dump has no line.
    EmptyDump,
    /// The interface line has fewer than three fields.
    InvalidDumpFormat,
}

/// A peer's status as plain values.
pub struct PeerModel {
    pub public_key: Seq<char>,
    pub endpoint: Option<Seq<char>>,
    pub allowed_ips: Seq<Seq<char>>,
    pub latest_handshake: Option<i64>,
    pub transfer_rx: u64,
    pub transfer_tx: u64,
}

/// An interface's status as plain values.
pub struct StatusModel {
    pub interface: Seq<char>,
    pub public_key: Seq<char>,
    pub listen_port: u16,
    pub peers: Seq<PeerModel>,
}

impl View for PeerStatus {
    type V = PeerModel;

    open spec fn view(&self) -> PeerModel {
        PeerModel {
            public_key: self.public_key@,
            endpoint: match self.endpoint {
                Some(e) => Some(e@),
                None => None,
            },
            allowed_ips: views(self.allowed_ips@),
            latest_handshake: self.latest_handshake,
            transfer_rx: self.transfer_rx,
            transfer_tx: self.transfer_tx,
        }
    }
}

impl View for WireGuardStatus {
    type V = StatusModel;

    open spec fn view(&self) -> StatusModel {
        StatusModel {
            interface: self.interface@,
            public_key: self.public_key@,
            listen_port: self.listen_port,
            peers: self.peers@.map_values(|p: PeerStatus| p@),
        }
    }
}

/// The nonempty pieces of `s` between commas.
pub open spec fn nonempty_pieces(pieces: Seq<Seq<char>>) -> Seq<Seq<char>>
    decreases pieces.len(),
{
    if pieces.len() == 0 {
        Seq::empty()
    } else {
        nonempty_pieces(pieces.drop_last()) + if pieces.last().len() > 0 {
            seq![pieces.last()]
        } else {
            Seq::empty()
        }
    }
}

/// A number, or 0 when it does not parse.
pub open spec fn number_or_zero(s: Seq<char>, max: nat) -> nat {
    match parse_unsigned_spec(s, max) {
        Some(n) => n,
        None => 0,
    }
}

/// The peer of a line of seven or more tab-separated fields: key,
/// preshared key, endpoint (empty for none), allowed addresses separated by
/// commas, latest handshake, bytes received and bytes sent.
pub open spec fn peer_of_fields(f: Seq<Seq<char>>) -> PeerModel {
    PeerModel {
        public_key: f[0],
        endpoint: if f[2].len() > 0 {
            Some(f[2])
        } else {
            None
        },
        allowed_ips: nonempty_pieces(split_on(f[3], ',')),
        latest_handshake: parse_i64_spec(f[4]),
        transfer_rx: number_or_zero(f[5], u64::MAX as nat) as u64,
        transfer_tx: number_or_zero(f[6], u64::MAX as nat) as u64,
    }
}

/// The peers of the lines after the first: one for each line of at least
/// five fields.
pub open spec fn peers_of_lines(lines: Seq<Seq<char>>) -> Seq<PeerModel>
    decreases lines.len(),
{
    if lines.len() == 0 {
        Seq::empty()
    } else {
        peers_of_lines(lines.drop_last()) + if split_on(lines.last(), '\t').len() >= 5 {
            seq![peer_of_fields(split_on(lines.last(), '\t'))]
        } else {
            Seq::empty()
        }
    }
}

/// Whether no line after the first has five or six fields, for which the
/// reading would index fields that are missing.
pub open spec fn dump_well_formed(dump: Seq<char>) -> bool {
    forall|k: int|
        1 <= k < lines_spec(dump).len() ==> {
            let n = #[trigger] split_on(lines_spec(dump)[k], '\t').len();
            n < 5 || n >= 7
        }
}

/// What reading a dump gives: an error for no line or an interface line of
/// fewer than three fields; else the interface's key and port (0 when the
/// port does not parse) and the peers of the other lines.
pub open spec fn wg_dump_spec(dump: Seq<char>, iface: Seq<char>) -> Result<StatusModel, WireGuardError> {
    let ls = lines_spec(dump);
    if ls.len() == 0 {
        Err(WireGuardError::EmptyDump)
    } else if split_on(ls[0], '\t').len() < 3 {
        Err(WireGuardError::InvalidDumpFormat)
    } else {
        Ok(
            StatusModel {
                interface: iface,
                public_key: split_on(ls[0], '\t')[1],
                listen_port: number_or_zero(split_on(ls[0], '\t')[2], u16::MAX as nat) as u16,
                peers: peers_of_lines(ls.skip(1)),
            },
        )
    }
}

fn nonempty_strings(v: &Vec<char>, rs: &Vec<(usize, usize)>) -> (out: Vec<String>)
    requires
        forall|k: int| 0 <= k < rs@.len() ==> (#[trigger] rs@[k]).0 <= rs@[k].1 <= v@.len(),
    ensures
        views(out@) == nonempty_pieces(range_views(v@, rs@)),
{
    let mut out: Vec<String> = Vec::new();
    let mut i: usize = 0;
    while i < rs.len()
        invariant
            0 <= i <= rs@.len(),
            forall|k: int| 0 <= k < rs@.len() ==> (#[trigger] rs@[k]).0 <= rs@[k].1 <= v@.len(),
            views(out@) == nonempty_pieces(range_views(v@, rs@.subrange(0, i as int))),
        decreases rs.len() - i,
    {
        let (a, b) = rs[i];
        proof {
            assert(range_views(v@, rs@.subrange(0, i + 1)).drop_last() =~= range_views(v@, rs@.subrange(0, i as int)));
            assert(range_views(v@, rs@.subrange(0, i + 1)).last() == v@.subrange(a as int, b as int));
        }
        if a < b {
            push_string(&mut out, string_of(v, a, b));
            proof {
                assert(views(out@) =~= nonempty_pieces(range_views(v@, rs@.subrange(0, i + 1))));
            }
        } else {
            proof {
                assert(views(out@) =~= nonempty_pieces(range_views(v@, rs@.subrange(0, i + 1))));
            }
        }
        i = i + 1;
    }
    proof {
        assert(rs@.subrange(0, rs@.len() as int) =~= rs@);
    }
    out
}

fn peer_of_line(v: &Vec<char>, fields: &Vec<(usize, usize)>) -> (p: PeerStatus)
    requires
        fields@.len() >= 7,
        forall|k: int| 0 <= k < fields@.len() ==> (#[trigger] fields@[k]).0 <= fields@[k].1 <= v@.len(),
    ensures
        p@ == peer_of_fields(range_views(v@, fields@)),
{
    let ghost f = range_views(v@, fields@);
    let (k0, k1) = fields[0];
    let (e0, e1) = fields[2];
    let (a0, a1) = fields[3];
    let (h0, h1) = fields[4];
    let (r0, r1) = fields[5];
    let (t0, t1) = fields[6];
    proof {
        assert(f[0] == v@.subrange(k0 as int, k1 as int));
        assert(f[2] == v@.subrange(e0 as int, e1 as int));
        assert(f[3] == v@.subrange(a0 as int, a1 as int));
        assert(f[4] == v@.subrange(h0 as int, h1 as int));
        assert(f[5] == v@.subrange(r0 as int, r1 as int));
        assert(f[6] == v@.subrange(t0 as int, t1 as int));
    }
    let endpoint = if e0 < e1 {
        Some(string_of(v, e0, e1))
    } else {
        None
    };
    let ips = split_ranges(v, a0, a1, ',');
    let allowed_ips = nonempty_strings(v, &ips);
    let rx = match parse_unsigned_range(v, r0, r1, u64::MAX) {
        Some(n) => n,
        None => 0,
    };
    let tx = match parse_unsigned_range(v, t0, t1, u64::MAX) {
        Some(n) => n,
        None => 0,
    };
    PeerStatus {
        public_key: string_of(v, k0, k1),
        endpoint,
        allowed_ips,
        latest_handshake: parse_i64_range(v, h0, h1),
        transfer_rx: rx,
        transfer_tx: tx,
    }
}

/// The arguments of `ip` that create an interface.
pub open spec fn create_link_args(name: Seq<char>) -> Seq<Seq<char>> {
    seq!["link"@, "add"@, name, "type"@, "wireguard"@]
}

/// The arguments of `wg` that add or update a peer: its allowed addresses
/// joined with commas, its endpoint and its keepalive, each when present.
pub open spec fn add_peer_args_spec(interface: Seq<char>, p: WireGuardPeer) -> Seq<Seq<char>> {
    seq!["set"@, interface, "peer"@, p.public_key@] + (if p.allowed_ips@.len() > 0 {
        seq!["allowed-ips"@, join(views(p.allowed_ips@), ","@)]
    } else {
        Seq::empty()
    }) + (match p.endpoint {
        Some(e) => seq!["endpoint"@, e@],
        None => Seq::empty(),
    }) + match p.persistent_keepalive {
        Some(k) => seq!["persistent-keepalive"@, decimal(k as nat)],
        None => Seq::empty(),
    }
}

/// The `ip` and `wg` steps of WireGuard.
pub struct WireGuardManager {}

impl WireGuardManager {
    pub fn new() -> (m: WireGuardManager) {
        WireGuardManager {  }
    }

    /// The arguments of `ip` that create the interface.
    pub fn create_link_args(&self, config: &WireGuardInterface) -> (args: Vec<String>)
        ensures
            views(args@) == create_link_args(config.name@),
    {
        let mut args: Vec<String> = Vec::new();
        push_string(&mut args, owned("link"));
        push_string(&mut args, owned("add"));
        push_string(&mut args, config.name.clone());
        push_string(&mut args, owned("type"));
        push_string(&mut args, owned("wireguard"));
        proof {
            assert(views(args@) =~= create_link_args(config.name@));
        }
        args
    }

    /// The arguments of `ip` that add one address to the interface.
    pub fn address_args(&self, config: &WireGuardInterface, addr: &str) -> (args: Vec<String>)
        ensures
            views(args@) == seq!["address"@, "add"@, addr@, "dev"@, config.name@],
    {
        let mut args: Vec<String> = Vec::new();
        push_string(&mut args, owned("address"));
        push_string(&mut args, owned("add"));
        push_string(&mut args, owned(addr));
        push_string(&mut args, owned("dev"));
        push_string(&mut args, config.name.clone());
        proof {
            assert(views(args@) =~= seq!["address"@, "add"@, addr@, "dev"@, config.name@]);
        }
        args
    }

    /// The arguments of `wg` that set the interface's listening port.
    pub fn listen_port_args(&self, config: &WireGuardInterface) -> (args: Vec<String>)
        ensures
            views(args@) == seq!["set"@, config.name@, "listen-port"@, decimal(config.listen_port as nat)],
    {
        let mut args: Vec<String> = Vec::new();
        push_string(&mut args, owned("set"));
        push_string(&mut args, config.name.clone());
        push_string(&mut args, owned("listen-port"));
        let mut port = String::new();
        push_decimal(&mut port, config.listen_port as u64);
        proof {
            assert(port@ =~= decimal(config.listen_port as nat));
        }
        push_string(&mut args, port);
        proof {
            assert(views(args@) =~= seq!["set"@, config.name@, "listen-port"@, decimal(config.listen_port as nat)]);
        }
        args
    }

    /// The arguments of `wg` that add or update a peer.
    pub fn add_peer_args(&self, interface: &str, peer: &WireGuardPeer) -> (args: Vec<String>)
        ensures
            views(args@) == add_peer_args_spec(interface@, *peer),
    {
        let mut args: Vec<String> = Vec::new();
        push_string(&mut args, owned("set"));
        push_string(&mut args, owned(interface));
        push_string(&mut args, owned("peer"));
        push_string(&mut args, peer.public_key.clone());
        let ghost head = views(args@);
        if peer.allowed_ips.len() > 0 {
            push_string(&mut args, owned("allowed-ips"));
            push_string(&mut args, join_strings(&peer.allowed_ips, ","));
        }
        let ghost mid = views(args@);
        match &peer.endpoint {
            Some(e) => {
                push_string(&mut args, owned("endpoint"));
                push_string(&mut args, e.clone());
            },
            None => {},
        }
        let ghost mid2 = views(args@);
        match peer.persistent_keepalive {
            Some(k) => {
                push_string(&mut args, owned("persistent-keepalive"));
                let mut ks = String::new();
                push_decimal(&mut ks, k as u64);
                proof {
                    assert(ks@ =~= decimal(k as nat));
                }
                push_string(&mut args, ks);
            },
            None => {},
        }
        proof {
            assert(views(args@) =~= add_peer_args_spec(interface@, *peer));
        }
        args
    }

    /// The arguments of `wg` that remove a peer.
    pub fn remove_peer_args(&self, interface: &str, public_key: &str) -> (args: Vec<String>)
        ensures
            views(args@) == seq!["set"@, interface@, "peer"@, public_key@, "remove"@],
    {
        let mut args: Vec<String> = Vec::new();
        push_string(&mut args, owned("set"));
        push_string(&mut args, owned(interface));
        push_string(&mut args, owned("peer"));
        push_string(&mut args, owned(public_key));
        push_string(&mut args, owned("remove"));
        proof {
            assert(views(args@) =~= seq!["set"@, interface@, "peer"@, public_key@, "remove"@]);
        }
        args
    }

    /// Reads the output of `wg show <interface> dump`: the first line
    /// describes the interface, each further line of at least five
    /// tab-separated fields a peer.  Lines of five or six fields are not
    /// accepted.
    pub fn parse_wg_dump(&self, dump: &str, interface: &str) -> (r: Result<WireGuardStatus, WireGuardError>)
        requires
            dump_well_formed(dump@),
        ensures
            match r {
                Ok(st) => wg_dump_spec(dump@, interface@) == Ok::<StatusModel, WireGuardError>(st@),
                Err(e) => wg_dump_spec(dump@, interface@) == Err::<StatusModel, WireGuardError>(e),
            },
    {
        let v = chars_of(dump);
        let lines = line_ranges(&v);
        let ghost ls = lines_spec(v@);
        if lines.len() == 0 {
            return Err(WireGuardError::EmptyDump);
        }
        let (l0, l1) = lines[0];
        proof {
            assert(ls[0] == v@.subrange(l0 as int, l1 as int));
        }
        let head = split_ranges(&v, l0, l1, '\t');
        if head.len() < 3 {
            return Err(WireGuardError::InvalidDumpFormat);
        }
        let ghost hf = range_views(v@, head@);
        let (k0, k1) = head[1];
        let (p0, p1) = head[2];
        proof {
            assert(hf[1] == v@.subrange(k0 as int, k1 as int));
            assert(hf[2] == v@.subrange(p0 as int, p1 as int));
        }
        let port = match parse_unsigned_range(&v, p0, p1, 65535) {
            Some(n) => n as u16,
            None => 0,
        };
        let mut peers: Vec<PeerStatus> = Vec::new();
        let ghost rest = ls.skip(1);
        let mut i: usize = 1;
        while i < lines.len()
            invariant
                1 <= i <= lines@.len(),
                range_views(v@, lines@) == ls,
                ls == lines_spec(v@),
                v@ == dump@,
                rest == ls.skip(1),
                dump_well_formed(dump@),
                forall|k: int| 0 <= k < lines@.len() ==> (#[trigger] lines@[k]).0 <= lines@[k].1 <= v@.len(),
                peers@.map_values(|p: PeerStatus| p@) == peers_of_lines(rest.subrange(0, i - 1)),
            decreases lines.len() - i,
        {
            let (a, b) = lines[i];
            let fields = split_ranges(&v, a, b, '\t');
            let ghost line = ls[i as int];
            proof {
                assert(line == v@.subrange(a as int, b as int));
                assert(rest.subrange(0, i as int).drop_last() =~= rest.subrange(0, i - 1));
                assert(rest.subrange(0, i as int).last() == line);
                assert(split_on(ls[i as int], '\t').len() == fields@.len());
            }
            if fields.len() >= 5 {
                let ghost before = peers@.map_values(|p: PeerStatus| p@);
                let peer = peer_of_line(&v, &fields);
                peers.push(peer);
                proof {
                    assert(peers@.map_values(|p: PeerStatus| p@) =~= before.push(peer@));
                    assert(peers@.map_values(|p: PeerStatus| p@) =~= peers_of_lines(rest.subrange(0, i as int)));
                }
            } else {
                proof {
                    assert(peers@.map_values(|p: PeerStatus| p@) =~= peers_of_lines(rest.subrange(0, i as int)));
                }
            }
            i = i + 1;
        }
        proof {
            assert(rest.subrange(0, lines@.len() - 1) =~= rest);
        }
        let st = WireGuardStatus {
            interface: owned(interface),
            public_key: string_of(&v, k0, k1),
            listen_port: port,
            peers,
        };
        proof {
            assert(st@.peers =~= peers_of_lines(ls.skip(1)));
        }
        Ok(st)
    }
}

impl Default for WireGuardManager {
    fn default() -> (m: WireGuardManager) {
        WireGuardManager::new()
    }
}

} // verus!
