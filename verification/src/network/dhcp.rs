//! DHCP service: the text of the ISC server's configuration, static
//! reservations, and the reading of its lease file.
use vstd::prelude::*;
use crate::net::{Ipv4Address, ipv4_text, parse_ipv4_range, parse_ipv4_spec, push_ipv4};
use crate::text::{
    chars_of, concat_map, decimal, eq_at, first_token, first_token_range, join, lemma_split_on_start,
    lemma_split_on_step, owned, prefix_at, push_decimal, split_on, string_of, trim, trim_end_matches,
    trim_end_matches_range, trim_end_range, trim_start_range, is_ws, trim_start, trim_end,
};

verus! {

/// The settings of the DHCP server on one interface.
#[derive(Clone, Debug)]
pub struct DhcpConfig {
    pub enabled: bool,
    pub interface: String,
    pub subnet: String,
    pub netmask: String,
    pub range_start: Ipv4Address,
    pub range_end: Ipv4Address,
    pub gateway: Option<Ipv4Address>,
    pub dns_servers: Vec<Ipv4Address>,
    /// In seconds.
    pub lease_time: u32,
    pub domain_name: Option<String>,
}

/// A lease read from the server's lease file.
#[derive(Clone, Debug)]
pub struct DhcpLease {
    pub ip_address: Ipv4Address,
    pub mac_address: String,
    pub hostname: Option<String>,
    pub lease_start: i64,
    pub lease_end: i64,
    pub state: LeaseState,
}

#[derive(PartialEq, Eq, Structural, Clone, Copy, Debug)]
pub enum LeaseState {
    Active,
    Expired,
    Reserved,
}

/// A fixed address for a hardware address.
#[derive(Clone, Debug)]
pub struct StaticLease {
    pub mac_address: String,
    pub ip_address: Ipv4Address,
    pub hostname: Option<String>,
}

/// A lease as plain values.
pub struct LeaseModel {
    pub ip_address: Ipv4Address,
    pub mac_address: Seq<char>,
    pub hostname: Option<Seq<char>>,
    pub lease_start: i64,
    pub lease_end: i64,
    pub state: LeaseState,
}

impl View for DhcpLease {
    type V = LeaseModel;

    open spec fn view(&self) -> LeaseModel {
        LeaseModel {
            ip_address: self.ip_address,
            mac_address: self.mac_address@,
            hostname: match self.hostname {
                Some(h) => Some(h@),
                None => None,
            },
            lease_start: self.lease_start,
            lease_end: self.lease_end,
            state: self.state,
        }
    }
}

/// The models of some leases.
pub open spec fn lease_models(v: Seq<DhcpLease>) -> Seq<LeaseModel> {
    v.map_values(|l: DhcpLease| l@)
}

/// The model of a lease being read, if any.
pub open spec fn opt_model(o: Option<DhcpLease>) -> Option<LeaseModel> {
    match o {
        Some(l) => Some(l@),
        None => None,
    }
}

// ---------------------------------------------------------------------------
// The configuration text.

/// The addresses of the DNS servers, separated by `, `.
pub open spec fn dns_list(v: Seq<Ipv4Address>) -> Seq<char> {
    join(v.map_values(|a: Ipv4Address| ipv4_text(a)), ", "@)
}

/// The opening of the server's configuration, with the lease times.
pub open spec fn dhcp_head_text(c: DhcpConfig) -> Seq<char> {
    "# Patronus DHCP Server Configuration\n# Generated automatically - do not edit manually\n\nddns-update-style none;\nauthoritative;\n\ndefault-lease-time "@
        + decimal(c.lease_time as nat) + ";\nmax-lease-time "@ + decimal((c.lease_time * 2) as nat) + ";\n\n"@
}

/// The domain name and DNS server options, where there are any.
pub open spec fn dhcp_options_text(c: DhcpConfig) -> Seq<char> {
    (match c.domain_name {
        Some(d) => "option domain-name \""@ + d@ + "\";\n"@,
        None => Seq::empty(),
    }) + (if c.dns_servers@.len() > 0 {
        "option domain-name-servers "@ + dns_list(c.dns_servers@) + ";\n"@
    } else {
        Seq::empty()
    })
}

/// The subnet declaration, with its range and gateway.
pub open spec fn dhcp_subnet_text(c: DhcpConfig) -> Seq<char> {
    "\nsubnet "@ + c.subnet@ + " netmask "@ + c.netmask@ + " {\n    range "@ + ipv4_text(c.range_start) + " "@
        + ipv4_text(c.range_end) + ";\n"@ + match c.gateway {
        Some(g) => "    option routers "@ + ipv4_text(g) + ";\n"@,
        None => Seq::empty(),
    } + "}\n"@
}

/// The text of the server's configuration.
pub open spec fn dhcp_config_text(c: DhcpConfig) -> Seq<char> {
    dhcp_head_text(c) + dhcp_options_text(c) + dhcp_subnet_text(c)
}

/// The text added to the configuration for a static reservation.
pub open spec fn static_lease_text(r: StaticLease) -> Seq<char> {
    "\n# Static reservation: "@ + match r.hostname {
        Some(h) => h@,
        None => "unknown"@,
    } + "\nhost "@ + match r.hostname {
        Some(h) => h@,
        None => r.mac_address@,
    } + " {\n    hardware ethernet "@ + r.mac_address@ + ";\n    fixed-address "@ + ipv4_text(r.ip_address)
        + ";\n}\n"@
}

fn push_dns_list(conf: &mut String, v: &Vec<Ipv4Address>)
    ensures
        final(conf)@ == old(conf)@ + dns_list(v@),
{
    let ghost base = conf@;
    let ghost f = |a: Ipv4Address| ipv4_text(a);
    let mut i: usize = 0;
    while i < v.len()
        invariant
            0 <= i <= v.len(),
            f == (|a: Ipv4Address| ipv4_text(a)),
            conf@ == base + join(v@.subrange(0, i as int).map_values(f), ", "@),
        decreases v.len() - i,
    {
        let ghost pre = v@.subrange(0, i as int).map_values(f);
        let ghost post = v@.subrange(0, i + 1).map_values(f);
        proof {
            assert(post.drop_last() =~= pre);
            assert(post.last() == ipv4_text(v@[i as int]));
        }
        if i > 0 {
            conf.append(", ");
        }
        push_ipv4(conf, v[i]);
        proof {
            assert(conf@ =~= base + join(post, ", "@));
        }
        i = i + 1;
    }
    proof {
        assert(v@.subrange(0, v@.len() as int) =~= v@);
    }
}

// ---------------------------------------------------------------------------
// Reading the lease file.

/// A lease file being read: the leases kept so far, and the one whose
/// block is open.
pub struct LeaseScan {
    pub leases: Seq<LeaseModel>,
    pub current: Option<LeaseModel>,
}

/// The state that a `binding state` word names; an unknown word counts as
/// active.
pub open spec fn state_of_word(w: Seq<char>) -> LeaseState {
    if w == "expired"@ {
        LeaseState::Expired
    } else if w == "reserved"@ {
        LeaseState::Reserved
    } else {
        LeaseState::Active
    }
}

/// `s` without the `"` and `;` characters at either end.
pub open spec fn trim_quotes_semis(s: Seq<char>) -> Seq<char> {
    trim_end_qs(trim_start_qs(s))
}

pub open spec fn is_qs(c: char) -> bool {
    c == '"' || c == ';'
}

pub open spec fn trim_start_qs(s: Seq<char>) -> Seq<char>
    decreases s.len(),
{
    if s.len() > 0 && is_qs(s[0]) {
        trim_start_qs(s.drop_first())
    } else {
        s
    }
}

pub open spec fn trim_end_qs(s: Seq<char>) -> Seq<char>
    decreases s.len(),
{
    if s.len() > 0 && is_qs(s.last()) {
        trim_end_qs(s.drop_last())
    } else {
        s
    }
}

/// What a line inside a lease block changes: the hardware address, the
/// client's host name or the binding state; other lines change nothing.
pub open spec fn lease_update(l: LeaseModel, t: Seq<char>) -> LeaseModel {
    if "hardware ethernet "@.is_prefix_of(t) {
        match first_token(trim_end_matches(t.skip("hardware ethernet "@.len() as int), ';')) {
            Some(m) => LeaseModel { mac_address: m, ..l },
            None => l,
        }
    } else if "client-hostname "@.is_prefix_of(t) {
        match first_token(trim_quotes_semis(t.skip("client-hostname "@.len() as int))) {
            Some(h) => LeaseModel { hostname: Some(h), ..l },
            None => l,
        }
    } else if "binding state "@.is_prefix_of(t) {
        match first_token(trim_end_matches(t.skip("binding state "@.len() as int), ';')) {
            Some(w) => LeaseModel { state: state_of_word(w), ..l },
            None => l,
        }
    } else {
        l
    }
}

/// A lease just opened for an address: active, no hardware address yet.
pub open spec fn fresh_lease(ip: Ipv4Address) -> LeaseModel {
    LeaseModel {
        ip_address: ip,
        mac_address: Seq::empty(),
        hostname: None,
        lease_start: 0,
        lease_end: 0,
        state: LeaseState::Active,
    }
}

/// One trimmed line of the lease file: `lease <address>` opens a lease,
/// lines inside a lease update it, and `}` closes it, keeping it only when
/// it has a hardware address.
pub open spec fn lease_step(st: LeaseScan, t: Seq<char>) -> LeaseScan {
    let st1 = if "lease "@.is_prefix_of(t) {
        match first_token(t.skip("lease "@.len() as int)) {
            Some(tok) => match parse_ipv4_spec(tok) {
                Some(ip) => LeaseScan { leases: st.leases, current: Some(fresh_lease(ip)) },
                None => st,
            },
            None => st,
        }
    } else {
        match st.current {
            Some(l) => LeaseScan { leases: st.leases, current: Some(lease_update(l, t)) },
            None => st,
        }
    };
    if t == "}"@ {
        match st1.current {
            Some(l) => LeaseScan {
                leases: if l.mac_address.len() > 0 {
                    st1.leases.push(l)
                } else {
                    st1.leases
                },
                current: None,
            },
            None => st1,
        }
    } else {
        st1
    }
}

/// The state after the given lines, each trimmed, from the start.
pub open spec fn lease_fold(lines: Seq<Seq<char>>) -> LeaseScan
    decreases lines.len(),
{
    if lines.len() == 0 {
        LeaseScan { leases: Seq::empty(), current: None }
    } else {
        lease_step(lease_fold(lines.drop_last()), trim(lines.last()))
    }
}

/// The leases of a lease file's text, in order.
pub open spec fn parse_leases_spec(s: Seq<char>) -> Seq<LeaseModel> {
    lease_fold(split_on(s, '\n')).leases
}

fn trim_start_qs_range(v: &Vec<char>, lo: usize, hi: usize) -> (r: usize)
    requires
        lo <= hi <= v@.len(),
    ensures
        lo <= r <= hi,
        v@.subrange(r as int, hi as int) == trim_start_qs(v@.subrange(lo as int, hi as int)),
{
    let mut i = lo;
    while i < hi && (v[i] == '"' || v[i] == ';')
        invariant
            lo <= i <= hi <= v@.len(),
            trim_start_qs(v@.subrange(i as int, hi as int)) == trim_start_qs(v@.subrange(lo as int, hi as int)),
        decreases hi - i,
    {
        proof {
            assert(v@.subrange(i as int, hi as int).drop_first() =~= v@.subrange(i + 1, hi as int));
        }
        i = i + 1;
    }
    i
}

fn trim_end_qs_range(v: &Vec<char>, lo: usize, hi: usize) -> (r: usize)
    requires
        lo <= hi <= v@.len(),
    ensures
        lo <= r <= hi,
        v@.subrange(lo as int, r as int) == trim_end_qs(v@.subrange(lo as int, hi as int)),
{
    let mut j = hi;
    while j > lo && (v[j - 1] == '"' || v[j - 1] == ';')
        invariant
            lo <= j <= hi <= v@.len(),
            trim_end_qs(v@.subrange(lo as int, j as int)) == trim_end_qs(v@.subrange(lo as int, hi as int)),
        decreases j - lo,
    {
        proof {
            assert(v@.subrange(lo as int, j as int).drop_last() =~= v@.subrange(lo as int, j - 1));
        }
        j = j - 1;
    }
    j
}

/// The model of a lease after `lease_update`, carried out on the lease.
fn update_lease(lease: &mut DhcpLease, v: &Vec<char>, lo: usize, hi: usize)
    requires
        lo <= hi <= v@.len(),
    ensures
        final(lease)@ == lease_update(old(lease)@, v@.subrange(lo as int, hi as int)),
{
    let ghost t = v@.subrange(lo as int, hi as int);
    proof {
        reveal_strlit("hardware ethernet ");
        reveal_strlit("client-hostname ");
        reveal_strlit("binding state ");
    }
    if prefix_at(v, lo, hi, "hardware ethernet ") {
        let a = lo + 18;
        assert(t.skip("hardware ethernet "@.len() as int) =~= v@.subrange(a as int, hi as int));
        let b = trim_end_matches_range(v, a, hi, ';');
        match first_token_range(v, a, b) {
            Some((x, y)) => {
                lease.mac_address = string_of(v, x, y);
            },
            None => {},
        }
    } else if prefix_at(v, lo, hi, "client-hostname ") {
        let a = lo + 16;
        assert(t.skip("client-hostname "@.len() as int) =~= v@.subrange(a as int, hi as int));
        let a2 = trim_start_qs_range(v, a, hi);
        let b2 = trim_end_qs_range(v, a2, hi);
        match first_token_range(v, a2, b2) {
            Some((x, y)) => {
                lease.hostname = Some(string_of(v, x, y));
            },
            None => {},
        }
    } else if prefix_at(v, lo, hi, "binding state ") {
        let a = lo + 14;
        assert(t.skip("binding state "@.len() as int) =~= v@.subrange(a as int, hi as int));
        let b = trim_end_matches_range(v, a, hi, ';');
        match first_token_range(v, a, b) {
            Some((x, y)) => {
                if eq_at(v, x, y, "expired") {
                    lease.state = LeaseState::Expired;
                } else if eq_at(v, x, y, "reserved") {
                    lease.state = LeaseState::Reserved;
                } else {
                    lease.state = LeaseState::Active;
                }
            },
            None => {},
        }
    }
}

/// Carries out `lease_step` on one line `v[lo..hi]`.
fn scan_line(v: &Vec<char>, lo: usize, hi: usize, leases: &mut Vec<DhcpLease>, current: &mut Option<DhcpLease>)
    requires
        lo <= hi <= v@.len(),
    ensures
        ({
            let st = lease_step(
                LeaseScan { leases: lease_models(old(leases)@), current: opt_model(*old(current)) },
                trim(v@.subrange(lo as int, hi as int)),
            );
            &&& lease_models(final(leases)@) == st.leases
            &&& opt_model(*final(current)) == st.current
        }),
{
    let a = trim_start_range(v, lo, hi);
    let b = trim_end_range(v, a, hi);
    let ghost t = v@.subrange(a as int, b as int);
    let ghost st0 = LeaseScan { leases: lease_models(leases@), current: opt_model(*current) };
    proof {
        assert(t == trim(v@.subrange(lo as int, hi as int)));
        reveal_strlit("lease ");
        reveal_strlit("}");
    }
    if prefix_at(v, a, b, "lease ") {
        let c = a + 6;
        assert(t.skip("lease "@.len() as int) =~= v@.subrange(c as int, b as int));
        match first_token_range(v, c, b) {
            Some((x, y)) => {
                match parse_ipv4_range(v, x, y) {
                    Some(ip) => {
                        *current = Some(
                            DhcpLease {
                                ip_address: ip,
                                mac_address: String::new(),
                                hostname: None,
                                lease_start: 0,
                                lease_end: 0,
                                state: LeaseState::Active,
                            },
                        );
                        proof {
                            assert(opt_model(*current) == Some(fresh_lease(ip)));
                        }
                    },
                    None => {},
                }
            },
            None => {},
        }
    } else {
        match current {
            Some(lease) => {
                update_lease(lease, v, a, b);
            },
            None => {},
        }
    }
    if eq_at(v, a, b, "}") {
        let taken = current.take();
        match taken {
            Some(lease) => {
                if !lease.mac_address.as_str().is_empty() {
                    let ghost before = leases@;
                    leases.push(lease);
                    proof {
                        assert(lease_models(leases@) =~= lease_models(before).push(lease@));
                    }
                } else {
                    proof {
                        assert(lease@.mac_address.len() == 0);
                    }
                }
            },
            None => {},
        }
    }
}

/// Reads the leases out of the text of a lease file: each `lease` block
/// with a hardware address gives one lease, in the order of the file.
pub fn parse_leases(content: &str) -> (r: Vec<DhcpLease>)
    ensures
        lease_models(r@) == parse_leases_spec(content@),
{
    let v = chars_of(content);
    let ghost s = v@;
    let mut leases: Vec<DhcpLease> = Vec::new();
    let mut current: Option<DhcpLease> = None;
    let mut start: usize = 0;
    let mut i: usize = 0;
    let ghost mut done: Seq<Seq<char>> = Seq::empty();
    proof {
        lemma_split_on_start(s, '\n');
        assert(lease_models(leases@) =~= Seq::<LeaseModel>::empty());
    }
    while i < v.len()
        invariant
            0 <= start <= i <= v@.len(),
            s == v@,
            split_on(s.take(i as int), '\n') == done.push(s.subrange(start as int, i as int)),
            lease_models(leases@) == lease_fold(done).leases,
            opt_model(current) == lease_fold(done).current,
        decreases v.len() - i,
    {
        proof {
            lemma_split_on_step(s, '\n', i as int, start as int, done);
        }
        if v[i] == '\n' {
            scan_line(&v, start, i, &mut leases, &mut current);
            proof {
                let nd = done.push(s.subrange(start as int, i as int));
                assert(nd.drop_last() =~= done);
                done = nd;
            }
            start = i + 1;
        }
        i = i + 1;
    }
    scan_line(&v, start, v.len(), &mut leases, &mut current);
    proof {
        assert(s.take(s.len() as int) =~= s);
        let all = done.push(s.subrange(start as int, s.len() as int));
        assert(all.drop_last() =~= done);
    }
    leases
}

fn push_dhcp_head(conf: &mut String, config: &DhcpConfig)
    requires
        config.lease_time * 2 <= u32::MAX,
    ensures
        final(conf)@ == old(conf)@ + dhcp_head_text(*config),
{
    let ghost base = conf@;
    conf.append(
        "# Patronus DHCP Server Configuration\n# Generated automatically - do not edit manually\n\nddns-update-style none;\nauthoritative;\n\ndefault-lease-time ",
    );
    push_decimal(conf, config.lease_time as u64);
    conf.append(";\nmax-lease-time ");
    push_decimal(conf, (config.lease_time * 2) as u64);
    conf.append(";\n\n");
    proof {
        assert(conf@ =~= base + dhcp_head_text(*config));
    }
}

fn push_dhcp_options(conf: &mut String, config: &DhcpConfig)
    ensures
        final(conf)@ == old(conf)@ + dhcp_options_text(*config),
{
    let ghost base = conf@;
    match &config.domain_name {
        Some(d) => {
            conf.append("option domain-name \"");
            conf.append(d.as_str());
            conf.append("\";\n");
        },
        None => {},
    }
    let ghost p2 = conf@;
    if config.dns_servers.len() > 0 {
        conf.append("option domain-name-servers ");
        push_dns_list(conf, &config.dns_servers);
        conf.append(";\n");
    }
    proof {
        assert(conf@ =~= base + dhcp_options_text(*config));
    }
}

fn push_dhcp_subnet(conf: &mut String, config: &DhcpConfig)
    ensures
        final(conf)@ == old(conf)@ + dhcp_subnet_text(*config),
{
    let ghost base = conf@;
    conf.append("\nsubnet ");
    conf.append(config.subnet.as_str());
    conf.append(" netmask ");
    conf.append(config.netmask.as_str());
    conf.append(" {\n    range ");
    push_ipv4(conf, config.range_start);
    conf.append(" ");
    push_ipv4(conf, config.range_end);
    conf.append(";\n");
    match config.gateway {
        Some(g) => {
            conf.append("    option routers ");
            push_ipv4(conf, g);
            conf.append(";\n");
        },
        None => {},
    }
    conf.append("}\n");
    proof {
        assert(conf@ =~= base + dhcp_subnet_text(*config));
    }
}

/// The server's configuration and lease files.
pub struct DhcpManager {
    config_path: String,
    leases_path: String,
}

impl DhcpManager {
    pub closed spec fn config_path_view(&self) -> Seq<char> {
        self.config_path@
    }

    pub closed spec fn leases_path_view(&self) -> Seq<char> {
        self.leases_path@
    }

    /// Configuration in `/etc/patronus/dhcp.conf`, leases in
    /// `/var/lib/patronus/dhcp.leases`.
    pub fn new() -> (m: DhcpManager)
        ensures
            m.config_path_view() == "/etc/patronus/dhcp.conf"@,
            m.leases_path_view() == "/var/lib/patronus/dhcp.leases"@,
    {
        DhcpManager {
            config_path: owned("/etc/patronus/dhcp.conf"),
            leases_path: owned("/var/lib/patronus/dhcp.leases"),
        }
    }

    /// The path of the configuration file.
    pub fn config_path(&self) -> (p: String)
        ensures
            p@ == self.config_path_view(),
    {
        self.config_path.clone()
    }

    /// The path of the lease file.
    pub fn leases_path(&self) -> (p: String)
        ensures
            p@ == self.leases_path_view(),
    {
        self.leases_path.clone()
    }

    /// The ISC server's configuration for the settings; it never fails.
    /// The maximum lease time is twice the default one, so the default must
    /// be at most half the largest `u32`.
    pub fn generate_config(&self, config: &DhcpConfig) -> (r: Result<String, DhcpError>)
        requires
            config.lease_time * 2 <= u32::MAX,
        ensures
            r matches Ok(conf) && conf@ == dhcp_config_text(*config),
    {
        let mut conf = String::new();
        push_dhcp_head(&mut conf, config);
        push_dhcp_options(&mut conf, config);
        push_dhcp_subnet(&mut conf, config);
        proof {
            assert(conf@ =~= dhcp_config_text(*config));
        }
        Ok(conf)
    }

    /// The text that a static reservation appends to the configuration: the
    /// host block is named after the host name, or the hardware address
    /// when there is none.
    pub fn static_lease_entry(&self, reservation: &StaticLease) -> (e: String)
        ensures
            e@ == static_lease_text(*reservation),
    {
        let mut e = String::new();
        e.append("\n# Static reservation: ");
        match &reservation.hostname {
            Some(h) => e.append(h.as_str()),
            None => e.append("unknown"),
        }
        e.append("\nhost ");
        match &reservation.hostname {
            Some(h) => e.append(h.as_str()),
            None => e.append(reservation.mac_address.as_str()),
        }
        e.append(" {\n    hardware ethernet ");
        e.append(reservation.mac_address.as_str());
        e.append(";\n    fixed-address ");
        push_ipv4(&mut e, reservation.ip_address);
        e.append(";\n}\n");
        proof {
            assert(e@ =~= static_lease_text(*reservation));
        }
        e
    }

    /// The leases in the text of the lease file; see `parse_leases`.
    pub fn get_leases(&self, leases_content: &str) -> (r: Result<Vec<DhcpLease>, DhcpError>)
        ensures
            r matches Ok(v) && lease_models(v@) == parse_leases_spec(leases_content@),
    {
        Ok(parse_leases(leases_content))
    }
}

impl Default for DhcpManager {
    fn default() -> (m: DhcpManager)
        ensures
            m.config_path_view() == "/etc/patronus/dhcp.conf"@,
            m.leases_path_view() == "/var/lib/patronus/dhcp.leases"@,
    {
        DhcpManager::new()
    }
}

/// Why a DHCP operation failed.
#[derive(Clone, Debug)]
pub enum DhcpError {
    Network(String),
}

/// Every lease read from a file has a hardware address.
pub proof fn lemma_parsed_leases_have_mac(lines: Seq<Seq<char>>)
    ensures
        forall|k: int|
            0 <= k < lease_fold(lines).leases.len() ==> (#[trigger] lease_fold(lines).leases[k]).mac_address.len() > 0,
    decreases lines.len(),
{
    if lines.len() > 0 {
        lemma_parsed_leases_have_mac(lines.drop_last());
        let st = lease_fold(lines.drop_last());
        let t = trim(lines.last());
        let next = lease_fold(lines);
        assert(next == lease_step(st, t));
        assert forall|k: int| 0 <= k < next.leases.len() implies (#[trigger] next.leases[k]).mac_address.len() > 0 by {
            if k < st.leases.len() {
                let st1 = if "lease "@.is_prefix_of(t) {
                    match first_token(t.skip("lease "@.len() as int)) {
                        Some(tok) => match parse_ipv4_spec(tok) {
                            Some(ip) => LeaseScan { leases: st.leases, current: Some(fresh_lease(ip)) },
                            None => st,
                        },
                        None => st,
                    }
                } else {
                    match st.current {
                        Some(l) => LeaseScan { leases: st.leases, current: Some(lease_update(l, t)) },
                        None => st,
                    }
                };
                assert(st1.leases == st.leases);
                assert(next.leases[k] == st.leases[k]);
            }
        }
    }
}

/// With a gateway configured, the configuration hands that gateway to the
/// clients: its text holds the line `    option routers <gateway>;`.
pub proof fn lemma_gateway_is_the_router(c: DhcpConfig, g: Ipv4Address)
    requires
        c.gateway == Some(g),
    ensures
        ({
            let line = "    option routers "@ + ipv4_text(g) + ";\n"@;
            let t = dhcp_config_text(c);
            exists|off: int| 0 <= off && off + line.len() <= t.len() && #[trigger] t.subrange(off, off + line.len()) == line
        }),
{
    let line = "    option routers "@ + ipv4_text(g) + ";\n"@;
    let a = "\nsubnet "@ + c.subnet@ + " netmask "@ + c.netmask@ + " {\n    range "@ + ipv4_text(c.range_start) + " "@
        + ipv4_text(c.range_end) + ";\n"@;
    let pre = dhcp_head_text(c) + dhcp_options_text(c) + a;
    let t = dhcp_config_text(c);
    assert(dhcp_subnet_text(c) == a + line + "}\n"@);
    assert(t =~= pre + line + "}\n"@);
    let off = pre.len() as int;
    assert(t.subrange(off, off + line.len()) =~= line);
}

/// The configuration hands out the configured range: its text holds the
/// line `    range <start> <end>;`.
pub proof fn lemma_range_is_configured(c: DhcpConfig)
    ensures
        ({
            let line = "    range "@ + ipv4_text(c.range_start) + " "@ + ipv4_text(c.range_end) + ";\n"@;
            let t = dhcp_config_text(c);
            exists|off: int| 0 <= off && off + line.len() <= t.len() && #[trigger] t.subrange(off, off + line.len()) == line
        }),
{
    let line = "    range "@ + ipv4_text(c.range_start) + " "@ + ipv4_text(c.range_end) + ";\n"@;
    let a = "\nsubnet "@ + c.subnet@ + " netmask "@ + c.netmask@ + " {\n"@;
    let rest = match c.gateway {
        Some(gw) => "    option routers "@ + ipv4_text(gw) + ";\n"@,
        None => Seq::empty(),
    } + "}\n"@;
    let pre = dhcp_head_text(c) + dhcp_options_text(c) + a;
    let t = dhcp_config_text(c);
    reveal_strlit(" {\n    range ");
    reveal_strlit(" {\n");
    reveal_strlit("    range ");
    assert(" {\n    range "@ =~= " {\n"@ + "    range "@);
    assert(dhcp_subnet_text(c) =~= a + line + rest);
    assert(t =~= pre + line + rest);
    let off = pre.len() as int;
    assert(t.subrange(off, off + line.len()) =~= line);
}

} // verus!
