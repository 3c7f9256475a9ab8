//! DNS resolution with Unbound: the resolver's settings and the text of its
//! configuration file.
use vstd::prelude::*;
use crate::net::{IpAddress, ip_text, push_ip};
use crate::text::{concat_map, decimal, lemma_concat_map_full, lemma_concat_map_step, owned, push_decimal};

verus! {

/// Whether Unbound resolves recursively or forwards to upstream servers.
#[derive(PartialEq, Eq, Structural, Clone, Copy, Debug)]
pub enum DnsMode {
    Resolver,
    Forwarder,
}

#[derive(PartialEq, Eq, Structural, Clone, Copy, Debug)]
pub enum DnsRecordType {
    A,
    AAAA,
    CNAME,
    MX,
    PTR,
    TXT,
    SRV,
}

/// A local record that overrides resolution.
#[derive(Clone, Debug)]
pub struct DnsRecord {
    pub hostname: String,
    pub record_type: DnsRecordType,
    pub value: String,
    pub ttl: Option<u32>,
}

/// An access-control entry: a network in CIDR notation and an action.
#[derive(Clone, Debug)]
pub struct DnsAccessControl {
    pub network: String,
    pub action: DnsAction,
}

#[derive(PartialEq, Eq, Structural, Clone, Copy, Debug)]
pub enum DnsAction {
    Allow,
    Deny,
    Refuse,
    /// Allowed, but answered without caching.
    AllowSnoop,
}

impl DnsAction {
    /// The action's word in Unbound's configuration.
    pub open spec fn word(self) -> Seq<char> {
        match self {
            DnsAction::Allow => "allow"@,
            DnsAction::Deny => "deny"@,
            DnsAction::Refuse => "refuse"@,
            DnsAction::AllowSnoop => "allow_snoop"@,
        }
    }

    /// The action's word, such as `allow_snoop`.
    pub fn as_str(&self) -> (s: &'static str)
        ensures
            s@ == self.word(),
    {
        match self {
            DnsAction::Allow => "allow",
            DnsAction::Deny => "deny",
            DnsAction::Refuse => "refuse",
            DnsAction::AllowSnoop => "allow_snoop",
        }
    }

    /// The action's word, as a string.
    pub fn to_string(&self) -> (s: String)
        ensures
            s@ == self.word(),
    {
        owned(self.as_str())
    }
}

/// The resolver's settings.
#[derive(Clone, Debug)]
pub struct UnboundConfig {
    pub enabled: bool,
    pub mode: DnsMode,
    pub listen_addresses: Vec<IpAddress>,
    pub listen_port: u16,
    pub outgoing_interfaces: Vec<IpAddress>,
    pub access_control: Vec<DnsAccessControl>,
    /// Upstream servers, when forwarding.
    pub forward_servers: Vec<IpAddress>,
    /// DNS over TLS to the upstream servers.
    pub forward_tls: bool,
    pub forward_tls_name: Option<String>,
    pub dnssec_enabled: bool,
    pub trust_anchor_file: Option<String>,
    pub num_threads: u32,
    /// Such as `50m`.
    pub msg_cache_size: String,
    pub rrset_cache_size: String,
    pub cache_min_ttl: u32,
    pub cache_max_ttl: u32,
    pub hide_identity: bool,
    pub hide_version: bool,
    pub minimal_responses: bool,
    pub qname_minimisation: bool,
    /// Such as `local.`.
    pub local_zone: Option<String>,
    pub local_records: Vec<DnsRecord>,
    /// URLs or paths of block lists.
    pub blocklists: Vec<String>,
    pub log_queries: bool,
    pub log_replies: bool,
    /// From 0 to 5.
    pub verbosity: u8,
}

/// `line` when `b` holds, else nothing.
pub open spec fn flag_line(b: bool, line: Seq<char>) -> Seq<char> {
    if b {
        line
    } else {
        Seq::empty()
    }
}

/// The record's type word, such as `AAAA`.
pub open spec fn record_type_word(t: DnsRecordType) -> Seq<char> {
    match t {
        DnsRecordType::A => "A"@,
        DnsRecordType::AAAA => "AAAA"@,
        DnsRecordType::CNAME => "CNAME"@,
        DnsRecordType::MX => "MX"@,
        DnsRecordType::PTR => "PTR"@,
        DnsRecordType::TXT => "TXT"@,
        DnsRecordType::SRV => "SRV"@,
    }
}

/// The `local-data` line of a record; a TXT value is quoted inside single
/// quotes.
pub open spec fn record_text(r: DnsRecord) -> Seq<char> {
    if r.record_type == DnsRecordType::TXT {
        "  local-data: '"@ + r.hostname@ + " IN TXT \""@ + r.value@ + "\"'\n"@
    } else {
        "  local-data: \""@ + r.hostname@ + " IN "@ + record_type_word(r.record_type) + " "@ + r.value@ + "\"\n"@
    }
}

/// `#name` for a TLS server name, else nothing.
pub open spec fn tls_suffix(name: Option<String>) -> Seq<char> {
    match name {
        Some(n) => "#"@ + n@,
        None => Seq::empty(),
    }
}

/// The forward zone, present only when forwarding.
pub open spec fn forward_text(c: UnboundConfig) -> Seq<char> {
    if c.mode == DnsMode::Forwarder {
        "forward-zone:\n"@ + "  name: \".\"\n"@ + if c.forward_tls {
            concat_map(
                c.forward_servers@,
                |s: IpAddress| "  forward-addr: "@ + ip_text(s) + "@853"@ + tls_suffix(c.forward_tls_name) + "\n"@,
            ) + "  forward-tls-upstream: yes\n"@
        } else {
            concat_map(c.forward_servers@, |s: IpAddress| "  forward-addr: "@ + ip_text(s) + "\n"@)
        }
    } else {
        Seq::empty()
    }
}

/// The `server:` settings up to the records.
pub open spec fn server_head_text(c: UnboundConfig) -> Seq<char> {
    "# Patronus Unbound Configuration\n\n"@ + "server:\n"@
        + concat_map(c.listen_addresses@, |a: IpAddress| "  interface: "@ + ip_text(a) + "\n"@) + "  port: "@
        + decimal(c.listen_port as nat) + "\n"@
        + concat_map(c.outgoing_interfaces@, |a: IpAddress| "  outgoing-interface: "@ + ip_text(a) + "\n"@)
        + "  do-ip4: yes\n"@ + "  do-ip6: yes\n"@ + "  do-udp: yes\n"@ + "  do-tcp: yes\n"@
        + concat_map(c.access_control@, |a: DnsAccessControl| "  access-control: "@ + a.network@ + " "@ + a.action.word() + "\n"@)
}

/// The performance settings.
pub open spec fn perf_text(c: UnboundConfig) -> Seq<char> {
    "  num-threads: "@ + decimal(c.num_threads as nat) + "\n"@ + "  msg-cache-size: "@ + c.msg_cache_size@ + "\n"@
        + "  rrset-cache-size: "@ + c.rrset_cache_size@ + "\n"@ + "  cache-min-ttl: "@ + decimal(c.cache_min_ttl as nat)
        + "\n"@ + "  cache-max-ttl: "@ + decimal(c.cache_max_ttl as nat) + "\n"@
}

/// The privacy settings that are on.
pub open spec fn privacy_text(c: UnboundConfig) -> Seq<char> {
    flag_line(c.hide_identity, "  hide-identity: yes\n"@) + flag_line(c.hide_version, "  hide-version: yes\n"@)
        + flag_line(c.minimal_responses, "  minimal-responses: yes\n"@)
        + flag_line(c.qname_minimisation, "  qname-minimisation: yes\n"@)
}

/// The validation modules, and the trust anchor with DNSSEC.
pub open spec fn dnssec_text(c: UnboundConfig) -> Seq<char> {
    if c.dnssec_enabled {
        "  module-config: \"validator iterator\"\n"@ + "  auto-trust-anchor-file: \"/var/lib/unbound/root.key\"\n"@
    } else {
        "  module-config: \"iterator\"\n"@
    }
}

/// The local zone, if any.
pub open spec fn zone_text(c: UnboundConfig) -> Seq<char> {
    match c.local_zone {
        Some(z) => "  local-zone: \""@ + z@ + "\" static\n"@,
        None => Seq::empty(),
    }
}

/// The performance, privacy, DNSSEC and local-zone settings.
pub open spec fn server_middle_text(c: UnboundConfig) -> Seq<char> {
    perf_text(c) + privacy_text(c) + dnssec_text(c) + zone_text(c)
}

/// The text of `unbound.conf`.
pub open spec fn unbound_config_text(c: UnboundConfig) -> Seq<char> {
    server_head_text(c) + server_middle_text(c) + concat_map(c.local_records@, |r: DnsRecord| record_text(r))
        + "  verbosity: "@ + decimal(c.verbosity as nat) + "\n"@ + flag_line(c.log_queries, "  log-queries: yes\n"@)
        + flag_line(c.log_replies, "  log-replies: yes\n"@) + "\n"@ + forward_text(c)
}

fn push_ip_lines(conf: &mut String, v: &Vec<IpAddress>, pre: &str, post: &str)
    ensures
        final(conf)@ == old(conf)@ + concat_map(v@, |a: IpAddress| pre@ + ip_text(a) + post@),
{
    let ghost base = conf@;
    let ghost f = |a: IpAddress| pre@ + ip_text(a) + post@;
    let mut i: usize = 0;
    while i < v.len()
        invariant
            0 <= i <= v.len(),
            f == (|a: IpAddress| pre@ + ip_text(a) + post@),
            conf@ == base + concat_map(v@.subrange(0, i as int), f),
        decreases v.len() - i,
    {
        conf.append(pre);
        push_ip(conf, v[i]);
        conf.append(post);
        proof {
            lemma_concat_map_step(v@, f, i as int);
            assert(conf@ =~= base + concat_map(v@.subrange(0, i + 1), f));
        }
        i = i + 1;
    }
    proof {
        lemma_concat_map_full(v@, f);
    }
}

fn push_access_control(conf: &mut String, v: &Vec<DnsAccessControl>)
    ensures
        final(conf)@ == old(conf)@ + concat_map(
            v@,
            |a: DnsAccessControl| "  access-control: "@ + a.network@ + " "@ + a.action.word() + "\n"@,
        ),
{
    let ghost base = conf@;
    let ghost f = |a: DnsAccessControl| "  access-control: "@ + a.network@ + " "@ + a.action.word() + "\n"@;
    let mut i: usize = 0;
    while i < v.len()
        invariant
            0 <= i <= v.len(),
            f == (|a: DnsAccessControl| "  access-control: "@ + a.network@ + " "@ + a.action.word() + "\n"@),
            conf@ == base + concat_map(v@.subrange(0, i as int), f),
        decreases v.len() - i,
    {
        conf.append("  access-control: ");
        conf.append(v[i].network.as_str());
        conf.append(" ");
        conf.append(v[i].action.as_str());
        conf.append("\n");
        proof {
            lemma_concat_map_step(v@, f, i as int);
            assert(conf@ =~= base + concat_map(v@.subrange(0, i + 1), f));
        }
        i = i + 1;
    }
    proof {
        lemma_concat_map_full(v@, f);
    }
}

fn push_record(conf: &mut String, r: &DnsRecord)
    ensures
        final(conf)@ == old(conf)@ + record_text(*r),
{
    let ghost base = conf@;
    match r.record_type {
        DnsRecordType::TXT => {
            conf.append("  local-data: '");
            conf.append(r.hostname.as_str());
            conf.append(" IN TXT \"");
            conf.append(r.value.as_str());
            conf.append("\"'\n");
        },
        _ => {
            conf.append("  local-data: \"");
            conf.append(r.hostname.as_str());
            conf.append(" IN ");
            match r.record_type {
                DnsRecordType::A => conf.append("A"),
                DnsRecordType::AAAA => conf.append("AAAA"),
                DnsRecordType::CNAME => conf.append("CNAME"),
                DnsRecordType::MX => conf.append("MX"),
                DnsRecordType::PTR => conf.append("PTR"),
                DnsRecordType::TXT => conf.append("TXT"),
                DnsRecordType::SRV => conf.append("SRV"),
            }
            conf.append(" ");
            conf.append(r.value.as_str());
            conf.append("\"\n");
        },
    }
    proof {
        assert(conf@ =~= base + record_text(*r));
    }
}

fn push_records(conf: &mut String, v: &Vec<DnsRecord>)
    ensures
        final(conf)@ == old(conf)@ + concat_map(v@, |r: DnsRecord| record_text(r)),
{
    let ghost base = conf@;
    let ghost f = |r: DnsRecord| record_text(r);
    let mut i: usize = 0;
    while i < v.len()
        invariant
            0 <= i <= v.len(),
            f == (|r: DnsRecord| record_text(r)),
            conf@ == base + concat_map(v@.subrange(0, i as int), f),
        decreases v.len() - i,
    {
        push_record(conf, &v[i]);
        proof {
            lemma_concat_map_step(v@, f, i as int);
            assert(conf@ =~= base + concat_map(v@.subrange(0, i + 1), f));
        }
        i = i + 1;
    }
    proof {
        lemma_concat_map_full(v@, f);
    }
}

fn push_flag(conf: &mut String, b: bool, line: &str)
    ensures
        final(conf)@ == old(conf)@ + flag_line(b, line@),
{
    if b {
        conf.append(line);
    } else {
        proof {
            assert(conf@ =~= old(conf)@ + flag_line(b, line@));
        }
    }
}

fn push_tls_servers(conf: &mut String, c: &UnboundConfig)
    ensures
        final(conf)@ == old(conf)@ + concat_map(
            c.forward_servers@,
            |s: IpAddress| "  forward-addr: "@ + ip_text(s) + "@853"@ + tls_suffix(c.forward_tls_name) + "\n"@,
        ),
{
    let ghost base = conf@;
    let ghost f = |s: IpAddress| "  forward-addr: "@ + ip_text(s) + "@853"@ + tls_suffix(c.forward_tls_name) + "\n"@;
    let mut i: usize = 0;
    while i < c.forward_servers.len()
        invariant
            0 <= i <= c.forward_servers.len(),
            f == (|s: IpAddress| "  forward-addr: "@ + ip_text(s) + "@853"@ + tls_suffix(c.forward_tls_name) + "\n"@),
            conf@ == base + concat_map(c.forward_servers@.subrange(0, i as int), f),
        decreases c.forward_servers.len() - i,
    {
        let ghost before = conf@;
        conf.append("  forward-addr: ");
        push_ip(conf, c.forward_servers[i]);
        conf.append("@853");
        match &c.forward_tls_name {
            Some(n) => {
                conf.append("#");
                conf.append(n.as_str());
            },
            None => {},
        }
        conf.append("\n");
        proof {
            assert(conf@ =~= before + f(c.forward_servers@[i as int]));
            lemma_concat_map_step(c.forward_servers@, f, i as int);
            assert(conf@ =~= base + concat_map(c.forward_servers@.subrange(0, i + 1), f));
        }
        i = i + 1;
    }
    proof {
        lemma_concat_map_full(c.forward_servers@, f);
    }
}

fn push_server_head(conf: &mut String, c: &UnboundConfig)
    ensures
        final(conf)@ == old(conf)@ + server_head_text(*c),
{
    let ghost base = conf@;
    conf.append("# Patronus Unbound Configuration\n\n");
    conf.append("server:\n");
    push_ip_lines(conf, &c.listen_addresses, "  interface: ", "\n");
    conf.append("  port: ");
    push_decimal(conf, c.listen_port as u64);
    conf.append("\n");
    push_ip_lines(conf, &c.outgoing_interfaces, "  outgoing-interface: ", "\n");
    conf.append("  do-ip4: yes\n");
    conf.append("  do-ip6: yes\n");
    conf.append("  do-udp: yes\n");
    conf.append("  do-tcp: yes\n");
    push_access_control(conf, &c.access_control);
    proof {
        assert(conf@ =~= base + server_head_text(*c));
    }
}

fn push_perf(conf: &mut String, c: &UnboundConfig)
    ensures
        final(conf)@ == old(conf)@ + perf_text(*c),
{
    let ghost base = conf@;
    conf.append("  num-threads: ");
    push_decimal(conf, c.num_threads as u64);
    conf.append("\n");
    conf.append("  msg-cache-size: ");
    conf.append(c.msg_cache_size.as_str());
    conf.append("\n");
    conf.append("  rrset-cache-size: ");
    conf.append(c.rrset_cache_size.as_str());
    conf.append("\n");
    conf.append("  cache-min-ttl: ");
    push_decimal(conf, c.cache_min_ttl as u64);
    conf.append("\n");
    conf.append("  cache-max-ttl: ");
    push_decimal(conf, c.cache_max_ttl as u64);
    conf.append("\n");
    proof {
        assert(conf@ =~= base + perf_text(*c));
    }
}

fn push_privacy(conf: &mut String, c: &UnboundConfig)
    ensures
        final(conf)@ == old(conf)@ + privacy_text(*c),
{
    let ghost base = conf@;
    push_flag(conf, c.hide_identity, "  hide-identity: yes\n");
    let ghost a = conf@;
    push_flag(conf, c.hide_version, "  hide-version: yes\n");
    let ghost b = conf@;
    push_flag(conf, c.minimal_responses, "  minimal-responses: yes\n");
    let ghost d = conf@;
    push_flag(conf, c.qname_minimisation, "  qname-minimisation: yes\n");
    proof {
        assert(conf@ =~= base + privacy_text(*c));
    }
}

fn push_dnssec(conf: &mut String, c: &UnboundConfig)
    ensures
        final(conf)@ == old(conf)@ + dnssec_text(*c),
{
    let ghost base = conf@;
    if c.dnssec_enabled {
        conf.append("  module-config: \"validator iterator\"\n");
        conf.append("  auto-trust-anchor-file: \"/var/lib/unbound/root.key\"\n");
    } else {
        conf.append("  module-config: \"iterator\"\n");
    }
    proof {
        assert(conf@ =~= base + dnssec_text(*c));
    }
}

fn push_zone(conf: &mut String, c: &UnboundConfig)
    ensures
        final(conf)@ == old(conf)@ + zone_text(*c),
{
    let ghost base = conf@;
    match &c.local_zone {
        Some(z) => {
            conf.append("  local-zone: \"");
            conf.append(z.as_str());
            conf.append("\" static\n");
        },
        None => {},
    }
    proof {
        assert(conf@ =~= base + zone_text(*c));
    }
}

fn push_server_middle(conf: &mut String, c: &UnboundConfig)
    ensures
        final(conf)@ == old(conf)@ + server_middle_text(*c),
{
    let ghost base = conf@;
    push_perf(conf, c);
    push_privacy(conf, c);
    push_dnssec(conf, c);
    push_zone(conf, c);
    proof {
        assert(conf@ =~= base + server_middle_text(*c));
    }
}

/// The resolver's configuration file and directory.
pub struct UnboundManager {
    config_file: String,
    conf_dir: String,
}

impl UnboundManager {
    pub closed spec fn config_file_view(&self) -> Seq<char> {
        self.config_file@
    }

    pub closed spec fn conf_dir_view(&self) -> Seq<char> {
        self.conf_dir@
    }

    /// Configuration in `/etc/patronus/unbound/unbound.conf`.
    pub fn new() -> (m: UnboundManager)
        ensures
            m.config_file_view() == "/etc/patronus/unbound/unbound.conf"@,
            m.conf_dir_view() == "/etc/patronus/unbound"@,
    {
        UnboundManager {
            config_file: owned("/etc/patronus/unbound/unbound.conf"),
            conf_dir: owned("/etc/patronus/unbound"),
        }
    }

    /// The path of the configuration file.
    pub fn config_file(&self) -> (p: String)
        ensures
            p@ == self.config_file_view(),
    {
        self.config_file.clone()
    }

    /// The directory of the configuration.
    pub fn conf_dir(&self) -> (p: String)
        ensures
            p@ == self.conf_dir_view(),
    {
        self.conf_dir.clone()
    }

    /// The text of `unbound.conf` for the settings; it never fails.
    pub fn generate_config(&self, config: &UnboundConfig) -> (r: Result<String, DnsError>)
        ensures
            r matches Ok(conf) && conf@ == unbound_config_text(*config),
    {
        let mut conf = String::new();
        push_server_head(&mut conf, config);
        push_server_middle(&mut conf, config);
        push_records(&mut conf, &config.local_records);
        conf.append("  verbosity: ");
        push_decimal(&mut conf, config.verbosity as u64);
        conf.append("\n");
        push_flag(&mut conf, config.log_queries, "  log-queries: yes\n");
        push_flag(&mut conf, config.log_replies, "  log-replies: yes\n");
        conf.append("\n");
        let ghost before_forward = conf@;
        if config.mode == DnsMode::Forwarder {
            conf.append("forward-zone:\n");
            conf.append("  name: \".\"\n");
            if config.forward_tls {
                push_tls_servers(&mut conf, config);
                conf.append("  forward-tls-upstream: yes\n");
            } else {
                push_ip_lines(&mut conf, &config.forward_servers, "  forward-addr: ", "\n");
            }
        }
        proof {
            assert(conf@ =~= before_forward + forward_text(*config));
            assert(conf@ =~= unbound_config_text(*config));
        }
        Ok(conf)
    }
}

impl Default for UnboundManager {
    fn default() -> (m: UnboundManager)
        ensures
            m.config_file_view() == "/etc/patronus/unbound/unbound.conf"@,
            m.conf_dir_view() == "/etc/patronus/unbound"@,
    {
        UnboundManager::new()
    }
}

/// Why a DNS operation failed.
#[derive(Clone, Debug)]
pub enum DnsError {
    Network(String),
}

fn acl(network: &str, action: DnsAction) -> (a: DnsAccessControl)
    ensures
        a.network@ == network@,
        a.action == action,
{
    DnsAccessControl { network: owned(network), action }
}

impl Default for UnboundConfig {
    /// An enabled recursive resolver on 127.0.0.1 and 192.168.1.1 port 53,
    /// open to loopback and 192.168.0.0/16 and refusing all else, with
    /// DNSSEC, privacy settings and the local zone `local.`.
    fn default() -> (c: UnboundConfig)
        ensures
            c.enabled,
            c.mode == DnsMode::Resolver,
            c.listen_addresses@ == seq![IpAddress::V4(127, 0, 0, 1), IpAddress::V4(192, 168, 1, 1)],
            c.listen_port == 53,
            c.outgoing_interfaces@.len() == 0,
            c.access_control@.len() == 3,
            c.access_control@[0].network@ == "127.0.0.0/8"@ && c.access_control@[0].action == DnsAction::Allow,
            c.access_control@[1].network@ == "192.168.0.0/16"@ && c.access_control@[1].action == DnsAction::Allow,
            c.access_control@[2].network@ == "0.0.0.0/0"@ && c.access_control@[2].action == DnsAction::Refuse,
            c.forward_servers@ == seq![IpAddress::V4(1, 1, 1, 1), IpAddress::V4(8, 8, 8, 8)],
            !c.forward_tls,
            c.forward_tls_name is None,
            c.dnssec_enabled,
            c.trust_anchor_file matches Some(p) && p@ == "/var/lib/unbound/root.key"@,
            c.num_threads == 2,
            c.msg_cache_size@ == "50m"@,
            c.rrset_cache_size@ == "100m"@,
            c.cache_min_ttl == 0,
            c.cache_max_ttl == 86400,
            c.hide_identity && c.hide_version && c.minimal_responses && c.qname_minimisation,
            c.local_zone matches Some(z) && z@ == "local."@,
            c.local_records@.len() == 0,
            c.blocklists@.len() == 0,
            !c.log_queries && !c.log_replies,
            c.verbosity == 1,
    {
        let mut listen_addresses: Vec<IpAddress> = Vec::new();
        listen_addresses.push(IpAddress::V4(127, 0, 0, 1));
        listen_addresses.push(IpAddress::V4(192, 168, 1, 1));
        let mut access_control: Vec<DnsAccessControl> = Vec::new();
        access_control.push(acl("127.0.0.0/8", DnsAction::Allow));
        access_control.push(acl("192.168.0.0/16", DnsAction::Allow));
        access_control.push(acl("0.0.0.0/0", DnsAction::Refuse));
        let mut forward_servers: Vec<IpAddress> = Vec::new();
        forward_servers.push(IpAddress::V4(1, 1, 1, 1));
        forward_servers.push(IpAddress::V4(8, 8, 8, 8));
        proof {
            assert(listen_addresses@ =~= seq![IpAddress::V4(127, 0, 0, 1), IpAddress::V4(192, 168, 1, 1)]);
            assert(forward_servers@ =~= seq![IpAddress::V4(1, 1, 1, 1), IpAddress::V4(8, 8, 8, 8)]);
        }
        UnboundConfig {
            enabled: true,
            mode: DnsMode::Resolver,
            listen_addresses,
            listen_port: 53,
            outgoing_interfaces: Vec::new(),
            access_control,
            forward_servers,
            forward_tls: false,
            forward_tls_name: None,
            dnssec_enabled: true,
            trust_anchor_file: Some(owned("/var/lib/unbound/root.key")),
            num_threads: 2,
            msg_cache_size: owned("50m"),
            rrset_cache_size: owned("100m"),
            cache_min_ttl: 0,
            cache_max_ttl: 86400,
            hide_identity: true,
            hide_version: true,
            minimal_responses: true,
            qname_minimisation: true,
            local_zone: Some(owned("local.")),
            local_records: Vec::new(),
            blocklists: Vec::new(),
            log_queries: false,
            log_replies: false,
            verbosity: 1,
        }
    }
}

/// A resolver that does not forward writes no forward zone; one that
/// forwards writes one, naming the root zone.
pub proof fn lemma_forward_zone_only_when_forwarding(c: UnboundConfig)
    ensures
        c.mode == DnsMode::Resolver ==> forward_text(c) == Seq::<char>::empty(),
        c.mode == DnsMode::Forwarder ==> forward_text(c).subrange(0, 14) == "forward-zone:\n"@,
{
    if c.mode == DnsMode::Forwarder {
        reveal_strlit("forward-zone:\n");
        let rest = if c.forward_tls {
            concat_map(
                c.forward_servers@,
                |s: IpAddress| "  forward-addr: "@ + ip_text(s) + "@853"@ + tls_suffix(c.forward_tls_name) + "\n"@,
            ) + "  forward-tls-upstream: yes\n"@
        } else {
            concat_map(c.forward_servers@, |s: IpAddress| "  forward-addr: "@ + ip_text(s) + "\n"@)
        };
        assert(forward_text(c) == "forward-zone:\n"@ + ("  name: \".\"\n"@ + rest));
        assert(("forward-zone:\n"@ + ("  name: \".\"\n"@ + rest)).subrange(0, 14) =~= "forward-zone:\n"@);
    }
}

} // verus!
