//! HAProxy load balancing and reverse proxy: frontends, backends and their
//! servers, and the text of `haproxy.cfg` that puts them into effect.
use vstd::prelude::*;
use crate::net::{IpAddress, ip_text, push_ip};
use crate::text::{concat_map, decimal, lemma_concat_map_full, lemma_concat_map_step, owned, push_decimal,
    push_string, views};

verus! {

#[derive(PartialEq, Eq, Structural, Clone, Copy, Debug)]
pub enum ProxyMode {
    /// HTTP and HTTPS load balancing.
    HTTP,
    /// Layer 4 load balancing.
    TCP,
    /// Health checks only, no forwarding.
    Health,
}

#[derive(PartialEq, Eq, Structural, Clone, Copy, Debug)]
pub enum BalanceAlgorithm {
    RoundRobin,
    LeastConn,
    Source,
    URI,
    URLParam,
    Header,
    Random,
    Static,
}

/// How a server's health is checked.
#[derive(PartialEq, Eq, Clone, Debug)]
pub enum HealthCheckMethod {
    TCP,
    HTTP { uri: String, expect: Option<String> },
    HTTPS { uri: String, expect: Option<String> },
    SSL,
    MySQL,
    PostgreSQL,
    Redis,
    SMTP,
}

/// Health checking of a server.
#[derive(Clone, Debug)]
pub struct HealthCheck {
    pub enabled: bool,
    pub method: HealthCheckMethod,
    /// Seconds between checks.
    pub interval: u32,
    /// Seconds before a check times out.
    pub timeout: u32,
    /// Successful checks before the server counts as up.
    pub rise: u32,
    /// Failed checks before the server counts as down.
    pub fall: u32,
    /// The port checked, if not the server's.
    pub check_port: Option<u16>,
}

/// A server of a backend.
#[derive(Clone, Debug)]
pub struct BackendServer {
    pub id: String,
    pub name: String,
    pub address: IpAddress,
    pub port: u16,
    /// 100 unless set.
    pub weight: u32,
    pub max_conn: Option<u32>,
    /// Used only while every primary server is down.
    pub backup: bool,
    pub check: HealthCheck,
    /// TLS to the server.
    pub ssl: bool,
    /// Send the PROXY protocol header.
    pub send_proxy: bool,
    pub enabled: bool,
}

/// A request condition.
#[derive(Clone, Debug)]
pub enum AclCondition {
    PathBegins(String),
    PathEquals(String),
    PathRegex(String),
    HostEquals(String),
    HostRegex(String),
    MethodEquals(String),
    HeaderExists(String),
    HeaderEquals(String, String),
    /// An address or network.
    SourceIP(String),
    SSL,
    URLParam(String, String),
}

/// A named request condition.
#[derive(Clone, Debug)]
pub struct AccessControlList {
    pub name: String,
    pub condition: AclCondition,
}

/// Which backend serves requests that match, or with `negate` do not
/// match, an ACL.
#[derive(Clone, Debug)]
pub struct BackendRule {
    pub acl_name: String,
    pub backend_name: String,
    pub negate: bool,
}

/// Where clients connect, and how their requests are routed.
#[derive(Clone, Debug)]
pub struct Frontend {
    pub id: String,
    pub name: String,
    pub bind_address: IpAddress,
    pub bind_port: u16,
    pub mode: ProxyMode,
    pub default_backend: String,
    pub ssl: bool,
    pub ssl_cert: Option<String>,
    pub ssl_key: Option<String>,
    pub ssl_ca: Option<String>,
    /// Redirect HTTP to HTTPS.
    pub force_https: bool,
    pub max_conn: Option<u32>,
    /// Connections per second.
    pub rate_limit: Option<u32>,
    /// In seconds.
    pub client_timeout: u32,
    /// In seconds.
    pub connect_timeout: u32,
    pub acls: Vec<AccessControlList>,
    pub use_backend_rules: Vec<BackendRule>,
    /// Add `X-Forwarded-For`.
    pub xff_enabled: bool,
    pub compression: bool,
    pub http2_enabled: bool,
    pub enabled: bool,
}

/// A pool of servers.
#[derive(Clone, Debug)]
pub struct Backend {
    pub id: String,
    pub name: String,
    pub mode: ProxyMode,
    pub balance: BalanceAlgorithm,
    pub servers: Vec<BackendServer>,
    pub sticky_session: bool,
    /// The cookie that keeps a session on its server.
    pub cookie_name: Option<String>,
    /// In seconds.
    pub server_timeout: u32,
    /// In seconds.
    pub connect_timeout: u32,
    pub forwardfor: bool,
    pub httpclose: bool,
    pub enabled: bool,
}

/// The statistics page.
#[derive(Clone, Debug)]
pub struct StatsConfig {
    pub enabled: bool,
    pub bind_address: IpAddress,
    pub bind_port: u16,
    pub uri: String,
    pub username: Option<String>,
    pub password: Option<String>,
    /// Seconds between refreshes.
    pub refresh: u32,
}

#[derive(PartialEq, Eq, Structural, Clone, Copy, Debug)]
pub enum LogLevel {
    Emerg,
    Alert,
    Crit,
    Error,
    Warning,
    Notice,
    Info,
    Debug,
}

/// The whole HAProxy setup.
#[derive(Clone, Debug)]
pub struct HAProxyConfig {
    pub enabled: bool,
    pub max_conn: u32,
    pub log_level: LogLevel,
    /// The syslog target.
    pub log_facility: String,
    pub nbproc: u32,
    pub nbthread: u32,
    pub ssl_default_bind_ciphers: String,
    pub ssl_default_bind_options: String,
    pub stats: StatsConfig,
    pub frontends: Vec<Frontend>,
    pub backends: Vec<Backend>,
}

#[derive(PartialEq, Eq, Structural, Clone, Copy, Debug)]
pub enum BackendStatus {
    Up,
    Down,
    Maint,
}

#[derive(PartialEq, Eq, Structural, Clone, Copy, Debug)]
pub enum ServerStatus {
    Up,
    Down,
    Maint,
    NoCheck,
}

/// Runtime figures of a server.
#[derive(Clone, Debug)]
pub struct ServerStats {
    pub server_name: String,
    pub status: ServerStatus,
    pub weight: u32,
    pub current_sessions: u32,
    pub total_sessions: u64,
    pub last_check: Option<String>,
    pub downtime_seconds: u64,
}

/// Runtime figures of a backend.
#[derive(Clone, Debug)]
pub struct BackendStats {
    pub backend_name: String,
    pub status: BackendStatus,
    pub active_servers: u32,
    pub backup_servers: u32,
    pub current_sessions: u32,
    pub total_sessions: u64,
    pub bytes_in: u64,
    pub bytes_out: u64,
    pub server_stats: Vec<ServerStats>,
}

/// The mode as the configuration names it.
pub open spec fn mode_name(m: ProxyMode) -> Seq<char> {
    match m {
        ProxyMode::HTTP => "http"@,
        ProxyMode::TCP => "tcp"@,
        ProxyMode::Health => "health"@,
    }
}

/// The algorithm as the configuration names it.
pub open spec fn balance_name(b: BalanceAlgorithm) -> Seq<char> {
    match b {
        BalanceAlgorithm::RoundRobin => "roundrobin"@,
        BalanceAlgorithm::LeastConn => "leastconn"@,
        BalanceAlgorithm::Source => "source"@,
        BalanceAlgorithm::URI => "uri"@,
        BalanceAlgorithm::URLParam => "urlparam"@,
        BalanceAlgorithm::Header => "header"@,
        BalanceAlgorithm::Random => "random"@,
        BalanceAlgorithm::Static => "static"@,
    }
}

/// The level as the `log` line names it.
pub open spec fn log_level_name(l: LogLevel) -> Seq<char> {
    match l {
        LogLevel::Emerg => "Emerg"@,
        LogLevel::Alert => "Alert"@,
        LogLevel::Crit => "Crit"@,
        LogLevel::Error => "Err"@,
        LogLevel::Warning => "Warning"@,
        LogLevel::Notice => "Notice"@,
        LogLevel::Info => "Info"@,
        LogLevel::Debug => "Debug"@,
    }
}

fn mode_str(m: ProxyMode) -> (s: &'static str)
    ensures
        s@ == mode_name(m),
{
    match m {
        ProxyMode::HTTP => "http",
        ProxyMode::TCP => "tcp",
        ProxyMode::Health => "health",
    }
}

fn balance_str(b: BalanceAlgorithm) -> (s: &'static str)
    ensures
        s@ == balance_name(b),
{
    match b {
        BalanceAlgorithm::RoundRobin => "roundrobin",
        BalanceAlgorithm::LeastConn => "leastconn",
        BalanceAlgorithm::Source => "source",
        BalanceAlgorithm::URI => "uri",
        BalanceAlgorithm::URLParam => "urlparam",
        BalanceAlgorithm::Header => "header",
        BalanceAlgorithm::Random => "random",
        BalanceAlgorithm::Static => "static",
    }
}

fn log_level_str(l: LogLevel) -> (s: &'static str)
    ensures
        s@ == log_level_name(l),
{
    match l {
        LogLevel::Emerg => "Emerg",
        LogLevel::Alert => "Alert",
        LogLevel::Crit => "Crit",
        LogLevel::Error => "Err",
        LogLevel::Warning => "Warning",
        LogLevel::Notice => "Notice",
        LogLevel::Info => "Info",
        LogLevel::Debug => "Debug",
    }
}

/// The fixed lines of the global section after `nbthread`.
pub const GLOBAL_FIXED: &'static str = "    daemon\n    user haproxy\n    group haproxy\n    pidfile /var/run/haproxy.pid\n";

/// The defaults section.
pub const DEFAULTS_SECTION: &'static str = "defaults\n    log     global\n    mode    http\n    option  httplog\n    option  dontlognull\n    timeout connect 5000\n    timeout client  50000\n    timeout server  50000\n    errorfile 400 /etc/haproxy/errors/400.http\n    errorfile 403 /etc/haproxy/errors/403.http\n    errorfile 408 /etc/haproxy/errors/408.http\n    errorfile 500 /etc/haproxy/errors/500.http\n    errorfile 502 /etc/haproxy/errors/502.http\n    errorfile 503 /etc/haproxy/errors/503.http\n    errorfile 504 /etc/haproxy/errors/504.http\n\n";

/// The header, the global section and the defaults section.
pub open spec fn global_text(c: HAProxyConfig) -> Seq<char> {
    "# HAProxy Configuration\n# Generated by Patronus\n\n"@ + "global\n"@ + "    maxconn "@ + decimal(
        c.max_conn as nat,
    ) + "\n"@ + "    log "@ + c.log_facility@ + " local0 "@ + log_level_name(c.log_level) + "\n"@
        + "    nbthread "@ + decimal(c.nbthread as nat) + "\n"@ + GLOBAL_FIXED@ + "    ssl-default-bind-ciphers "@
        + c.ssl_default_bind_ciphers@ + "\n"@ + "    ssl-default-bind-options "@ + c.ssl_default_bind_options@
        + "\n\n"@ + DEFAULTS_SECTION@
}

/// `host:port`.
pub open spec fn endpoint(ip: IpAddress, port: u16) -> Seq<char> {
    ip_text(ip) + ":"@ + decimal(port as nat)
}

/// The statistics section, when the page is enabled.
pub open spec fn stats_text(s: StatsConfig) -> Seq<char> {
    if !s.enabled {
        Seq::empty()
    } else {
        "listen stats\n"@ + "    bind "@ + endpoint(s.bind_address, s.bind_port) + "\n"@
            + "    mode http\n    stats enable\n"@ + "    stats uri "@ + s.uri@ + "\n"@ + "    stats refresh "@
            + decimal(s.refresh as nat) + "s\n"@ + (match (s.username, s.password) {
            (Some(u), Some(p)) => "    stats auth "@ + u@ + ":"@ + p@ + "\n"@,
            _ => Seq::empty(),
        }) + "    stats admin if TRUE\n\n"@
    }
}

/// The condition of an ACL as the configuration writes it.
pub open spec fn condition_text(c: AclCondition) -> Seq<char> {
    match c {
        AclCondition::PathBegins(p) => "path_beg "@ + p@,
        AclCondition::PathEquals(p) => "path "@ + p@,
        AclCondition::PathRegex(r) => "path_reg "@ + r@,
        AclCondition::HostEquals(h) => "hdr(host) -i "@ + h@,
        AclCondition::HostRegex(r) => "hdr_reg(host) -i "@ + r@,
        AclCondition::MethodEquals(m) => "method "@ + m@,
        AclCondition::HeaderExists(h) => "hdr_cnt("@ + h@ + ") gt 0"@,
        AclCondition::HeaderEquals(h, v) => "hdr("@ + h@ + ") "@ + v@,
        AclCondition::SourceIP(c) => "src "@ + c@,
        AclCondition::SSL => "ssl_fc"@,
        AclCondition::URLParam(p, v) => "urlp("@ + p@ + ") "@ + v@,
    }
}

/// The line of an ACL.
pub open spec fn acl_text(a: AccessControlList) -> Seq<char> {
    "    acl "@ + a.name@ + " "@ + condition_text(a.condition) + "\n"@
}

/// The line of a routing rule.
pub open spec fn rule_text(r: BackendRule) -> Seq<char> {
    "    use_backend "@ + r.backend_name@ + " if "@ + (if r.negate {
        "!"@
    } else {
        Seq::empty()
    }) + r.acl_name@ + "\n"@
}

/// `line` when `b` holds.
pub open spec fn when(b: bool, line: Seq<char>) -> Seq<char> {
    if b {
        line
    } else {
        Seq::empty()
    }
}

/// The `bind` line of a frontend: its address, with its certificate when
/// it terminates TLS.
pub open spec fn bind_text(f: Frontend) -> Seq<char> {
    "    bind "@ + endpoint(f.bind_address, f.bind_port) + (if f.ssl {
        " ssl crt "@ + f.ssl_cert.unwrap()@
    } else {
        Seq::empty()
    }) + "\n"@
}

/// The first lines of a frontend: name, bind, mode and client timeout.
pub open spec fn frontend_intro(f: Frontend) -> Seq<char> {
    "frontend "@ + f.name@ + "\n"@ + bind_text(f) + "    mode "@ + mode_name(f.mode) + "\n"@
        + "    timeout client "@ + decimal(f.client_timeout as nat) + "s\n"@
}

/// The switches of a frontend: HTTPS redirect, HTTP/2, compression,
/// forwarded-for.
pub open spec fn frontend_flags(f: Frontend) -> Seq<char> {
    when(f.force_https && !f.ssl, "    redirect scheme https code 301 if !{ ssl_fc }\n"@) + when(
        f.http2_enabled,
        "    option http-use-htx\n"@,
    ) + when(
        f.compression,
        "    compression algo gzip\n    compression type text/html text/plain text/css text/javascript application/javascript\n"@,
    ) + when(f.xff_enabled, "    option forwardfor\n"@)
}

/// The optional lines of a frontend: its connection limit and switches.
pub open spec fn frontend_options(f: Frontend) -> Seq<char> {
    (match f.max_conn {
        Some(m) => "    maxconn "@ + decimal(m as nat) + "\n"@,
        None => Seq::empty(),
    }) + frontend_flags(f)
}

/// The lines of a frontend before its ACLs.
pub open spec fn frontend_head(f: Frontend) -> Seq<char> {
    frontend_intro(f) + frontend_options(f)
}

/// The section of a frontend; nothing for a disabled one.
pub open spec fn frontend_text(f: Frontend) -> Seq<char> {
    if !f.enabled {
        Seq::empty()
    } else {
        frontend_head(f) + concat_map(f.acls@, |a: AccessControlList| acl_text(a)) + concat_map(
            f.use_backend_rules@,
            |r: BackendRule| rule_text(r),
        ) + "    default_backend "@ + f.default_backend@ + "\n\n"@
    }
}

/// The weight and connection limit of a server line.
pub open spec fn server_limits(s: BackendServer) -> Seq<char> {
    when(s.weight != 100, " weight "@ + decimal(s.weight as nat)) + match s.max_conn {
        Some(m) => " maxconn "@ + decimal(m as nat),
        None => Seq::empty(),
    }
}

/// The flags of a server line.
pub open spec fn server_flags(s: BackendServer) -> Seq<char> {
    when(s.backup, " backup"@) + when(s.ssl, " ssl verify none"@) + when(s.send_proxy, " send-proxy"@)
}

/// The health check options of a server line.
pub open spec fn check_text(c: HealthCheck) -> Seq<char> {
    when(
        c.enabled,
        " check"@ + " inter "@ + decimal(c.interval as nat) + "s"@ + " rise "@ + decimal(c.rise as nat) + " fall "@
            + decimal(c.fall as nat) + match c.check_port {
            Some(p) => " port "@ + decimal(p as nat),
            None => Seq::empty(),
        },
    )
}

/// The options of a server line.
pub open spec fn server_options(s: BackendServer) -> Seq<char> {
    server_limits(s) + server_flags(s) + check_text(s.check)
}

/// The line of a server; nothing for a disabled one.
pub open spec fn server_text(s: BackendServer) -> Seq<char> {
    if !s.enabled {
        Seq::empty()
    } else {
        "    server "@ + s.name@ + " "@ + endpoint(s.address, s.port) + server_options(s) + "\n"@
    }
}

/// The first lines of a backend: name, mode, balance and timeouts.
pub open spec fn backend_intro(b: Backend) -> Seq<char> {
    "backend "@ + b.name@ + "\n"@ + "    mode "@ + mode_name(b.mode) + "\n"@ + "    balance "@ + balance_name(
        b.balance,
    ) + "\n"@ + "    timeout server "@ + decimal(b.server_timeout as nat) + "s\n"@ + "    timeout connect "@
        + decimal(b.connect_timeout as nat) + "s\n"@
}

/// The optional lines of a backend: forwarded-for, connection close and
/// the session cookie.
pub open spec fn backend_options(b: Backend) -> Seq<char> {
    when(b.forwardfor, "    option forwardfor\n"@) + when(b.httpclose, "    option httpclose\n"@) + (if b.sticky_session {
        match b.cookie_name {
            Some(c) => "    cookie "@ + c@ + " insert indirect nocache\n"@,
            None => Seq::empty(),
        }
    } else {
        Seq::empty()
    })
}

/// The lines of a backend before its servers.
pub open spec fn backend_head(b: Backend) -> Seq<char> {
    backend_intro(b) + backend_options(b)
}

/// The section of a backend; nothing for a disabled one.
pub open spec fn backend_text(b: Backend) -> Seq<char> {
    if !b.enabled {
        Seq::empty()
    } else {
        backend_head(b) + concat_map(b.servers@, |s: BackendServer| server_text(s)) + "\n"@
    }
}

/// The whole of `haproxy.cfg`.
pub open spec fn config_text(c: HAProxyConfig) -> Seq<char> {
    global_text(c) + stats_text(c.stats) + concat_map(c.frontends@, |f: Frontend| frontend_text(f)) + concat_map(
        c.backends@,
        |b: Backend| backend_text(b),
    )
}

/// Every enabled frontend that terminates TLS names its certificate.
pub open spec fn certificates_named(c: HAProxyConfig) -> bool {
    forall|k: int|
        0 <= k < c.frontends@.len() ==> (#[trigger] c.frontends@[k]).enabled && c.frontends@[k].ssl
            ==> c.frontends@[k].ssl_cert is Some
}

fn push_when(conf: &mut String, b: bool, line: &str)
    ensures
        final(conf)@ == old(conf)@ + when(b, line@),
{
    if b {
        conf.append(line);
    } else {
        proof {
            assert(conf@ =~= old(conf)@ + when(b, line@));
        }
    }
}

fn push_endpoint(conf: &mut String, ip: IpAddress, port: u16)
    ensures
        final(conf)@ == old(conf)@ + endpoint(ip, port),
{
    push_ip(conf, ip);
    conf.append(":");
    push_decimal(conf, port as u64);
    proof {
        assert(final(conf)@ =~= old(conf)@ + endpoint(ip, port));
    }
}

fn push_global(conf: &mut String, c: &HAProxyConfig)
    ensures
        final(conf)@ == old(conf)@ + global_text(*c),
{
    conf.append("# HAProxy Configuration\n# Generated by Patronus\n\n");
    conf.append("global\n");
    conf.append("    maxconn ");
    push_decimal(conf, c.max_conn as u64);
    conf.append("\n");
    conf.append("    log ");
    conf.append(c.log_facility.as_str());
    conf.append(" local0 ");
    conf.append(log_level_str(c.log_level));
    conf.append("\n");
    conf.append("    nbthread ");
    push_decimal(conf, c.nbthread as u64);
    conf.append("\n");
    conf.append(GLOBAL_FIXED);
    conf.append("    ssl-default-bind-ciphers ");
    conf.append(c.ssl_default_bind_ciphers.as_str());
    conf.append("\n");
    conf.append("    ssl-default-bind-options ");
    conf.append(c.ssl_default_bind_options.as_str());
    conf.append("\n\n");
    conf.append(DEFAULTS_SECTION);
    proof {
        assert(final(conf)@ =~= old(conf)@ + global_text(*c));
    }
}

fn push_stats(conf: &mut String, s: &StatsConfig)
    ensures
        final(conf)@ == old(conf)@ + stats_text(*s),
{
    if !s.enabled {
        proof {
            assert(conf@ =~= old(conf)@ + stats_text(*s));
        }
        return;
    }
    conf.append("listen stats\n");
    conf.append("    bind ");
    push_endpoint(conf, s.bind_address, s.bind_port);
    conf.append("\n");
    conf.append("    mode http\n    stats enable\n");
    conf.append("    stats uri ");
    conf.append(s.uri.as_str());
    conf.append("\n");
    conf.append("    stats refresh ");
    push_decimal(conf, s.refresh as u64);
    conf.append("s\n");
    let ghost mid = conf@;
    match (&s.username, &s.password) {
        (Some(u), Some(p)) => {
            conf.append("    stats auth ");
            conf.append(u.as_str());
            conf.append(":");
            conf.append(p.as_str());
            conf.append("\n");
        },
        _ => {},
    }
    conf.append("    stats admin if TRUE\n\n");
    proof {
        assert(final(conf)@ =~= old(conf)@ + stats_text(*s));
    }
}

fn push_condition(conf: &mut String, c: &AclCondition)
    ensures
        final(conf)@ == old(conf)@ + condition_text(*c),
{
    match c {
        AclCondition::PathBegins(p) => {
            conf.append("path_beg ");
            conf.append(p.as_str());
        },
        AclCondition::PathEquals(p) => {
            conf.append("path ");
            conf.append(p.as_str());
        },
        AclCondition::PathRegex(r) => {
            conf.append("path_reg ");
            conf.append(r.as_str());
        },
        AclCondition::HostEquals(h) => {
            conf.append("hdr(host) -i ");
            conf.append(h.as_str());
        },
        AclCondition::HostRegex(r) => {
            conf.append("hdr_reg(host) -i ");
            conf.append(r.as_str());
        },
        AclCondition::MethodEquals(m) => {
            conf.append("method ");
            conf.append(m.as_str());
        },
        AclCondition::HeaderExists(h) => {
            conf.append("hdr_cnt(");
            conf.append(h.as_str());
            conf.append(") gt 0");
        },
        AclCondition::HeaderEquals(h, v) => {
            conf.append("hdr(");
            conf.append(h.as_str());
            conf.append(") ");
            conf.append(v.as_str());
        },
        AclCondition::SourceIP(x) => {
            conf.append("src ");
            conf.append(x.as_str());
        },
        AclCondition::SSL => {
            conf.append("ssl_fc");
        },
        AclCondition::URLParam(p, v) => {
            conf.append("urlp(");
            conf.append(p.as_str());
            conf.append(") ");
            conf.append(v.as_str());
        },
    }
    proof {
        assert(final(conf)@ =~= old(conf)@ + condition_text(*c));
    }
}

fn push_acl(conf: &mut String, a: &AccessControlList)
    ensures
        final(conf)@ == old(conf)@ + acl_text(*a),
{
    conf.append("    acl ");
    conf.append(a.name.as_str());
    conf.append(" ");
    push_condition(conf, &a.condition);
    conf.append("\n");
    proof {
        assert(final(conf)@ =~= old(conf)@ + acl_text(*a));
    }
}

fn push_rule(conf: &mut String, r: &BackendRule)
    ensures
        final(conf)@ == old(conf)@ + rule_text(*r),
{
    conf.append("    use_backend ");
    conf.append(r.backend_name.as_str());
    conf.append(" if ");
    if r.negate {
        conf.append("!");
    }
    conf.append(r.acl_name.as_str());
    conf.append("\n");
    proof {
        assert(final(conf)@ =~= old(conf)@ + rule_text(*r));
    }
}

fn push_bind(conf: &mut String, f: &Frontend)
    requires
        f.ssl ==> f.ssl_cert is Some,
    ensures
        final(conf)@ == old(conf)@ + bind_text(*f),
{
    conf.append("    bind ");
    push_endpoint(conf, f.bind_address, f.bind_port);
    if f.ssl {
        conf.append(" ssl crt ");
        match &f.ssl_cert {
            Some(c) => conf.append(c.as_str()),
            None => {},
        }
    }
    conf.append("\n");
    proof {
        assert(final(conf)@ =~= old(conf)@ + bind_text(*f));
    }
}

fn push_frontend_intro(conf: &mut String, f: &Frontend)
    requires
        f.ssl ==> f.ssl_cert is Some,
    ensures
        final(conf)@ == old(conf)@ + frontend_intro(*f),
{
    conf.append("frontend ");
    conf.append(f.name.as_str());
    conf.append("\n");
    push_bind(conf, f);
    conf.append("    mode ");
    conf.append(mode_str(f.mode));
    conf.append("\n");
    conf.append("    timeout client ");
    push_decimal(conf, f.client_timeout as u64);
    conf.append("s\n");
    proof {
        assert(final(conf)@ =~= old(conf)@ + frontend_intro(*f));
    }
}

fn push_frontend_flags(conf: &mut String, f: &Frontend)
    ensures
        final(conf)@ == old(conf)@ + frontend_flags(*f),
{
    push_when(conf, f.force_https && !f.ssl, "    redirect scheme https code 301 if !{ ssl_fc }\n");
    let ghost a = conf@;
    push_when(conf, f.http2_enabled, "    option http-use-htx\n");
    let ghost b = conf@;
    push_when(
        conf,
        f.compression,
        "    compression algo gzip\n    compression type text/html text/plain text/css text/javascript application/javascript\n",
    );
    let ghost c = conf@;
    push_when(conf, f.xff_enabled, "    option forwardfor\n");
    proof {
        assert(final(conf)@ =~= old(conf)@ + frontend_flags(*f));
    }
}

fn push_frontend_options(conf: &mut String, f: &Frontend)
    ensures
        final(conf)@ == old(conf)@ + frontend_options(*f),
{
    match f.max_conn {
        Some(m) => {
            conf.append("    maxconn ");
            push_decimal(conf, m as u64);
            conf.append("\n");
        },
        None => {},
    }
    let ghost a = conf@;
    proof {
        assert(a =~= old(conf)@ + (match f.max_conn {
            Some(m) => "    maxconn "@ + decimal(m as nat) + "\n"@,
            None => Seq::<char>::empty(),
        }));
    }
    push_frontend_flags(conf, f);
    proof {
        assert(final(conf)@ =~= old(conf)@ + frontend_options(*f));
    }
}

fn push_frontend_head(conf: &mut String, f: &Frontend)
    requires
        f.ssl ==> f.ssl_cert is Some,
    ensures
        final(conf)@ == old(conf)@ + frontend_head(*f),
{
    push_frontend_intro(conf, f);
    push_frontend_options(conf, f);
    proof {
        assert(final(conf)@ =~= old(conf)@ + frontend_head(*f));
    }
}

fn push_frontend(conf: &mut String, f: &Frontend)
    requires
        f.enabled && f.ssl ==> f.ssl_cert is Some,
    ensures
        final(conf)@ == old(conf)@ + frontend_text(*f),
{
    if !f.enabled {
        proof {
            assert(conf@ =~= old(conf)@ + frontend_text(*f));
        }
        return;
    }
    push_frontend_head(conf, f);
    let ghost head = conf@;
    let ghost fa = |a: AccessControlList| acl_text(a);
    let mut i: usize = 0;
    while i < f.acls.len()
        invariant
            0 <= i <= f.acls.len(),
            fa == (|a: AccessControlList| acl_text(a)),
            conf@ == head + concat_map(f.acls@.subrange(0, i as int), fa),
        decreases f.acls.len() - i,
    {
        push_acl(conf, &f.acls[i]);
        proof {
            lemma_concat_map_step(f.acls@, fa, i as int);
            assert(conf@ =~= head + concat_map(f.acls@.subrange(0, i + 1), fa));
        }
        i = i + 1;
    }
    proof {
        lemma_concat_map_full(f.acls@, fa);
    }
    let ghost mid = conf@;
    let ghost fr = |r: BackendRule| rule_text(r);
    let mut j: usize = 0;
    while j < f.use_backend_rules.len()
        invariant
            0 <= j <= f.use_backend_rules.len(),
            fr == (|r: BackendRule| rule_text(r)),
            conf@ == mid + concat_map(f.use_backend_rules@.subrange(0, j as int), fr),
        decreases f.use_backend_rules.len() - j,
    {
        push_rule(conf, &f.use_backend_rules[j]);
        proof {
            lemma_concat_map_step(f.use_backend_rules@, fr, j as int);
            assert(conf@ =~= mid + concat_map(f.use_backend_rules@.subrange(0, j + 1), fr));
        }
        j = j + 1;
    }
    proof {
        lemma_concat_map_full(f.use_backend_rules@, fr);
    }
    conf.append("    default_backend ");
    conf.append(f.default_backend.as_str());
    conf.append("\n\n");
    proof {
        assert(final(conf)@ =~= old(conf)@ + frontend_text(*f));
    }
}

fn push_check(conf: &mut String, c: &HealthCheck)
    ensures
        final(conf)@ == old(conf)@ + check_text(*c),
{
    if c.enabled {
        conf.append(" check");
        conf.append(" inter ");
        push_decimal(conf, c.interval as u64);
        conf.append("s");
        conf.append(" rise ");
        push_decimal(conf, c.rise as u64);
        conf.append(" fall ");
        push_decimal(conf, c.fall as u64);
        match c.check_port {
            Some(p) => {
                conf.append(" port ");
                push_decimal(conf, p as u64);
            },
            None => {},
        }
    }
    proof {
        assert(final(conf)@ =~= old(conf)@ + check_text(*c));
    }
}

fn push_server_limits(conf: &mut String, s: &BackendServer)
    ensures
        final(conf)@ == old(conf)@ + server_limits(*s),
{
    if s.weight != 100 {
        conf.append(" weight ");
        push_decimal(conf, s.weight as u64);
    }
    match s.max_conn {
        Some(m) => {
            conf.append(" maxconn ");
            push_decimal(conf, m as u64);
        },
        None => {},
    }
    proof {
        assert(final(conf)@ =~= old(conf)@ + server_limits(*s));
    }
}

fn push_server_flags(conf: &mut String, s: &BackendServer)
    ensures
        final(conf)@ == old(conf)@ + server_flags(*s),
{
    push_when(conf, s.backup, " backup");
    push_when(conf, s.ssl, " ssl verify none");
    push_when(conf, s.send_proxy, " send-proxy");
    proof {
        assert(final(conf)@ =~= old(conf)@ + server_flags(*s));
    }
}

fn push_server(conf: &mut String, s: &BackendServer)
    ensures
        final(conf)@ == old(conf)@ + server_text(*s),
{
    if !s.enabled {
        proof {
            assert(conf@ =~= old(conf)@ + server_text(*s));
        }
        return;
    }
    conf.append("    server ");
    conf.append(s.name.as_str());
    conf.append(" ");
    push_endpoint(conf, s.address, s.port);
    let ghost opts_start = conf@;
    push_server_limits(conf, s);
    push_server_flags(conf, s);
    push_check(conf, &s.check);
    proof {
        assert(conf@ =~= opts_start + server_options(*s));
    }
    conf.append("\n");
    proof {
        assert(final(conf)@ =~= old(conf)@ + server_text(*s));
    }
}

fn push_backend_intro(conf: &mut String, b: &Backend)
    ensures
        final(conf)@ == old(conf)@ + backend_intro(*b),
{
    conf.append("backend ");
    conf.append(b.name.as_str());
    conf.append("\n");
    conf.append("    mode ");
    conf.append(mode_str(b.mode));
    conf.append("\n");
    conf.append("    balance ");
    conf.append(balance_str(b.balance));
    conf.append("\n");
    conf.append("    timeout server ");
    push_decimal(conf, b.server_timeout as u64);
    conf.append("s\n");
    conf.append("    timeout connect ");
    push_decimal(conf, b.connect_timeout as u64);
    conf.append("s\n");
    proof {
        assert(final(conf)@ =~= old(conf)@ + backend_intro(*b));
    }
}

fn push_backend_options(conf: &mut String, b: &Backend)
    ensures
        final(conf)@ == old(conf)@ + backend_options(*b),
{
    push_when(conf, b.forwardfor, "    option forwardfor\n");
    push_when(conf, b.httpclose, "    option httpclose\n");
    if b.sticky_session {
        match &b.cookie_name {
            Some(c) => {
                conf.append("    cookie ");
                conf.append(c.as_str());
                conf.append(" insert indirect nocache\n");
            },
            None => {},
        }
    }
    proof {
        assert(final(conf)@ =~= old(conf)@ + backend_options(*b));
    }
}

fn push_backend_head(conf: &mut String, b: &Backend)
    ensures
        final(conf)@ == old(conf)@ + backend_head(*b),
{
    push_backend_intro(conf, b);
    push_backend_options(conf, b);
    proof {
        assert(final(conf)@ =~= old(conf)@ + backend_head(*b));
    }
}

fn push_backend(conf: &mut String, b: &Backend)
    ensures
        final(conf)@ == old(conf)@ + backend_text(*b),
{
    if !b.enabled {
        proof {
            assert(conf@ =~= old(conf)@ + backend_text(*b));
        }
        return;
    }
    push_backend_head(conf, b);
    let ghost head = conf@;
    let ghost fs = |s: BackendServer| server_text(s);
    let mut i: usize = 0;
    while i < b.servers.len()
        invariant
            0 <= i <= b.servers.len(),
            fs == (|s: BackendServer| server_text(s)),
            conf@ == head + concat_map(b.servers@.subrange(0, i as int), fs),
        decreases b.servers.len() - i,
    {
        push_server(conf, &b.servers[i]);
        proof {
            lemma_concat_map_step(b.servers@, fs, i as int);
            assert(conf@ =~= head + concat_map(b.servers@.subrange(0, i + 1), fs));
        }
        i = i + 1;
    }
    proof {
        lemma_concat_map_full(b.servers@, fs);
    }
    conf.append("\n");
    proof {
        assert(final(conf)@ =~= old(conf)@ + backend_text(*b));
    }
}

/// The text of `haproxy.cfg` for the configuration.
pub fn config_file_text(c: &HAProxyConfig) -> (r: String)
    requires
        certificates_named(*c),
    ensures
        r@ == config_text(*c),
{
    let mut conf = String::new();
    push_global(&mut conf, c);
    push_stats(&mut conf, &c.stats);
    let ghost head = conf@;
    let ghost ff = |f: Frontend| frontend_text(f);
    let mut i: usize = 0;
    while i < c.frontends.len()
        invariant
            0 <= i <= c.frontends.len(),
            certificates_named(*c),
            ff == (|f: Frontend| frontend_text(f)),
            conf@ == head + concat_map(c.frontends@.subrange(0, i as int), ff),
        decreases c.frontends.len() - i,
    {
        proof {
            assert(c.frontends@[i as int].enabled && c.frontends@[i as int].ssl ==> c.frontends@[i as int].ssl_cert is Some);
        }
        push_frontend(&mut conf, &c.frontends[i]);
        proof {
            lemma_concat_map_step(c.frontends@, ff, i as int);
            assert(conf@ =~= head + concat_map(c.frontends@.subrange(0, i + 1), ff));
        }
        i = i + 1;
    }
    proof {
        lemma_concat_map_full(c.frontends@, ff);
    }
    let ghost mid = conf@;
    let ghost fb = |b: Backend| backend_text(b);
    let mut j: usize = 0;
    while j < c.backends.len()
        invariant
            0 <= j <= c.backends.len(),
            fb == (|b: Backend| backend_text(b)),
            conf@ == mid + concat_map(c.backends@.subrange(0, j as int), fb),
        decreases c.backends.len() - j,
    {
        push_backend(&mut conf, &c.backends[j]);
        proof {
            lemma_concat_map_step(c.backends@, fb, j as int);
            assert(conf@ =~= mid + concat_map(c.backends@.subrange(0, j + 1), fb));
        }
        j = j + 1;
    }
    proof {
        lemma_concat_map_full(c.backends@, fb);
        assert(conf@ =~= config_text(*c));
    }
    conf
}

/// A disabled frontend adds nothing to the configuration: the frontend
/// sections of a list with one more, disabled, frontend are those of the
/// list.
pub proof fn lemma_disabled_frontend_adds_nothing(fronts: Seq<Frontend>, f: Frontend)
    requires
        !f.enabled,
    ensures
        concat_map(fronts.push(f), |x: Frontend| frontend_text(x)) == concat_map(fronts, |x: Frontend| frontend_text(x)),
{
    let g = |x: Frontend| frontend_text(x);
    assert(fronts.push(f).drop_last() =~= fronts);
    assert(concat_map(fronts.push(f), g) == concat_map(fronts, g) + frontend_text(f));
    assert(concat_map(fronts, g) + Seq::<char>::empty() =~= concat_map(fronts, g));
}

/// A disabled server adds nothing to its backend's section.
pub proof fn lemma_disabled_server_adds_nothing(servers: Seq<BackendServer>, s: BackendServer)
    requires
        !s.enabled,
    ensures
        concat_map(servers.push(s), |x: BackendServer| server_text(x)) == concat_map(
            servers,
            |x: BackendServer| server_text(x),
        ),
{
    let g = |x: BackendServer| server_text(x);
    assert(servers.push(s).drop_last() =~= servers);
    assert(concat_map(servers.push(s), g) == concat_map(servers, g) + server_text(s));
    assert(concat_map(servers, g) + Seq::<char>::empty() =~= concat_map(servers, g));
}

/// The unit file of the HAProxy service.
pub const SYSTEMD_SERVICE: &'static str = "[Unit]\nDescription=HAProxy Load Balancer\nAfter=network.target\n\n[Service]\nType=forking\nPIDFile=/var/run/haproxy.pid\nExecStartPre=/usr/sbin/haproxy -c -f /etc/haproxy/haproxy.cfg\nExecStart=/usr/sbin/haproxy -D -f /etc/haproxy/haproxy.cfg -p /var/run/haproxy.pid\nExecReload=/bin/kill -USR2 $MAINPID\nRestart=on-failure\nRestartSec=5\n\n[Install]\nWantedBy=multi-user.target\n";

/// The configuration and where its file goes.
pub struct HAProxyManager {
    config: HAProxyConfig,
    config_path: String,
}

impl HAProxyManager {
    pub closed spec fn config_view(&self) -> HAProxyConfig {
        self.config
    }

    pub closed spec fn path_view(&self) -> Seq<char> {
        self.config_path@
    }

    /// A manager whose file is `/etc/haproxy/haproxy.cfg`.
    pub fn new(config: HAProxyConfig) -> (m: HAProxyManager)
        ensures
            m.config_view() == config,
            m.path_view() == "/etc/haproxy/haproxy.cfg"@,
    {
        HAProxyManager { config, config_path: owned("/etc/haproxy/haproxy.cfg") }
    }

    /// The path of the configuration file.
    pub fn config_path(&self) -> (p: &str)
        ensures
            p@ == self.path_view(),
    {
        self.config_path.as_str()
    }

    /// The text of the configuration file.  Requires that every enabled
    /// frontend that terminates TLS names its certificate.
    pub fn generate_config(&self) -> (r: String)
        requires
            certificates_named(self.config_view()),
        ensures
            r@ == config_text(self.config_view()),
    {
        config_file_text(&self.config)
    }

    /// The line of an ACL.
    pub fn generate_acl(&self, acl: &AccessControlList) -> (r: String)
        ensures
            r@ == acl_text(*acl),
    {
        let mut r = String::new();
        push_acl(&mut r, acl);
        proof {
            assert(r@ =~= acl_text(*acl));
        }
        r
    }

    /// The arguments of `haproxy` that check the configuration file.
    pub fn validate_args(&self) -> (args: Vec<String>)
        ensures
            views(args@) == seq!["-c"@, "-f"@, self.path_view()],
    {
        let mut args: Vec<String> = Vec::new();
        push_string(&mut args, owned("-c"));
        push_string(&mut args, owned("-f"));
        push_string(&mut args, self.config_path.clone());
        proof {
            assert(views(args@) =~= seq!["-c"@, "-f"@, self.path_view()]);
        }
        args
    }

    /// The runtime command that puts a server into or out of maintenance.
    pub fn server_maint_command(&self, backend: &str, server: &str, enabled: bool) -> (r: String)
        ensures
            r@ == "set server "@ + backend@ + "/"@ + server@ + " state "@ + (if enabled {
                "maint"@
            } else {
                "ready"@
            }),
    {
        let mut r = owned("set server ");
        r.append(backend);
        r.append("/");
        r.append(server);
        r.append(" state ");
        if enabled {
            r.append("maint");
        } else {
            r.append("ready");
        }
        r
    }
}

impl Default for HAProxyConfig {
    /// Off; 10000 connections; Info logging to `/dev/log`; one process and
    /// four threads; modern ciphers without SSLv3, TLS 1.0 or 1.1; the
    /// statistics page on 127.0.0.1:8404 at `/stats` for `admin`, refreshed
    /// every five seconds; no frontends or backends.
    fn default() -> (c: HAProxyConfig)
        ensures
            !c.enabled,
            c.max_conn == 10000,
            c.log_level == LogLevel::Info,
            c.log_facility@ == "/dev/log"@,
            c.nbproc == 1,
            c.nbthread == 4,
            c.ssl_default_bind_ciphers@ == "ECDHE-RSA-AES128-GCM-SHA256:ECDHE-RSA-AES256-GCM-SHA384"@,
            c.ssl_default_bind_options@ == "no-sslv3 no-tlsv10 no-tlsv11"@,
            c.stats.enabled,
            c.stats.bind_address == IpAddress::V4(127, 0, 0, 1),
            c.stats.bind_port == 8404,
            c.stats.uri@ == "/stats"@,
            c.stats.username matches Some(u) && u@ == "admin"@,
            c.stats.password matches Some(p) && p@ == "changeme"@,
            c.stats.refresh == 5,
            c.frontends@.len() == 0,
            c.backends@.len() == 0,
    {
        HAProxyConfig {
            enabled: false,
            max_conn: 10000,
            log_level: LogLevel::Info,
            log_facility: owned("/dev/log"),
            nbproc: 1,
            nbthread: 4,
            ssl_default_bind_ciphers: owned("ECDHE-RSA-AES128-GCM-SHA256:ECDHE-RSA-AES256-GCM-SHA384"),
            ssl_default_bind_options: owned("no-sslv3 no-tlsv10 no-tlsv11"),
            stats: StatsConfig {
                enabled: true,
                bind_address: IpAddress::V4(127, 0, 0, 1),
                bind_port: 8404,
                uri: owned("/stats"),
                username: Some(owned("admin")),
                password: Some(owned("changeme")),
                refresh: 5,
            },
            frontends: Vec::new(),
            backends: Vec::new(),
        }
    }
}

impl Default for HealthCheck {
    /// On, by TCP connect, every two seconds with a one-second timeout; up
    /// after two successes, down after three failures; on the server's port.
    fn default() -> (h: HealthCheck)
        ensures
            h.enabled,
            h.method == HealthCheckMethod::TCP,
            h.interval == 2,
            h.timeout == 1,
            h.rise == 2,
            h.fall == 3,
            h.check_port is None,
    {
        HealthCheck {
            enabled: true,
            method: HealthCheckMethod::TCP,
            interval: 2,
            timeout: 1,
            rise: 2,
            fall: 3,
            check_port: None,
        }
    }
}

/// An exact path condition is written `path ` followed by the path, and so
/// differs from the prefix condition on the same path, which is written
/// `path_beg `.
pub proof fn lemma_path_equals_is_exact(p: String)
    ensures
        condition_text(AclCondition::PathEquals(p)).subrange(0, 5) == "path "@,
        condition_text(AclCondition::PathEquals(p)).subrange(5, condition_text(AclCondition::PathEquals(p)).len() as int) == p@,
        condition_text(AclCondition::PathBegins(p)).subrange(0, 9) == "path_beg "@,
        condition_text(AclCondition::PathEquals(p)) != condition_text(AclCondition::PathBegins(p)),
{
    reveal_strlit("path ");
    reveal_strlit("path_beg ");
    let e = condition_text(AclCondition::PathEquals(p));
    let b = condition_text(AclCondition::PathBegins(p));
    assert(e.subrange(0, 5) =~= "path "@);
    assert(e.subrange(5, e.len() as int) =~= p@);
    assert(b.subrange(0, 9) =~= "path_beg "@);
    assert(e.len() != b.len());
}

} // verus!
