//! Dynamic DNS: which request each provider takes for a new address, which
//! answer counts as success, and the client's record of the updates made.
use vstd::prelude::*;
use crate::net::{IpAddress, ip_text, push_ip};
use crate::text::{
    after_first_token, chars_of, contains_seq, copy, first_token, first_token_range, join, join_strings,
    line_ranges, lines_spec, owned, prefix_at, push_string, replace_all, replace_str, split_on, split_ranges,
    starts_with, str_contains, str_eq, string_of, trim, trim_end_range, trim_start_range, views,
};

verus! {

/// What `{:?}` writes for a string: the text between double quotes, with
/// its characters escaped as the standard library's `Debug` for `str` does.
pub uninterp spec fn str_debug(s: Seq<char>) -> Seq<char>;

/// Writes `s` with the standard library's `Debug` for `str`.  What comes
/// out depends on the text alone; the escaping rules are named here, not
/// written out.
#[verifier::external_body]
fn debug_quoted(s: &str) -> (r: String)
    ensures
        r@ == str_debug(s@),
{
    format!("{:?}", s)
}

/// A dynamic DNS service and the credentials it takes.
#[derive(PartialEq, Eq, Clone, Debug)]
pub enum DdnsProvider {
    Cloudflare { api_token: String },
    GoogleDomains { username: String, password: String },
    AWSRoute53 { access_key: String, secret_key: String, region: String },
    Namecheap { password: String },
    DynDNS { username: String, password: String },
    NoIP { username: String, password: String },
    FreeDNS { token: String },
    DuckDNS { token: String },
    /// `update_url` may hold `{hostname}` and `{ip}`, which are filled in.
    Custom { update_url: String, username: Option<String>, password: Option<String> },
}

/// The settings of the client.
#[derive(Clone, Debug)]
pub struct DdnsConfig {
    pub enabled: bool,
    pub provider: DdnsProvider,
    /// Such as `home.example.com`.
    pub hostname: String,
    /// Seconds between checks of the address.
    pub check_interval: u32,
    /// Seconds after which an update is sent though the address is the same.
    pub force_update_interval: u32,
    /// The WAN interface whose address is used; if `None`, or if it has no
    /// address, a web service is asked.
    pub interface: Option<String>,
    /// The URL of that web service.
    pub ip_check_url: Option<String>,
    pub ipv6_enabled: bool,
    pub retry_count: u32,
    /// In seconds.
    pub retry_delay: u32,
    /// In seconds.
    pub timeout: u32,
}

#[derive(PartialEq, Eq, Structural, Clone, Copy, Debug)]
pub enum UpdateStatus {
    Unknown,
    UpToDate,
    Updating,
    Failed,
}

/// What the client reports of itself.
#[derive(Clone, Debug)]
pub struct DdnsStatus {
    pub hostname: String,
    /// The provider as `{:?}` writes it.
    pub provider: String,
    pub current_ip: Option<IpAddress>,
    /// In seconds since the Unix epoch.
    pub last_update: Option<i64>,
    /// In seconds since the Unix epoch.
    pub last_check: Option<i64>,
    pub update_count: u64,
    pub last_error: Option<String>,
    pub status: UpdateStatus,
}

/// Why an update could not be made.
#[derive(PartialEq, Eq, Clone, Debug)]
pub enum DdnsError {
    Config(String),
    Network(String),
}

/// Which provider's answer is to be checked, and so how.
#[derive(PartialEq, Eq, Structural, Clone, Copy, Debug)]
pub enum ResponseCheck {
    GoogleDomains,
    DynDns,
    NoIp,
    Namecheap,
    FreeDns,
    DuckDns,
    Custom,
}

/// What updating the record takes.
#[derive(Clone, Debug)]
pub enum UpdateAction {
    /// No request is sent.
    Nothing,
    /// `curl` with these arguments, and the check its output must pass.
    Curl { args: Vec<String>, check: ResponseCheck },
}

/// `Some("…")` or `None`, as `{:?}` writes an optional string.
pub open spec fn opt_debug(o: Option<String>) -> Seq<char> {
    match o {
        Some(s) => "Some("@ + str_debug(s@) + ")"@,
        None => "None"@,
    }
}

/// The provider as `{:?}` writes it.
pub open spec fn provider_debug(p: DdnsProvider) -> Seq<char> {
    match p {
        DdnsProvider::Cloudflare { api_token } => "Cloudflare { api_token: "@ + str_debug(api_token@) + " }"@,
        DdnsProvider::GoogleDomains { username, password } => "GoogleDomains { username: "@ + str_debug(username@)
            + ", password: "@ + str_debug(password@) + " }"@,
        DdnsProvider::AWSRoute53 { access_key, secret_key, region } => "AWSRoute53 { access_key: "@ + str_debug(
            access_key@,
        ) + ", secret_key: "@ + str_debug(secret_key@) + ", region: "@ + str_debug(region@) + " }"@,
        DdnsProvider::Namecheap { password } => "Namecheap { password: "@ + str_debug(password@) + " }"@,
        DdnsProvider::DynDNS { username, password } => "DynDNS { username: "@ + str_debug(username@)
            + ", password: "@ + str_debug(password@) + " }"@,
        DdnsProvider::NoIP { username, password } => "NoIP { username: "@ + str_debug(username@) + ", password: "@
            + str_debug(password@) + " }"@,
        DdnsProvider::FreeDNS { token } => "FreeDNS { token: "@ + str_debug(token@) + " }"@,
        DdnsProvider::DuckDNS { token } => "DuckDNS { token: "@ + str_debug(token@) + " }"@,
        DdnsProvider::Custom { update_url, username, password } => "Custom { update_url: "@ + str_debug(
            update_url@,
        ) + ", username: "@ + opt_debug(username) + ", password: "@ + opt_debug(password) + " }"@,
    }
}

fn push_quoted(out: &mut String, s: &str)
    ensures
        final(out)@ == old(out)@ + str_debug(s@),
{
    let q = debug_quoted(s);
    out.append(q.as_str());
}

fn push_opt_quoted(out: &mut String, o: &Option<String>)
    ensures
        final(out)@ == old(out)@ + opt_debug(*o),
{
    match o {
        Some(s) => {
            out.append("Some(");
            push_quoted(out, s.as_str());
            out.append(")");
        },
        None => {
            out.append("None");
        },
    }
}

/// The provider as `{:?}` writes it.
pub fn provider_text(p: &DdnsProvider) -> (r: String)
    ensures
        r@ == provider_debug(*p),
{
    let mut out = String::new();
    match p {
        DdnsProvider::Cloudflare { api_token } => {
            out.append("Cloudflare { api_token: ");
            push_quoted(&mut out, api_token.as_str());
        },
        DdnsProvider::GoogleDomains { username, password } => {
            out.append("GoogleDomains { username: ");
            push_quoted(&mut out, username.as_str());
            out.append(", password: ");
            push_quoted(&mut out, password.as_str());
        },
        DdnsProvider::AWSRoute53 { access_key, secret_key, region } => {
            out.append("AWSRoute53 { access_key: ");
            push_quoted(&mut out, access_key.as_str());
            out.append(", secret_key: ");
            push_quoted(&mut out, secret_key.as_str());
            out.append(", region: ");
            push_quoted(&mut out, region.as_str());
        },
        DdnsProvider::Namecheap { password } => {
            out.append("Namecheap { password: ");
            push_quoted(&mut out, password.as_str());
        },
        DdnsProvider::DynDNS { username, password } => {
            out.append("DynDNS { username: ");
            push_quoted(&mut out, username.as_str());
            out.append(", password: ");
            push_quoted(&mut out, password.as_str());
        },
        DdnsProvider::NoIP { username, password } => {
            out.append("NoIP { username: ");
            push_quoted(&mut out, username.as_str());
            out.append(", password: ");
            push_quoted(&mut out, password.as_str());
        },
        DdnsProvider::FreeDNS { token } => {
            out.append("FreeDNS { token: ");
            push_quoted(&mut out, token.as_str());
        },
        DdnsProvider::DuckDNS { token } => {
            out.append("DuckDNS { token: ");
            push_quoted(&mut out, token.as_str());
        },
        DdnsProvider::Custom { update_url, username, password } => {
            out.append("Custom { update_url: ");
            push_quoted(&mut out, update_url.as_str());
            out.append(", username: ");
            push_opt_quoted(&mut out, username);
            out.append(", password: ");
            push_opt_quoted(&mut out, password);
        },
    }
    out.append(" }");
    proof {
        assert(out@ =~= provider_debug(*p));
    }
    out
}

/// `user:password`, the form `curl -u` takes.
pub open spec fn basic_auth(user: Seq<char>, password: Seq<char>) -> Seq<char> {
    user + ":"@ + password
}

/// The part of a host name before its first dot.
pub open spec fn first_label(hostname: Seq<char>) -> Seq<char> {
    split_on(hostname, '.')[0]
}

/// The part of a host name after its first dot, empty if it has none.
pub open spec fn after_first_label(hostname: Seq<char>) -> Seq<char> {
    join(split_on(hostname, '.').skip(1), "."@)
}

/// An update URL that names the host and the address.
pub open spec fn host_ip_url(base: Seq<char>, hostname: Seq<char>, ip: IpAddress) -> Seq<char> {
    base + hostname + "&myip="@ + ip_text(ip)
}

pub open spec fn google_url(hostname: Seq<char>, ip: IpAddress) -> Seq<char> {
    host_ip_url("https://domains.google.com/nic/update?hostname="@, hostname, ip)
}

pub open spec fn dyndns_url(hostname: Seq<char>, ip: IpAddress) -> Seq<char> {
    host_ip_url("https://members.dyndns.org/v3/update?hostname="@, hostname, ip)
}

pub open spec fn noip_url(hostname: Seq<char>, ip: IpAddress) -> Seq<char> {
    host_ip_url("https://dynupdate.no-ip.com/nic/update?hostname="@, hostname, ip)
}

pub open spec fn namecheap_url(hostname: Seq<char>, password: Seq<char>, ip: IpAddress) -> Seq<char> {
    "https://dynamicdns.park-your-domain.com/update?host="@ + first_label(hostname) + "&domain="@
        + after_first_label(hostname) + "&password="@ + password + "&ip="@ + ip_text(ip)
}

pub open spec fn freedns_url(token: Seq<char>, ip: IpAddress) -> Seq<char> {
    "https://sync.afraid.org/u/"@ + token + "/?ip="@ + ip_text(ip)
}

pub open spec fn duckdns_url(hostname: Seq<char>, token: Seq<char>, ip: IpAddress) -> Seq<char> {
    "https://www.duckdns.org/update?domains="@ + first_label(hostname) + "&token="@ + token + "&ip="@ + ip_text(
        ip,
    )
}

/// A custom URL with `{hostname}` and then `{ip}` filled in.
pub open spec fn custom_url(update_url: Seq<char>, hostname: Seq<char>, ip: IpAddress) -> Seq<char> {
    replace_all(replace_all(update_url, "{hostname}"@, hostname), "{ip}"@, ip_text(ip))
}

/// The arguments of `curl` for an update with basic authentication.
pub open spec fn auth_args(user: Seq<char>, password: Seq<char>, url: Seq<char>) -> Seq<Seq<char>> {
    seq!["-s"@, "-u"@, basic_auth(user, password), url]
}

/// The `curl` arguments that update the record of `hostname` to `ip`.
pub open spec fn curl_args(p: DdnsProvider, hostname: Seq<char>, ip: IpAddress) -> Seq<Seq<char>> {
    match p {
        DdnsProvider::GoogleDomains { username, password } => auth_args(
            username@,
            password@,
            google_url(hostname, ip),
        ),
        DdnsProvider::Namecheap { password } => seq!["-s"@, namecheap_url(hostname, password@, ip)],
        DdnsProvider::DynDNS { username, password } => auth_args(username@, password@, dyndns_url(hostname, ip)),
        DdnsProvider::NoIP { username, password } => auth_args(username@, password@, noip_url(hostname, ip)),
        DdnsProvider::FreeDNS { token } => seq!["-s"@, freedns_url(token@, ip)],
        DdnsProvider::DuckDNS { token } => seq!["-s"@, duckdns_url(hostname, token@, ip)],
        DdnsProvider::Custom { update_url, username, password } => match (username, password) {
            (Some(u), Some(w)) => auth_args(u@, w@, custom_url(update_url@, hostname, ip)),
            _ => seq!["-s"@, custom_url(update_url@, hostname, ip)],
        },
        _ => Seq::empty(),
    }
}

/// How the answer of the provider is checked; `None` where no request is sent.
pub open spec fn response_check(p: DdnsProvider) -> Option<ResponseCheck> {
    match p {
        DdnsProvider::Cloudflare { .. } => None,
        DdnsProvider::AWSRoute53 { .. } => None,
        DdnsProvider::GoogleDomains { .. } => Some(ResponseCheck::GoogleDomains),
        DdnsProvider::Namecheap { .. } => Some(ResponseCheck::Namecheap),
        DdnsProvider::DynDNS { .. } => Some(ResponseCheck::DynDns),
        DdnsProvider::NoIP { .. } => Some(ResponseCheck::NoIp),
        DdnsProvider::FreeDNS { .. } => Some(ResponseCheck::FreeDns),
        DdnsProvider::DuckDNS { .. } => Some(ResponseCheck::DuckDns),
        DdnsProvider::Custom { .. } => Some(ResponseCheck::Custom),
    }
}

/// Whether Cloudflare refuses the host name: it needs at least two labels.
pub open spec fn cloudflare_refuses(p: DdnsProvider, hostname: Seq<char>) -> bool {
    p is Cloudflare && split_on(hostname, '.').len() < 2
}

/// The name of the service in error messages.
pub open spec fn check_label(c: ResponseCheck) -> Seq<char> {
    match c {
        ResponseCheck::GoogleDomains => "Google Domains"@,
        ResponseCheck::DynDns => "DynDNS"@,
        ResponseCheck::NoIp => "No-IP"@,
        ResponseCheck::Namecheap => "Namecheap"@,
        ResponseCheck::FreeDns => "FreeDNS"@,
        ResponseCheck::DuckDns => "DuckDNS"@,
        ResponseCheck::Custom => "custom DDNS"@,
    }
}

/// Whether the answer of the provider reports success.
pub open spec fn response_ok(c: ResponseCheck, response: Seq<char>) -> bool {
    match c {
        ResponseCheck::GoogleDomains | ResponseCheck::DynDns | ResponseCheck::NoIp => "good"@.is_prefix_of(response)
            || "nochg"@.is_prefix_of(response),
        ResponseCheck::Namecheap => contains_seq(response, "<ErrCount>0</ErrCount>"@),
        ResponseCheck::FreeDns => contains_seq(response, "Updated"@) || contains_seq(response, "has not changed"@),
        ResponseCheck::DuckDns => trim(response) == "OK"@,
        ResponseCheck::Custom => true,
    }
}

/// Checks the answer of the provider: an error that quotes it unless it
/// reports success.
pub fn check_response(check: ResponseCheck, response: &str) -> (r: Result<(), DdnsError>)
    ensures
        r is Ok <==> response_ok(check, response@),
        r matches Err(e) ==> e matches DdnsError::Network(m) && m@ == check_label(check) + " update failed: "@
            + response@,
{
    let ok = match check {
        ResponseCheck::GoogleDomains | ResponseCheck::DynDns | ResponseCheck::NoIp => starts_with(response, "good")
            || starts_with(response, "nochg"),
        ResponseCheck::Namecheap => str_contains(response, "<ErrCount>0</ErrCount>"),
        ResponseCheck::FreeDns => str_contains(response, "Updated") || str_contains(response, "has not changed"),
        ResponseCheck::DuckDns => {
            let t = trimmed(response);
            str_eq(t.as_str(), "OK")
        },
        ResponseCheck::Custom => true,
    };
    if ok {
        Ok(())
    } else {
        let mut m = match check {
            ResponseCheck::GoogleDomains => owned("Google Domains"),
            ResponseCheck::DynDns => owned("DynDNS"),
            ResponseCheck::NoIp => owned("No-IP"),
            ResponseCheck::Namecheap => owned("Namecheap"),
            ResponseCheck::FreeDns => owned("FreeDNS"),
            ResponseCheck::DuckDns => owned("DuckDNS"),
            ResponseCheck::Custom => owned("custom DDNS"),
        };
        m.append(" update failed: ");
        m.append(response);
        Err(DdnsError::Network(m))
    }
}

/// `s` without leading and trailing white space.
pub fn trimmed(s: &str) -> (r: String)
    ensures
        r@ == trim(s@),
{
    let v = chars_of(s);
    let n = v.len();
    let a = trim_start_range(&v, 0, n);
    let b = trim_end_range(&v, a, n);
    proof {
        assert(v@.subrange(0, n as int) =~= s@);
    }
    string_of(&v, a, b)
}

/// The address that the text of a line of `ip addr` names, if it is an
/// `inet` line with a second word: that word up to its first `/`.
pub open spec fn inet_candidate(line: Seq<char>) -> Option<Seq<char>> {
    if "inet "@.is_prefix_of(trim(line)) {
        match first_token(after_first_token(line)) {
            Some(w) => Some(split_on(w, '/')[0]),
            None => None,
        }
    } else {
        None
    }
}

/// The addresses that `inet` lines name, in order.
pub open spec fn inet_addresses(lines: Seq<Seq<char>>) -> Seq<Seq<char>>
    decreases lines.len(),
{
    if lines.len() == 0 {
        Seq::empty()
    } else {
        let r = inet_addresses(lines.drop_last());
        match inet_candidate(lines.last()) {
            Some(a) => r.push(a),
            None => r,
        }
    }
}

fn line_candidate(v: &Vec<char>, lo: usize, hi: usize) -> (r: Option<String>)
    requires
        lo <= hi <= v@.len(),
    ensures
        match r {
            Some(s) => inet_candidate(v@.subrange(lo as int, hi as int)) == Some(s@),
            None => inet_candidate(v@.subrange(lo as int, hi as int)) is None,
        },
{
    let a = trim_start_range(v, lo, hi);
    let b = trim_end_range(v, a, hi);
    if !prefix_at(v, a, b, "inet ") {
        return None;
    }
    match first_token_range(v, lo, hi) {
        None => {
            proof {
                reveal_strlit("inet ");
                assert(v@.subrange(a as int, hi as int).len() > 0);
            }
            None
        },
        Some((_x, y)) => match first_token_range(v, y, hi) {
            None => None,
            Some((c, d)) => {
                let pieces = split_ranges(v, c, d, '/');
                proof {
                    crate::text::lemma_split_on_nonempty(v@.subrange(c as int, d as int), '/');
                }
                let (p, q) = pieces[0];
                Some(string_of(v, p, q))
            },
        },
    }
}

/// The addresses that the output of `ip -4 addr show` names on its `inet`
/// lines, in order; the first that parses as an address is the one used.
pub fn inet_address_texts(output: &str) -> (r: Vec<String>)
    ensures
        views(r@) == inet_addresses(lines_spec(output@)),
{
    let v = chars_of(output);
    let rs = line_ranges(&v);
    let ghost lines = lines_spec(output@);
    let mut out: Vec<String> = Vec::new();
    let mut i: usize = 0;
    proof {
        assert(lines.take(0) =~= Seq::<Seq<char>>::empty());
    }
    while i < rs.len()
        invariant
            0 <= i <= rs@.len(),
            v@ == output@,
            lines == lines_spec(output@),
            crate::text::range_views(v@, rs@) == lines,
            forall|k: int| 0 <= k < rs@.len() ==> (#[trigger] rs@[k]).0 <= rs@[k].1 <= v@.len(),
            views(out@) == inet_addresses(lines.take(i as int)),
        decreases rs.len() - i,
    {
        let (lo, hi) = rs[i];
        proof {
            assert(lines.take(i + 1).drop_last() =~= lines.take(i as int));
            assert(lines.take(i + 1).last() == v@.subrange(lo as int, hi as int));
        }
        match line_candidate(&v, lo, hi) {
            Some(s) => push_string(&mut out, s),
            None => {},
        }
        i = i + 1;
    }
    proof {
        assert(lines.take(rs@.len() as int) =~= lines);
    }
    out
}

/// The client: its settings, the address last published and how often it
/// has published.
pub struct DdnsManager {
    config: DdnsConfig,
    current_ip: Option<IpAddress>,
    last_update: Option<i64>,
    update_count: u64,
}

impl DdnsManager {
    pub closed spec fn config_view(&self) -> DdnsConfig {
        self.config
    }

    /// The address last published.
    pub closed spec fn ip_view(&self) -> Option<IpAddress> {
        self.current_ip
    }

    /// When it was published.
    pub closed spec fn last_update_view(&self) -> Option<i64> {
        self.last_update
    }

    /// How many updates were made.
    pub closed spec fn count_view(&self) -> u64 {
        self.update_count
    }

    /// A client that has published nothing yet.
    pub fn new(config: DdnsConfig) -> (m: DdnsManager)
        ensures
            m.config_view() == config,
            m.ip_view() is None,
            m.last_update_view() is None,
            m.count_view() == 0,
    {
        DdnsManager { config, current_ip: None, last_update: None, update_count: 0 }
    }

    /// The settings.
    pub fn config(&self) -> (c: &DdnsConfig)
        ensures
            *c == self.config_view(),
    {
        &self.config
    }

    /// Whether a check that found `new_ip` updates the record: when forced,
    /// or when the address differs from the one last published.
    pub fn needs_update(&self, new_ip: IpAddress, force: bool) -> (r: bool)
        ensures
            r == (force || self.ip_view() != Some(new_ip)),
    {
        if force {
            return true;
        }
        match self.current_ip {
            Some(ip) => ip != new_ip,
            None => true,
        }
    }

    /// Records an update of the record to `new_ip` at time `now`.
    pub fn record_update(&mut self, new_ip: IpAddress, now: i64)
        requires
            old(self).count_view() < u64::MAX,
        ensures
            final(self).config_view() == old(self).config_view(),
            final(self).ip_view() == Some(new_ip),
            final(self).last_update_view() == Some(now),
            final(self).count_view() == old(self).count_view() + 1,
    {
        self.current_ip = Some(new_ip);
        self.last_update = Some(now);
        self.update_count = self.update_count + 1;
    }

    /// What updating the record to `ip` takes with the configured provider:
    /// the `curl` request and the check of its answer, nothing for the
    /// providers that send none, or an error for a Cloudflare host name
    /// without a dot.
    pub fn update_action(&self, ip: IpAddress) -> (r: Result<UpdateAction, DdnsError>)
        ensures
            r is Err <==> cloudflare_refuses(self.config_view().provider, self.config_view().hostname@),
            r matches Err(e) ==> e matches DdnsError::Config(m) && m@ == "Invalid hostname format"@,
            r matches Ok(UpdateAction::Nothing) ==> response_check(self.config_view().provider) is None,
            r matches Ok(UpdateAction::Curl { args, check }) ==> response_check(self.config_view().provider)
                == Some(check) && views(args@) == curl_args(
                self.config_view().provider,
                self.config_view().hostname@,
                ip,
            ),
            r is Ok ==> (r matches Ok(UpdateAction::Nothing) <==> response_check(self.config_view().provider) is None),
    {
        let h = self.config.hostname.as_str();
        match &self.config.provider {
            DdnsProvider::Cloudflare { .. } => {
                let v = chars_of(h);
                let parts = split_ranges(&v, 0, v.len(), '.');
                proof {
                    assert(v@.subrange(0, v@.len() as int) =~= h@);
                }
                if parts.len() < 2 {
                    Err(DdnsError::Config(owned("Invalid hostname format")))
                } else {
                    Ok(UpdateAction::Nothing)
                }
            },
            DdnsProvider::AWSRoute53 { .. } => Ok(UpdateAction::Nothing),
            DdnsProvider::GoogleDomains { username, password } => {
                let url = host_ip_url_text("https://domains.google.com/nic/update?hostname=", h, ip);
                let args = auth_args_vec(username.as_str(), password.as_str(), url);
                Ok(UpdateAction::Curl { args, check: ResponseCheck::GoogleDomains })
            },
            DdnsProvider::DynDNS { username, password } => {
                let url = host_ip_url_text("https://members.dyndns.org/v3/update?hostname=", h, ip);
                let args = auth_args_vec(username.as_str(), password.as_str(), url);
                Ok(UpdateAction::Curl { args, check: ResponseCheck::DynDns })
            },
            DdnsProvider::NoIP { username, password } => {
                let url = host_ip_url_text("https://dynupdate.no-ip.com/nic/update?hostname=", h, ip);
                let args = auth_args_vec(username.as_str(), password.as_str(), url);
                Ok(UpdateAction::Curl { args, check: ResponseCheck::NoIp })
            },
            DdnsProvider::Namecheap { password } => {
                let url = namecheap_url_text(h, password.as_str(), ip);
                Ok(UpdateAction::Curl { args: silent_args(url), check: ResponseCheck::Namecheap })
            },
            DdnsProvider::FreeDNS { token } => {
                let mut url = owned("https://sync.afraid.org/u/");
                url.append(token.as_str());
                url.append("/?ip=");
                push_ip(&mut url, ip);
                Ok(UpdateAction::Curl { args: silent_args(url), check: ResponseCheck::FreeDns })
            },
            DdnsProvider::DuckDNS { token } => {
                let url = duckdns_url_text(h, token.as_str(), ip);
                Ok(UpdateAction::Curl { args: silent_args(url), check: ResponseCheck::DuckDns })
            },
            DdnsProvider::Custom { update_url, username, password } => {
                let url = custom_url_text(update_url.as_str(), h, ip);
                let args = match (username, password) {
                    (Some(u), Some(w)) => auth_args_vec(u.as_str(), w.as_str(), url),
                    _ => silent_args(url),
                };
                Ok(UpdateAction::Curl { args, check: ResponseCheck::Custom })
            },
        }
    }

    /// What the client reports at time `now`: the host, the provider, the
    /// address last published, when and how often, and whether it is up to
    /// date, which it is once an address was published.
    pub fn get_status(&self, now: i64) -> (s: DdnsStatus)
        ensures
            s.hostname@ == self.config_view().hostname@,
            s.provider@ == provider_debug(self.config_view().provider),
            s.current_ip == self.ip_view(),
            s.last_update == self.last_update_view(),
            s.last_check == Some(now),
            s.update_count == self.count_view(),
            s.last_error is None,
            s.status == (if self.ip_view() is Some {
                UpdateStatus::UpToDate
            } else {
                UpdateStatus::Unknown
            }),
    {
        DdnsStatus {
            hostname: copy(&self.config.hostname),
            provider: provider_text(&self.config.provider),
            current_ip: self.current_ip,
            last_update: self.last_update,
            last_check: Some(now),
            update_count: self.update_count,
            last_error: None,
            status: if self.current_ip.is_some() {
                UpdateStatus::UpToDate
            } else {
                UpdateStatus::Unknown
            },
        }
    }
}

fn host_ip_url_text(base: &str, hostname: &str, ip: IpAddress) -> (r: String)
    ensures
        r@ == host_ip_url(base@, hostname@, ip),
{
    let mut url = owned(base);
    url.append(hostname);
    url.append("&myip=");
    push_ip(&mut url, ip);
    url
}

fn auth_args_vec(user: &str, password: &str, url: String) -> (r: Vec<String>)
    ensures
        views(r@) == auth_args(user@, password@, url@),
{
    let mut auth = owned(user);
    auth.append(":");
    auth.append(password);
    let mut args: Vec<String> = Vec::new();
    push_string(&mut args, owned("-s"));
    push_string(&mut args, owned("-u"));
    push_string(&mut args, auth);
    push_string(&mut args, url);
    proof {
        assert(views(args@) =~= auth_args(user@, password@, url@));
    }
    args
}

fn silent_args(url: String) -> (r: Vec<String>)
    ensures
        views(r@) == seq!["-s"@, url@],
{
    let mut args: Vec<String> = Vec::new();
    push_string(&mut args, owned("-s"));
    push_string(&mut args, url);
    proof {
        assert(views(args@) =~= seq!["-s"@, url@]);
    }
    args
}

/// The label before the first dot, and the rest after it.
fn host_parts(hostname: &str) -> (r: (String, String))
    ensures
        r.0@ == first_label(hostname@),
        r.1@ == after_first_label(hostname@),
{
    let v = chars_of(hostname);
    let n = v.len();
    let parts = split_ranges(&v, 0, n, '.');
    proof {
        assert(v@.subrange(0, n as int) =~= hostname@);
        crate::text::lemma_split_on_nonempty(hostname@, '.');
    }
    let (a, b) = parts[0];
    let first = string_of(&v, a, b);
    let mut rest: Vec<String> = Vec::new();
    let mut i: usize = 1;
    let ghost pieces = split_on(hostname@, '.');
    while i < parts.len()
        invariant
            1 <= i <= parts@.len(),
            crate::text::range_views(v@, parts@) == pieces,
            forall|k: int| 0 <= k < parts@.len() ==> (#[trigger] parts@[k]).0 <= parts@[k].1 <= n,
            n == v@.len(),
            views(rest@) == pieces.subrange(1, i as int),
        decreases parts.len() - i,
    {
        let (x, y) = parts[i];
        push_string(&mut rest, string_of(&v, x, y));
        proof {
            assert(pieces.subrange(1, i + 1) =~= pieces.subrange(1, i as int).push(pieces[i as int]));
        }
        i = i + 1;
    }
    proof {
        assert(pieces.subrange(1, parts@.len() as int) =~= pieces.skip(1));
    }
    let domain = join_strings(&rest, ".");
    (first, domain)
}

fn namecheap_url_text(hostname: &str, password: &str, ip: IpAddress) -> (r: String)
    ensures
        r@ == namecheap_url(hostname@, password@, ip),
{
    let (host, domain) = host_parts(hostname);
    let mut url = owned("https://dynamicdns.park-your-domain.com/update?host=");
    url.append(host.as_str());
    url.append("&domain=");
    url.append(domain.as_str());
    url.append("&password=");
    url.append(password);
    url.append("&ip=");
    push_ip(&mut url, ip);
    url
}

fn duckdns_url_text(hostname: &str, token: &str, ip: IpAddress) -> (r: String)
    ensures
        r@ == duckdns_url(hostname@, token@, ip),
{
    let (sub, _rest) = host_parts(hostname);
    let mut url = owned("https://www.duckdns.org/update?domains=");
    url.append(sub.as_str());
    url.append("&token=");
    url.append(token);
    url.append("&ip=");
    push_ip(&mut url, ip);
    url
}

fn custom_url_text(update_url: &str, hostname: &str, ip: IpAddress) -> (r: String)
    ensures
        r@ == custom_url(update_url@, hostname@, ip),
{
    proof {
        reveal_strlit("{hostname}");
        reveal_strlit("{ip}");
    }
    let a = replace_str(update_url, "{hostname}", hostname);
    let mut ip_s = String::new();
    push_ip(&mut ip_s, ip);
    replace_str(a.as_str(), "{ip}", ip_s.as_str())
}

impl Default for DdnsConfig {
    /// Off; DuckDNS with an empty token for `example.duckdns.org`; checks
    /// every five minutes, a forced update daily; no interface or check
    /// URL; no IPv6; three retries a minute apart; a 30-second timeout.
    fn default() -> (c: DdnsConfig)
        ensures
            !c.enabled,
            c.provider matches DdnsProvider::DuckDNS { token } && token@.len() == 0,
            c.hostname@ == "example.duckdns.org"@,
            c.check_interval == 300,
            c.force_update_interval == 86400,
            c.interface is None,
            c.ip_check_url is None,
            !c.ipv6_enabled,
            c.retry_count == 3,
            c.retry_delay == 60,
            c.timeout == 30,
    {
        DdnsConfig {
            enabled: false,
            provider: DdnsProvider::DuckDNS { token: String::new() },
            hostname: owned("example.duckdns.org"),
            check_interval: 300,
            force_update_interval: 86400,
            interface: None,
            ip_check_url: None,
            ipv6_enabled: false,
            retry_count: 3,
            retry_delay: 60,
            timeout: 30,
        }
    }
}

} // verus!
