//! Intrusion detection and prevention with Suricata or Snort: the backend
//! to use, the rules, and the texts of the engines' configuration files.
use vstd::prelude::*;
use crate::text::{
    concat_map, contains_seq, decimal, join, join_strings, lemma_concat_map_full, lemma_concat_map_step, owned,
    push_decimal, str_contains, views,
};

verus! {

/// The engine that inspects traffic.
#[derive(PartialEq, Eq, Structural, Clone, Copy, Debug)]
pub enum IdsBackend {
    /// Suricata, multi-threaded.
    Suricata,
    /// Snort 3.
    Snort3,
    /// Snort 2, the legacy engine.
    Snort2,
}

impl IdsBackend {
    pub open spec fn name_spec(self) -> Seq<char> {
        match self {
            IdsBackend::Suricata => "suricata"@,
            IdsBackend::Snort3 => "snort3"@,
            IdsBackend::Snort2 => "snort2"@,
        }
    }

    /// The backend's name, such as `snort3`.
    pub fn to_string(&self) -> (s: String)
        ensures
            s@ == self.name_spec(),
    {
        match self {
            IdsBackend::Suricata => owned("suricata"),
            IdsBackend::Snort3 => owned("snort3"),
            IdsBackend::Snort2 => owned("snort2"),
        }
    }
}

/// Detection only, or inline prevention.
#[derive(PartialEq, Eq, Structural, Clone, Copy, Debug)]
pub enum IdsMode {
    /// Alerts only.
    IDS,
    /// Blocks inline.
    IPS,
}

#[derive(PartialEq, Eq, Structural, Clone, Copy, Debug)]
pub enum RuleAction {
    Alert,
    Drop,
    Reject,
    Pass,
}

/// A rule of the engines' common rule language.
#[derive(Clone, Debug)]
pub struct IdsRule {
    pub name: String,
    pub enabled: bool,
    pub action: RuleAction,
    /// `tcp`, `udp`, `icmp` or `ip`.
    pub protocol: String,
    pub src_ip: String,
    pub src_port: String,
    pub dst_ip: String,
    pub dst_port: String,
    pub msg: String,
    /// The rule's id.
    pub sid: u32,
    /// The rule's revision.
    pub rev: u32,
    pub content: Option<String>,
    /// A Perl-compatible regular expression.
    pub pcre: Option<String>,
    pub classtype: Option<String>,
    pub priority: u32,
}

/// A subscription to published rules.
#[derive(Clone, Debug)]
pub struct RuleSource {
    pub name: String,
    pub enabled: bool,
    pub url: String,
    pub update_interval_hours: u32,
}

/// What the engine watches, with which rules, and what it logs.
#[derive(Clone, Debug)]
pub struct IdsConfig {
    pub enabled: bool,
    pub backend: IdsBackend,
    pub mode: IdsMode,
    /// The interfaces to watch.
    pub interfaces: Vec<String>,
    /// The networks to protect.
    pub home_net: Vec<String>,
    pub external_net: Vec<String>,
    pub rule_sources: Vec<RuleSource>,
    pub custom_rules: Vec<IdsRule>,
    pub enabled_categories: Vec<String>,
    pub performance: IdsPerformance,
    pub log_alerts: bool,
    pub log_pcap: bool,
    pub log_flow: bool,
    pub log_http: bool,
    pub log_tls: bool,
    pub log_dns: bool,
    pub log_files: bool,
}

/// Performance settings.
#[derive(Clone, Debug)]
pub struct IdsPerformance {
    /// Worker threads; chosen by the engine when absent.
    pub workers: Option<u32>,
    /// Size of the capture ring buffer.
    pub ring_size: u32,
    /// Capture through `AF_PACKET`.
    pub af_packet: bool,
    pub hardware_offload: bool,
}

/// Counters of the engine.
#[derive(PartialEq, Eq, Structural, Clone, Copy, Debug)]
pub struct IdsStats {
    pub packets_received: u64,
    pub packets_dropped: u64,
    pub alerts: u64,
    pub blocked: u64,
    pub uptime_seconds: u64,
}

/// What the probes of the system found: whether `suricata` and `snort` are
/// installed, and what `snort --version` printed, when it ran.
#[derive(Clone, Debug)]
pub struct BackendProbe {
    pub suricata_available: bool,
    pub snort_available: bool,
    pub snort_version_output: Option<String>,
}

/// The backend to use: Suricata when installed; else Snort, version 3 when
/// its version text says `Version 3` and version 2 otherwise (also when
/// the version could not be read); Suricata when neither is installed.
pub open spec fn detected_backend(p: BackendProbe) -> IdsBackend {
    if p.suricata_available {
        IdsBackend::Suricata
    } else if p.snort_available {
        match p.snort_version_output {
            Some(v) => if contains_seq(v@, "Version 3"@) {
                IdsBackend::Snort3
            } else {
                IdsBackend::Snort2
            },
            None => IdsBackend::Snort2,
        }
    } else {
        IdsBackend::Suricata
    }
}

/// The installed backends: Suricata if installed, then Snort 3 or Snort 2
/// by its version text, if Snort is installed and its version was read.
pub open spec fn available_backends(p: BackendProbe) -> Seq<IdsBackend> {
    (if p.suricata_available {
        seq![IdsBackend::Suricata]
    } else {
        Seq::empty()
    }) + if p.snort_available {
        match p.snort_version_output {
            Some(v) => if contains_seq(v@, "Version 3"@) {
                seq![IdsBackend::Snort3]
            } else {
                seq![IdsBackend::Snort2]
            },
            None => Seq::empty(),
        }
    } else {
        Seq::empty()
    }
}

fn snort_backend_of(v: &String) -> (b: IdsBackend)
    ensures
        b == (if contains_seq(v@, "Version 3"@) {
            IdsBackend::Snort3
        } else {
            IdsBackend::Snort2
        }),
{
    if str_contains(v.as_str(), "Version 3") {
        IdsBackend::Snort3
    } else {
        IdsBackend::Snort2
    }
}

/// The word of a rule action.
pub open spec fn action_word(a: RuleAction) -> Seq<char> {
    match a {
        RuleAction::Alert => "alert"@,
        RuleAction::Drop => "drop"@,
        RuleAction::Reject => "reject"@,
        RuleAction::Pass => "pass"@,
    }
}

/// `pre`, the value and `post`, when there is a value.
pub open spec fn opt_part(o: Option<String>, pre: Seq<char>, post: Seq<char>) -> Seq<char> {
    match o {
        Some(x) => pre + x@ + post,
        None => Seq::empty(),
    }
}

/// The header of a rule: action, protocol, source and destination.
pub open spec fn rule_header(r: IdsRule) -> Seq<char> {
    action_word(r.action) + " "@ + r.protocol@ + " "@ + r.src_ip@ + " "@ + r.src_port@ + " -> "@ + r.dst_ip@ + " "@
        + r.dst_port@
}

/// The options of a rule, in parentheses.
pub open spec fn rule_options(r: IdsRule) -> Seq<char> {
    " (msg:\""@ + r.msg@ + "\"; sid:"@ + decimal(r.sid as nat) + "; rev:"@ + decimal(r.rev as nat) + ";"@ + opt_part(
        r.content,
        " content:\""@,
        "\";"@,
    ) + opt_part(r.pcre, " pcre:\""@, "\";"@) + opt_part(r.classtype, " classtype:"@, ";"@) + " priority:"@
        + decimal(r.priority as nat) + ";"@ + " )"@
}

/// The line of a rule: header, then options, separated by single spaces.
pub open spec fn rule_line(r: IdsRule) -> Seq<char> {
    rule_header(r) + rule_options(r) + "\n"@
}

/// The text of the custom rules file: one line per enabled rule, in order.
pub open spec fn custom_rules_text(rules: Seq<IdsRule>) -> Seq<char> {
    "# Patronus Custom IDS Rules\n\n"@ + concat_map(
        rules,
        |r: IdsRule|
            if r.enabled {
                rule_line(r)
            } else {
                Seq::empty()
            },
    )
}

fn push_opt_part(out: &mut String, o: &Option<String>, pre: &str, post: &str)
    ensures
        final(out)@ == old(out)@ + opt_part(*o, pre@, post@),
{
    match o {
        Some(x) => {
            out.append(pre);
            out.append(x.as_str());
            out.append(post);
            proof {
                assert(final(out)@ =~= old(out)@ + opt_part(*o, pre@, post@));
            }
        },
        None => {
            proof {
                assert(out@ =~= old(out)@ + opt_part(*o, pre@, post@));
            }
        },
    }
}

fn push_rule_header(out: &mut String, r: &IdsRule)
    ensures
        final(out)@ == old(out)@ + rule_header(*r),
{
    let ghost base = out@;
    match r.action {
        RuleAction::Alert => out.append("alert"),
        RuleAction::Drop => out.append("drop"),
        RuleAction::Reject => out.append("reject"),
        RuleAction::Pass => out.append("pass"),
    }
    out.append(" ");
    out.append(r.protocol.as_str());
    out.append(" ");
    out.append(r.src_ip.as_str());
    out.append(" ");
    out.append(r.src_port.as_str());
    out.append(" -> ");
    out.append(r.dst_ip.as_str());
    out.append(" ");
    out.append(r.dst_port.as_str());
    proof {
        assert(out@ =~= base + rule_header(*r));
    }
}

fn push_rule_options(out: &mut String, r: &IdsRule)
    ensures
        final(out)@ == old(out)@ + rule_options(*r),
{
    let ghost base = out@;
    out.append(" (msg:\"");
    out.append(r.msg.as_str());
    out.append("\"; sid:");
    push_decimal(out, r.sid as u64);
    out.append("; rev:");
    push_decimal(out, r.rev as u64);
    out.append(";");
    push_opt_part(out, &r.content, " content:\"", "\";");
    push_opt_part(out, &r.pcre, " pcre:\"", "\";");
    push_opt_part(out, &r.classtype, " classtype:", ";");
    out.append(" priority:");
    push_decimal(out, r.priority as u64);
    out.append(";");
    out.append(" )");
    proof {
        assert(out@ =~= base + rule_options(*r));
    }
}

fn push_rule_line(out: &mut String, r: &IdsRule)
    ensures
        final(out)@ == old(out)@ + rule_line(*r),
{
    let ghost base = out@;
    push_rule_header(out, r);
    push_rule_options(out, r);
    out.append("\n");
    proof {
        assert(out@ =~= base + rule_line(*r));
    }
}

/// The engine, and the directories of its configuration, rules and logs.
pub struct IdsManager {
    backend: IdsBackend,
    config_dir: String,
    rules_dir: String,
    log_dir: String,
}

impl IdsManager {
    pub closed spec fn backend_view(&self) -> IdsBackend {
        self.backend
    }

    pub closed spec fn config_dir_view(&self) -> Seq<char> {
        self.config_dir@
    }

    pub closed spec fn rules_dir_view(&self) -> Seq<char> {
        self.rules_dir@
    }

    pub closed spec fn log_dir_view(&self) -> Seq<char> {
        self.log_dir@
    }

    /// A manager of the given backend, with configuration under
    /// `/etc/patronus/ids` and logs under `/var/log/patronus/ids`.
    pub fn new(backend: IdsBackend) -> (m: IdsManager)
        ensures
            m.backend_view() == backend,
            m.config_dir_view() == "/etc/patronus/ids"@,
            m.rules_dir_view() == "/etc/patronus/ids/rules"@,
            m.log_dir_view() == "/var/log/patronus/ids"@,
    {
        IdsManager {
            backend,
            config_dir: owned("/etc/patronus/ids"),
            rules_dir: owned("/etc/patronus/ids/rules"),
            log_dir: owned("/var/log/patronus/ids"),
        }
    }

    /// A manager of the backend that the probes of the system point to.
    pub fn new_auto(probe: &BackendProbe) -> (m: IdsManager)
        ensures
            m.backend_view() == detected_backend(*probe),
            m.config_dir_view() == "/etc/patronus/ids"@,
            m.rules_dir_view() == "/etc/patronus/ids/rules"@,
            m.log_dir_view() == "/var/log/patronus/ids"@,
    {
        IdsManager::new(IdsManager::detect_backend(probe))
    }

    /// The backend that the probes of the system point to.
    pub fn detect_backend(probe: &BackendProbe) -> (b: IdsBackend)
        ensures
            b == detected_backend(*probe),
    {
        if probe.suricata_available {
            IdsBackend::Suricata
        } else if probe.snort_available {
            match &probe.snort_version_output {
                Some(v) => snort_backend_of(v),
                None => IdsBackend::Snort2,
            }
        } else {
            IdsBackend::Suricata
        }
    }

    /// The backends installed on the system, as the probes found them.
    pub fn list_available_backends(probe: &BackendProbe) -> (v: Vec<IdsBackend>)
        ensures
            v@ == available_backends(*probe),
    {
        let mut v: Vec<IdsBackend> = Vec::new();
        if probe.suricata_available {
            v.push(IdsBackend::Suricata);
        }
        if probe.snort_available {
            match &probe.snort_version_output {
                Some(out) => {
                    v.push(snort_backend_of(out));
                },
                None => {},
            }
        }
        proof {
            assert(v@ =~= available_backends(*probe));
        }
        v
    }

    /// The backend in use.
    pub fn backend(&self) -> (b: IdsBackend)
        ensures
            b == self.backend_view(),
    {
        self.backend
    }

    /// The directory of the engine's configuration.
    pub fn config_dir(&self) -> (d: String)
        ensures
            d@ == self.config_dir_view(),
    {
        self.config_dir.clone()
    }

    /// The directory of the rules.
    pub fn rules_dir(&self) -> (d: String)
        ensures
            d@ == self.rules_dir_view(),
    {
        self.rules_dir.clone()
    }

    /// The directory of the logs.
    pub fn log_dir(&self) -> (d: String)
        ensures
            d@ == self.log_dir_view(),
    {
        self.log_dir.clone()
    }

    /// The text of `custom.rules`: a heading, then a line for each enabled
    /// custom rule.
    pub fn custom_rules(&self, config: &IdsConfig) -> (text: String)
        ensures
            text@ == custom_rules_text(config.custom_rules@),
    {
        let mut text = String::new();
        text.append("# Patronus Custom IDS Rules\n\n");
        let ghost base = text@;
        let ghost f = |r: IdsRule|
            if r.enabled {
                rule_line(r)
            } else {
                Seq::empty()
            };
        let mut i: usize = 0;
        while i < config.custom_rules.len()
            invariant
                0 <= i <= config.custom_rules.len(),
                f == (|r: IdsRule|
                    if r.enabled {
                        rule_line(r)
                    } else {
                        Seq::empty()
                    }),
                text@ == base + concat_map(config.custom_rules@.subrange(0, i as int), f),
            decreases config.custom_rules.len() - i,
        {
            let rule = &config.custom_rules[i];
            if rule.enabled {
                push_rule_line(&mut text, rule);
            }
            proof {
                lemma_concat_map_step(config.custom_rules@, f, i as int);
                assert(text@ =~= base + concat_map(config.custom_rules@.subrange(0, i + 1), f));
            }
            i = i + 1;
        }
        proof {
            lemma_concat_map_full(config.custom_rules@, f);
        }
        text
    }

    /// The engine's counters; none are read yet, so all are zero.
    pub fn get_stats(&self) -> (s: IdsStats)
        ensures
            s == (IdsStats { packets_received: 0, packets_dropped: 0, alerts: 0, blocked: 0, uptime_seconds: 0 }),
    {
        IdsStats { packets_received: 0, packets_dropped: 0, alerts: 0, blocked: 0, uptime_seconds: 0 }
    }

    /// Three alerting rules for common attacks: SSH brute force (sid
    /// 1000001), SQL injection (sid 1000002) and port scans (sid 1000003).
    pub fn create_basic_ruleset() -> (rules: Vec<IdsRule>)
        ensures
            rules@.len() == 3,
            forall|k: int| 0 <= k < 3 ==> (#[trigger] rules@[k]).enabled && rules@[k].action == RuleAction::Alert
                && rules@[k].protocol@ == "tcp"@ && rules@[k].src_ip@ == "$EXTERNAL_NET"@ && rules@[k].src_port@
                == "any"@ && rules@[k].rev == 1,
            rules@[0].name@ == "SSH Brute Force"@,
            rules@[0].dst_ip@ == "$HOME_NET"@,
            rules@[0].dst_port@ == "22"@,
            rules@[0].msg@ == "Possible SSH brute force attack"@,
            rules@[0].sid == 1000001,
            rules@[0].content matches Some(c) && c@ == "SSH"@,
            rules@[0].pcre is None,
            rules@[0].classtype matches Some(c) && c@ == "attempted-admin"@,
            rules@[0].priority == 1,
            rules@[1].name@ == "SQL Injection Attempt"@,
            rules@[1].dst_ip@ == "$HTTP_SERVERS"@,
            rules@[1].dst_port@ == "$HTTP_PORTS"@,
            rules@[1].msg@ == "SQL injection attempt detected"@,
            rules@[1].sid == 1000002,
            rules@[1].content is None,
            rules@[1].pcre matches Some(p) && p@ == "/(\\%27)|(\\')|(\\-\\-)|(\\%23)|(#)/i"@,
            rules@[1].classtype matches Some(c) && c@ == "web-application-attack"@,
            rules@[1].priority == 1,
            rules@[2].name@ == "Port Scan Detection"@,
            rules@[2].dst_ip@ == "$HOME_NET"@,
            rules@[2].dst_port@ == "any"@,
            rules@[2].msg@ == "Possible port scan detected"@,
            rules@[2].sid == 1000003,
            rules@[2].content is None,
            rules@[2].pcre is None,
            rules@[2].classtype matches Some(c) && c@ == "attempted-recon"@,
            rules@[2].priority == 2,
    {
        let mut rules: Vec<IdsRule> = Vec::new();
        rules.push(
            IdsRule {
                name: owned("SSH Brute Force"),
                enabled: true,
                action: RuleAction::Alert,
                protocol: owned("tcp"),
                src_ip: owned("$EXTERNAL_NET"),
                src_port: owned("any"),
                dst_ip: owned("$HOME_NET"),
                dst_port: owned("22"),
                msg: owned("Possible SSH brute force attack"),
                sid: 1000001,
                rev: 1,
                content: Some(owned("SSH")),
                pcre: None,
                classtype: Some(owned("attempted-admin")),
                priority: 1,
            },
        );
        rules.push(
            IdsRule {
                name: owned("SQL Injection Attempt"),
                enabled: true,
                action: RuleAction::Alert,
                protocol: owned("tcp"),
                src_ip: owned("$EXTERNAL_NET"),
                src_port: owned("any"),
                dst_ip: owned("$HTTP_SERVERS"),
                dst_port: owned("$HTTP_PORTS"),
                msg: owned("SQL injection attempt detected"),
                sid: 1000002,
                rev: 1,
                content: None,
                pcre: Some(owned("/(\\%27)|(\\')|(\\-\\-)|(\\%23)|(#)/i")),
                classtype: Some(owned("web-application-attack")),
                priority: 1,
            },
        );
        rules.push(
            IdsRule {
                name: owned("Port Scan Detection"),
                enabled: true,
                action: RuleAction::Alert,
                protocol: owned("tcp"),
                src_ip: owned("$EXTERNAL_NET"),
                src_port: owned("any"),
                dst_ip: owned("$HOME_NET"),
                dst_port: owned("any"),
                msg: owned("Possible port scan detected"),
                sid: 1000003,
                rev: 1,
                content: None,
                pcre: None,
                classtype: Some(owned("attempted-recon")),
                priority: 2,
            },
        );
        rules
    }
}


// ---------------------------------------------------------------------------
// The engines' configuration texts: fixed parts, between which the settings
// are written.

pub const SURICATA_HEAD: &'static str = "%YAML 1.1\n---\n# Patronus IDS/IPS - Suricata Configuration\n";

pub const SURICATA_HOME_NET: &'static str = "\n\nvars:\n  address-groups:\n    HOME_NET: \"[";

pub const SURICATA_EXTERNAL_NET: &'static str = "]\"\n    EXTERNAL_NET: \"[";

pub const SURICATA_PORTS_THREADING: &'static str = "]\"\n\n  port-groups:\n    HTTP_PORTS: \"80\"\n    SHELLCODE_PORTS: \"!80\"\n    ORACLE_PORTS: 1521\n    SSH_PORTS: 22\n    DNP3_PORTS: 20000\n    MODBUS_PORTS: 502\n    FILE_DATA_PORTS: \"[$HTTP_PORTS,110,143]\"\n    FTP_PORTS: 21\n\n# Threading\nthreading:\n  set-cpu-affinity: no\n  cpu-affinity:\n    - management-cpu-set:\n        cpu: [ 0 ]\n    - receive-cpu-set:\n        cpu: [ 0 ]\n    - worker-cpu-set:\n        cpu: [ \"all\" ]\n  detect-thread-ratio: 1.0\n\n";

pub const SURICATA_FAST_LOG: &'static str = "\n\n# Outputs\noutputs:\n  - fast:\n      enabled: ";

pub const SURICATA_EVE_HTTP: &'static str = "\n      filename: fast.log\n\n  - eve-log:\n      enabled: yes\n      filetype: regular\n      filename: eve.json\n      types:\n        - alert:\n            payload: yes\n            packet: yes\n            metadata: yes\n        - http:\n            enabled: ";

pub const SURICATA_EVE_DNS: &'static str = "\n        - dns:\n            enabled: ";

pub const SURICATA_EVE_TLS: &'static str = "\n        - tls:\n            enabled: ";

pub const SURICATA_EVE_FILES: &'static str = "\n        - files:\n            enabled: ";

pub const SURICATA_EVE_FLOW: &'static str = "\n        - flow:\n            enabled: ";

pub const SURICATA_RULE_PATH: &'static str = "\n\n# Rule files\ndefault-rule-path: ";

pub const SURICATA_STREAM_INLINE: &'static str = "\nrule-files:\n  - suricata.rules\n  - custom.rules\n\n# Performance\ndetect:\n  profile: high\n  custom-values:\n    toclient-groups: 3\n    toserver-groups: 25\n\nstream:\n    memcap: 64mb\n    checksum-validation: yes\n    inline: ";

pub const SURICATA_LOGGING: &'static str = "\n    reassembly:\n      memcap: 256mb\n      depth: 1mb\n      toserver-chunk-size: 2560\n      toclient-chunk-size: 2560\n\n# Logging\nlogging:\n  default-log-level: notice\n  outputs:\n    - console:\n        enabled: yes\n    - file:\n        enabled: yes\n        filename: /var/log/patronus/ids/suricata.log\n    - syslog:\n        enabled: yes\n        facility: local5\n";

pub const SNORT3_HEAD: &'static str = "-- Patronus IDS/IPS - Snort 3 Configuration\n\n---------------------------------------------------------------------------\n-- Variables\n---------------------------------------------------------------------------\nHOME_NET = '";

pub const SNORT3_EXTERNAL_NET: &'static str = "'\nEXTERNAL_NET = '";

pub const SNORT3_MODE: &'static str = "'\n\n---------------------------------------------------------------------------\n-- Network\n---------------------------------------------------------------------------\nnetwork = {\n    home_net = HOME_NET,\n    external_net = EXTERNAL_NET,\n}\n\n---------------------------------------------------------------------------\n-- Detection\n---------------------------------------------------------------------------\nips = {\n    mode = '";

pub const SNORT3_RULES_DIR: &'static str = "',\n    variables = network,\n    rules = [[\n        include ";

pub const SNORT3_TAIL: &'static str = "/custom.rules\n    ]],\n}\n\n---------------------------------------------------------------------------\n-- Outputs\n---------------------------------------------------------------------------\nalert_fast = {\n    file = true,\n    packet = false,\n}\n\nalert_json = {\n    file = true,\n    fields = 'seconds action class b64_data dir dst_addr dst_port eth_dst eth_src ' ..\n             'gid iface msg mpls pkt_gen pkt_len pkt_num priority proto rev rule ' ..\n             'service sid src_addr src_port target tcp_ack tcp_flags tcp_seq tcp_win ' ..\n             'tos ttl udp_len vlan timestamp',\n}\n\n---------------------------------------------------------------------------\n-- Performance\n---------------------------------------------------------------------------\nsearch_engine = {\n    search_method = 'ac_bnfa',\n}\n\ndetection = {\n    pcre_match_limit = 1500,\n    pcre_match_limit_recursion = 1500,\n}\n\n---------------------------------------------------------------------------\n-- Logging\n---------------------------------------------------------------------------\noutput = {\n    logdir = '/var/log/patronus/ids',\n}\n";

pub const SNORT2_HEAD: &'static str = "# Patronus IDS/IPS - Snort 2 Configuration\n\n#--------------------------------------------------\n# Variables\n#--------------------------------------------------\nvar HOME_NET ";

pub const SNORT2_EXTERNAL_NET: &'static str = "\nvar EXTERNAL_NET ";

pub const SNORT2_PREPROCESSORS: &'static str = "\n\nvar HTTP_SERVERS $HOME_NET\nvar SMTP_SERVERS $HOME_NET\nvar SQL_SERVERS $HOME_NET\nvar DNS_SERVERS $HOME_NET\n\nvar HTTP_PORTS 80\nvar SHELLCODE_PORTS !80\nvar ORACLE_PORTS 1521\n\n#--------------------------------------------------\n# Decoder and Preprocessor Configuration\n#--------------------------------------------------\nconfig checksum_mode: all\nconfig disable_decode_alerts\nconfig disable_tcpopt_experimental_alerts\nconfig disable_tcpopt_obsolete_alerts\nconfig disable_ttcp_alerts\nconfig disable_tcpopt_alerts\nconfig disable_ipopt_alerts\n\n# Performance\nconfig detection: search-method ac-bnfa\nconfig event_queue: max_queue 8 log 5 order_events content_length\n\n# Stream5 preprocessor\npreprocessor stream5_global: track_tcp yes, \\\n   track_udp yes, \\\n   track_icmp no, \\\n   max_tcp 262144, \\\n   max_udp 131072, \\\n   max_active_responses 2, \\\n   min_response_seconds 5\n\npreprocessor stream5_tcp: policy linux, detect_anomalies, require_3whs 180, \\\n   overlap_limit 10, small_segments 3 bytes 150, timeout 180, \\\n   ports client 21 22 23 25 42 53 79 109 110 111 113 119 135 136 137 139 143 \\\n         161 445 513 514 587 593 691 1433 1521 1741 2100 3306 6070 6665 6666 6667 6668 6669 \\\n         7000 8181 32770 32771 32772 32773 32774 32775 32776 32777 32778 32779, \\\n   ports both 80 81 311 383 443 465 563 591 593 636 901 989 992 993 994 995 1220 1414 1830 2301 2381 2809 3037 3128 3702 4343 4848 5250 6988 7907 7001 7802 7777 7779 \\\n         7801 7900 7901 7902 7903 7904 7905 7906 7908 7909 7910 7911 7912 7913 7914 7915 7916 \\\n         7917 7918 7919 7920 8000 8008 8028 8080 8088 8118 8123 8180 8243 8280 8888 9090 9091 9443 9999 11371 34443 34444 41080 50002 55555\n\npreprocessor stream5_udp: timeout 180\n\n# HTTP Inspect\npreprocessor http_inspect: global iis_unicode_map unicode.map 1252 compress_depth 65535 decompress_depth 65535\n\npreprocessor http_inspect_server: server default \\\n    http_methods { GET POST PUT SEARCH MKCOL COPY MOVE LOCK UNLOCK NOTIFY POLL BCOPY BDELETE BMOVE LINK UNLINK OPTIONS HEAD DELETE TRACE TRACK CONNECT SOURCE SUBSCRIBE UNSUBSCRIBE PROPFIND PROPPATCH BPROPFIND BPROPPATCH RPC_CONNECT PROXY_SUCCESS BITS_POST CCM_POST SMS_POST RPC_IN_DATA RPC_OUT_DATA RPC_ECHO_DATA } \\\n    chunk_length 500000 \\\n    server_flow_depth 0 \\\n    client_flow_depth 0 \\\n    post_depth 65495 \\\n    oversize_dir_length 500 \\\n    max_header_length 750 \\\n    max_headers 100 \\\n    max_spaces 200 \\\n    small_chunk_length { 10 5 } \\\n    ports { 80 81 311 383 591 593 901 1220 1414 1830 2301 2381 2809 3037 3128 3702 4343 4848 5250 6988 7000 7001 7777 7779 7801 7900 7901 7902 7903 7904 7905 7906 7908 7909 7910 } \\\n    non_rfc_char { 0x00 0x01 0x02 0x03 0x04 0x05 0x06 0x07 } \\\n    enable_cookie \\\n    extended_response_inspection \\\n    inspect_gzip \\\n    normalize_utf \\\n    unlimited_decompress \\\n    normalize_javascript \\\n    apache_whitespace no \\\n    ascii no \\\n    bare_byte no \\\n    directory no \\\n    double_decode no \\\n    iis_backslash no \\\n    iis_delimiter no \\\n    iis_unicode no \\\n    multi_slash no \\\n    utf_8 no \\\n    u_encode yes \\\n    webroot no\n\n#--------------------------------------------------\n# Output Plugins\n#--------------------------------------------------\noutput alert_fast: alerts.txt\noutput alert_json: alerts.json\n\n#--------------------------------------------------\n# Rules\n#--------------------------------------------------\nvar RULE_PATH ";

pub const SNORT2_TAIL: &'static str = "\ninclude $RULE_PATH/custom.rules\n";

/// `true` or `false`.
#[verifier::opaque]
pub open spec fn bool_text(b: bool) -> Seq<char> {
    if b {
        "true"@
    } else {
        "false"@
    }
}

/// The comment that names the mode.
pub open spec fn mode_comment(m: IdsMode) -> Seq<char> {
    match m {
        IdsMode::IDS => "# IDS mode - alert only"@,
        IdsMode::IPS => "# IPS mode - inline blocking"@,
    }
}

/// The number of worker threads, or `auto`.
pub open spec fn workers_text(w: Option<u32>) -> Seq<char> {
    match w {
        Some(n) => decimal(n as nat),
        None => "auto"@,
    }
}

/// The `af-packet` capture section, present only with `AF_PACKET`.
pub open spec fn af_packet_text(c: IdsConfig) -> Seq<char> {
    if c.performance.af_packet {
        "\naf-packet:\n  - interface: "@ + join(views(c.interfaces@), "\n  - interface: "@) + "\n    threads: "@
            + workers_text(c.performance.workers)
            + "\n    cluster-id: 99\n    cluster-type: cluster_flow\n    defrag: yes\n    use-mmap: yes\n    ring-size: "@
            + decimal(c.performance.ring_size as nat) + "\n"@
    } else {
        Seq::empty()
    }
}

/// Suricata's configuration up to the capture section.
pub open spec fn suricata_vars_text(c: IdsConfig) -> Seq<char> {
    SURICATA_HEAD@ + mode_comment(c.mode) + SURICATA_HOME_NET@ + join(views(c.home_net@), ","@)
        + SURICATA_EXTERNAL_NET@ + join(views(c.external_net@), ","@) + SURICATA_PORTS_THREADING@ + af_packet_text(c)
}

/// Suricata's fast log and the first records of its event log.
pub open spec fn suricata_logs_a(c: IdsConfig) -> Seq<char> {
    SURICATA_FAST_LOG@ + bool_text(c.log_alerts) + SURICATA_EVE_HTTP@ + bool_text(c.log_http) + SURICATA_EVE_DNS@
        + bool_text(c.log_dns)
}

/// The last records of Suricata's event log.
pub open spec fn suricata_logs_b(c: IdsConfig) -> Seq<char> {
    SURICATA_EVE_TLS@ + bool_text(c.log_tls) + SURICATA_EVE_FILES@ + bool_text(c.log_files) + SURICATA_EVE_FLOW@
        + bool_text(c.log_flow)
}

/// Suricata's log outputs.
pub open spec fn suricata_logs_text(c: IdsConfig) -> Seq<char> {
    suricata_logs_a(c) + suricata_logs_b(c)
}

/// Suricata's rule files, stream and logging settings.
pub open spec fn suricata_rules_text(c: IdsConfig, rules_dir: Seq<char>) -> Seq<char> {
    SURICATA_RULE_PATH@ + rules_dir + SURICATA_STREAM_INLINE@ + (if c.mode == IdsMode::IPS {
        "auto"@
    } else {
        "no"@
    }) + SURICATA_LOGGING@
}

/// Suricata's outputs, rule files, stream and logging settings.
pub open spec fn suricata_outputs_text(c: IdsConfig, rules_dir: Seq<char>) -> Seq<char> {
    suricata_logs_text(c) + suricata_rules_text(c, rules_dir)
}

/// The text of `suricata.yaml`.
pub open spec fn suricata_yaml_text(c: IdsConfig, rules_dir: Seq<char>) -> Seq<char> {
    suricata_vars_text(c) + suricata_outputs_text(c, rules_dir)
}

/// The text of `snort.lua`.
pub open spec fn snort3_lua_text(c: IdsConfig, rules_dir: Seq<char>) -> Seq<char> {
    SNORT3_HEAD@ + join(views(c.home_net@), ","@) + SNORT3_EXTERNAL_NET@ + join(views(c.external_net@), ","@)
        + SNORT3_MODE@ + (if c.mode == IdsMode::IPS {
        "inline"@
    } else {
        "tap"@
    }) + SNORT3_RULES_DIR@ + rules_dir + SNORT3_TAIL@
}

/// The text of `snort.conf`.
pub open spec fn snort2_conf_text(c: IdsConfig, rules_dir: Seq<char>) -> Seq<char> {
    SNORT2_HEAD@ + join(views(c.home_net@), ","@) + SNORT2_EXTERNAL_NET@ + join(views(c.external_net@), ","@)
        + SNORT2_PREPROCESSORS@ + rules_dir + SNORT2_TAIL@
}

/// The name of the engine's configuration file.
pub open spec fn config_file_name(b: IdsBackend) -> Seq<char> {
    match b {
        IdsBackend::Suricata => "suricata.yaml"@,
        IdsBackend::Snort3 => "snort.lua"@,
        IdsBackend::Snort2 => "snort.conf"@,
    }
}

/// The text of the engine's configuration file.
pub open spec fn engine_config_text(b: IdsBackend, c: IdsConfig, rules_dir: Seq<char>) -> Seq<char> {
    match b {
        IdsBackend::Suricata => suricata_yaml_text(c, rules_dir),
        IdsBackend::Snort3 => snort3_lua_text(c, rules_dir),
        IdsBackend::Snort2 => snort2_conf_text(c, rules_dir),
    }
}

/// The arguments of the engine's command: its configuration file, then
/// inline operation in prevention mode, or the interfaces to watch.
pub open spec fn start_args(b: IdsBackend, c: IdsConfig, config_dir: Seq<char>) -> Seq<Seq<char>> {
    seq!["-c"@, config_dir + "/"@ + config_file_name(b)] + if c.mode == IdsMode::IPS {
        if b == IdsBackend::Suricata {
            seq!["-q"@, "0"@]
        } else {
            seq!["-Q"@]
        }
    } else {
        interface_args(views(c.interfaces@))
    }
}

/// `-i` before each interface.
pub open spec fn interface_args(ifaces: Seq<Seq<char>>) -> Seq<Seq<char>>
    decreases ifaces.len(),
{
    if ifaces.len() == 0 {
        Seq::empty()
    } else {
        interface_args(ifaces.drop_last()) + seq!["-i"@, ifaces.last()]
    }
}

/// The program that runs the engine.
pub open spec fn engine_program(b: IdsBackend) -> Seq<char> {
    match b {
        IdsBackend::Suricata => "suricata"@,
        _ => "snort"@,
    }
}

/// The files that configuring the engine writes: its configuration and the
/// custom rules.
#[derive(Debug)]
pub struct IdsConfigFiles {
    pub config_path: String,
    pub config_text: String,
    pub rules_path: String,
    pub rules_text: String,
}

fn push_join(out: &mut String, v: &Vec<String>, sep: &str)
    ensures
        final(out)@ == old(out)@ + join(views(v@), sep@),
{
    let j = join_strings(v, sep);
    out.append(j.as_str());
}

fn push_bool(out: &mut String, b: bool)
    ensures
        final(out)@ == old(out)@ + bool_text(b),
{
    reveal(bool_text);
    if b {
        out.append("true");
    } else {
        out.append("false");
    }
}

fn push_af_packet(out: &mut String, c: &IdsConfig)
    ensures
        final(out)@ == old(out)@ + af_packet_text(*c),
{
    let ghost base = out@;
    if c.performance.af_packet {
        out.append("\naf-packet:\n  - interface: ");
        push_join(out, &c.interfaces, "\n  - interface: ");
        out.append("\n    threads: ");
        match c.performance.workers {
            Some(n) => push_decimal(out, n as u64),
            None => out.append("auto"),
        }
        out.append(
            "\n    cluster-id: 99\n    cluster-type: cluster_flow\n    defrag: yes\n    use-mmap: yes\n    ring-size: ",
        );
        push_decimal(out, c.performance.ring_size as u64);
        out.append("\n");
    }
    proof {
        assert(out@ =~= base + af_packet_text(*c));
    }
}

fn push_suricata_vars(out: &mut String, c: &IdsConfig)
    ensures
        final(out)@ == old(out)@ + suricata_vars_text(*c),
{
    let ghost base = out@;
    out.append(SURICATA_HEAD);
    match c.mode {
        IdsMode::IDS => out.append("# IDS mode - alert only"),
        IdsMode::IPS => out.append("# IPS mode - inline blocking"),
    }
    out.append(SURICATA_HOME_NET);
    push_join(out, &c.home_net, ",");
    out.append(SURICATA_EXTERNAL_NET);
    push_join(out, &c.external_net, ",");
    out.append(SURICATA_PORTS_THREADING);
    push_af_packet(out, c);
    proof {
        assert(out@ =~= base + suricata_vars_text(*c));
    }
}

fn push_chunk_bool(out: &mut String, chunk: &str, b: bool)
    ensures
        final(out)@ == old(out)@ + chunk@ + bool_text(b),
{
    out.append(chunk);
    push_bool(out, b);
}

fn push_three(out: &mut String, c1: &str, b1: bool, c2: &str, b2: bool, c3: &str, b3: bool)
    ensures
        final(out)@ == old(out)@ + (c1@ + bool_text(b1) + c2@ + bool_text(b2) + c3@ + bool_text(b3)),
{
    let ghost base = out@;
    push_chunk_bool(out, c1, b1);
    push_chunk_bool(out, c2, b2);
    push_chunk_bool(out, c3, b3);
    proof {
        assert(out@ =~= base + (c1@ + bool_text(b1) + c2@ + bool_text(b2) + c3@ + bool_text(b3)));
    }
}

fn push_suricata_logs(out: &mut String, c: &IdsConfig)
    ensures
        final(out)@ == old(out)@ + suricata_logs_text(*c),
{
    let ghost base = out@;
    push_three(out, SURICATA_FAST_LOG, c.log_alerts, SURICATA_EVE_HTTP, c.log_http, SURICATA_EVE_DNS, c.log_dns);
    push_three(out, SURICATA_EVE_TLS, c.log_tls, SURICATA_EVE_FILES, c.log_files, SURICATA_EVE_FLOW, c.log_flow);
    proof {
        assert(out@ =~= base + suricata_logs_text(*c));
    }
}

fn push_suricata_outputs(out: &mut String, c: &IdsConfig, rules_dir: &str)
    ensures
        final(out)@ == old(out)@ + suricata_outputs_text(*c, rules_dir@),
{
    let ghost base = out@;
    push_suricata_logs(out, c);
    let ghost mid = out@;
    out.append(SURICATA_RULE_PATH);
    out.append(rules_dir);
    out.append(SURICATA_STREAM_INLINE);
    if c.mode == IdsMode::IPS {
        out.append("auto");
    } else {
        out.append("no");
    }
    out.append(SURICATA_LOGGING);
    proof {
        assert(out@ =~= mid + suricata_rules_text(*c, rules_dir@));
        assert(out@ =~= base + suricata_outputs_text(*c, rules_dir@));
    }
}

impl IdsManager {
    /// The text of `suricata.yaml` for the settings.
    pub fn generate_suricata_yaml(&self, config: &IdsConfig) -> (text: String)
        ensures
            text@ == suricata_yaml_text(*config, self.rules_dir_view()),
    {
        let mut text = String::new();
        push_suricata_vars(&mut text, config);
        push_suricata_outputs(&mut text, config, self.rules_dir.as_str());
        proof {
            assert(text@ =~= suricata_yaml_text(*config, self.rules_dir_view()));
        }
        text
    }

    /// The text of Snort 3's `snort.lua` for the settings.
    pub fn generate_snort3_lua(&self, config: &IdsConfig) -> (text: String)
        ensures
            text@ == snort3_lua_text(*config, self.rules_dir_view()),
    {
        let mut text = String::new();
        text.append(SNORT3_HEAD);
        push_join(&mut text, &config.home_net, ",");
        text.append(SNORT3_EXTERNAL_NET);
        push_join(&mut text, &config.external_net, ",");
        text.append(SNORT3_MODE);
        if config.mode == IdsMode::IPS {
            text.append("inline");
        } else {
            text.append("tap");
        }
        text.append(SNORT3_RULES_DIR);
        text.append(self.rules_dir.as_str());
        text.append(SNORT3_TAIL);
        proof {
            assert(text@ =~= snort3_lua_text(*config, self.rules_dir_view()));
        }
        text
    }

    /// The text of Snort 2's `snort.conf` for the settings.
    pub fn generate_snort2_conf(&self, config: &IdsConfig) -> (text: String)
        ensures
            text@ == snort2_conf_text(*config, self.rules_dir_view()),
    {
        let mut text = String::new();
        text.append(SNORT2_HEAD);
        push_join(&mut text, &config.home_net, ",");
        text.append(SNORT2_EXTERNAL_NET);
        push_join(&mut text, &config.external_net, ",");
        text.append(SNORT2_PREPROCESSORS);
        text.append(self.rules_dir.as_str());
        text.append(SNORT2_TAIL);
        proof {
            assert(text@ =~= snort2_conf_text(*config, self.rules_dir_view()));
        }
        text
    }

    /// The files that configuring the engine writes: its configuration file
    /// in the configuration directory, and `custom.rules` in the rules
    /// directory.
    pub fn configure(&self, config: &IdsConfig) -> (files: IdsConfigFiles)
        ensures
            files.config_path@ == self.config_dir_view() + "/"@ + config_file_name(self.backend_view()),
            files.config_text@ == engine_config_text(self.backend_view(), *config, self.rules_dir_view()),
            files.rules_path@ == self.rules_dir_view() + "/custom.rules"@,
            files.rules_text@ == custom_rules_text(config.custom_rules@),
    {
        let mut config_path = self.config_dir.clone();
        config_path.append("/");
        let config_text = match self.backend {
            IdsBackend::Suricata => {
                config_path.append("suricata.yaml");
                self.generate_suricata_yaml(config)
            },
            IdsBackend::Snort3 => {
                config_path.append("snort.lua");
                self.generate_snort3_lua(config)
            },
            IdsBackend::Snort2 => {
                config_path.append("snort.conf");
                self.generate_snort2_conf(config)
            },
        };
        let mut rules_path = self.rules_dir.clone();
        rules_path.append("/custom.rules");
        IdsConfigFiles { config_path, config_text, rules_path, rules_text: self.custom_rules(config) }
    }

    /// The program that starts the engine, and its arguments.
    pub fn start_command(&self, config: &IdsConfig) -> (cmd: (String, Vec<String>))
        ensures
            cmd.0@ == engine_program(self.backend_view()),
            views(cmd.1@) == start_args(self.backend_view(), *config, self.config_dir_view()),
    {
        let program = match self.backend {
            IdsBackend::Suricata => owned("suricata"),
            _ => owned("snort"),
        };
        let mut args: Vec<String> = Vec::new();
        args.push(owned("-c"));
        let mut path = self.config_dir.clone();
        path.append("/");
        match self.backend {
            IdsBackend::Suricata => path.append("suricata.yaml"),
            IdsBackend::Snort3 => path.append("snort.lua"),
            IdsBackend::Snort2 => path.append("snort.conf"),
        }
        args.push(path);
        let ghost head = views(args@);
        if config.mode == IdsMode::IPS {
            if self.backend == IdsBackend::Suricata {
                args.push(owned("-q"));
                args.push(owned("0"));
            } else {
                args.push(owned("-Q"));
            }
            proof {
                assert(views(args@) =~= start_args(self.backend_view(), *config, self.config_dir_view()));
            }
        } else {
            let mut i: usize = 0;
            while i < config.interfaces.len()
                invariant
                    0 <= i <= config.interfaces.len(),
                    views(args@) == head + interface_args(views(config.interfaces@.subrange(0, i as int))),
                decreases config.interfaces.len() - i,
            {
                let ghost before = views(args@);
                args.push(owned("-i"));
                args.push(config.interfaces[i].clone());
                proof {
                    let pre = views(config.interfaces@.subrange(0, i as int));
                    let post = views(config.interfaces@.subrange(0, i + 1));
                    assert(post.drop_last() =~= pre);
                    assert(views(args@) =~= before + seq!["-i"@, config.interfaces@[i as int]@]);
                    assert(views(args@) =~= head + interface_args(post));
                }
                i = i + 1;
            }
            proof {
                assert(config.interfaces@.subrange(0, config.interfaces@.len() as int) =~= config.interfaces@);
                assert(views(args@) =~= start_args(self.backend_view(), *config, self.config_dir_view()));
            }
        }
        (program, args)
    }
}

impl Default for IdsConfig {
    /// Disabled Suricata in detection mode on `eth0`, protecting
    /// 192.168.1.0/24, with the Emerging Threats Open rules and the basic
    /// rule set.
    fn default() -> (c: IdsConfig)
        ensures
            !c.enabled,
            c.backend == IdsBackend::Suricata,
            c.mode == IdsMode::IDS,
            views(c.interfaces@) == seq!["eth0"@],
            views(c.home_net@) == seq!["192.168.1.0/24"@],
            views(c.external_net@) == seq!["!$HOME_NET"@],
            c.rule_sources@.len() == 1,
            c.rule_sources@[0].name@ == "Emerging Threats Open"@,
            c.rule_sources@[0].enabled,
            c.rule_sources@[0].url@ == "https://rules.emergingthreats.net/open/suricata/emerging.rules.tar.gz"@,
            c.rule_sources@[0].update_interval_hours == 24,
            c.custom_rules@.len() == 3,
            views(c.enabled_categories@) == seq!["malware"@, "exploit"@, "trojan"@, "dos"@, "scan"@],
            c.performance.workers is None,
            c.performance.ring_size == 4096,
            c.performance.af_packet,
            !c.performance.hardware_offload,
            c.log_alerts && !c.log_pcap && c.log_flow && c.log_http && c.log_tls && c.log_dns && !c.log_files,
    {
        let mut interfaces: Vec<String> = Vec::new();
        interfaces.push(owned("eth0"));
        let mut home_net: Vec<String> = Vec::new();
        home_net.push(owned("192.168.1.0/24"));
        let mut external_net: Vec<String> = Vec::new();
        external_net.push(owned("!$HOME_NET"));
        let mut rule_sources: Vec<RuleSource> = Vec::new();
        rule_sources.push(
            RuleSource {
                name: owned("Emerging Threats Open"),
                enabled: true,
                url: owned("https://rules.emergingthreats.net/open/suricata/emerging.rules.tar.gz"),
                update_interval_hours: 24,
            },
        );
        let mut enabled_categories: Vec<String> = Vec::new();
        enabled_categories.push(owned("malware"));
        enabled_categories.push(owned("exploit"));
        enabled_categories.push(owned("trojan"));
        enabled_categories.push(owned("dos"));
        enabled_categories.push(owned("scan"));
        proof {
            assert(views(interfaces@) =~= seq!["eth0"@]);
            assert(views(home_net@) =~= seq!["192.168.1.0/24"@]);
            assert(views(external_net@) =~= seq!["!$HOME_NET"@]);
            assert(views(enabled_categories@) =~= seq!["malware"@, "exploit"@, "trojan"@, "dos"@, "scan"@]);
        }
        IdsConfig {
            enabled: false,
            backend: IdsBackend::Suricata,
            mode: IdsMode::IDS,
            interfaces,
            home_net,
            external_net,
            rule_sources,
            custom_rules: IdsManager::create_basic_ruleset(),
            enabled_categories,
            performance: IdsPerformance { workers: None, ring_size: 4096, af_packet: true, hardware_offload: false },
            log_alerts: true,
            log_pcap: false,
            log_flow: true,
            log_http: true,
            log_tls: true,
            log_dns: true,
            log_files: false,
        }
    }
}

/// A disabled rule writes no line, whatever it holds.
pub proof fn lemma_disabled_rules_write_nothing(rules: Seq<IdsRule>)
    requires
        forall|k: int| 0 <= k < rules.len() ==> !(#[trigger] rules[k]).enabled,
    ensures
        custom_rules_text(rules) == "# Patronus Custom IDS Rules\n\n"@,
    decreases rules.len(),
{
    let f = |r: IdsRule|
        if r.enabled {
            rule_line(r)
        } else {
            Seq::empty()
        };
    lemma_disabled_concat_empty(rules, f);
    assert(custom_rules_text(rules) =~= "# Patronus Custom IDS Rules\n\n"@);
}

proof fn lemma_disabled_concat_empty(rules: Seq<IdsRule>, f: spec_fn(IdsRule) -> Seq<char>)
    requires
        forall|k: int| 0 <= k < rules.len() ==> !(#[trigger] rules[k]).enabled,
        f == (|r: IdsRule|
            if r.enabled {
                rule_line(r)
            } else {
                Seq::empty()
            }),
    ensures
        concat_map(rules, f) == Seq::<char>::empty(),
    decreases rules.len(),
{
    if rules.len() > 0 {
        let init = rules.drop_last();
        assert forall|k: int| 0 <= k < init.len() implies !(#[trigger] init[k]).enabled by {
            assert(init[k] == rules[k]);
        }
        lemma_disabled_concat_empty(init, f);
        assert(!rules.last().enabled);
        assert(concat_map(rules, f) =~= Seq::<char>::empty());
    }
}

} // verus!
