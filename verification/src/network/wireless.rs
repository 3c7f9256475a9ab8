//! Wireless access points with hostapd or iwd: the radio and security
//! settings, and the texts of the daemons' configuration files.
use vstd::prelude::*;
use crate::net::IpAddress;
use crate::text::{decimal, lines_spec, line_ranges, chars_of, owned, push_decimal, push_string, range_views, string_of, views};

verus! {

#[derive(PartialEq, Eq, Structural, Clone, Copy, Debug)]
pub enum WirelessBackend {
    /// hostapd, full-featured.
    Hostapd,
    /// iwd, lightweight.
    Iwd,
}

#[derive(PartialEq, Eq, Structural, Clone, Copy, Debug)]
pub enum SecurityMode {
    Open,
    WEP,
    WPA,
    WPA2,
    WPA3,
    /// WPA2 and WPA3 side by side.
    WPA2WPA3Mixed,
    /// 802.1X.
    Enterprise,
}

#[derive(PartialEq, Eq, Structural, Clone, Copy, Debug)]
pub enum FrequencyBand {
    Band2_4GHz,
    Band5GHz,
    Band6GHz,
    Dual,
}

#[derive(PartialEq, Eq, Structural, Clone, Copy, Debug)]
pub enum ChannelWidth {
    Width20MHz,
    Width40MHz,
    Width80MHz,
    Width160MHz,
}

/// Regulatory domain.
#[derive(PartialEq, Eq, Structural, Clone, Copy, Debug)]
pub enum CountryCode {
    US,
    GB,
    DE,
    FR,
    JP,
    CN,
    AU,
    CA,
}

impl CountryCode {
    pub open spec fn code_spec(self) -> Seq<char> {
        match self {
            CountryCode::US => "US"@,
            CountryCode::GB => "GB"@,
            CountryCode::DE => "DE"@,
            CountryCode::FR => "FR"@,
            CountryCode::JP => "JP"@,
            CountryCode::CN => "CN"@,
            CountryCode::AU => "AU"@,
            CountryCode::CA => "CA"@,
        }
    }

    /// The two-letter code.
    pub fn code(&self) -> (s: &'static str)
        ensures
            s@ == self.code_spec(),
    {
        match self {
            CountryCode::US => "US",
            CountryCode::GB => "GB",
            CountryCode::DE => "DE",
            CountryCode::FR => "FR",
            CountryCode::JP => "JP",
            CountryCode::CN => "CN",
            CountryCode::AU => "AU",
            CountryCode::CA => "CA",
        }
    }
}

/// An access point's settings.
#[derive(Clone, Debug)]
pub struct AccessPointConfig {
    pub enabled: bool,
    pub backend: WirelessBackend,
    pub interface: String,
    /// The bridge, in bridged mode.
    pub bridge: Option<String>,
    pub ssid: String,
    pub hidden_ssid: bool,
    pub security: SecurityMode,
    pub passphrase: Option<String>,
    pub band: FrequencyBand,
    /// 0 chooses automatically.
    pub channel: u8,
    pub channel_width: ChannelWidth,
    pub country_code: CountryCode,
    /// In dBm; 0 for the maximum.
    pub tx_power: u8,
    pub ieee80211n: bool,
    pub ieee80211ac: bool,
    pub ieee80211ax: bool,
    pub wmm_enabled: bool,
    pub require_ht: bool,
    pub require_vht: bool,
    pub max_clients: u32,
    pub client_isolation: bool,
    pub disassoc_low_ack: bool,
    pub macaddr_acl: MacAddrAcl,
    pub mac_allow_list: Vec<String>,
    pub mac_deny_list: Vec<String>,
    pub dtim_period: u8,
    /// In milliseconds.
    pub beacon_interval: u16,
    pub rts_threshold: u16,
    pub fragm_threshold: u16,
}

/// Further networks on the same radio.
#[derive(Clone, Debug)]
pub struct MultiSsidConfig {
    pub enabled: bool,
    pub ssids: Vec<SsidConfig>,
}

#[derive(Clone, Debug)]
pub struct SsidConfig {
    pub ssid: String,
    pub vlan_id: Option<u16>,
    pub security: SecurityMode,
    pub passphrase: Option<String>,
    pub hidden: bool,
    pub max_clients: u32,
    pub client_isolation: bool,
}

/// Access control by hardware address.
#[derive(PartialEq, Eq, Structural, Clone, Copy, Debug)]
pub enum MacAddrAcl {
    Disabled,
    /// Only listed addresses.
    AllowList,
    /// All but listed addresses.
    DenyList,
}

/// WPA Enterprise settings.
#[derive(Clone, Debug)]
pub struct EnterpriseConfig {
    pub enabled: bool,
    pub radius_server: IpAddress,
    pub radius_port: u16,
    pub radius_secret: String,
    pub radius_auth_server: Option<IpAddress>,
    pub radius_acct_server: Option<IpAddress>,
    pub eap_methods: Vec<EapMethod>,
}

#[derive(PartialEq, Eq, Structural, Clone, Copy, Debug)]
pub enum EapMethod {
    PEAP,
    TTLS,
    TLS,
    FAST,
}

/// A station associated with the access point.
#[derive(Clone, Debug)]
pub struct WirelessClient {
    pub mac_address: String,
    pub ip_address: Option<IpAddress>,
    pub hostname: Option<String>,
    /// Seconds since the Unix epoch.
    pub connected_at: i64,
    /// In dBm.
    pub signal_strength: i8,
    pub tx_rate: u32,
    pub rx_rate: u32,
    pub tx_bytes: u64,
    pub rx_bytes: u64,
    pub tx_packets: u64,
    pub rx_packets: u64,
}

/// Why a wireless step was refused.
#[derive(PartialEq, Eq, Structural, Clone, Copy, Debug)]
pub enum WirelessError {
    /// Several networks need hostapd.
    MultiSsidRequiresHostapd,
}

/// `line` when `b` holds.
pub open spec fn when(b: bool, line: Seq<char>) -> Seq<char> {
    if b {
        line
    } else {
        Seq::empty()
    }
}

/// The interface, bridge, network name and country.
pub open spec fn hostapd_head_text(c: AccessPointConfig) -> Seq<char> {
    "# Hostapd Configuration\n# Generated by Patronus\n\n# Interface\ninterface="@ + c.interface@ + "\n"@ + (match c.bridge {
        Some(b) => "bridge="@ + b@ + "\n"@,
        None => Seq::empty(),
    }) + "driver=nl80211\n"@ + "ssid="@ + c.ssid@ + "\n"@ + when(c.hidden_ssid, "ignore_broadcast_ssid=1\n"@)
        + "country_code="@ + c.country_code.code_spec() + "\n"@
}

/// The mode and channel of the band; 5 GHz defaults to channel 36 and
/// 6 GHz to channel 5 when the channel is 0.
pub open spec fn hostapd_band_text(c: AccessPointConfig) -> Seq<char> {
    match c.band {
        FrequencyBand::Band2_4GHz => "hw_mode=g\n"@ + "channel="@ + decimal(c.channel as nat) + "\n"@,
        FrequencyBand::Band5GHz => "hw_mode=a\n"@ + "channel="@ + decimal(
            if c.channel == 0 {
                36
            } else {
                c.channel as nat
            },
        ) + "\n"@,
        FrequencyBand::Band6GHz => "hw_mode=a\n"@ + "op_class=131\n"@ + "channel="@ + decimal(
            if c.channel == 0 {
                5
            } else {
                c.channel as nat
            },
        ) + "\n"@,
        FrequencyBand::Dual => "hw_mode=g\n"@ + "channel="@ + decimal(c.channel as nat) + "\n"@,
    }
}

/// 802.11n and its channel width.
pub open spec fn ht_text(c: AccessPointConfig) -> Seq<char> {
    when(
        c.ieee80211n,
        "ieee80211n=1\n"@ + "ht_capab=["@ + (if c.channel_width == ChannelWidth::Width40MHz {
            "HT40+"@
        } else {
            "HT20"@
        }) + "]\n"@,
    )
}

/// 802.11ac and its channel width, only off the 2.4 GHz band.
pub open spec fn vht_text(c: AccessPointConfig) -> Seq<char> {
    when(
        c.ieee80211ac && c.band != FrequencyBand::Band2_4GHz,
        "ieee80211ac=1\n"@ + match c.channel_width {
            ChannelWidth::Width80MHz => "vht_oper_chwidth=1\n"@,
            ChannelWidth::Width160MHz => "vht_oper_chwidth=2\n"@,
            _ => Seq::empty(),
        },
    )
}

/// The 802.11 standards and WMM; 802.11ac only off the 2.4 GHz band.
pub open spec fn hostapd_standards_text(c: AccessPointConfig) -> Seq<char> {
    ht_text(c) + vht_text(c) + when(c.ieee80211ax, "ieee80211ax=1\n"@) + when(c.wmm_enabled, "wmm_enabled=1\n"@)
}

/// `key=passphrase\n` when there is a passphrase.
pub open spec fn pass_line(key: Seq<char>, p: Option<String>) -> Seq<char> {
    match p {
        Some(x) => key + x@ + "\n"@,
        None => Seq::empty(),
    }
}

/// The security settings of the mode.
pub open spec fn hostapd_security_text(c: AccessPointConfig) -> Seq<char> {
    match c.security {
        SecurityMode::Open => Seq::empty(),
        SecurityMode::WEP => "auth_algs=1\n"@ + "wep_default_key=0\n"@ + pass_line("wep_key0="@, c.passphrase),
        SecurityMode::WPA => "wpa=1\n"@ + "wpa_key_mgmt=WPA-PSK\n"@ + "wpa_pairwise=TKIP\n"@ + pass_line(
            "wpa_passphrase="@,
            c.passphrase,
        ),
        SecurityMode::WPA2 => "wpa=2\n"@ + "wpa_key_mgmt=WPA-PSK\n"@ + "rsn_pairwise=CCMP\n"@ + pass_line(
            "wpa_passphrase="@,
            c.passphrase,
        ),
        SecurityMode::WPA3 => "wpa=2\n"@ + "wpa_key_mgmt=SAE\n"@ + "rsn_pairwise=CCMP\n"@ + "ieee80211w=2\n"@
            + pass_line("sae_password="@, c.passphrase),
        SecurityMode::WPA2WPA3Mixed => "wpa=2\n"@ + "wpa_key_mgmt=WPA-PSK SAE\n"@ + "rsn_pairwise=CCMP\n"@
            + "ieee80211w=1\n"@ + pass_line("wpa_passphrase="@, c.passphrase) + pass_line(
            "sae_password="@,
            c.passphrase,
        ),
        SecurityMode::Enterprise => "wpa=2\n"@ + "wpa_key_mgmt=WPA-EAP\n"@ + "rsn_pairwise=CCMP\n"@ + "ieee8021x=1\n"@,
    }
}

/// Address filtering.
pub open spec fn acl_text(c: AccessPointConfig) -> Seq<char> {
    match c.macaddr_acl {
        MacAddrAcl::Disabled => Seq::empty(),
        MacAddrAcl::AllowList => "macaddr_acl=1\n"@ + "accept_mac_file=/etc/hostapd/accept_mac\n"@,
        MacAddrAcl::DenyList => "macaddr_acl=0\n"@ + "deny_mac_file=/etc/hostapd/deny_mac\n"@,
    }
}

/// Client limit and isolation.
pub open spec fn clients_text(c: AccessPointConfig) -> Seq<char> {
    "max_num_sta="@ + decimal(c.max_clients as nat) + "\n"@ + when(c.client_isolation, "ap_isolate=1\n"@)
}

/// Timing and logging.
pub open spec fn timing_text(c: AccessPointConfig) -> Seq<char> {
    "dtim_period="@ + decimal(c.dtim_period as nat) + "\n"@ + "beacon_int="@ + decimal(c.beacon_interval as nat) + "\n"@
        + "rts_threshold="@ + decimal(c.rts_threshold as nat) + "\n"@ + "fragm_threshold="@ + decimal(
        c.fragm_threshold as nat,
    ) + "\n"@ + "logger_syslog=-1\n"@ + "logger_syslog_level=2\n"@
}

/// Address filtering, client limits, timing and logging.
pub open spec fn hostapd_tail_text(c: AccessPointConfig) -> Seq<char> {
    acl_text(c) + clients_text(c) + timing_text(c)
}

/// The text of `hostapd.conf`.
pub open spec fn hostapd_config_text(c: AccessPointConfig) -> Seq<char> {
    hostapd_head_text(c) + hostapd_band_text(c) + hostapd_standards_text(c) + hostapd_security_text(c)
        + hostapd_tail_text(c)
}

/// iwd's security line: the passphrase, for WPA2 and WPA3 with one.
pub open spec fn iwd_security_text(c: AccessPointConfig) -> Seq<char> {
    if c.security == SecurityMode::WPA2 || c.security == SecurityMode::WPA3 {
        match c.passphrase {
            Some(p) => "Passphrase="@ + p@,
            None => Seq::empty(),
        }
    } else {
        Seq::empty()
    }
}

/// iwd's access point file.
pub open spec fn iwd_ap_text(c: AccessPointConfig) -> Seq<char> {
    "[Security]\n"@ + iwd_security_text(c) + "\n\n[Settings]\nSSID="@ + c.ssid@ + "\nChannel="@ + decimal(
        c.channel as nat,
    ) + "\n"@
}

/// iwd's `main.conf`: shared addressing on a bridge, static otherwise.
pub open spec fn iwd_main_text(c: AccessPointConfig) -> Seq<char> {
    "[General]\nEnableNetworkConfiguration=true\n\n[Security]\n"@ + iwd_security_text(c) + "\n\n[IPv4]\n"@ + (
    if c.bridge is Some {
        "Method=shared"@
    } else {
        "Method=static"@
    }) + "\n"@
}

/// The heading and name of one further network, numbered from 1.
pub open spec fn bss_head(iface: Seq<char>, n: nat, s: SsidConfig) -> Seq<char> {
    "\n# SSID "@ + decimal(n) + "\n"@ + "bss="@ + iface + "."@ + decimal(n) + "\n"@ + "ssid="@ + s.ssid@ + "\n"@
}

/// The VLAN, isolation and client limit of one further network.
pub open spec fn bss_rest(s: SsidConfig) -> Seq<char> {
    (match s.vlan_id {
        Some(v) => "vlan_id="@ + decimal(v as nat) + "\n"@,
        None => Seq::empty(),
    }) + when(s.client_isolation, "ap_isolate=1\n"@) + "max_num_sta="@ + decimal(s.max_clients as nat) + "\n"@
}

/// The section of one further network, numbered from 1.
pub open spec fn bss_text(iface: Seq<char>, n: nat, s: SsidConfig) -> Seq<char> {
    bss_head(iface, n, s) + bss_rest(s)
}

/// The sections of the further networks, in order.
pub open spec fn bss_sections(iface: Seq<char>, ssids: Seq<SsidConfig>) -> Seq<char>
    decreases ssids.len(),
{
    if ssids.len() == 0 {
        Seq::empty()
    } else {
        bss_sections(iface, ssids.drop_last()) + bss_text(iface, ssids.len(), ssids.last())
    }
}

/// The station addresses in `hostapd_cli all_sta` output: the lines of
/// seventeen characters with a colon.
pub open spec fn station_lines(lines: Seq<Seq<char>>) -> Seq<Seq<char>>
    decreases lines.len(),
{
    if lines.len() == 0 {
        Seq::empty()
    } else {
        station_lines(lines.drop_last()) + if lines.last().len() == 17 && lines.last().contains(':') {
            seq![lines.last()]
        } else {
            Seq::empty()
        }
    }
}

fn push_when(out: &mut String, b: bool, line: &str)
    ensures
        final(out)@ == old(out)@ + when(b, line@),
{
    if b {
        out.append(line);
    } else {
        proof {
            assert(out@ =~= old(out)@ + when(b, line@));
        }
    }
}

fn push_pass_line(out: &mut String, key: &str, p: &Option<String>)
    ensures
        final(out)@ == old(out)@ + pass_line(key@, *p),
{
    match p {
        Some(x) => {
            out.append(key);
            out.append(x.as_str());
            out.append("\n");
            proof {
                assert(final(out)@ =~= old(out)@ + pass_line(key@, *p));
            }
        },
        None => {
            proof {
                assert(out@ =~= old(out)@ + pass_line(key@, *p));
            }
        },
    }
}

fn push_bss_head(out: &mut String, iface: &String, n: u64, s: &SsidConfig)
    ensures
        final(out)@ == old(out)@ + bss_head(iface@, n as nat, *s),
{
    let ghost base = out@;
    out.append("\n# SSID ");
    push_decimal(out, n);
    out.append("\n");
    out.append("bss=");
    out.append(iface.as_str());
    out.append(".");
    push_decimal(out, n);
    out.append("\n");
    out.append("ssid=");
    out.append(s.ssid.as_str());
    out.append("\n");
    proof {
        assert(out@ =~= base + bss_head(iface@, n as nat, *s));
    }
}

fn push_bss_rest(out: &mut String, s: &SsidConfig)
    ensures
        final(out)@ == old(out)@ + bss_rest(*s),
{
    let ghost base = out@;
    match s.vlan_id {
        Some(v) => {
            out.append("vlan_id=");
            push_decimal(out, v as u64);
            out.append("\n");
        },
        None => {},
    }
    let ghost p2 = out@;
    push_when(out, s.client_isolation, "ap_isolate=1\n");
    out.append("max_num_sta=");
    push_decimal(out, s.max_clients as u64);
    out.append("\n");
    proof {
        assert(out@ =~= base + bss_rest(*s));
    }
}

fn push_bss(out: &mut String, iface: &String, n: u64, s: &SsidConfig)
    ensures
        final(out)@ == old(out)@ + bss_text(iface@, n as nat, *s),
{
    let ghost base = out@;
    push_bss_head(out, iface, n, s);
    push_bss_rest(out, s);
    proof {
        assert(out@ =~= base + bss_text(iface@, n as nat, *s));
    }
}

/// An access point and the backend that runs it.
pub struct WirelessManager {
    config: AccessPointConfig,
    backend: WirelessBackend,
}

impl WirelessManager {
    pub closed spec fn config_view(&self) -> AccessPointConfig {
        self.config
    }

    pub closed spec fn backend_view(&self) -> WirelessBackend {
        self.backend
    }

    /// A manager of the access point, with the backend it names.
    pub fn new(config: AccessPointConfig) -> (m: WirelessManager)
        ensures
            m.config_view() == config,
            m.backend_view() == config.backend,
    {
        WirelessManager { backend: config.backend, config }
    }

    fn push_head(&self, out: &mut String)
        ensures
            final(out)@ == old(out)@ + hostapd_head_text(self.config_view()),
    {
        let ghost base = out@;
        let c = &self.config;
        out.append("# Hostapd Configuration\n# Generated by Patronus\n\n# Interface\ninterface=");
        out.append(c.interface.as_str());
        out.append("\n");
        match &c.bridge {
            Some(b) => {
                out.append("bridge=");
                out.append(b.as_str());
                out.append("\n");
            },
            None => {},
        }
        let ghost mid = out@;
        out.append("driver=nl80211\n");
        out.append("ssid=");
        out.append(c.ssid.as_str());
        out.append("\n");
        push_when(out, c.hidden_ssid, "ignore_broadcast_ssid=1\n");
        out.append("country_code=");
        out.append(c.country_code.code());
        out.append("\n");
        proof {
            assert(out@ =~= base + hostapd_head_text(self.config_view()));
        }
    }

    fn push_band(&self, out: &mut String)
        ensures
            final(out)@ == old(out)@ + hostapd_band_text(self.config_view()),
    {
        let ghost base = out@;
        let c = &self.config;
        match c.band {
            FrequencyBand::Band2_4GHz => {
                out.append("hw_mode=g\n");
                out.append("channel=");
                push_decimal(out, c.channel as u64);
            },
            FrequencyBand::Band5GHz => {
                out.append("hw_mode=a\n");
                out.append("channel=");
                push_decimal(
                    out,
                    if c.channel == 0 {
                        36
                    } else {
                        c.channel as u64
                    },
                );
            },
            FrequencyBand::Band6GHz => {
                out.append("hw_mode=a\n");
                out.append("op_class=131\n");
                out.append("channel=");
                push_decimal(
                    out,
                    if c.channel == 0 {
                        5
                    } else {
                        c.channel as u64
                    },
                );
            },
            FrequencyBand::Dual => {
                out.append("hw_mode=g\n");
                out.append("channel=");
                push_decimal(out, c.channel as u64);
            },
        }
        out.append("\n");
        proof {
            assert(out@ =~= base + hostapd_band_text(self.config_view()));
        }
    }

    fn push_ht(&self, out: &mut String)
        ensures
            final(out)@ == old(out)@ + ht_text(self.config_view()),
    {
        let ghost base = out@;
        let c = &self.config;
        if c.ieee80211n {
            out.append("ieee80211n=1\n");
            out.append("ht_capab=[");
            if c.channel_width == ChannelWidth::Width40MHz {
                out.append("HT40+");
            } else {
                out.append("HT20");
            }
            out.append("]\n");
        }
        proof {
            assert(out@ =~= base + ht_text(self.config_view()));
        }
    }

    fn push_vht(&self, out: &mut String)
        ensures
            final(out)@ == old(out)@ + vht_text(self.config_view()),
    {
        let ghost base = out@;
        let c = &self.config;
        if c.ieee80211ac && c.band != FrequencyBand::Band2_4GHz {
            out.append("ieee80211ac=1\n");
            match c.channel_width {
                ChannelWidth::Width80MHz => out.append("vht_oper_chwidth=1\n"),
                ChannelWidth::Width160MHz => out.append("vht_oper_chwidth=2\n"),
                _ => {},
            }
        }
        proof {
            assert(out@ =~= base + vht_text(self.config_view()));
        }
    }

    fn push_standards(&self, out: &mut String)
        ensures
            final(out)@ == old(out)@ + hostapd_standards_text(self.config_view()),
    {
        let ghost base = out@;
        self.push_ht(out);
        self.push_vht(out);
        push_when(out, self.config.ieee80211ax, "ieee80211ax=1\n");
        push_when(out, self.config.wmm_enabled, "wmm_enabled=1\n");
        proof {
            assert(out@ =~= base + hostapd_standards_text(self.config_view()));
        }
    }

    fn push_security(&self, out: &mut String)
        ensures
            final(out)@ == old(out)@ + hostapd_security_text(self.config_view()),
    {
        let ghost base = out@;
        let c = &self.config;
        match c.security {
            SecurityMode::Open => {},
            SecurityMode::WEP => {
                out.append("auth_algs=1\n");
                out.append("wep_default_key=0\n");
                push_pass_line(out, "wep_key0=", &c.passphrase);
            },
            SecurityMode::WPA => {
                out.append("wpa=1\n");
                out.append("wpa_key_mgmt=WPA-PSK\n");
                out.append("wpa_pairwise=TKIP\n");
                push_pass_line(out, "wpa_passphrase=", &c.passphrase);
            },
            SecurityMode::WPA2 => {
                out.append("wpa=2\n");
                out.append("wpa_key_mgmt=WPA-PSK\n");
                out.append("rsn_pairwise=CCMP\n");
                push_pass_line(out, "wpa_passphrase=", &c.passphrase);
            },
            SecurityMode::WPA3 => {
                out.append("wpa=2\n");
                out.append("wpa_key_mgmt=SAE\n");
                out.append("rsn_pairwise=CCMP\n");
                out.append("ieee80211w=2\n");
                push_pass_line(out, "sae_password=", &c.passphrase);
            },
            SecurityMode::WPA2WPA3Mixed => {
                out.append("wpa=2\n");
                out.append("wpa_key_mgmt=WPA-PSK SAE\n");
                out.append("rsn_pairwise=CCMP\n");
                out.append("ieee80211w=1\n");
                match &c.passphrase {
                    Some(p) => {
                        out.append("wpa_passphrase=");
                        out.append(p.as_str());
                        out.append("\n");
                        out.append("sae_password=");
                        out.append(p.as_str());
                        out.append("\n");
                    },
                    None => {},
                }
            },
            SecurityMode::Enterprise => {
                out.append("wpa=2\n");
                out.append("wpa_key_mgmt=WPA-EAP\n");
                out.append("rsn_pairwise=CCMP\n");
                out.append("ieee8021x=1\n");
            },
        }
        proof {
            assert(out@ =~= base + hostapd_security_text(self.config_view()));
        }
    }

    fn push_acl(&self, out: &mut String)
        ensures
            final(out)@ == old(out)@ + acl_text(self.config_view()),
    {
        let ghost base = out@;
        match self.config.macaddr_acl {
            MacAddrAcl::Disabled => {},
            MacAddrAcl::AllowList => {
                out.append("macaddr_acl=1\n");
                out.append("accept_mac_file=/etc/hostapd/accept_mac\n");
            },
            MacAddrAcl::DenyList => {
                out.append("macaddr_acl=0\n");
                out.append("deny_mac_file=/etc/hostapd/deny_mac\n");
            },
        }
        proof {
            assert(out@ =~= base + acl_text(self.config_view()));
        }
    }

    fn push_clients(&self, out: &mut String)
        ensures
            final(out)@ == old(out)@ + clients_text(self.config_view()),
    {
        let ghost base = out@;
        out.append("max_num_sta=");
        push_decimal(out, self.config.max_clients as u64);
        out.append("\n");
        push_when(out, self.config.client_isolation, "ap_isolate=1\n");
        proof {
            assert(out@ =~= base + clients_text(self.config_view()));
        }
    }

    fn push_timing(&self, out: &mut String)
        ensures
            final(out)@ == old(out)@ + timing_text(self.config_view()),
    {
        let ghost base = out@;
        let c = &self.config;
        out.append("dtim_period=");
        push_decimal(out, c.dtim_period as u64);
        out.append("\n");
        out.append("beacon_int=");
        push_decimal(out, c.beacon_interval as u64);
        out.append("\n");
        out.append("rts_threshold=");
        push_decimal(out, c.rts_threshold as u64);
        out.append("\n");
        out.append("fragm_threshold=");
        push_decimal(out, c.fragm_threshold as u64);
        out.append("\n");
        out.append("logger_syslog=-1\n");
        out.append("logger_syslog_level=2\n");
        proof {
            assert(out@ =~= base + timing_text(self.config_view()));
        }
    }

    fn push_tail(&self, out: &mut String)
        ensures
            final(out)@ == old(out)@ + hostapd_tail_text(self.config_view()),
    {
        let ghost base = out@;
        self.push_acl(out);
        self.push_clients(out);
        self.push_timing(out);
        proof {
            assert(out@ =~= base + hostapd_tail_text(self.config_view()));
        }
    }

    /// The text of hostapd's configuration for the access point.
    pub fn generate_hostapd_config(&self) -> (text: String)
        ensures
            text@ == hostapd_config_text(self.config_view()),
    {
        let mut text = String::new();
        self.push_head(&mut text);
        self.push_band(&mut text);
        self.push_standards(&mut text);
        self.push_security(&mut text);
        self.push_tail(&mut text);
        proof {
            assert(text@ =~= hostapd_config_text(self.config_view()));
        }
        text
    }

    /// iwd's security line: the passphrase for WPA2 and WPA3, else empty.
    pub fn generate_iwd_security(&self) -> (s: String)
        ensures
            s@ == iwd_security_text(self.config_view()),
    {
        let c = &self.config;
        if c.security == SecurityMode::WPA2 || c.security == SecurityMode::WPA3 {
            match &c.passphrase {
                Some(p) => {
                    let mut s = owned("Passphrase=");
                    s.append(p.as_str());
                    s
                },
                None => String::new(),
            }
        } else {
            String::new()
        }
    }

    /// iwd's access point file for the network.
    pub fn generate_iwd_ap_config(&self) -> (s: String)
        ensures
            s@ == iwd_ap_text(self.config_view()),
    {
        let mut s = owned("[Security]\n");
        s.append(self.generate_iwd_security().as_str());
        s.append("\n\n[Settings]\nSSID=");
        s.append(self.config.ssid.as_str());
        s.append("\nChannel=");
        push_decimal(&mut s, self.config.channel as u64);
        s.append("\n");
        proof {
            assert(s@ =~= iwd_ap_text(self.config_view()));
        }
        s
    }

    /// iwd's `main.conf` for the access point.
    pub fn generate_iwd_main_config(&self) -> (s: String)
        ensures
            s@ == iwd_main_text(self.config_view()),
    {
        let mut s = owned("[General]\nEnableNetworkConfiguration=true\n\n[Security]\n");
        s.append(self.generate_iwd_security().as_str());
        s.append("\n\n[IPv4]\n");
        if self.config.bridge.is_some() {
            s.append("Method=shared");
        } else {
            s.append("Method=static");
        }
        s.append("\n");
        proof {
            assert(s@ =~= iwd_main_text(self.config_view()));
        }
        s
    }

    /// The path of iwd's access point file: `/var/lib/iwd/<interface>.ap`.
    pub fn iwd_ap_path(&self) -> (p: String)
        ensures
            p@ == "/var/lib/iwd/"@ + self.config_view().interface@ + ".ap"@,
    {
        let mut p = owned("/var/lib/iwd/");
        p.append(self.config.interface.as_str());
        p.append(".ap");
        p
    }

    /// hostapd's configuration with a section for each further network;
    /// only hostapd runs several networks.
    pub fn configure_multi_ssid(&self, multi_config: &MultiSsidConfig) -> (r: Result<String, WirelessError>)
        requires
            multi_config.ssids@.len() < u64::MAX,
        ensures
            self.backend_view() != WirelessBackend::Hostapd ==> r == Err::<String, WirelessError>(
                WirelessError::MultiSsidRequiresHostapd,
            ),
            self.backend_view() == WirelessBackend::Hostapd ==> (r matches Ok(text) && text@ == hostapd_config_text(
                self.config_view(),
            ) + bss_sections(self.config_view().interface@, multi_config.ssids@)),
    {
        if self.backend != WirelessBackend::Hostapd {
            return Err(WirelessError::MultiSsidRequiresHostapd);
        }
        let mut text = self.generate_hostapd_config();
        let ghost base = text@;
        let ghost iface = self.config.interface@;
        let mut i: usize = 0;
        while i < multi_config.ssids.len()
            invariant
                0 <= i <= multi_config.ssids@.len() < u64::MAX,
                iface == self.config.interface@,
                text@ == base + bss_sections(iface, multi_config.ssids@.subrange(0, i as int)),
            decreases multi_config.ssids.len() - i,
        {
            let s = &multi_config.ssids[i];
            let ghost before = text@;
            push_bss(&mut text, &self.config.interface, (i + 1) as u64, s);
            proof {
                assert(text@ =~= before + bss_text(iface, (i + 1) as nat, *s));
                let pre = multi_config.ssids@.subrange(0, i + 1);
                assert(pre.drop_last() =~= multi_config.ssids@.subrange(0, i as int));
                assert(text@ =~= base + bss_sections(iface, pre));
            }
            i = i + 1;
        }
        proof {
            assert(multi_config.ssids@.subrange(0, multi_config.ssids@.len() as int) =~= multi_config.ssids@);
        }
        Ok(text)
    }

    /// The stations of `hostapd_cli all_sta` output: a client for each line
    /// of seventeen characters with a colon, connected at `now`, with a
    /// signal of -50 dBm and no counters.
    pub fn hostapd_clients(&self, output: &str, now: i64) -> (clients: Vec<WirelessClient>)
        ensures
            clients@.map_values(|c: WirelessClient| c.mac_address@) == station_lines(lines_spec(output@)),
            forall|k: int|
                0 <= k < clients@.len() ==> {
                    let c = #[trigger] clients@[k];
                    &&& c.ip_address is None && c.hostname is None
                    &&& c.connected_at == now && c.signal_strength == -50
                    &&& c.tx_rate == 0 && c.rx_rate == 0 && c.tx_bytes == 0 && c.rx_bytes == 0
                    &&& c.tx_packets == 0 && c.rx_packets == 0
                },
    {
        let v = chars_of(output);
        let lines = line_ranges(&v);
        let ghost ls = lines_spec(v@);
        let mut clients: Vec<WirelessClient> = Vec::new();
        let mut i: usize = 0;
        while i < lines.len()
            invariant
                0 <= i <= lines@.len(),
                range_views(v@, lines@) == ls,
                v@ == output@,
                ls == lines_spec(output@),
                forall|k: int| 0 <= k < lines@.len() ==> (#[trigger] lines@[k]).0 <= lines@[k].1 <= v@.len(),
                clients@.map_values(|c: WirelessClient| c.mac_address@) == station_lines(ls.subrange(0, i as int)),
                forall|k: int|
                    0 <= k < clients@.len() ==> {
                        let c = #[trigger] clients@[k];
                        &&& c.ip_address is None && c.hostname is None
                        &&& c.connected_at == now && c.signal_strength == -50
                        &&& c.tx_rate == 0 && c.rx_rate == 0 && c.tx_bytes == 0 && c.rx_bytes == 0
                        &&& c.tx_packets == 0 && c.rx_packets == 0
                    },
            decreases lines.len() - i,
        {
            let (a, b) = lines[i];
            let ghost line = ls[i as int];
            proof {
                assert(line == v@.subrange(a as int, b as int));
                assert(ls.subrange(0, i + 1).drop_last() =~= ls.subrange(0, i as int));
                assert(ls.subrange(0, i + 1).last() == line);
            }
            let mut has_colon = false;
            let mut k = a;
            while k < b
                invariant
                    a <= k <= b <= v@.len(),
                    line == v@.subrange(a as int, b as int),
                    has_colon == exists|j: int| a <= j < k && v@[j] == ':',
                decreases b - k,
            {
                if v[k] == ':' {
                    has_colon = true;
                }
                k = k + 1;
            }
            proof {
                if has_colon {
                    let j = choose|j: int| a <= j < b && v@[j] == ':';
                    assert(line[j - a] == ':');
                }
                if line.contains(':') {
                    let j = choose|j: int| 0 <= j < line.len() && line[j] == ':';
                    assert(v@[a + j] == ':');
                }
            }
            if b - a == 17 && has_colon {
                let ghost before = clients@.map_values(|c: WirelessClient| c.mac_address@);
                clients.push(
                    WirelessClient {
                        mac_address: string_of(&v, a, b),
                        ip_address: None,
                        hostname: None,
                        connected_at: now,
                        signal_strength: -50,
                        tx_rate: 0,
                        rx_rate: 0,
                        tx_bytes: 0,
                        rx_bytes: 0,
                        tx_packets: 0,
                        rx_packets: 0,
                    },
                );
                proof {
                    assert(clients@.map_values(|c: WirelessClient| c.mac_address@) =~= before.push(line));
                }
            }
            proof {
                assert(clients@.map_values(|c: WirelessClient| c.mac_address@) =~= station_lines(
                    ls.subrange(0, i + 1),
                ));
            }
            i = i + 1;
        }
        proof {
            assert(ls.subrange(0, lines@.len() as int) =~= ls);
        }
        clients
    }

    /// The program and arguments that start the access point: hostapd in
    /// the background, or iwctl.
    pub fn start_command(&self) -> (cmd: (String, Vec<String>))
        ensures
            self.backend_view() == WirelessBackend::Hostapd ==> cmd.0@ == "hostapd"@ && views(cmd.1@) == seq![
                "-B"@,
                "/etc/hostapd/hostapd.conf"@,
            ],
            self.backend_view() == WirelessBackend::Iwd ==> cmd.0@ == "iwctl"@ && views(cmd.1@) == seq![
                "ap"@,
                self.config_view().interface@,
                "start"@,
                self.config_view().ssid@,
            ],
    {
        let mut args: Vec<String> = Vec::new();
        match self.backend {
            WirelessBackend::Hostapd => {
                push_string(&mut args, owned("-B"));
                push_string(&mut args, owned("/etc/hostapd/hostapd.conf"));
                proof {
                    assert(views(args@) =~= seq!["-B"@, "/etc/hostapd/hostapd.conf"@]);
                }
                (owned("hostapd"), args)
            },
            WirelessBackend::Iwd => {
                push_string(&mut args, owned("ap"));
                push_string(&mut args, self.config.interface.clone());
                push_string(&mut args, owned("start"));
                push_string(&mut args, self.config.ssid.clone());
                proof {
                    assert(views(args@) =~= seq!["ap"@, self.config.interface@, "start"@, self.config.ssid@]);
                }
                (owned("iwctl"), args)
            },
        }
    }
}

impl Default for AccessPointConfig {
    /// A disabled hostapd access point `Patronus-WiFi` on `wlan0`: WPA2
    /// with the passphrase `changeme123`, 2.4 GHz channel 6 at 20 MHz in the
    /// US, 802.11n with WMM, up to 50 clients.
    fn default() -> (c: AccessPointConfig)
        ensures
            !c.enabled,
            c.backend == WirelessBackend::Hostapd,
            c.interface@ == "wlan0"@,
            c.bridge is None,
            c.ssid@ == "Patronus-WiFi"@,
            !c.hidden_ssid,
            c.security == SecurityMode::WPA2,
            c.passphrase matches Some(p) && p@ == "changeme123"@,
            c.band == FrequencyBand::Band2_4GHz,
            c.channel == 6,
            c.channel_width == ChannelWidth::Width20MHz,
            c.country_code == CountryCode::US,
            c.tx_power == 0,
            c.ieee80211n && !c.ieee80211ac && !c.ieee80211ax && c.wmm_enabled,
            !c.require_ht && !c.require_vht,
            c.max_clients == 50,
            !c.client_isolation && c.disassoc_low_ack,
            c.macaddr_acl == MacAddrAcl::Disabled,
            c.mac_allow_list@.len() == 0 && c.mac_deny_list@.len() == 0,
            c.dtim_period == 2,
            c.beacon_interval == 100,
            c.rts_threshold == 2347,
            c.fragm_threshold == 2346,
    {
        AccessPointConfig {
            enabled: false,
            backend: WirelessBackend::Hostapd,
            interface: owned("wlan0"),
            bridge: None,
            ssid: owned("Patronus-WiFi"),
            hidden_ssid: false,
            security: SecurityMode::WPA2,
            passphrase: Some(owned("changeme123")),
            band: FrequencyBand::Band2_4GHz,
            channel: 6,
            channel_width: ChannelWidth::Width20MHz,
            country_code: CountryCode::US,
            tx_power: 0,
            ieee80211n: true,
            ieee80211ac: false,
            ieee80211ax: false,
            wmm_enabled: true,
            require_ht: false,
            require_vht: false,
            max_clients: 50,
            client_isolation: false,
            disassoc_low_ack: true,
            macaddr_acl: MacAddrAcl::Disabled,
            mac_allow_list: Vec::new(),
            mac_deny_list: Vec::new(),
            dtim_period: 2,
            beacon_interval: 100,
            rts_threshold: 2347,
            fragm_threshold: 2346,
        }
    }
}

/// 802.11ac is never switched on in the 2.4 GHz band.
pub proof fn lemma_no_ac_on_2_4ghz(c: AccessPointConfig)
    requires
        c.band == FrequencyBand::Band2_4GHz,
    ensures
        vht_text(c) == Seq::<char>::empty(),
{
}

} // verus!
