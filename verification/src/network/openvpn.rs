//! OpenVPN servers and clients: their settings, the text of their
//! configuration files, and the inline client profile.
use vstd::prelude::*;
use crate::net::{IpAddress, ip_text, push_ip};
use crate::text::{concat_map, decimal, lemma_concat_map_full, lemma_concat_map_step, owned, push_decimal};
use crate::network::frr::{push_wrapped_lines, wrapped_lines};

verus! {

#[derive(PartialEq, Eq, Structural, Clone, Copy, Debug)]
pub enum OpenVpnProtocol {
    Udp,
    Tcp,
}

impl OpenVpnProtocol {
    pub open spec fn name_spec(self) -> Seq<char> {
        match self {
            OpenVpnProtocol::Udp => "udp"@,
            OpenVpnProtocol::Tcp => "tcp"@,
        }
    }

    /// `udp` or `tcp`.
    pub fn name(&self) -> (s: &'static str)
        ensures
            s@ == self.name_spec(),
    {
        match self {
            OpenVpnProtocol::Udp => "udp",
            OpenVpnProtocol::Tcp => "tcp",
        }
    }
}

#[derive(PartialEq, Eq, Structural, Clone, Copy, Debug)]
pub enum OpenVpnCipher {
    Aes256Gcm,
    Aes128Gcm,
    Aes256Cbc,
    Aes128Cbc,
}

impl OpenVpnCipher {
    pub open spec fn name_spec(self) -> Seq<char> {
        match self {
            OpenVpnCipher::Aes256Gcm => "AES-256-GCM"@,
            OpenVpnCipher::Aes128Gcm => "AES-128-GCM"@,
            OpenVpnCipher::Aes256Cbc => "AES-256-CBC"@,
            OpenVpnCipher::Aes128Cbc => "AES-128-CBC"@,
        }
    }

    /// The cipher's name for OpenVPN, such as `AES-256-GCM`.
    pub fn name(&self) -> (s: &'static str)
        ensures
            s@ == self.name_spec(),
    {
        match self {
            OpenVpnCipher::Aes256Gcm => "AES-256-GCM",
            OpenVpnCipher::Aes128Gcm => "AES-128-GCM",
            OpenVpnCipher::Aes256Cbc => "AES-256-CBC",
            OpenVpnCipher::Aes128Cbc => "AES-128-CBC",
        }
    }
}

#[derive(PartialEq, Eq, Structural, Clone, Copy, Debug)]
pub enum OpenVpnAuth {
    Sha256,
    Sha512,
    Sha1,
}

impl OpenVpnAuth {
    pub open spec fn name_spec(self) -> Seq<char> {
        match self {
            OpenVpnAuth::Sha256 => "SHA256"@,
            OpenVpnAuth::Sha512 => "SHA512"@,
            OpenVpnAuth::Sha1 => "SHA1"@,
        }
    }

    /// The digest's name for OpenVPN, such as `SHA256`.
    pub fn name(&self) -> (s: &'static str)
        ensures
            s@ == self.name_spec(),
    {
        match self {
            OpenVpnAuth::Sha256 => "SHA256",
            OpenVpnAuth::Sha512 => "SHA512",
            OpenVpnAuth::Sha1 => "SHA1",
        }
    }
}

/// A server's settings.
#[derive(Clone, Debug)]
pub struct OpenVpnServerConfig {
    pub name: String,
    pub enabled: bool,
    pub protocol: OpenVpnProtocol,
    pub port: u16,
    /// `tun` or `tap`.
    pub device: String,
    pub local_ip: Option<IpAddress>,
    /// Such as `10.8.0.0`.
    pub tunnel_network: String,
    /// Such as `255.255.255.0`.
    pub tunnel_netmask: String,
    pub cipher: OpenVpnCipher,
    pub auth: OpenVpnAuth,
    pub compression: bool,
    pub max_clients: u32,
    /// Routes pushed to clients.
    pub push_routes: Vec<String>,
    /// DNS servers pushed to clients.
    pub push_dns: Vec<IpAddress>,
    pub client_to_client: bool,
    pub duplicate_cn: bool,
    pub keepalive_interval: u32,
    pub keepalive_timeout: u32,
    pub tls_auth: bool,
    pub tls_crypt: bool,
    pub ca_cert_path: String,
    pub server_cert_path: String,
    pub server_key_path: String,
    pub dh_params_path: String,
    pub tls_key_path: Option<String>,
}

/// A client's settings.
#[derive(Clone, Debug)]
pub struct OpenVpnClientConfig {
    pub name: String,
    pub enabled: bool,
    pub remote_host: String,
    pub remote_port: u16,
    pub protocol: OpenVpnProtocol,
    pub device: String,
    pub cipher: OpenVpnCipher,
    pub auth: OpenVpnAuth,
    pub compression: bool,
    pub verify_x509_name: Option<String>,
    pub ca_cert_path: String,
    pub client_cert_path: String,
    pub client_key_path: String,
    pub tls_auth: bool,
    pub tls_crypt: bool,
    pub tls_key_path: Option<String>,
}

/// The status of an instance.
#[derive(Clone, Debug)]
pub struct OpenVpnConnectionStatus {
    pub name: String,
    pub state: OpenVpnState,
    pub local_ip: Option<IpAddress>,
    pub remote_ip: Option<IpAddress>,
    pub bytes_sent: u64,
    pub bytes_received: u64,
    pub connected_since: Option<String>,
    pub uptime: Option<String>,
}

#[derive(PartialEq, Eq, Structural, Clone, Copy, Debug)]
pub enum OpenVpnState {
    Connected,
    Connecting,
    Disconnected,
    Error,
}

/// A client connected to a server.
#[derive(Clone, Debug)]
pub struct OpenVpnClient {
    pub common_name: String,
    pub real_address: String,
    pub virtual_address: String,
    pub bytes_sent: u64,
    pub bytes_received: u64,
    pub connected_since: String,
}

/// `line` when `b` holds.
pub open spec fn when(b: bool, line: Seq<char>) -> Seq<char> {
    if b {
        line
    } else {
        Seq::empty()
    }
}

/// The TLS key line: `tls-crypt` when set, else `tls-auth` with the given
/// direction, and only with a key file.
pub open spec fn tls_line(crypt: bool, auth: bool, key: Option<String>, direction: Seq<char>) -> Seq<char> {
    match key {
        Some(k) => if crypt {
            "tls-crypt "@ + k@ + "\n"@
        } else if auth {
            "tls-auth "@ + k@ + " "@ + direction + "\n"@
        } else {
            Seq::empty()
        },
        None => Seq::empty(),
    }
}

/// The server's transport.
pub open spec fn server_transport_text(c: OpenVpnServerConfig) -> Seq<char> {
    "mode server\n"@ + "proto "@ + c.protocol.name_spec() + "\n"@ + "port "@ + decimal(c.port as nat) + "\n"@
        + "dev "@ + c.device@ + "\n"@ + match c.local_ip {
        Some(ip) => "local "@ + ip_text(ip) + "\n"@,
        None => Seq::empty(),
    }
}

/// The server's network and key material.
pub open spec fn server_keys_text(c: OpenVpnServerConfig) -> Seq<char> {
    "server "@ + c.tunnel_network@ + " "@ + c.tunnel_netmask@ + "\n"@ + "topology subnet\n"@ + "ca "@
        + c.ca_cert_path@ + "\n"@ + "cert "@ + c.server_cert_path@ + "\n"@ + "key "@ + c.server_key_path@ + "\n"@
        + "dh "@ + c.dh_params_path@ + "\n"@ + tls_line(c.tls_crypt, c.tls_auth, c.tls_key_path, "0"@)
}

/// The server's transport, network and key material.
pub open spec fn server_head_text(c: OpenVpnServerConfig) -> Seq<char> {
    server_transport_text(c) + server_keys_text(c)
}

/// The server's cipher, digest and compression.
pub open spec fn server_crypto_text(c: OpenVpnServerConfig) -> Seq<char> {
    "cipher "@ + c.cipher.name_spec() + "\n"@ + "auth "@ + c.auth.name_spec() + "\n"@ + when(
        c.compression,
        "compress lz4-v2\n"@ + "push \"compress lz4-v2\"\n"@,
    )
}

/// The server's client settings.
pub open spec fn server_clients_text(c: OpenVpnServerConfig) -> Seq<char> {
    "max-clients "@ + decimal(c.max_clients as nat) + "\n"@ + when(c.client_to_client, "client-to-client\n"@)
        + when(c.duplicate_cn, "duplicate-cn\n"@) + "keepalive "@ + decimal(c.keepalive_interval as nat) + " "@
        + decimal(c.keepalive_timeout as nat) + "\n"@
}

/// The server's cryptography and client settings.
pub open spec fn server_middle_text(c: OpenVpnServerConfig) -> Seq<char> {
    server_crypto_text(c) + server_clients_text(c)
}

/// What the server pushes, and its persistence, logging and user.
pub open spec fn server_tail_text(c: OpenVpnServerConfig) -> Seq<char> {
    wrapped_lines(c.push_routes@, "push \"route "@, "\"\n"@) + concat_map(
        c.push_dns@,
        |ip: IpAddress| "push \"dhcp-option DNS "@ + ip_text(ip) + "\"\n"@,
    ) + "persist-key\n"@ + "persist-tun\n"@ + "status /var/log/patronus/openvpn-"@ + c.name@ + "-status.log\n"@
        + "log-append /var/log/patronus/openvpn-"@ + c.name@ + ".log\n"@ + "verb 3\n"@ + "user nobody\n"@
        + "group nobody\n"@
}

/// The text of a server's configuration file.
pub open spec fn server_config_text(c: OpenVpnServerConfig) -> Seq<char> {
    server_head_text(c) + server_middle_text(c) + server_tail_text(c)
}

/// The text of a client's configuration file.
pub open spec fn client_config_text(c: OpenVpnClientConfig) -> Seq<char> {
    "client\n"@ + "dev "@ + c.device@ + "\n"@ + "proto "@ + c.protocol.name_spec() + "\n"@ + "remote "@
        + c.remote_host@ + " "@ + decimal(c.remote_port as nat) + "\n"@ + "resolv-retry infinite\n"@ + "nobind\n"@
        + "persist-key\n"@ + "persist-tun\n"@ + "ca "@ + c.ca_cert_path@ + "\n"@ + "cert "@ + c.client_cert_path@
        + "\n"@ + "key "@ + c.client_key_path@ + "\n"@ + tls_line(c.tls_crypt, c.tls_auth, c.tls_key_path, "1"@)
        + "cipher "@ + c.cipher.name_spec() + "\n"@ + "auth "@ + c.auth.name_spec() + "\n"@ + when(
        c.compression,
        "compress lz4-v2\n"@,
    ) + (match c.verify_x509_name {
        Some(n) => "verify-x509-name "@ + n@ + " name\n"@,
        None => Seq::empty(),
    }) + "verb 3\n"@
}

/// The embedded TLS key of a profile: present when the client uses one,
/// has a key file and its text was read.
pub open spec fn profile_tls_text(c: OpenVpnClientConfig, tls_key: Option<Seq<char>>) -> Seq<char> {
    if (c.tls_crypt || c.tls_auth) && c.tls_key_path is Some {
        match tls_key {
            Some(k) => if c.tls_crypt {
                "\n<tls-crypt>\n"@ + k + "</tls-crypt>\n"@
            } else {
                "\n<tls-auth>\n"@ + k + "</tls-auth>\n"@ + "key-direction 1\n"@
            },
            None => Seq::empty(),
        }
    } else {
        Seq::empty()
    }
}

/// A single-file client profile: the configuration, then the CA
/// certificate, the client's certificate and key, and the TLS key.
pub open spec fn profile_text(
    c: OpenVpnClientConfig,
    ca: Seq<char>,
    cert: Seq<char>,
    key: Seq<char>,
    tls_key: Option<Seq<char>>,
) -> Seq<char> {
    client_config_text(c) + "\n<ca>\n"@ + ca + "</ca>\n"@ + "\n<cert>\n"@ + cert + "</cert>\n"@ + "\n<key>\n"@ + key
        + "</key>\n"@ + profile_tls_text(c, tls_key)
}

fn push_tls_line(out: &mut String, crypt: bool, auth: bool, key: &Option<String>, direction: &str)
    ensures
        final(out)@ == old(out)@ + tls_line(crypt, auth, *key, direction@),
{
    let ghost base = out@;
    match key {
        Some(k) => {
            if crypt {
                out.append("tls-crypt ");
                out.append(k.as_str());
                out.append("\n");
            } else if auth {
                out.append("tls-auth ");
                out.append(k.as_str());
                out.append(" ");
                out.append(direction);
                out.append("\n");
            }
        },
        None => {},
    }
    proof {
        assert(out@ =~= base + tls_line(crypt, auth, *key, direction@));
    }
}

fn push_when(out: &mut String, b: bool, line: &str)
    ensures
        final(out)@ == old(out)@ + when(b, line@),
{
    if b {
        out.append(line);
    } else {
        proof {
            assert(out@ =~= old(out)@ + when(b, line@));
        }
    }
}

fn push_server_transport(out: &mut String, c: &OpenVpnServerConfig)
    ensures
        final(out)@ == old(out)@ + server_transport_text(*c),
{
    let ghost base = out@;
    out.append("mode server\n");
    out.append("proto ");
    out.append(c.protocol.name());
    out.append("\n");
    out.append("port ");
    push_decimal(out, c.port as u64);
    out.append("\n");
    out.append("dev ");
    out.append(c.device.as_str());
    out.append("\n");
    let ghost p1 = out@;
    match c.local_ip {
        Some(ip) => {
            out.append("local ");
            push_ip(out, ip);
            out.append("\n");
        },
        None => {},
    }
    proof {
        assert(out@ =~= base + server_transport_text(*c));
    }
}

fn push_server_keys(out: &mut String, c: &OpenVpnServerConfig)
    ensures
        final(out)@ == old(out)@ + server_keys_text(*c),
{
    let ghost base = out@;
    out.append("server ");
    out.append(c.tunnel_network.as_str());
    out.append(" ");
    out.append(c.tunnel_netmask.as_str());
    out.append("\n");
    out.append("topology subnet\n");
    out.append("ca ");
    out.append(c.ca_cert_path.as_str());
    out.append("\n");
    out.append("cert ");
    out.append(c.server_cert_path.as_str());
    out.append("\n");
    out.append("key ");
    out.append(c.server_key_path.as_str());
    out.append("\n");
    out.append("dh ");
    out.append(c.dh_params_path.as_str());
    out.append("\n");
    push_tls_line(out, c.tls_crypt, c.tls_auth, &c.tls_key_path, "0");
    proof {
        assert(out@ =~= base + server_keys_text(*c));
    }
}

fn push_server_head(out: &mut String, c: &OpenVpnServerConfig)
    ensures
        final(out)@ == old(out)@ + server_head_text(*c),
{
    let ghost base = out@;
    push_server_transport(out, c);
    push_server_keys(out, c);
    proof {
        assert(out@ =~= base + server_head_text(*c));
    }
}

fn push_server_crypto(out: &mut String, c: &OpenVpnServerConfig)
    ensures
        final(out)@ == old(out)@ + server_crypto_text(*c),
{
    let ghost base = out@;
    out.append("cipher ");
    out.append(c.cipher.name());
    out.append("\n");
    out.append("auth ");
    out.append(c.auth.name());
    out.append("\n");
    let ghost mid = out@;
    if c.compression {
        out.append("compress lz4-v2\n");
        out.append("push \"compress lz4-v2\"\n");
    }
    proof {
        assert(out@ =~= base + server_crypto_text(*c));
    }
}

fn push_server_clients(out: &mut String, c: &OpenVpnServerConfig)
    ensures
        final(out)@ == old(out)@ + server_clients_text(*c),
{
    let ghost base = out@;
    out.append("max-clients ");
    push_decimal(out, c.max_clients as u64);
    out.append("\n");
    push_when(out, c.client_to_client, "client-to-client\n");
    push_when(out, c.duplicate_cn, "duplicate-cn\n");
    out.append("keepalive ");
    push_decimal(out, c.keepalive_interval as u64);
    out.append(" ");
    push_decimal(out, c.keepalive_timeout as u64);
    out.append("\n");
    proof {
        assert(out@ =~= base + server_clients_text(*c));
    }
}

fn push_server_middle(out: &mut String, c: &OpenVpnServerConfig)
    ensures
        final(out)@ == old(out)@ + server_middle_text(*c),
{
    let ghost base = out@;
    push_server_crypto(out, c);
    push_server_clients(out, c);
    proof {
        assert(out@ =~= base + server_middle_text(*c));
    }
}

fn push_dns_lines(out: &mut String, v: &Vec<IpAddress>)
    ensures
        final(out)@ == old(out)@ + concat_map(v@, |ip: IpAddress| "push \"dhcp-option DNS "@ + ip_text(ip) + "\"\n"@),
{
    let ghost base = out@;
    let ghost f = |ip: IpAddress| "push \"dhcp-option DNS "@ + ip_text(ip) + "\"\n"@;
    let mut i: usize = 0;
    while i < v.len()
        invariant
            0 <= i <= v.len(),
            f == (|ip: IpAddress| "push \"dhcp-option DNS "@ + ip_text(ip) + "\"\n"@),
            out@ == base + concat_map(v@.subrange(0, i as int), f),
        decreases v.len() - i,
    {
        out.append("push \"dhcp-option DNS ");
        push_ip(out, v[i]);
        out.append("\"\n");
        proof {
            lemma_concat_map_step(v@, f, i as int);
            assert(out@ =~= base + concat_map(v@.subrange(0, i + 1), f));
        }
        i = i + 1;
    }
    proof {
        lemma_concat_map_full(v@, f);
    }
}

fn push_server_tail(out: &mut String, c: &OpenVpnServerConfig)
    ensures
        final(out)@ == old(out)@ + server_tail_text(*c),
{
    let ghost base = out@;
    push_wrapped_lines(out, &c.push_routes, "push \"route ", "\"\n");
    push_dns_lines(out, &c.push_dns);
    out.append("persist-key\n");
    out.append("persist-tun\n");
    out.append("status /var/log/patronus/openvpn-");
    out.append(c.name.as_str());
    out.append("-status.log\n");
    out.append("log-append /var/log/patronus/openvpn-");
    out.append(c.name.as_str());
    out.append(".log\n");
    out.append("verb 3\n");
    out.append("user nobody\n");
    out.append("group nobody\n");
    proof {
        assert(out@ =~= base + server_tail_text(*c));
    }
}

/// The directory of the OpenVPN configuration.
pub struct OpenVpnManager {
    config_dir: String,
}

impl OpenVpnManager {
    pub closed spec fn config_dir_view(&self) -> Seq<char> {
        self.config_dir@
    }

    /// Configuration under `/etc/patronus/openvpn`.
    pub fn new() -> (m: OpenVpnManager)
        ensures
            m.config_dir_view() == "/etc/patronus/openvpn"@,
    {
        OpenVpnManager { config_dir: owned("/etc/patronus/openvpn") }
    }

    /// Configuration under the given directory.
    pub fn with_config_dir(path: &str) -> (m: OpenVpnManager)
        ensures
            m.config_dir_view() == path@,
    {
        OpenVpnManager { config_dir: owned(path) }
    }

    /// The directory of the configuration.
    pub fn config_dir(&self) -> (d: String)
        ensures
            d@ == self.config_dir_view(),
    {
        self.config_dir.clone()
    }

    /// The path of an instance's configuration file: `<dir>/<name>.conf`.
    pub fn config_path(&self, name: &str) -> (p: String)
        ensures
            p@ == self.config_dir_view() + "/"@ + name@ + ".conf"@,
    {
        let mut p = self.config_dir.clone();
        p.append("/");
        p.append(name);
        p.append(".conf");
        p
    }

    /// The text of a server's configuration file; it never fails.
    pub fn generate_server_config(&self, config: &OpenVpnServerConfig) -> (r: Result<String, OpenVpnError>)
        ensures
            r matches Ok(text) && text@ == server_config_text(*config),
    {
        let mut conf = String::new();
        push_server_head(&mut conf, config);
        push_server_middle(&mut conf, config);
        push_server_tail(&mut conf, config);
        proof {
            assert(conf@ =~= server_config_text(*config));
        }
        Ok(conf)
    }

    /// The text of a client's configuration file; it never fails.
    pub fn generate_client_config(&self, config: &OpenVpnClientConfig) -> (r: Result<String, OpenVpnError>)
        ensures
            r matches Ok(text) && text@ == client_config_text(*config),
    {
        let mut conf = String::new();
        conf.append("client\n");
        conf.append("dev ");
        conf.append(config.device.as_str());
        conf.append("\n");
        conf.append("proto ");
        conf.append(config.protocol.name());
        conf.append("\n");
        conf.append("remote ");
        conf.append(config.remote_host.as_str());
        conf.append(" ");
        push_decimal(&mut conf, config.remote_port as u64);
        conf.append("\n");
        conf.append("resolv-retry infinite\n");
        conf.append("nobind\n");
        conf.append("persist-key\n");
        conf.append("persist-tun\n");
        conf.append("ca ");
        conf.append(config.ca_cert_path.as_str());
        conf.append("\n");
        conf.append("cert ");
        conf.append(config.client_cert_path.as_str());
        conf.append("\n");
        conf.append("key ");
        conf.append(config.client_key_path.as_str());
        conf.append("\n");
        let ghost p1 = conf@;
        push_tls_line(&mut conf, config.tls_crypt, config.tls_auth, &config.tls_key_path, "1");
        conf.append("cipher ");
        conf.append(config.cipher.name());
        conf.append("\n");
        conf.append("auth ");
        conf.append(config.auth.name());
        conf.append("\n");
        push_when(&mut conf, config.compression, "compress lz4-v2\n");
        let ghost p2 = conf@;
        match &config.verify_x509_name {
            Some(n) => {
                conf.append("verify-x509-name ");
                conf.append(n.as_str());
                conf.append(" name\n");
            },
            None => {},
        }
        conf.append("verb 3\n");
        proof {
            assert(conf@ =~= client_config_text(*config));
        }
        Ok(conf)
    }

    /// A single-file client profile from the configuration and the texts
    /// of the certificates and keys; the TLS key is embedded when the
    /// client uses one and its text is given.
    pub fn export_client_config(
        &self,
        config: &OpenVpnClientConfig,
        ca_cert: &str,
        client_cert: &str,
        client_key: &str,
        tls_key: Option<&str>,
    ) -> (r: Result<String, OpenVpnError>)
        ensures
            r matches Ok(text) && text@ == profile_text(
                *config,
                ca_cert@,
                client_cert@,
                client_key@,
                match tls_key {
                    Some(k) => Some(k@),
                    None => None,
                },
            ),
    {
        let mut ovpn = match self.generate_client_config(config) {
            Ok(t) => t,
            Err(e) => {
                return Err(e);
            },
        };
        let ghost base = ovpn@;
        ovpn.append("\n<ca>\n");
        ovpn.append(ca_cert);
        ovpn.append("</ca>\n");
        ovpn.append("\n<cert>\n");
        ovpn.append(client_cert);
        ovpn.append("</cert>\n");
        ovpn.append("\n<key>\n");
        ovpn.append(client_key);
        ovpn.append("</key>\n");
        let ghost mid = ovpn@;
        if (config.tls_crypt || config.tls_auth) && config.tls_key_path.is_some() {
            match tls_key {
                Some(k) => {
                    if config.tls_crypt {
                        ovpn.append("\n<tls-crypt>\n");
                        ovpn.append(k);
                        ovpn.append("</tls-crypt>\n");
                    } else {
                        ovpn.append("\n<tls-auth>\n");
                        ovpn.append(k);
                        ovpn.append("</tls-auth>\n");
                        ovpn.append("key-direction 1\n");
                    }
                },
                None => {},
            }
        }
        proof {
            let tk = match tls_key {
                Some(k) => Some(k@),
                None => None,
            };
            assert(ovpn@ =~= mid + profile_tls_text(*config, tk));
            assert(ovpn@ =~= profile_text(*config, ca_cert@, client_cert@, client_key@, tk));
        }
        Ok(ovpn)
    }

    /// The arguments of `openvpn` that start an instance as a daemon.
    pub fn start_args(&self, name: &str) -> (args: Vec<String>)
        ensures
            args@.len() == 3,
            args@[0]@ == "--config"@,
            args@[1]@ == self.config_dir_view() + "/"@ + name@ + ".conf"@,
            args@[2]@ == "--daemon"@,
    {
        let mut args: Vec<String> = Vec::new();
        args.push(owned("--config"));
        args.push(self.config_path(name));
        args.push(owned("--daemon"));
        args
    }

    /// The pattern that finds an instance's process: `openvpn.*<name>.conf`.
    pub fn process_pattern(&self, name: &str) -> (p: String)
        ensures
            p@ == "openvpn.*"@ + name@ + ".conf"@,
    {
        let mut p = owned("openvpn.*");
        p.append(name);
        p.append(".conf");
        p
    }

    /// The status of an instance from whether its process runs: connected
    /// or disconnected, with no counters.
    pub fn get_status(&self, name: &str, is_running: bool) -> (r: Result<OpenVpnConnectionStatus, OpenVpnError>)
        ensures
            r matches Ok(s) && s.name@ == name@ && s.state == (if is_running {
                OpenVpnState::Connected
            } else {
                OpenVpnState::Disconnected
            }) && s.local_ip is None && s.remote_ip is None && s.bytes_sent == 0 && s.bytes_received == 0
                && s.connected_since is None && s.uptime is None,
    {
        Ok(
            OpenVpnConnectionStatus {
                name: owned(name),
                state: if is_running {
                    OpenVpnState::Connected
                } else {
                    OpenVpnState::Disconnected
                },
                local_ip: None,
                remote_ip: None,
                bytes_sent: 0,
                bytes_received: 0,
                connected_since: None,
                uptime: None,
            },
        )
    }

    /// The clients connected to a server; none are read yet.
    pub fn list_connected_clients(&self, server_name: &str) -> (r: Result<Vec<OpenVpnClient>, OpenVpnError>)
        ensures
            r matches Ok(v) && v@.len() == 0,
    {
        Ok(Vec::new())
    }
}

impl Default for OpenVpnManager {
    fn default() -> (m: OpenVpnManager)
        ensures
            m.config_dir_view() == "/etc/patronus/openvpn"@,
    {
        OpenVpnManager::new()
    }
}

/// Why an OpenVPN operation failed.
#[derive(Clone, Debug)]
pub enum OpenVpnError {
    Network(String),
}

impl Default for OpenVpnServerConfig {
    /// `server1`: UDP port 1194 on `tun`, network 10.8.0.0/24, AES-256-GCM
    /// with SHA256, up to 100 clients, keepalive 10/120, TLS crypt with the
    /// keys under `/etc/patronus/openvpn`.
    fn default() -> (c: OpenVpnServerConfig)
        ensures
            c.name@ == "server1"@,
            c.enabled,
            c.protocol == OpenVpnProtocol::Udp,
            c.port == 1194,
            c.device@ == "tun"@,
            c.local_ip is None,
            c.tunnel_network@ == "10.8.0.0"@,
            c.tunnel_netmask@ == "255.255.255.0"@,
            c.cipher == OpenVpnCipher::Aes256Gcm,
            c.auth == OpenVpnAuth::Sha256,
            !c.compression,
            c.max_clients == 100,
            c.push_routes@.len() == 0,
            c.push_dns@.len() == 0,
            !c.client_to_client && !c.duplicate_cn,
            c.keepalive_interval == 10,
            c.keepalive_timeout == 120,
            !c.tls_auth && c.tls_crypt,
            c.ca_cert_path@ == "/etc/patronus/openvpn/ca.crt"@,
            c.server_cert_path@ == "/etc/patronus/openvpn/server.crt"@,
            c.server_key_path@ == "/etc/patronus/openvpn/server.key"@,
            c.dh_params_path@ == "/etc/patronus/openvpn/dh2048.pem"@,
            c.tls_key_path matches Some(k) && k@ == "/etc/patronus/openvpn/ta.key"@,
    {
        OpenVpnServerConfig {
            name: owned("server1"),
            enabled: true,
            protocol: OpenVpnProtocol::Udp,
            port: 1194,
            device: owned("tun"),
            local_ip: None,
            tunnel_network: owned("10.8.0.0"),
            tunnel_netmask: owned("255.255.255.0"),
            cipher: OpenVpnCipher::Aes256Gcm,
            auth: OpenVpnAuth::Sha256,
            compression: false,
            max_clients: 100,
            push_routes: Vec::new(),
            push_dns: Vec::new(),
            client_to_client: false,
            duplicate_cn: false,
            keepalive_interval: 10,
            keepalive_timeout: 120,
            tls_auth: false,
            tls_crypt: true,
            ca_cert_path: owned("/etc/patronus/openvpn/ca.crt"),
            server_cert_path: owned("/etc/patronus/openvpn/server.crt"),
            server_key_path: owned("/etc/patronus/openvpn/server.key"),
            dh_params_path: owned("/etc/patronus/openvpn/dh2048.pem"),
            tls_key_path: Some(owned("/etc/patronus/openvpn/ta.key")),
        }
    }
}

/// With TLS crypt and a key, the key is used for encryption and never for
/// authentication.
pub proof fn lemma_tls_crypt_wins(auth: bool, key: String, direction: Seq<char>)
    ensures
        tls_line(true, auth, Some(key), direction) == "tls-crypt "@ + key@ + "\n"@,
{
}

} // verus!
