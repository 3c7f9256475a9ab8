//! IPsec tunnels with strongSwan: algorithms, proposals, and the text of
//! `ipsec.conf` connections and secrets.
use vstd::prelude::*;
use crate::net::{IpAddress, ip_text, push_ip};
use crate::text::{
    decimal, flat_map, join, join_strings, lemma_flat_map_full, lemma_flat_map_step, owned, push_decimal, views,
};

verus! {

/// How the peers authenticate.
#[derive(PartialEq, Eq, Structural, Clone, Copy, Debug)]
pub enum IpsecAuthMethod {
    /// Pre-shared key.
    Psk,
    /// Certificates.
    PubKey,
    Eap,
    EapMschapv2,
    EapTls,
}

impl IpsecAuthMethod {
    pub open spec fn name_spec(self) -> Seq<char> {
        match self {
            IpsecAuthMethod::Psk => "psk"@,
            IpsecAuthMethod::PubKey => "pubkey"@,
            IpsecAuthMethod::Eap => "eap"@,
            IpsecAuthMethod::EapMschapv2 => "eap-mschapv2"@,
            IpsecAuthMethod::EapTls => "eap-tls"@,
        }
    }

    /// The method's name in strongSwan's configuration.
    pub fn name(&self) -> (s: &'static str)
        ensures
            s@ == self.name_spec(),
    {
        match self {
            IpsecAuthMethod::Psk => "psk",
            IpsecAuthMethod::PubKey => "pubkey",
            IpsecAuthMethod::Eap => "eap",
            IpsecAuthMethod::EapMschapv2 => "eap-mschapv2",
            IpsecAuthMethod::EapTls => "eap-tls",
        }
    }
}

/// Encryption algorithms.
#[derive(PartialEq, Eq, Structural, Clone, Copy, Debug)]
pub enum IpsecCipher {
    Aes128,
    Aes192,
    Aes256,
    Aes128Gcm128,
    Aes256Gcm128,
}

impl IpsecCipher {
    pub open spec fn name_spec(self) -> Seq<char> {
        match self {
            IpsecCipher::Aes128 => "aes128"@,
            IpsecCipher::Aes192 => "aes192"@,
            IpsecCipher::Aes256 => "aes256"@,
            IpsecCipher::Aes128Gcm128 => "aes128gcm128"@,
            IpsecCipher::Aes256Gcm128 => "aes256gcm128"@,
        }
    }

    /// Whether the cipher authenticates by itself (GCM), needing no
    /// integrity algorithm.
    pub open spec fn is_gcm(self) -> bool {
        self == IpsecCipher::Aes128Gcm128 || self == IpsecCipher::Aes256Gcm128
    }

    /// The cipher's name in proposals.
    pub fn name(&self) -> (s: &'static str)
        ensures
            s@ == self.name_spec(),
    {
        match self {
            IpsecCipher::Aes128 => "aes128",
            IpsecCipher::Aes192 => "aes192",
            IpsecCipher::Aes256 => "aes256",
            IpsecCipher::Aes128Gcm128 => "aes128gcm128",
            IpsecCipher::Aes256Gcm128 => "aes256gcm128",
        }
    }
}

/// Integrity algorithms.
#[derive(PartialEq, Eq, Structural, Clone, Copy, Debug)]
pub enum IpsecIntegrity {
    Sha1,
    Sha256,
    Sha384,
    Sha512,
    AesXcbc,
}

impl IpsecIntegrity {
    pub open spec fn name_spec(self) -> Seq<char> {
        match self {
            IpsecIntegrity::Sha1 => "sha1"@,
            IpsecIntegrity::Sha256 => "sha256"@,
            IpsecIntegrity::Sha384 => "sha384"@,
            IpsecIntegrity::Sha512 => "sha512"@,
            IpsecIntegrity::AesXcbc => "aesxcbc"@,
        }
    }

    /// The algorithm's name in proposals.
    pub fn name(&self) -> (s: &'static str)
        ensures
            s@ == self.name_spec(),
    {
        match self {
            IpsecIntegrity::Sha1 => "sha1",
            IpsecIntegrity::Sha256 => "sha256",
            IpsecIntegrity::Sha384 => "sha384",
            IpsecIntegrity::Sha512 => "sha512",
            IpsecIntegrity::AesXcbc => "aesxcbc",
        }
    }
}

/// Diffie-Hellman groups.
#[derive(PartialEq, Eq, Structural, Clone, Copy, Debug)]
pub enum DhGroup {
    /// Group 2.
    Modp1024,
    /// Group 5.
    Modp1536,
    /// Group 14.
    Modp2048,
    /// Group 15.
    Modp3072,
    /// Group 16.
    Modp4096,
    /// Group 18.
    Modp8192,
    /// Group 19.
    Ecp256,
    /// Group 20.
    Ecp384,
    /// Group 21.
    Ecp521,
}

impl DhGroup {
    pub open spec fn name_spec(self) -> Seq<char> {
        match self {
            DhGroup::Modp1024 => "modp1024"@,
            DhGroup::Modp1536 => "modp1536"@,
            DhGroup::Modp2048 => "modp2048"@,
            DhGroup::Modp3072 => "modp3072"@,
            DhGroup::Modp4096 => "modp4096"@,
            DhGroup::Modp8192 => "modp8192"@,
            DhGroup::Ecp256 => "ecp256"@,
            DhGroup::Ecp384 => "ecp384"@,
            DhGroup::Ecp521 => "ecp521"@,
        }
    }

    /// The group's name in proposals.
    pub fn name(&self) -> (s: &'static str)
        ensures
            s@ == self.name_spec(),
    {
        match self {
            DhGroup::Modp1024 => "modp1024",
            DhGroup::Modp1536 => "modp1536",
            DhGroup::Modp2048 => "modp2048",
            DhGroup::Modp3072 => "modp3072",
            DhGroup::Modp4096 => "modp4096",
            DhGroup::Modp8192 => "modp8192",
            DhGroup::Ecp256 => "ecp256",
            DhGroup::Ecp384 => "ecp384",
            DhGroup::Ecp521 => "ecp521",
        }
    }
}

/// A site-to-site tunnel.
#[derive(Clone, Debug)]
pub struct IpsecTunnelConfig {
    pub name: String,
    pub enabled: bool,
    /// IKEv2 when set, else IKEv1.
    pub ikev2: bool,
    /// Local identifier: an address, a domain name or a mail address.
    pub local_id: Option<String>,
    pub local_subnets: Vec<String>,
    pub local_cert: Option<String>,
    pub local_key: Option<String>,
    pub remote_id: Option<String>,
    /// The remote gateway's address or host name.
    pub remote_address: String,
    pub remote_subnets: Vec<String>,
    pub remote_cert: Option<String>,
    pub auth_method: IpsecAuthMethod,
    /// The pre-shared key, with that method.
    pub psk: Option<String>,
    pub ike_cipher: Vec<IpsecCipher>,
    pub ike_integrity: Vec<IpsecIntegrity>,
    pub ike_dh_group: Vec<DhGroup>,
    /// In seconds.
    pub ike_lifetime: u32,
    pub esp_cipher: Vec<IpsecCipher>,
    pub esp_integrity: Vec<IpsecIntegrity>,
    pub esp_dh_group: Vec<DhGroup>,
    /// In seconds.
    pub esp_lifetime: u32,
    /// Whether the tunnel starts at boot.
    pub auto_start: bool,
    /// Dead peer detection action: `restart`, `clear` or `hold`.
    pub dpdaction: String,
    /// In seconds.
    pub dpddelay: u32,
    pub close_action: String,
}

/// Road-warrior clients.
#[derive(Debug)]
pub struct IpsecMobileClientConfig {
    pub name: String,
    pub enabled: bool,
    pub pool_name: String,
    pub pool_range: (IpAddress, IpAddress),
    pub dns_servers: Vec<IpAddress>,
    pub push_routes: Vec<String>,
    pub auth_method: IpsecAuthMethod,
    pub eap_id: Option<String>,
    pub ca_cert: String,
    pub server_cert: String,
    pub server_key: String,
    pub ike_cipher: Vec<IpsecCipher>,
    pub ike_integrity: Vec<IpsecIntegrity>,
    pub ike_dh_group: Vec<DhGroup>,
    pub esp_cipher: Vec<IpsecCipher>,
    pub esp_integrity: Vec<IpsecIntegrity>,
}

/// The status of a connection.
#[derive(Clone, Debug)]
pub struct IpsecConnectionStatus {
    pub name: String,
    pub state: IpsecState,
    pub local_ip: Option<IpAddress>,
    pub remote_ip: Option<IpAddress>,
    pub established: Option<String>,
    pub bytes_in: u64,
    pub bytes_out: u64,
    pub packets_in: u64,
    pub packets_out: u64,
}

#[derive(PartialEq, Eq, Structural, Clone, Copy, Debug)]
pub enum IpsecState {
    Established,
    Connecting,
    Disconnected,
    Failed,
}

// ---------------------------------------------------------------------------
// Proposals.

/// `prefix-group` for each group, in order.
pub open spec fn dh_variants(prefix: Seq<char>, ds: Seq<DhGroup>) -> Seq<Seq<char>> {
    ds.map_values(|d: DhGroup| prefix + "-"@ + d.name_spec())
}

/// The IKE proposals of one cipher: each integrity algorithm with each
/// group.
pub open spec fn ike_for_cipher(c: IpsecCipher, is: Seq<IpsecIntegrity>, ds: Seq<DhGroup>) -> Seq<Seq<char>> {
    flat_map(is, |i: IpsecIntegrity| dh_variants(c.name_spec() + "-"@ + i.name_spec(), ds))
}

/// The IKE proposals: `cipher-integrity-group` for every combination,
/// ciphers outermost.
pub open spec fn ike_proposal_list(cs: Seq<IpsecCipher>, is: Seq<IpsecIntegrity>, ds: Seq<DhGroup>) -> Seq<Seq<char>> {
    flat_map(cs, |c: IpsecCipher| ike_for_cipher(c, is, ds))
}

/// The ESP proposals of a cipher and an integrity algorithm: with each
/// group, or alone without groups.
pub open spec fn with_groups(prefix: Seq<char>, ds: Seq<DhGroup>) -> Seq<Seq<char>> {
    if ds.len() == 0 {
        seq![prefix]
    } else {
        dh_variants(prefix, ds)
    }
}

/// The ESP proposals of one cipher: a GCM cipher needs no integrity
/// algorithm; another one is combined with each.
pub open spec fn esp_for_cipher(c: IpsecCipher, is: Seq<IpsecIntegrity>, ds: Seq<DhGroup>) -> Seq<Seq<char>> {
    if c.is_gcm() {
        with_groups(c.name_spec(), ds)
    } else {
        flat_map(is, |i: IpsecIntegrity| with_groups(c.name_spec() + "-"@ + i.name_spec(), ds))
    }
}

/// The ESP proposals, ciphers outermost.
pub open spec fn esp_proposal_list(cs: Seq<IpsecCipher>, is: Seq<IpsecIntegrity>, ds: Seq<DhGroup>) -> Seq<Seq<char>> {
    flat_map(cs, |c: IpsecCipher| esp_for_cipher(c, is, ds))
}

fn push_views(out: &mut Vec<String>, s: String)
    ensures
        views(final(out)@) == views(old(out)@).push(s@),
{
    out.push(s);
    proof {
        assert(views(final(out)@) =~= views(old(out)@).push(s@));
    }
}

fn push_dh_variants(out: &mut Vec<String>, prefix: &String, ds: &[DhGroup])
    ensures
        views(final(out)@) == views(old(out)@) + dh_variants(prefix@, ds@),
{
    let ghost base = views(out@);
    let ghost f = |d: DhGroup| prefix@ + "-"@ + d.name_spec();
    let mut k: usize = 0;
    while k < ds.len()
        invariant
            0 <= k <= ds@.len(),
            f == (|d: DhGroup| prefix@ + "-"@ + d.name_spec()),
            views(out@) == base + ds@.subrange(0, k as int).map_values(f),
        decreases ds.len() - k,
    {
        let mut p = prefix.clone();
        p.append("-");
        p.append(ds[k].name());
        push_views(out, p);
        proof {
            assert(ds@.subrange(0, k + 1).map_values(f) =~= ds@.subrange(0, k as int).map_values(f).push(
                f(ds@[k as int]),
            ));
            assert(views(out@) =~= base + ds@.subrange(0, k + 1).map_values(f));
        }
        k = k + 1;
    }
    proof {
        assert(ds@.subrange(0, ds@.len() as int) =~= ds@);
    }
}

fn push_with_groups(out: &mut Vec<String>, prefix: &String, ds: &[DhGroup])
    ensures
        views(final(out)@) == views(old(out)@) + with_groups(prefix@, ds@),
{
    if ds.len() == 0 {
        push_views(out, prefix.clone());
        proof {
            assert(views(old(out)@).push(prefix@) =~= views(old(out)@) + seq![prefix@]);
        }
    } else {
        push_dh_variants(out, prefix, ds);
    }
}

fn joined_name(a: &str, b: &str) -> (s: String)
    ensures
        s@ == a@ + "-"@ + b@,
{
    let mut s = owned(a);
    s.append("-");
    s.append(b);
    s
}

fn push_ike_for_cipher(out: &mut Vec<String>, c: IpsecCipher, is: &[IpsecIntegrity], ds: &[DhGroup])
    ensures
        views(final(out)@) == views(old(out)@) + ike_for_cipher(c, is@, ds@),
{
    let ghost base = views(out@);
    let ghost f = |i: IpsecIntegrity| dh_variants(c.name_spec() + "-"@ + i.name_spec(), ds@);
    let mut j: usize = 0;
    while j < is.len()
        invariant
            0 <= j <= is@.len(),
            f == (|i: IpsecIntegrity| dh_variants(c.name_spec() + "-"@ + i.name_spec(), ds@)),
            views(out@) == base + flat_map(is@.subrange(0, j as int), f),
        decreases is.len() - j,
    {
        let prefix = joined_name(c.name(), is[j].name());
        push_dh_variants(out, &prefix, ds);
        proof {
            lemma_flat_map_step(is@, f, j as int);
            assert(views(out@) =~= base + flat_map(is@.subrange(0, j + 1), f));
        }
        j = j + 1;
    }
    proof {
        lemma_flat_map_full(is@, f);
    }
}

fn push_esp_for_cipher(out: &mut Vec<String>, c: IpsecCipher, is: &[IpsecIntegrity], ds: &[DhGroup])
    ensures
        views(final(out)@) == views(old(out)@) + esp_for_cipher(c, is@, ds@),
{
    if c == IpsecCipher::Aes128Gcm128 || c == IpsecCipher::Aes256Gcm128 {
        push_with_groups(out, &owned(c.name()), ds);
        return;
    }
    let ghost base = views(out@);
    let ghost f = |i: IpsecIntegrity| with_groups(c.name_spec() + "-"@ + i.name_spec(), ds@);
    let mut j: usize = 0;
    while j < is.len()
        invariant
            0 <= j <= is@.len(),
            f == (|i: IpsecIntegrity| with_groups(c.name_spec() + "-"@ + i.name_spec(), ds@)),
            views(out@) == base + flat_map(is@.subrange(0, j as int), f),
        decreases is.len() - j,
    {
        let prefix = joined_name(c.name(), is[j].name());
        push_with_groups(out, &prefix, ds);
        proof {
            lemma_flat_map_step(is@, f, j as int);
            assert(views(out@) =~= base + flat_map(is@.subrange(0, j + 1), f));
        }
        j = j + 1;
    }
    proof {
        lemma_flat_map_full(is@, f);
    }
}

/// The pre-shared key line of the secrets file; `%any` stands for a
/// missing identifier.
pub open spec fn psk_secret_text(local_id: Option<Seq<char>>, remote_id: Option<Seq<char>>, psk: Seq<char>) -> Seq<char> {
    (match local_id {
        Some(l) => l,
        None => "%any"@,
    }) + " "@ + (match remote_id {
        Some(r) => r,
        None => "%any"@,
    }) + " : PSK \""@ + psk + "\"\n"@
}

/// The opening of a tunnel's connection: name, key exchange, start and
/// local side.
pub open spec fn tunnel_head_text(c: IpsecTunnelConfig) -> Seq<char> {
    "conn "@ + c.name@ + "\n"@ + (if c.ikev2 {
        "  keyexchange=ikev2\n"@
    } else {
        "  keyexchange=ikev1\n"@
    }) + (if c.auto_start {
        "  auto=start\n"@
    } else {
        "  auto=add\n"@
    }) + (match c.local_id {
        Some(l) => "  leftid="@ + l@ + "\n"@,
        None => Seq::empty(),
    }) + "  leftsubnet="@ + join(views(c.local_subnets@), ","@) + "\n"@
}

/// The authentication lines of a tunnel.
pub open spec fn tunnel_auth_text(c: IpsecTunnelConfig) -> Seq<char> {
    match c.auth_method {
        IpsecAuthMethod::Psk => "  leftauth=psk\n"@ + "  rightauth=psk\n"@,
        IpsecAuthMethod::PubKey => "  leftauth=pubkey\n"@ + "  rightauth=pubkey\n"@ + match c.local_cert {
            Some(cert) => "  leftcert="@ + cert@ + "\n"@,
            None => Seq::empty(),
        },
        _ => "  leftauth="@ + c.auth_method.name_spec() + "\n"@,
    }
}

/// The remote side of a tunnel.
pub open spec fn tunnel_remote_text(c: IpsecTunnelConfig) -> Seq<char> {
    "  right="@ + c.remote_address@ + "\n"@ + (match c.remote_id {
        Some(r) => "  rightid="@ + r@ + "\n"@,
        None => Seq::empty(),
    }) + "  rightsubnet="@ + join(views(c.remote_subnets@), ","@) + "\n"@
}

/// The proposals, lifetimes and dead peer detection of a tunnel.
pub open spec fn tunnel_tail_text(c: IpsecTunnelConfig) -> Seq<char> {
    "  ike="@ + join(ike_proposal_list(c.ike_cipher@, c.ike_integrity@, c.ike_dh_group@), ","@) + "\n"@
        + "  ikelifetime="@ + decimal(c.ike_lifetime as nat) + "s\n"@ + "  esp="@ + join(
        esp_proposal_list(c.esp_cipher@, c.esp_integrity@, c.esp_dh_group@),
        ","@,
    ) + "\n"@ + "  lifetime="@ + decimal(c.esp_lifetime as nat) + "s\n"@ + "  dpdaction="@ + c.dpdaction@ + "\n"@
        + "  dpddelay="@ + decimal(c.dpddelay as nat) + "s\n"@ + "  closeaction="@ + c.close_action@ + "\n"@ + "\n"@
}

/// The connection of a tunnel in `ipsec.conf`.
pub open spec fn tunnel_config_text(c: IpsecTunnelConfig) -> Seq<char> {
    tunnel_head_text(c) + tunnel_auth_text(c) + tunnel_remote_text(c) + tunnel_tail_text(c)
}

/// The connection for road-warrior clients in `ipsec.conf`.
pub open spec fn mobile_config_text(c: IpsecMobileClientConfig) -> Seq<char> {
    "conn "@ + c.name@ + "\n"@ + "  keyexchange=ikev2\n"@ + "  auto=add\n"@ + "  left=%any\n"@ + "  leftcert="@
        + c.server_cert@ + "\n"@ + "  leftid=%any\n"@ + "  leftsubnet=0.0.0.0/0\n"@ + "  right=%any\n"@
        + "  rightauth=eap-mschapv2\n"@ + "  rightsourceip=%dhcp\n"@ + "  rightsourceip="@ + c.pool_name@ + "\n"@ + (
    if c.dns_servers@.len() > 0 {
        "  rightdns="@ + join(c.dns_servers@.map_values(|ip: IpAddress| ip_text(ip)), ","@) + "\n"@
    } else {
        Seq::empty()
    }) + "  ike="@ + join(ike_proposal_list(c.ike_cipher@, c.ike_integrity@, c.ike_dh_group@), ","@) + "\n"@
        + "  esp="@ + join(esp_proposal_list(c.esp_cipher@, c.esp_integrity@, Seq::empty()), ","@) + "\n"@
        + "  dpdaction=clear\n"@ + "  rekey=no\n"@ + "\n"@
}

fn push_joined(out: &mut String, v: &Vec<String>, sep: &str)
    ensures
        final(out)@ == old(out)@ + join(views(v@), sep@),
{
    let j = join_strings(v, sep);
    out.append(j.as_str());
}

fn push_tunnel_head(out: &mut String, c: &IpsecTunnelConfig)
    ensures
        final(out)@ == old(out)@ + tunnel_head_text(*c),
{
    let ghost base = out@;
    out.append("conn ");
    out.append(c.name.as_str());
    out.append("\n");
    if c.ikev2 {
        out.append("  keyexchange=ikev2\n");
    } else {
        out.append("  keyexchange=ikev1\n");
    }
    let ghost p1 = out@;
    if c.auto_start {
        out.append("  auto=start\n");
    } else {
        out.append("  auto=add\n");
    }
    let ghost p2 = out@;
    match &c.local_id {
        Some(l) => {
            out.append("  leftid=");
            out.append(l.as_str());
            out.append("\n");
        },
        None => {},
    }
    let ghost p3 = out@;
    out.append("  leftsubnet=");
    push_joined(out, &c.local_subnets, ",");
    out.append("\n");
    proof {
        assert(out@ =~= base + tunnel_head_text(*c));
    }
}

fn push_tunnel_auth(out: &mut String, c: &IpsecTunnelConfig)
    ensures
        final(out)@ == old(out)@ + tunnel_auth_text(*c),
{
    let ghost base = out@;
    match c.auth_method {
        IpsecAuthMethod::Psk => {
            out.append("  leftauth=psk\n");
            out.append("  rightauth=psk\n");
        },
        IpsecAuthMethod::PubKey => {
            out.append("  leftauth=pubkey\n");
            out.append("  rightauth=pubkey\n");
            match &c.local_cert {
                Some(cert) => {
                    out.append("  leftcert=");
                    out.append(cert.as_str());
                    out.append("\n");
                },
                None => {},
            }
        },
        _ => {
            out.append("  leftauth=");
            out.append(c.auth_method.name());
            out.append("\n");
        },
    }
    proof {
        assert(out@ =~= base + tunnel_auth_text(*c));
    }
}

fn push_tunnel_remote(out: &mut String, c: &IpsecTunnelConfig)
    ensures
        final(out)@ == old(out)@ + tunnel_remote_text(*c),
{
    let ghost base = out@;
    out.append("  right=");
    out.append(c.remote_address.as_str());
    out.append("\n");
    match &c.remote_id {
        Some(r) => {
            out.append("  rightid=");
            out.append(r.as_str());
            out.append("\n");
        },
        None => {},
    }
    let ghost mid = out@;
    out.append("  rightsubnet=");
    push_joined(out, &c.remote_subnets, ",");
    out.append("\n");
    proof {
        assert(out@ =~= base + tunnel_remote_text(*c));
    }
}

/// The strongSwan configuration: connection files and the secrets file.
pub struct IpsecManager {
    config_dir: String,
    secrets_file: String,
}

impl IpsecManager {
    pub closed spec fn config_dir_view(&self) -> Seq<char> {
        self.config_dir@
    }

    pub closed spec fn secrets_file_view(&self) -> Seq<char> {
        self.secrets_file@
    }

    /// Configuration under `/etc/patronus/ipsec`.
    pub fn new() -> (m: IpsecManager)
        ensures
            m.config_dir_view() == "/etc/patronus/ipsec"@,
            m.secrets_file_view() == "/etc/patronus/ipsec/ipsec.secrets"@,
    {
        IpsecManager {
            config_dir: owned("/etc/patronus/ipsec"),
            secrets_file: owned("/etc/patronus/ipsec/ipsec.secrets"),
        }
    }

    /// The directory of the connection files.
    pub fn config_dir(&self) -> (d: String)
        ensures
            d@ == self.config_dir_view(),
    {
        self.config_dir.clone()
    }

    /// The path of the secrets file.
    pub fn secrets_file(&self) -> (d: String)
        ensures
            d@ == self.secrets_file_view(),
    {
        self.secrets_file.clone()
    }

    /// The IKE proposals, joined with commas: every cipher with every
    /// integrity algorithm and every group.
    pub fn format_ike_proposals(
        &self,
        ciphers: &[IpsecCipher],
        integrities: &[IpsecIntegrity],
        dh_groups: &[DhGroup],
    ) -> (s: String)
        ensures
            s@ == join(ike_proposal_list(ciphers@, integrities@, dh_groups@), ","@),
    {
        let mut proposals: Vec<String> = Vec::new();
        let ghost f = |c: IpsecCipher| ike_for_cipher(c, integrities@, dh_groups@);
        let mut i: usize = 0;
        while i < ciphers.len()
            invariant
                0 <= i <= ciphers@.len(),
                f == (|c: IpsecCipher| ike_for_cipher(c, integrities@, dh_groups@)),
                views(proposals@) == flat_map(ciphers@.subrange(0, i as int), f),
            decreases ciphers.len() - i,
        {
            push_ike_for_cipher(&mut proposals, ciphers[i], integrities, dh_groups);
            proof {
                lemma_flat_map_step(ciphers@, f, i as int);
            }
            i = i + 1;
        }
        proof {
            lemma_flat_map_full(ciphers@, f);
        }
        join_strings(&proposals, ",")
    }

    /// The ESP proposals, joined with commas: a GCM cipher with every group
    /// (or alone), another with every integrity algorithm and every group
    /// (or with each integrity algorithm alone).
    pub fn format_esp_proposals(
        &self,
        ciphers: &[IpsecCipher],
        integrities: &[IpsecIntegrity],
        dh_groups: &[DhGroup],
    ) -> (s: String)
        ensures
            s@ == join(esp_proposal_list(ciphers@, integrities@, dh_groups@), ","@),
    {
        let mut proposals: Vec<String> = Vec::new();
        let ghost f = |c: IpsecCipher| esp_for_cipher(c, integrities@, dh_groups@);
        let mut i: usize = 0;
        while i < ciphers.len()
            invariant
                0 <= i <= ciphers@.len(),
                f == (|c: IpsecCipher| esp_for_cipher(c, integrities@, dh_groups@)),
                views(proposals@) == flat_map(ciphers@.subrange(0, i as int), f),
            decreases ciphers.len() - i,
        {
            push_esp_for_cipher(&mut proposals, ciphers[i], integrities, dh_groups);
            proof {
                lemma_flat_map_step(ciphers@, f, i as int);
            }
            i = i + 1;
        }
        proof {
            lemma_flat_map_full(ciphers@, f);
        }
        join_strings(&proposals, ",")
    }

    /// The connection of a tunnel; it never fails.
    pub fn generate_tunnel_config(&self, config: &IpsecTunnelConfig) -> (r: Result<String, IpsecError>)
        ensures
            r matches Ok(text) && text@ == tunnel_config_text(*config),
    {
        let mut conf = String::new();
        push_tunnel_head(&mut conf, config);
        push_tunnel_auth(&mut conf, config);
        push_tunnel_remote(&mut conf, config);
        let ghost mid = conf@;
        conf.append("  ike=");
        let ike = self.format_ike_proposals(
            config.ike_cipher.as_slice(),
            config.ike_integrity.as_slice(),
            config.ike_dh_group.as_slice(),
        );
        conf.append(ike.as_str());
        conf.append("\n");
        conf.append("  ikelifetime=");
        push_decimal(&mut conf, config.ike_lifetime as u64);
        conf.append("s\n");
        conf.append("  esp=");
        let esp = self.format_esp_proposals(
            config.esp_cipher.as_slice(),
            config.esp_integrity.as_slice(),
            config.esp_dh_group.as_slice(),
        );
        conf.append(esp.as_str());
        conf.append("\n");
        conf.append("  lifetime=");
        push_decimal(&mut conf, config.esp_lifetime as u64);
        conf.append("s\n");
        conf.append("  dpdaction=");
        conf.append(config.dpdaction.as_str());
        conf.append("\n");
        conf.append("  dpddelay=");
        push_decimal(&mut conf, config.dpddelay as u64);
        conf.append("s\n");
        conf.append("  closeaction=");
        conf.append(config.close_action.as_str());
        conf.append("\n");
        conf.append("\n");
        proof {
            assert(conf@ =~= mid + tunnel_tail_text(*config));
            assert(conf@ =~= tunnel_config_text(*config));
        }
        Ok(conf)
    }

    /// The connection for road-warrior clients; it never fails.  ESP for
    /// clients uses no group (no perfect forward secrecy).
    pub fn generate_mobile_client_config(&self, config: &IpsecMobileClientConfig) -> (r: Result<String, IpsecError>)
        ensures
            r matches Ok(text) && text@ == mobile_config_text(*config),
    {
        let mut conf = String::new();
        conf.append("conn ");
        conf.append(config.name.as_str());
        conf.append("\n");
        conf.append("  keyexchange=ikev2\n");
        conf.append("  auto=add\n");
        conf.append("  left=%any\n");
        conf.append("  leftcert=");
        conf.append(config.server_cert.as_str());
        conf.append("\n");
        conf.append("  leftid=%any\n");
        conf.append("  leftsubnet=0.0.0.0/0\n");
        conf.append("  right=%any\n");
        conf.append("  rightauth=eap-mschapv2\n");
        conf.append("  rightsourceip=%dhcp\n");
        conf.append("  rightsourceip=");
        conf.append(config.pool_name.as_str());
        conf.append("\n");
        let ghost p1 = conf@;
        if config.dns_servers.len() > 0 {
            let mut dns: Vec<String> = Vec::new();
            let ghost f = |ip: IpAddress| ip_text(ip);
            let mut i: usize = 0;
            while i < config.dns_servers.len()
                invariant
                    0 <= i <= config.dns_servers@.len(),
                    f == (|ip: IpAddress| ip_text(ip)),
                    views(dns@) == config.dns_servers@.subrange(0, i as int).map_values(f),
                decreases config.dns_servers.len() - i,
            {
                let mut s = String::new();
                push_ip(&mut s, config.dns_servers[i]);
                proof {
                    assert(s@ =~= ip_text(config.dns_servers@[i as int]));
                }
                push_views(&mut dns, s);
                proof {
                    assert(config.dns_servers@.subrange(0, i + 1).map_values(f) =~= config.dns_servers@.subrange(
                        0,
                        i as int,
                    ).map_values(f).push(f(config.dns_servers@[i as int])));
                }
                i = i + 1;
            }
            proof {
                assert(config.dns_servers@.subrange(0, config.dns_servers@.len() as int) =~= config.dns_servers@);
            }
            conf.append("  rightdns=");
            push_joined(&mut conf, &dns, ",");
            conf.append("\n");
        }
        let ghost p2 = conf@;
        conf.append("  ike=");
        let ike = self.format_ike_proposals(
            config.ike_cipher.as_slice(),
            config.ike_integrity.as_slice(),
            config.ike_dh_group.as_slice(),
        );
        conf.append(ike.as_str());
        conf.append("\n");
        let no_groups: Vec<DhGroup> = Vec::new();
        let esp = self.format_esp_proposals(
            config.esp_cipher.as_slice(),
            config.esp_integrity.as_slice(),
            no_groups.as_slice(),
        );
        conf.append("  esp=");
        conf.append(esp.as_str());
        conf.append("\n");
        conf.append("  dpdaction=clear\n");
        conf.append("  rekey=no\n");
        conf.append("\n");
        proof {
            assert(no_groups@ =~= Seq::<DhGroup>::empty());
            assert(conf@ =~= mobile_config_text(*config));
        }
        Ok(conf)
    }

    /// The secrets line of a tunnel's pre-shared key.
    pub fn psk_secret_line(&self, local_id: Option<&str>, remote_id: Option<&str>, psk: &str) -> (s: String)
        ensures
            s@ == psk_secret_text(
                match local_id {
                    Some(l) => Some(l@),
                    None => None,
                },
                match remote_id {
                    Some(r) => Some(r@),
                    None => None,
                },
                psk@,
            ),
    {
        let mut s = String::new();
        match local_id {
            Some(l) => s.append(l),
            None => s.append("%any"),
        }
        s.append(" ");
        match remote_id {
            Some(r) => s.append(r),
            None => s.append("%any"),
        }
        s.append(" : PSK \"");
        s.append(psk);
        s.append("\"\n");
        proof {
            assert(s@ =~= psk_secret_text(
                match local_id {
                    Some(l) => Some(l@),
                    None => None,
                },
                match remote_id {
                    Some(r) => Some(r@),
                    None => None,
                },
                psk@,
            ));
        }
        s
    }

    /// The path of a tunnel's connection file: `<dir>/<name>.conf`.
    pub fn tunnel_config_path(&self, config: &IpsecTunnelConfig) -> (p: String)
        ensures
            p@ == self.config_dir_view() + "/"@ + config.name@ + ".conf"@,
    {
        let mut p = self.config_dir.clone();
        p.append("/");
        p.append(config.name.as_str());
        p.append(".conf");
        p
    }
}

impl Default for IpsecManager {
    fn default() -> (m: IpsecManager)
        ensures
            m.config_dir_view() == "/etc/patronus/ipsec"@,
            m.secrets_file_view() == "/etc/patronus/ipsec/ipsec.secrets"@,
    {
        IpsecManager::new()
    }
}

/// Why an IPsec operation failed.
#[derive(Clone, Debug)]
pub enum IpsecError {
    Network(String),
}

fn one_string(s: &str) -> (v: Vec<String>)
    ensures
        views(v@) == seq![s@],
{
    let mut v: Vec<String> = Vec::new();
    v.push(owned(s));
    proof {
        assert(views(v@) =~= seq![s@]);
    }
    v
}

impl Default for IpsecTunnelConfig {
    /// `tunnel1`: IKEv2 to 203.0.113.1 with a pre-shared key, between
    /// 10.0.1.0/24 and 10.0.2.0/24, AES and SHA-2 proposals, started at
    /// boot and restarted on dead peers and on close.
    fn default() -> (c: IpsecTunnelConfig)
        ensures
            c.name@ == "tunnel1"@,
            c.enabled && c.ikev2,
            c.local_id is None && c.local_cert is None && c.local_key is None,
            views(c.local_subnets@) == seq!["10.0.1.0/24"@],
            c.remote_id is None && c.remote_cert is None,
            c.remote_address@ == "203.0.113.1"@,
            views(c.remote_subnets@) == seq!["10.0.2.0/24"@],
            c.auth_method == IpsecAuthMethod::Psk,
            c.psk matches Some(k) && k@ == "changeme"@,
            c.ike_cipher@ == seq![IpsecCipher::Aes256, IpsecCipher::Aes128],
            c.ike_integrity@ == seq![IpsecIntegrity::Sha256, IpsecIntegrity::Sha512],
            c.ike_dh_group@ == seq![DhGroup::Modp2048, DhGroup::Ecp256],
            c.ike_lifetime == 28800,
            c.esp_cipher@ == seq![IpsecCipher::Aes256Gcm128, IpsecCipher::Aes256],
            c.esp_integrity@ == seq![IpsecIntegrity::Sha256],
            c.esp_dh_group@ == seq![DhGroup::Modp2048, DhGroup::Ecp256],
            c.esp_lifetime == 3600,
            c.auto_start,
            c.dpdaction@ == "restart"@,
            c.dpddelay == 30,
            c.close_action@ == "restart"@,
    {
        let mut ike_cipher: Vec<IpsecCipher> = Vec::new();
        ike_cipher.push(IpsecCipher::Aes256);
        ike_cipher.push(IpsecCipher::Aes128);
        let mut ike_integrity: Vec<IpsecIntegrity> = Vec::new();
        ike_integrity.push(IpsecIntegrity::Sha256);
        ike_integrity.push(IpsecIntegrity::Sha512);
        let mut ike_dh_group: Vec<DhGroup> = Vec::new();
        ike_dh_group.push(DhGroup::Modp2048);
        ike_dh_group.push(DhGroup::Ecp256);
        let mut esp_cipher: Vec<IpsecCipher> = Vec::new();
        esp_cipher.push(IpsecCipher::Aes256Gcm128);
        esp_cipher.push(IpsecCipher::Aes256);
        let mut esp_integrity: Vec<IpsecIntegrity> = Vec::new();
        esp_integrity.push(IpsecIntegrity::Sha256);
        let mut esp_dh_group: Vec<DhGroup> = Vec::new();
        esp_dh_group.push(DhGroup::Modp2048);
        esp_dh_group.push(DhGroup::Ecp256);
        proof {
            assert(ike_cipher@ =~= seq![IpsecCipher::Aes256, IpsecCipher::Aes128]);
            assert(ike_integrity@ =~= seq![IpsecIntegrity::Sha256, IpsecIntegrity::Sha512]);
            assert(ike_dh_group@ =~= seq![DhGroup::Modp2048, DhGroup::Ecp256]);
            assert(esp_cipher@ =~= seq![IpsecCipher::Aes256Gcm128, IpsecCipher::Aes256]);
            assert(esp_integrity@ =~= seq![IpsecIntegrity::Sha256]);
            assert(esp_dh_group@ =~= seq![DhGroup::Modp2048, DhGroup::Ecp256]);
        }
        IpsecTunnelConfig {
            name: owned("tunnel1"),
            enabled: true,
            ikev2: true,
            local_id: None,
            local_subnets: one_string("10.0.1.0/24"),
            local_cert: None,
            local_key: None,
            remote_id: None,
            remote_address: owned("203.0.113.1"),
            remote_subnets: one_string("10.0.2.0/24"),
            remote_cert: None,
            auth_method: IpsecAuthMethod::Psk,
            psk: Some(owned("changeme")),
            ike_cipher,
            ike_integrity,
            ike_dh_group,
            ike_lifetime: 28800,
            esp_cipher,
            esp_integrity,
            esp_dh_group,
            esp_lifetime: 3600,
            auto_start: true,
            dpdaction: owned("restart"),
            dpddelay: 30,
            close_action: owned("restart"),
        }
    }
}

/// There is one IKE proposal for each combination of cipher, integrity
/// algorithm and group.
pub proof fn lemma_ike_proposal_count(cs: Seq<IpsecCipher>, is: Seq<IpsecIntegrity>, ds: Seq<DhGroup>)
    ensures
        ike_proposal_list(cs, is, ds).len() == cs.len() * (is.len() * ds.len()),
    decreases cs.len(),
{
    let f = |c: IpsecCipher| ike_for_cipher(c, is, ds);
    if cs.len() > 0 {
        lemma_ike_proposal_count(cs.drop_last(), is, ds);
        lemma_ike_cipher_count(cs.last(), is, ds);
        assert(ike_proposal_list(cs, is, ds) == ike_proposal_list(cs.drop_last(), is, ds) + f(cs.last()));
        assert(cs.len() * (is.len() * ds.len()) == (cs.len() - 1) * (is.len() * ds.len()) + is.len() * ds.len())
            by (nonlinear_arith);
    }
}

proof fn lemma_ike_cipher_count(c: IpsecCipher, is: Seq<IpsecIntegrity>, ds: Seq<DhGroup>)
    ensures
        ike_for_cipher(c, is, ds).len() == is.len() * ds.len(),
    decreases is.len(),
{
    let f = |i: IpsecIntegrity| dh_variants(c.name_spec() + "-"@ + i.name_spec(), ds);
    if is.len() > 0 {
        lemma_ike_cipher_count(c, is.drop_last(), ds);
        assert(ike_for_cipher(c, is, ds) == ike_for_cipher(c, is.drop_last(), ds) + f(is.last()));
        assert(is.len() * ds.len() == (is.len() - 1) * ds.len() + ds.len()) by (nonlinear_arith);
    }
}

} // verus!
