//! High availability: virtual addresses shared by a cluster of two nodes,
//! with CARP (ucarp) or VRRP (keepalived, vrrpd), and the files and
//! commands that set them up.
use vstd::prelude::*;
use crate::net::{IpAddress, ip_text, push_ip};
use crate::text::{decimal, join, join_strings, owned, push_decimal, views};

verus! {

/// The program that implements the shared addresses.
#[derive(PartialEq, Eq, Structural, Clone, Copy, Debug)]
pub enum HaBackend {
    /// CARP, compatible with the BSDs.
    Ucarp,
    /// VRRP with keepalived.
    Keepalived,
    /// VRRP with vrrpd.
    Vrrpd,
}

impl HaBackend {
    pub open spec fn name_spec(self) -> Seq<char> {
        match self {
            HaBackend::Ucarp => "ucarp"@,
            HaBackend::Keepalived => "keepalived"@,
            HaBackend::Vrrpd => "vrrpd"@,
        }
    }

    /// The backend's program name.
    pub fn to_string(&self) -> (s: String)
        ensures
            s@ == self.name_spec(),
    {
        match self {
            HaBackend::Ucarp => owned("ucarp"),
            HaBackend::Keepalived => owned("keepalived"),
            HaBackend::Vrrpd => owned("vrrpd"),
        }
    }
}

/// The role a node is configured for.
#[derive(PartialEq, Eq, Structural, Clone, Copy, Debug)]
pub enum HaRole {
    Master,
    Backup,
}

/// The state a node is in.
#[derive(PartialEq, Eq, Structural, Clone, Copy, Debug)]
pub enum HaState {
    Master,
    Backup,
    Fault,
    Unknown,
}

/// A virtual address shared by the cluster.
#[derive(Clone, Debug)]
pub struct VirtualIp {
    pub name: String,
    pub enabled: bool,
    pub vip: IpAddress,
    pub interface: String,
    /// Virtual host id, from 1 to 255.
    pub vhid: u8,
    /// Higher is preferred as master.
    pub priority: u8,
    pub password: Option<String>,
    /// Whether a node of higher priority takes over.
    pub preempt: bool,
    /// Advertisement skew.
    pub advskew: u8,
}

/// The cluster: its backend, this node's role, the peer, the virtual
/// addresses and the synchronisation of configuration.
#[derive(Clone, Debug)]
pub struct HaCluster {
    pub name: String,
    pub enabled: bool,
    pub backend: HaBackend,
    pub role: HaRole,
    pub peer_ip: IpAddress,
    pub sync_interface: String,
    pub sync_enabled: bool,
    pub virtual_ips: Vec<VirtualIp>,
    pub config_sync_enabled: bool,
    pub config_sync_user: String,
    pub config_sync_path: String,
}

/// Settings of keepalived.
#[derive(Clone, Debug)]
pub struct KeepalivedConfig {
    pub router_id: String,
    pub notification_email: Option<String>,
    pub vrrp_instances: Vec<VrrpInstance>,
}

/// A VRRP instance of keepalived.
#[derive(Clone, Debug)]
pub struct VrrpInstance {
    pub name: String,
    pub state: HaRole,
    pub interface: String,
    pub virtual_router_id: u8,
    pub priority: u8,
    /// Advertisement interval, in seconds.
    pub advert_int: u8,
    pub virtual_ips: Vec<IpAddress>,
    pub track_interfaces: Vec<String>,
    pub track_scripts: Vec<String>,
}

/// Which backends' programs the system has.
#[derive(PartialEq, Eq, Structural, Clone, Copy, Debug)]
pub struct HaProbe {
    pub keepalived: bool,
    pub ucarp: bool,
    pub vrrpd: bool,
}

/// A file to write: its path and its text.
#[derive(Clone, Debug)]
pub struct HaFile {
    pub path: String,
    pub contents: String,
}

impl View for HaFile {
    type V = (Seq<char>, Seq<char>);

    open spec fn view(&self) -> (Seq<char>, Seq<char>) {
        (self.path@, self.contents@)
    }
}

/// The views of some files.
pub open spec fn file_views(v: Seq<HaFile>) -> Seq<(Seq<char>, Seq<char>)> {
    v.map_values(|f: HaFile| f@)
}

/// The preferred backend: keepalived, then ucarp, then vrrpd; ucarp when
/// none is installed.
pub open spec fn preferred_backend(p: HaProbe) -> HaBackend {
    if p.keepalived {
        HaBackend::Keepalived
    } else if p.ucarp {
        HaBackend::Ucarp
    } else if p.vrrpd {
        HaBackend::Vrrpd
    } else {
        HaBackend::Ucarp
    }
}

/// The installed backends, keepalived first, then ucarp, then vrrpd.
pub open spec fn installed_backends(p: HaProbe) -> Seq<HaBackend> {
    (if p.keepalived {
        seq![HaBackend::Keepalived]
    } else {
        Seq::empty()
    }) + (if p.ucarp {
        seq![HaBackend::Ucarp]
    } else {
        Seq::empty()
    }) + (if p.vrrpd {
        seq![HaBackend::Vrrpd]
    } else {
        Seq::empty()
    })
}

/// The path of a virtual address's script: `/etc/patronus/ha/vip-<name>-<kind>.sh`.
pub open spec fn script_path(name: Seq<char>, kind: Seq<char>) -> Seq<char> {
    "/etc/patronus/ha/vip-"@ + name + "-"@ + kind + ".sh"@
}

/// The arguments of ucarp for a virtual address.
pub open spec fn ucarp_args(v: VirtualIp) -> Seq<Seq<char>> {
    seq![
        "--interface"@,
        v.interface@,
        "--srcip"@,
        ip_text(v.vip),
        "--vhid"@,
        decimal(v.vhid as nat),
        "--advskew"@,
        decimal(v.advskew as nat),
        "--advbase"@,
        "1"@,
    ] + match v.password {
        Some(p) => seq!["--pass"@, p@],
        None => Seq::empty(),
    } + (if v.preempt {
        seq!["--preempt"@]
    } else {
        Seq::empty()
    }) + seq!["--upscript"@, script_path(v.name@, "up"@), "--downscript"@, script_path(v.name@, "down"@)]
}

/// The `vrrp_instance` block of a virtual address.
pub open spec fn vrrp_block(role: HaRole, v: VirtualIp) -> Seq<char> {
    "vrrp_instance "@ + v.name@ + " {\n"@ + "  state "@ + (match role {
        HaRole::Master => "MASTER"@,
        HaRole::Backup => "BACKUP"@,
    }) + "\n"@ + "  interface "@ + v.interface@ + "\n"@ + "  virtual_router_id "@ + decimal(v.vhid as nat) + "\n"@
        + "  priority "@ + decimal(v.priority as nat) + "\n"@ + "  advert_int 1\n"@ + vrrp_tail(v)
}

/// Authentication and preemption of a block.
pub open spec fn vrrp_auth(v: VirtualIp) -> Seq<char> {
    (match v.password {
        Some(p) => "  authentication {\n"@ + "    auth_type PASS\n"@ + "    auth_pass "@ + p@ + "\n"@ + "  }\n"@,
        None => Seq::empty(),
    }) + (if v.preempt {
        "  preempt_delay 300\n"@
    } else {
        "  nopreempt\n"@
    })
}

/// The address and the notification scripts of a block, and its end.
pub open spec fn vrrp_notify(v: VirtualIp) -> Seq<char> {
    "  virtual_ipaddress {\n"@ + "    "@ + ip_text(v.vip) + "\n"@ + "  }\n"@ + "  notify_master \""@ + script_path(
        v.name@,
        "up"@,
    ) + "\"\n"@ + "  notify_backup \""@ + script_path(v.name@, "down"@) + "\"\n"@ + "  notify_fault \""@
        + script_path(v.name@, "down"@) + "\"\n"@ + "}\n\n"@
}

/// Authentication, preemption, address and notification of a block.
pub open spec fn vrrp_tail(v: VirtualIp) -> Seq<char> {
    vrrp_auth(v) + vrrp_notify(v)
}

/// The blocks of the enabled virtual addresses, in order.
pub open spec fn vrrp_blocks(role: HaRole, vips: Seq<VirtualIp>) -> Seq<char>
    decreases vips.len(),
{
    if vips.len() == 0 {
        Seq::empty()
    } else {
        vrrp_blocks(role, vips.drop_last()) + if vips.last().enabled {
            vrrp_block(role, vips.last())
        } else {
            Seq::empty()
        }
    }
}

/// The text of `keepalived.conf` for a cluster.
pub open spec fn keepalived_text(c: HaCluster) -> Seq<char> {
    "# Patronus Keepalived Configuration\n\n"@ + "global_defs {\n"@ + "  router_id "@ + c.name@ + "\n"@
        + "  enable_script_security\n"@ + "}\n\n"@ + vrrp_blocks(c.role, c.virtual_ips@)
}

/// The script run when this node takes a virtual address.
pub open spec fn up_script_text(v: VirtualIp) -> Seq<char> {
    "#!/bin/bash\n"@ + "# Patronus HA - VIP UP script\n\n"@ + "# VIP "@ + v.name@ + " is now MASTER\n"@
        + "ip addr add "@ + ip_text(v.vip) + "/32 dev "@ + v.interface@ + " 2>/dev/null || true\n"@
        + "# Send gratuitous ARP\n"@ + "arping -c 3 -A -I "@ + v.interface@ + " "@ + ip_text(v.vip)
        + " 2>/dev/null || true\n"@ + "# Trigger firewall reload\n"@
        + "/usr/bin/patronus firewall apply 2>/dev/null || true\n"@ + "# Log event\n"@ + "logger \"Patronus HA: VIP "@
        + v.name@ + " became MASTER\"\n"@
}

/// The script run when this node gives up a virtual address.
pub open spec fn down_script_text(v: VirtualIp) -> Seq<char> {
    "#!/bin/bash\n"@ + "# Patronus HA - VIP DOWN script\n\n"@ + "# VIP "@ + v.name@ + " is now BACKUP\n"@
        + "ip addr del "@ + ip_text(v.vip) + "/32 dev "@ + v.interface@ + " 2>/dev/null || true\n"@ + "# Log event\n"@
        + "logger \"Patronus HA: VIP "@ + v.name@ + " became BACKUP\"\n"@
}

/// The systemd unit that runs ucarp for a virtual address.
pub open spec fn ucarp_service_text(v: VirtualIp) -> Seq<char> {
    "[Unit]\nDescription=CARP Virtual IP "@ + v.name@ + "\nAfter=network.target\n\n[Service]\nType=simple\nExecStart=/usr/sbin/ucarp "@
        + join(ucarp_args(v), " "@) + "\nRestart=always\n\n[Install]\nWantedBy=multi-user.target\n"@
}

/// The command line of vrrpd for a virtual address.
pub open spec fn vrrpd_command_text(v: VirtualIp) -> Seq<char> {
    "-i "@ + v.interface@ + " -v "@ + decimal(v.vhid as nat) + " -p "@ + decimal(v.priority as nat) + " "@ + ip_text(
        v.vip,
    )
}

/// The files of one enabled virtual address: the backend's file where it
/// has one per address, then the up and down scripts.
pub open spec fn vip_files(b: HaBackend, dir: Seq<char>, v: VirtualIp) -> Seq<(Seq<char>, Seq<char>)> {
    (match b {
        HaBackend::Keepalived => Seq::empty(),
        HaBackend::Ucarp => seq![(dir + "/ucarp-"@ + v.name@ + ".service"@, ucarp_service_text(v))],
        HaBackend::Vrrpd => seq![(dir + "/vrrpd-"@ + v.name@ + ".cmd"@, vrrpd_command_text(v))],
    }) + seq![
        (dir + "/vip-"@ + v.name@ + "-up.sh"@, up_script_text(v)),
        (dir + "/vip-"@ + v.name@ + "-down.sh"@, down_script_text(v)),
    ]
}

/// The files of the enabled virtual addresses, in order.
pub open spec fn vips_files(b: HaBackend, dir: Seq<char>, vips: Seq<VirtualIp>) -> Seq<(Seq<char>, Seq<char>)>
    decreases vips.len(),
{
    if vips.len() == 0 {
        Seq::empty()
    } else {
        vips_files(b, dir, vips.drop_last()) + if vips.last().enabled {
            vip_files(b, dir, vips.last())
        } else {
            Seq::empty()
        }
    }
}

/// What configuring a cluster writes: nothing when it is disabled; else
/// keepalived's configuration for that backend, then the files of each
/// enabled virtual address.
pub open spec fn cluster_files(b: HaBackend, dir: Seq<char>, c: HaCluster) -> Seq<(Seq<char>, Seq<char>)> {
    if !c.enabled {
        Seq::empty()
    } else {
        (if b == HaBackend::Keepalived {
            seq![("/etc/keepalived/keepalived.conf"@, keepalived_text(c))]
        } else {
            Seq::empty()
        }) + vips_files(b, dir, c.virtual_ips@)
    }
}

/// The status the backend reports: keepalived is master when `systemctl
/// status` succeeded and in fault when it failed; nothing is known when the
/// command could not run, or for the other backends.
pub open spec fn status_entries(b: HaBackend, systemctl_ok: Option<bool>) -> Seq<(Seq<char>, HaState)> {
    if b == HaBackend::Keepalived {
        match systemctl_ok {
            Some(true) => seq![("keepalived"@, HaState::Master)],
            Some(false) => seq![("keepalived"@, HaState::Fault)],
            None => Seq::empty(),
        }
    } else {
        Seq::empty()
    }
}

fn push_script_path(out: &mut String, name: &String, kind: &str)
    ensures
        final(out)@ == old(out)@ + script_path(name@, kind@),
{
    let ghost base = out@;
    out.append("/etc/patronus/ha/vip-");
    out.append(name.as_str());
    out.append("-");
    out.append(kind);
    out.append(".sh");
    proof {
        assert(out@ =~= base + script_path(name@, kind@));
    }
}

fn script_path_string(name: &String, kind: &str) -> (s: String)
    ensures
        s@ == script_path(name@, kind@),
{
    let mut s = String::new();
    push_script_path(&mut s, name, kind);
    proof {
        assert(s@ =~= script_path(name@, kind@));
    }
    s
}

fn ip_string(ip: IpAddress) -> (s: String)
    ensures
        s@ == ip_text(ip),
{
    let mut s = String::new();
    push_ip(&mut s, ip);
    proof {
        assert(s@ =~= ip_text(ip));
    }
    s
}

fn decimal_of(n: u8) -> (s: String)
    ensures
        s@ == decimal(n as nat),
{
    let mut s = String::new();
    push_decimal(&mut s, n as u64);
    proof {
        assert(s@ =~= decimal(n as nat));
    }
    s
}

fn push_vrrp_auth(out: &mut String, v: &VirtualIp)
    ensures
        final(out)@ == old(out)@ + vrrp_auth(*v),
{
    let ghost base = out@;
    match &v.password {
        Some(p) => {
            out.append("  authentication {\n");
            out.append("    auth_type PASS\n");
            out.append("    auth_pass ");
            out.append(p.as_str());
            out.append("\n");
            out.append("  }\n");
        },
        None => {},
    }
    let ghost mid = out@;
    if v.preempt {
        out.append("  preempt_delay 300\n");
    } else {
        out.append("  nopreempt\n");
    }
    proof {
        assert(out@ =~= base + vrrp_auth(*v));
    }
}

fn push_vrrp_notify(out: &mut String, v: &VirtualIp)
    ensures
        final(out)@ == old(out)@ + vrrp_notify(*v),
{
    let ghost base = out@;
    out.append("  virtual_ipaddress {\n");
    out.append("    ");
    push_ip(out, v.vip);
    out.append("\n");
    out.append("  }\n");
    out.append("  notify_master \"");
    push_script_path(out, &v.name, "up");
    out.append("\"\n");
    out.append("  notify_backup \"");
    push_script_path(out, &v.name, "down");
    out.append("\"\n");
    out.append("  notify_fault \"");
    push_script_path(out, &v.name, "down");
    out.append("\"\n");
    out.append("}\n\n");
    proof {
        assert(out@ =~= base + vrrp_notify(*v));
    }
}

fn push_vrrp_tail(out: &mut String, v: &VirtualIp)
    ensures
        final(out)@ == old(out)@ + vrrp_tail(*v),
{
    let ghost base = out@;
    push_vrrp_auth(out, v);
    push_vrrp_notify(out, v);
    proof {
        assert(out@ =~= base + vrrp_tail(*v));
    }
}

fn push_vrrp_block(out: &mut String, role: HaRole, v: &VirtualIp)
    ensures
        final(out)@ == old(out)@ + vrrp_block(role, *v),
{
    let ghost base = out@;
    out.append("vrrp_instance ");
    out.append(v.name.as_str());
    out.append(" {\n");
    out.append("  state ");
    match role {
        HaRole::Master => out.append("MASTER"),
        HaRole::Backup => out.append("BACKUP"),
    }
    out.append("\n");
    out.append("  interface ");
    out.append(v.interface.as_str());
    out.append("\n");
    out.append("  virtual_router_id ");
    push_decimal(out, v.vhid as u64);
    out.append("\n");
    out.append("  priority ");
    push_decimal(out, v.priority as u64);
    out.append("\n");
    out.append("  advert_int 1\n");
    push_vrrp_tail(out, v);
    proof {
        assert(out@ =~= base + vrrp_block(role, *v));
    }
}

/// The cluster's node: its backend and the directory of its files.
pub struct HaManager {
    config_dir: String,
    backend: HaBackend,
}

impl HaManager {
    pub closed spec fn backend_view(&self) -> HaBackend {
        self.backend
    }

    pub closed spec fn config_dir_view(&self) -> Seq<char> {
        self.config_dir@
    }

    /// A manager of the given backend, with its files under
    /// `/etc/patronus/ha`.
    pub fn new(backend: HaBackend) -> (m: HaManager)
        ensures
            m.backend_view() == backend,
            m.config_dir_view() == "/etc/patronus/ha"@,
    {
        HaManager { config_dir: owned("/etc/patronus/ha"), backend }
    }

    /// A manager of the preferred installed backend.
    pub fn new_auto(probe: &HaProbe) -> (m: HaManager)
        ensures
            m.backend_view() == preferred_backend(*probe),
            m.config_dir_view() == "/etc/patronus/ha"@,
    {
        let backend = if probe.keepalived {
            HaBackend::Keepalived
        } else if probe.ucarp {
            HaBackend::Ucarp
        } else if probe.vrrpd {
            HaBackend::Vrrpd
        } else {
            HaBackend::Ucarp
        };
        HaManager::new(backend)
    }

    /// The backend in use.
    pub fn backend(&self) -> (b: HaBackend)
        ensures
            b == self.backend_view(),
    {
        self.backend
    }

    /// The directory of the node's files.
    pub fn config_dir(&self) -> (d: String)
        ensures
            d@ == self.config_dir_view(),
    {
        self.config_dir.clone()
    }

    /// The installed backends, in order of preference.
    pub fn list_available_backends(probe: &HaProbe) -> (v: Vec<HaBackend>)
        ensures
            v@ == installed_backends(*probe),
    {
        let mut v: Vec<HaBackend> = Vec::new();
        if probe.keepalived {
            v.push(HaBackend::Keepalived);
        }
        if probe.ucarp {
            v.push(HaBackend::Ucarp);
        }
        if probe.vrrpd {
            v.push(HaBackend::Vrrpd);
        }
        proof {
            assert(v@ =~= installed_backends(*probe));
        }
        v
    }

    /// The arguments of ucarp for a virtual address; it never fails.
    pub fn generate_ucarp_config(&self, vip: &VirtualIp) -> (r: Result<Vec<String>, HaError>)
        ensures
            r matches Ok(args) && views(args@) == ucarp_args(*vip),
    {
        let mut args: Vec<String> = Vec::new();
        args.push(owned("--interface"));
        args.push(vip.interface.clone());
        args.push(owned("--srcip"));
        args.push(ip_string(vip.vip));
        args.push(owned("--vhid"));
        args.push(decimal_of(vip.vhid));
        args.push(owned("--advskew"));
        args.push(decimal_of(vip.advskew));
        args.push(owned("--advbase"));
        args.push(owned("1"));
        match &vip.password {
            Some(p) => {
                args.push(owned("--pass"));
                args.push(p.clone());
            },
            None => {},
        }
        if vip.preempt {
            args.push(owned("--preempt"));
        }
        args.push(owned("--upscript"));
        args.push(script_path_string(&vip.name, "up"));
        args.push(owned("--downscript"));
        args.push(script_path_string(&vip.name, "down"));
        proof {
            assert(views(args@) =~= ucarp_args(*vip));
        }
        Ok(args)
    }

    /// The text of keepalived's configuration for a cluster; it never fails.
    pub fn generate_keepalived_config(&self, cluster: &HaCluster) -> (r: Result<String, HaError>)
        ensures
            r matches Ok(text) && text@ == keepalived_text(*cluster),
    {
        let mut config = String::new();
        config.append("# Patronus Keepalived Configuration\n\n");
        config.append("global_defs {\n");
        config.append("  router_id ");
        config.append(cluster.name.as_str());
        config.append("\n");
        config.append("  enable_script_security\n");
        config.append("}\n\n");
        let ghost base = config@;
        let mut i: usize = 0;
        while i < cluster.virtual_ips.len()
            invariant
                0 <= i <= cluster.virtual_ips.len(),
                config@ == base + vrrp_blocks(cluster.role, cluster.virtual_ips@.subrange(0, i as int)),
            decreases cluster.virtual_ips.len() - i,
        {
            let vip = &cluster.virtual_ips[i];
            if vip.enabled {
                push_vrrp_block(&mut config, cluster.role, vip);
            }
            proof {
                assert(cluster.virtual_ips@.subrange(0, i + 1).drop_last() =~= cluster.virtual_ips@.subrange(
                    0,
                    i as int,
                ));
                assert(config@ =~= base + vrrp_blocks(cluster.role, cluster.virtual_ips@.subrange(0, i + 1)));
            }
            i = i + 1;
        }
        proof {
            assert(cluster.virtual_ips@.subrange(0, cluster.virtual_ips@.len() as int) =~= cluster.virtual_ips@);
            assert(config@ =~= keepalived_text(*cluster));
        }
        Ok(config)
    }

    /// The script that takes a virtual address: add it, announce it by
    /// ARP, reload the firewall and log.
    pub fn generate_up_script(&self, vip: &VirtualIp) -> (s: String)
        ensures
            s@ == up_script_text(*vip),
    {
        let mut s = String::new();
        s.append("#!/bin/bash\n");
        s.append("# Patronus HA - VIP UP script\n\n");
        s.append("# VIP ");
        s.append(vip.name.as_str());
        s.append(" is now MASTER\n");
        s.append("ip addr add ");
        push_ip(&mut s, vip.vip);
        s.append("/32 dev ");
        s.append(vip.interface.as_str());
        s.append(" 2>/dev/null || true\n");
        let ghost mid = s@;
        s.append("# Send gratuitous ARP\n");
        s.append("arping -c 3 -A -I ");
        s.append(vip.interface.as_str());
        s.append(" ");
        push_ip(&mut s, vip.vip);
        s.append(" 2>/dev/null || true\n");
        s.append("# Trigger firewall reload\n");
        s.append("/usr/bin/patronus firewall apply 2>/dev/null || true\n");
        s.append("# Log event\n");
        s.append("logger \"Patronus HA: VIP ");
        s.append(vip.name.as_str());
        s.append(" became MASTER\"\n");
        proof {
            assert(s@ =~= up_script_text(*vip));
        }
        s
    }

    /// The script that gives up a virtual address: remove it and log.
    pub fn generate_down_script(&self, vip: &VirtualIp) -> (s: String)
        ensures
            s@ == down_script_text(*vip),
    {
        let mut s = String::new();
        s.append("#!/bin/bash\n");
        s.append("# Patronus HA - VIP DOWN script\n\n");
        s.append("# VIP ");
        s.append(vip.name.as_str());
        s.append(" is now BACKUP\n");
        s.append("ip addr del ");
        push_ip(&mut s, vip.vip);
        s.append("/32 dev ");
        s.append(vip.interface.as_str());
        s.append(" 2>/dev/null || true\n");
        s.append("# Log event\n");
        s.append("logger \"Patronus HA: VIP ");
        s.append(vip.name.as_str());
        s.append(" became BACKUP\"\n");
        proof {
            assert(s@ =~= down_script_text(*vip));
        }
        s
    }

    /// The systemd unit that runs ucarp for a virtual address.
    pub fn ucarp_service(&self, vip: &VirtualIp) -> (s: String)
        ensures
            s@ == ucarp_service_text(*vip),
    {
        let args = match self.generate_ucarp_config(vip) {
            Ok(a) => a,
            Err(_) => Vec::new(),
        };
        let joined = join_strings(&args, " ");
        let mut s = String::new();
        s.append("[Unit]\nDescription=CARP Virtual IP ");
        s.append(vip.name.as_str());
        s.append("\nAfter=network.target\n\n[Service]\nType=simple\nExecStart=/usr/sbin/ucarp ");
        s.append(joined.as_str());
        s.append("\nRestart=always\n\n[Install]\nWantedBy=multi-user.target\n");
        proof {
            assert(s@ =~= ucarp_service_text(*vip));
        }
        s
    }

    /// The command line of vrrpd for a virtual address.
    pub fn vrrpd_command(&self, vip: &VirtualIp) -> (s: String)
        ensures
            s@ == vrrpd_command_text(*vip),
    {
        let mut s = String::new();
        s.append("-i ");
        s.append(vip.interface.as_str());
        s.append(" -v ");
        push_decimal(&mut s, vip.vhid as u64);
        s.append(" -p ");
        push_decimal(&mut s, vip.priority as u64);
        s.append(" ");
        push_ip(&mut s, vip.vip);
        proof {
            assert(s@ =~= vrrpd_command_text(*vip));
        }
        s
    }

    fn file_in_dir(&self, name: &String, pre: &str, post: &str, contents: String) -> (f: HaFile)
        ensures
            f@ == (self.config_dir_view() + pre@ + name@ + post@, contents@),
    {
        let mut path = self.config_dir.clone();
        path.append(pre);
        path.append(name.as_str());
        path.append(post);
        HaFile { path, contents }
    }

    fn push_vip_files(&self, files: &mut Vec<HaFile>, vip: &VirtualIp)
        ensures
            file_views(final(files)@) == file_views(old(files)@) + vip_files(self.backend_view(), self.config_dir_view(), *vip),
    {
        let ghost base = file_views(files@);
        match self.backend {
            HaBackend::Keepalived => {},
            HaBackend::Ucarp => {
                let f = self.file_in_dir(&vip.name, "/ucarp-", ".service", self.ucarp_service(vip));
                files.push(f);
            },
            HaBackend::Vrrpd => {
                let f = self.file_in_dir(&vip.name, "/vrrpd-", ".cmd", self.vrrpd_command(vip));
                files.push(f);
            },
        }
        let up = self.file_in_dir(&vip.name, "/vip-", "-up.sh", self.generate_up_script(vip));
        files.push(up);
        let down = self.file_in_dir(&vip.name, "/vip-", "-down.sh", self.generate_down_script(vip));
        files.push(down);
        proof {
            assert(file_views(files@) =~= base + vip_files(self.backend_view(), self.config_dir_view(), *vip));
        }
    }

    /// The files that configuring the cluster writes; see `cluster_files`.
    pub fn configure(&self, cluster: &HaCluster) -> (files: Vec<HaFile>)
        ensures
            file_views(files@) == cluster_files(self.backend_view(), self.config_dir_view(), *cluster),
    {
        let mut files: Vec<HaFile> = Vec::new();
        if !cluster.enabled {
            proof {
                assert(file_views(files@) =~= Seq::<(Seq<char>, Seq<char>)>::empty());
            }
            return files;
        }
        if self.backend == HaBackend::Keepalived {
            let text = match self.generate_keepalived_config(cluster) {
                Ok(t) => t,
                Err(_) => String::new(),
            };
            files.push(HaFile { path: owned("/etc/keepalived/keepalived.conf"), contents: text });
        }
        let ghost base = file_views(files@);
        let mut i: usize = 0;
        while i < cluster.virtual_ips.len()
            invariant
                0 <= i <= cluster.virtual_ips.len(),
                file_views(files@) == base + vips_files(
                    self.backend_view(),
                    self.config_dir_view(),
                    cluster.virtual_ips@.subrange(0, i as int),
                ),
            decreases cluster.virtual_ips.len() - i,
        {
            let vip = &cluster.virtual_ips[i];
            if vip.enabled {
                self.push_vip_files(&mut files, vip);
            }
            proof {
                assert(cluster.virtual_ips@.subrange(0, i + 1).drop_last() =~= cluster.virtual_ips@.subrange(
                    0,
                    i as int,
                ));
                assert(file_views(files@) =~= base + vips_files(
                    self.backend_view(),
                    self.config_dir_view(),
                    cluster.virtual_ips@.subrange(0, i + 1),
                ));
            }
            i = i + 1;
        }
        proof {
            assert(cluster.virtual_ips@.subrange(0, cluster.virtual_ips@.len() as int) =~= cluster.virtual_ips@);
            assert(file_views(files@) =~= cluster_files(self.backend_view(), self.config_dir_view(), *cluster));
        }
        files
    }

    /// The status of the backend, from whether `systemctl status keepalived`
    /// succeeded (`None` when it could not run).
    pub fn get_status(&self, systemctl_ok: Option<bool>) -> (r: Result<Vec<(String, HaState)>, HaError>)
        ensures
            r matches Ok(v) && v@.map_values(|e: (String, HaState)| (e.0@, e.1)) == status_entries(
                self.backend_view(),
                systemctl_ok,
            ),
    {
        let mut v: Vec<(String, HaState)> = Vec::new();
        if self.backend == HaBackend::Keepalived {
            match systemctl_ok {
                Some(true) => v.push((owned("keepalived"), HaState::Master)),
                Some(false) => v.push((owned("keepalived"), HaState::Fault)),
                None => {},
            }
        }
        proof {
            assert(v@.map_values(|e: (String, HaState)| (e.0@, e.1)) =~= status_entries(
                self.backend_view(),
                systemctl_ok,
            ));
        }
        Ok(v)
    }

    /// The arguments of `rsync` that copy the configuration to the peer, or
    /// nothing when synchronisation is off.
    pub fn sync_args(&self, cluster: &HaCluster) -> (r: Option<Vec<String>>)
        ensures
            !cluster.config_sync_enabled ==> r is None,
            cluster.config_sync_enabled ==> (r matches Some(args) && views(args@) == seq![
                "-avz"@,
                "--delete"@,
                cluster.config_sync_path@,
                cluster.config_sync_user@ + "@"@ + ip_text(cluster.peer_ip) + ":"@ + cluster.config_sync_path@,
            ]),
    {
        if !cluster.config_sync_enabled {
            return None;
        }
        let mut target = cluster.config_sync_user.clone();
        target.append("@");
        push_ip(&mut target, cluster.peer_ip);
        target.append(":");
        target.append(cluster.config_sync_path.as_str());
        let mut args: Vec<String> = Vec::new();
        args.push(owned("-avz"));
        args.push(owned("--delete"));
        args.push(cluster.config_sync_path.clone());
        args.push(target);
        proof {
            assert(views(args@) =~= seq![
                "-avz"@,
                "--delete"@,
                cluster.config_sync_path@,
                cluster.config_sync_user@ + "@"@ + ip_text(cluster.peer_ip) + ":"@ + cluster.config_sync_path@,
            ]);
        }
        Some(args)
    }
}

/// Why an HA operation failed.
#[derive(Clone, Debug)]
pub enum HaError {
    Network(String),
}

impl Default for VirtualIp {
    /// `vip1` on `eth0`: 192.168.1.100, host id 1, priority 100, password
    /// `secret`, preempting, no skew.
    fn default() -> (v: VirtualIp)
        ensures
            v.name@ == "vip1"@,
            v.enabled,
            v.vip == IpAddress::V4(192, 168, 1, 100),
            v.interface@ == "eth0"@,
            v.vhid == 1,
            v.priority == 100,
            v.password matches Some(p) && p@ == "secret"@,
            v.preempt,
            v.advskew == 0,
    {
        VirtualIp {
            name: owned("vip1"),
            enabled: true,
            vip: IpAddress::V4(192, 168, 1, 100),
            interface: owned("eth0"),
            vhid: 1,
            priority: 100,
            password: Some(owned("secret")),
            preempt: true,
            advskew: 0,
        }
    }
}

impl Default for HaCluster {
    /// `cluster1`, enabled, ucarp, master, peer 192.168.1.2 over `eth1`,
    /// the default virtual address, configuration synchronised as
    /// `patronus` from `/etc/patronus`.
    fn default() -> (c: HaCluster)
        ensures
            c.name@ == "cluster1"@,
            c.enabled,
            c.backend == HaBackend::Ucarp,
            c.role == HaRole::Master,
            c.peer_ip == IpAddress::V4(192, 168, 1, 2),
            c.sync_interface@ == "eth1"@,
            c.sync_enabled,
            c.virtual_ips@.len() == 1,
            c.virtual_ips@[0].name@ == "vip1"@,
            c.virtual_ips@[0].enabled,
            c.config_sync_enabled,
            c.config_sync_user@ == "patronus"@,
            c.config_sync_path@ == "/etc/patronus"@,
    {
        let mut virtual_ips: Vec<VirtualIp> = Vec::new();
        virtual_ips.push(VirtualIp::default());
        HaCluster {
            name: owned("cluster1"),
            enabled: true,
            backend: HaBackend::Ucarp,
            role: HaRole::Master,
            peer_ip: IpAddress::V4(192, 168, 1, 2),
            sync_interface: owned("eth1"),
            sync_enabled: true,
            virtual_ips,
            config_sync_enabled: true,
            config_sync_user: owned("patronus"),
            config_sync_path: owned("/etc/patronus"),
        }
    }
}

/// The preferred backend is installed whenever any backend is, and it is
/// the first of the installed ones.
pub proof fn lemma_preferred_is_first_installed(p: HaProbe)
    ensures
        installed_backends(p).len() > 0 ==> installed_backends(p)[0] == preferred_backend(p),
        installed_backends(p).len() == 0 ==> preferred_backend(p) == HaBackend::Ucarp,
{
}

/// A disabled cluster writes no file.
pub proof fn lemma_disabled_cluster_writes_nothing(b: HaBackend, dir: Seq<char>, c: HaCluster)
    requires
        !c.enabled,
    ensures
        cluster_files(b, dir, c).len() == 0,
{
}

} // verus!
