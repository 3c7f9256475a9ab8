use patronus::monitoring::status::StatusPageManager;
use patronus::net::{IpAddress, Ipv4Address};
use patronus::network::dhcp::{parse_leases, DhcpConfig, DhcpManager, LeaseState, StaticLease};
use patronus::network::multiwan::{GatewayGroup, GatewayStatus, LoadBalanceAlgorithm, MultiWanError, MultiWanManager, PolicyRoute, WanGateway};
use patronus::network::qos::{HtbClass, QosError, QosManager};
use patronus::network::wireguard::{WireGuardError, WireGuardManager};

const LEASES: &str = "lease 192.168.1.10 {\n  starts 4 2024/01/01 00:00:00;\n  hardware ethernet aa:bb:cc:dd:ee:ff;\n  client-hostname \"laptop\";\n  binding state expired;\n}\nlease 192.168.1.11 {\n  binding state active;\n}\nlease 192.168.1.12 {\n  hardware ethernet 11:22:33:44:55:66;\n  binding state reserved;\n}\n";

#[test]
fn dhcp_leases_need_a_hardware_address() {
    let leases = parse_leases(LEASES);
    assert_eq!(leases.len(), 2);
    assert_eq!(leases[0].ip_address, Ipv4Address(192, 168, 1, 10));
    assert_eq!(leases[0].mac_address, "aa:bb:cc:dd:ee:ff");
    assert_eq!(leases[0].hostname.as_deref(), Some("laptop"));
    assert_eq!(leases[0].state, LeaseState::Expired);
    assert_eq!(leases[1].ip_address, Ipv4Address(192, 168, 1, 12));
    assert_eq!(leases[1].hostname, None);
    assert_eq!(leases[1].state, LeaseState::Reserved);
}

#[test]
fn dhcp_empty_lease_file() {
    let manager = DhcpManager::new();
    assert_eq!(manager.get_leases("").unwrap().len(), 0);
    assert_eq!(manager.config_path(), "/etc/patronus/dhcp.conf");
    assert_eq!(manager.leases_path(), "/var/lib/patronus/dhcp.leases");
}

#[test]
fn dhcp_config_and_reservation_text() {
    let manager = DhcpManager::new();
    let config = DhcpConfig {
        enabled: true,
        interface: "eth1".to_string(),
        subnet: "192.168.1.0".to_string(),
        netmask: "255.255.255.0".to_string(),
        range_start: Ipv4Address(192, 168, 1, 100),
        range_end: Ipv4Address(192, 168, 1, 200),
        gateway: Some(Ipv4Address(192, 168, 1, 1)),
        dns_servers: vec![Ipv4Address(1, 1, 1, 1), Ipv4Address(8, 8, 8, 8)],
        lease_time: 3600,
        domain_name: Some("lan".to_string()),
    };
    let text = manager.generate_config(&config).unwrap();
    assert!(text.contains("default-lease-time 3600;"));
    assert!(text.contains("max-lease-time 7200;"));
    assert!(text.contains("range 192.168.1.100 192.168.1.200;"));
    assert!(text.contains("1.1.1.1, 8.8.8.8"));
    let entry = manager.static_lease_entry(&StaticLease {
        mac_address: "aa:bb:cc:dd:ee:ff".to_string(),
        ip_address: Ipv4Address(192, 168, 1, 50),
        hostname: None,
    });
    assert_eq!(
        entry,
        "\n# Static reservation: unknown\nhost aa:bb:cc:dd:ee:ff {\n    hardware ethernet aa:bb:cc:dd:ee:ff;\n    fixed-address 192.168.1.50;\n}\n"
    );
}

#[test]
fn wireguard_dump_of_interface_and_peer() {
    let wg = WireGuardManager::new();
    let dump = "PRIV\tPUB\t51820\toff\nPEER\t(none)\t1.2.3.4:51820\t10.0.0.2/32,10.0.0.3/32\t1700000000\t100\t200\t25\n";
    let status = wg.parse_wg_dump(dump, "wg0").unwrap();
    assert_eq!(status.interface, "wg0");
    assert_eq!(status.public_key, "PUB");
    assert_eq!(status.listen_port, 51820);
    assert_eq!(status.peers.len(), 1);
    let peer = &status.peers[0];
    assert_eq!(peer.public_key, "PEER");
    assert_eq!(peer.endpoint.as_deref(), Some("1.2.3.4:51820"));
    assert_eq!(peer.allowed_ips, vec!["10.0.0.2/32".to_string(), "10.0.0.3/32".to_string()]);
    assert_eq!(peer.latest_handshake, Some(1700000000));
    assert_eq!(peer.transfer_rx, 100);
    assert_eq!(peer.transfer_tx, 200);
}

#[test]
fn wireguard_dump_errors() {
    let wg = WireGuardManager::new();
    assert_eq!(wg.parse_wg_dump("", "wg0").unwrap_err(), WireGuardError::EmptyDump);
    assert_eq!(wg.parse_wg_dump("a\tb\n", "wg0").unwrap_err(), WireGuardError::InvalidDumpFormat);
    let status = wg.parse_wg_dump("PRIV\tPUB\tport\n", "wg0").unwrap();
    assert_eq!(status.listen_port, 0);
    assert_eq!(status.peers.len(), 0);
}

fn gateway(name: &str) -> WanGateway {
    let mut g = WanGateway::default();
    g.name = name.to_string();
    g
}

#[test]
fn multiwan_failures_take_a_gateway_offline_and_successes_back() {
    let mut m = MultiWanManager::new();
    m.add_gateway(gateway("wan1")).unwrap();
    m.record_check("wan1", false, 10).unwrap();
    m.record_check("wan1", false, 20).unwrap();
    assert_eq!(m.get_gateway("wan1").unwrap().status, GatewayStatus::Unknown);
    m.record_check("wan1", false, 30).unwrap();
    let g = m.get_gateway("wan1").unwrap();
    assert_eq!(g.status, GatewayStatus::Offline);
    assert_eq!(g.consecutive_failures, 3);
    assert_eq!(g.last_check, Some(30));
    m.record_check("wan1", true, 40).unwrap();
    m.record_check("wan1", true, 50).unwrap();
    assert_eq!(m.get_gateway("wan1").unwrap().status, GatewayStatus::Offline);
    m.record_check("wan1", true, 60).unwrap();
    let g = m.get_gateway("wan1").unwrap();
    assert_eq!(g.status, GatewayStatus::Online);
    assert_eq!(g.consecutive_failures, 0);
    assert_eq!(g.consecutive_successes, 3);
    assert_eq!(m.record_check("wan9", true, 70), Err(MultiWanError::GatewayNotFound));
}

#[test]
fn multiwan_policies_stay_ordered_by_priority() {
    let mut m = MultiWanManager::new();
    let policy = |name: &str, priority: u32| PolicyRoute {
        name: name.to_string(),
        enabled: true,
        priority,
        source_network: None,
        destination_network: None,
        protocol: None,
        source_port: None,
        destination_port: None,
        gateway_group: "main".to_string(),
    };
    m.add_group(GatewayGroup {
        name: "main".to_string(),
        enabled: true,
        algorithm: LoadBalanceAlgorithm::Failover,
        gateways: vec!["wan1".to_string()],
        sticky: false,
    })
    .unwrap();
    m.add_policy(policy("late", 20)).unwrap();
    m.add_policy(policy("early", 10)).unwrap();
    m.add_policy(policy("late2", 20)).unwrap();
    let names: Vec<String> = m.list_policies().unwrap().iter().map(|p| p.name.clone()).collect();
    assert_eq!(names, vec!["early".to_string(), "late".to_string(), "late2".to_string()]);
}

#[test]
fn qos_filter_errors() {
    let qos = QosManager::new();
    let mut class = qos.create_voip_preset("eth0").classes[0].clone();
    class.class_id = "110".to_string();
    assert_eq!(qos.filter_args(&class).unwrap_err(), QosError::InvalidClassIdFormat);
    class.class_id = "1:x".to_string();
    assert_eq!(qos.filter_args(&class).unwrap_err(), QosError::InvalidClassNumber);
    class.class_id = "1:10".to_string();
    class.match_protocol = Some("sctp".to_string());
    assert_eq!(qos.filter_args(&class).unwrap_err(), QosError::UnknownProtocol);
}

#[test]
fn qos_filter_matches_port_and_protocol() {
    let qos = QosManager::new();
    let class = HtbClass {
        name: "web".to_string(),
        interface: "eth0".to_string(),
        parent: None,
        class_id: "1:20".to_string(),
        rate: "10mbit".to_string(),
        ceil: "20mbit".to_string(),
        burst: None,
        priority: 2,
        match_dst_port: Some(443),
        match_src_port: None,
        match_protocol: Some("tcp".to_string()),
        match_dst_network: None,
        match_src_network: None,
        match_tos: None,
        match_mark: None,
    };
    let args = qos.filter_args(&class).unwrap();
    let expected: Vec<String> = [
        "filter", "add", "dev", "eth0", "parent", "1:", "protocol", "ip", "prio", "2", "u32", "match", "match", "ip",
        "dport", "443", "0xffff", "match", "ip", "protocol", "6", "0xff", "flowid", "1:20",
    ]
    .iter()
    .map(|s| s.to_string())
    .collect();
    assert_eq!(args, expected);
}

#[test]
fn status_page_parsers() {
    let arp = "Address HWtype HWaddress Flags Mask Iface\n192.168.1.5 ether aa:bb:cc:dd:ee:ff C eth1\nbogus line\n10.0.0.1 ether 11:22:33:44:55:66 C eth0\n";
    assert_eq!(StatusPageManager::parse_arp_online(arp), vec![Ipv4Address(192, 168, 1, 5), Ipv4Address(10, 0, 0, 1)]);
    assert_eq!(StatusPageManager::parse_main_pid("MainPID=1234\n"), Some(1234));
    assert_eq!(StatusPageManager::parse_main_pid("MainPID=\n"), None);
    let args = StatusPageManager::journal_args(Some("ssh"), Some("err"), 50);
    assert_eq!(args, vec!["-n", "50", "--output=json", "-p", "err", "-g", "ssh"]);
    let _ = IpAddress::V4(0, 0, 0, 0);
}
