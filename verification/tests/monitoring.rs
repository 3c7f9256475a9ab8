use patronus::monitoring::alerts::{
    connections_above, disk_selected, link_down, operstate_path, pagerduty_summary, resolved_text, resolved_title,
    service_down, slack_title, webhook_uses_put, AlertManager, AlertRule, AlertSeverity, NotificationChannel,
};
use patronus::monitoring::status::{DhcpLease, StatusPageManager, WidgetType};
use patronus::net::Ipv4Address;

fn rule(name: &str, enabled: bool) -> AlertRule<u32> {
    AlertRule {
        name: name.to_string(),
        severity: AlertSeverity::Critical,
        description: format!("{} happened", name),
        condition: 0,
        duration_secs: 60,
        enabled,
    }
}

#[test]
fn alerts_fire_once_and_resolve() {
    let mut m: AlertManager<u32> = AlertManager::new();
    m.add_rule(rule("DiskFull", true));
    m.add_rule(rule("Off", false));
    m.add_rule(rule("CpuHigh", true));
    assert_eq!(m.rules_to_check(), vec![0, 2]);

    let fired = m.fire(0, 100).unwrap();
    assert_eq!(fired.rule_name, "DiskFull");
    assert_eq!(fired.fired_at, 100);
    assert!(fired.details.is_empty());
    assert!(m.is_active("DiskFull"));
    assert!(m.fire(0, 200).is_none());

    let resolved = m.resolve("DiskFull").unwrap();
    assert_eq!(resolved.fired_at, 100);
    assert!(!m.is_active("DiskFull"));
    assert!(m.resolve("DiskFull").is_none());
}

#[test]
fn alert_texts() {
    let mut m: AlertManager<u32> = AlertManager::new();
    m.add_rule(rule("Disk", true));
    m.add_channel(NotificationChannel::Discord { webhook_url: "https://d".to_string() });
    assert_eq!(m.channels().len(), 1);
    let a = m.fire(0, 1).unwrap();
    assert_eq!(slack_title(&a), "🔴 Disk");
    assert_eq!(pagerduty_summary(&a), "Disk: Disk happened");
    assert_eq!(resolved_title(&a), "✅ RESOLVED: Disk");
    assert_eq!(resolved_text(&a), "Alert 'Disk happened' has been resolved");
    assert_eq!(AlertSeverity::Warning.discord_color(), 0xFFA500);
    assert_eq!(AlertSeverity::Info.slack_color(), "good");
    assert_eq!(AlertSeverity::Critical.pagerduty_severity(), "critical");
    assert_eq!(AlertSeverity::Warning.name(), format!("{:?}", AlertSeverity::Warning));
}

#[test]
fn alert_readings() {
    assert!(!link_down(Some("up\n")));
    assert!(link_down(Some("down\n")));
    assert!(link_down(None));
    assert!(!service_down(Some("active\n")));
    assert!(service_down(Some("inactive\n")));
    assert!(!service_down(None));
    assert!(connections_above(Some("1500\n"), 1000));
    assert!(!connections_above(Some("1000\n"), 1000));
    assert!(!connections_above(Some("many"), 1));
    assert!(disk_selected("/", "/"));
    assert!(disk_selected("/home", "*"));
    assert!(!disk_selected("/home", "/"));
    assert!(webhook_uses_put("put"));
    assert!(webhook_uses_put("PuT"));
    assert!(!webhook_uses_put("POST"));
    assert!(!webhook_uses_put("PUTS"));
    assert_eq!(operstate_path("wg0"), "/sys/class/net/wg0/operstate");
}

#[test]
fn status_arp_and_leases() {
    let arp = "Address                  HWtype  HWaddress           Flags Mask            Iface\n192.168.1.1              ether   aa:bb:cc:dd:ee:ff   C                     eth0\nbogus line\n192.168.1.20             ether   11:22:33:44:55:66   C                     eth0\n";
    let ips = StatusPageManager::parse_arp_online(arp);
    assert_eq!(ips, vec![Ipv4Address(192, 168, 1, 1), Ipv4Address(192, 168, 1, 20)]);
    assert!(StatusPageManager::parse_arp_online("").is_empty());
    let mut leases = vec![
        DhcpLease {
            ip_address: Ipv4Address(192, 168, 1, 20),
            mac_address: "11:22:33:44:55:66".to_string(),
            hostname: None,
            lease_start: 0,
            lease_end: 10,
            is_online: false,
            is_static: false,
        },
        DhcpLease {
            ip_address: Ipv4Address(192, 168, 1, 30),
            mac_address: "aa".to_string(),
            hostname: Some("pc".to_string()),
            lease_start: 0,
            lease_end: 10,
            is_online: true,
            is_static: true,
        },
    ];
    StatusPageManager::mark_online(&mut leases, &ips);
    assert!(leases[0].is_online);
    assert!(!leases[1].is_online);
}

#[test]
fn status_tools_output() {
    assert_eq!(StatusPageManager::parse_main_pid("MainPID=1234\n"), Some(1234));
    assert_eq!(StatusPageManager::parse_main_pid("MainPID="), None);
    assert_eq!(StatusPageManager::parse_main_pid("nothing"), None);
    let services = StatusPageManager::monitored_services();
    assert_eq!(services.len(), 8);
    assert_eq!(services[0], ("unbound".to_string(), "DNS Resolver".to_string()));
    assert_eq!(
        StatusPageManager::journal_args(Some("sshd"), Some("err"), 50),
        vec!["-n", "50", "--output=json", "-p", "err", "-g", "sshd"]
    );
    assert_eq!(StatusPageManager::journal_args(None, None, 5), vec!["-n", "5", "--output=json"]);
    assert_eq!(WidgetType::ServiceStatus.name(), "ServiceStatus");
}

#[test]
fn status_wireguard_dump() {
    let dump = "privkey\tpubkey\t51820\toff\nPEER1\t(none)\t1.2.3.4:51820\t10.0.0.2/32,10.0.1.0/24\t1700000000\t100\t200\t25\nshort\tline\n";
    let peers = StatusPageManager::parse_wireguard_status(dump);
    assert_eq!(peers.len(), 1);
    assert_eq!(peers[0].public_key, "PEER1");
    assert_eq!(peers[0].endpoint, Some("1.2.3.4:51820".to_string()));
    assert_eq!(peers[0].allowed_ips, vec!["10.0.0.2/32".to_string(), "10.0.1.0/24".to_string()]);
    assert_eq!(peers[0].transfer_rx, 100);
    assert_eq!(peers[0].transfer_tx, 200);
    assert_eq!(peers[0].persistent_keepalive, Some(25));
    assert_eq!(peers[0].latest_handshake, None);
    let off = StatusPageManager::parse_wireguard_status("h\nK\t\t\t\t0\tx\ty\toff\n");
    assert_eq!(off[0].endpoint, None);
    assert_eq!(off[0].transfer_rx, 0);
    assert_eq!(off[0].persistent_keepalive, None);
    assert_eq!(off[0].allowed_ips, vec!["".to_string()]);
}
