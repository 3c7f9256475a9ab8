use patronus::net::{IpAddress, Ipv4Address};
use patronus::network::ddns::{
    check_response, inet_address_texts, provider_text, trimmed, DdnsConfig, DdnsError, DdnsManager, DdnsProvider,
    ResponseCheck, UpdateAction, UpdateStatus,
};
use patronus::network::ha::{HaBackend, HaManager, HaProbe};
use patronus::network::interfaces::{
    get_by_index, get_by_name, interface_from_link, interface_name, mac_string, Interface, LinkAttr, LinkMessage,
};
use patronus::network::ipsec::{DhGroup, IpsecCipher, IpsecIntegrity, IpsecManager};
use patronus::network::qos::QosManager;
use patronus::network::routing::{
    flush_targets, plan_add_route, plan_default_gateway, removal_targets, route_address_to_ip, route_from_message,
    route_matches, AddRoute, IpNetwork, Route, RouteAddress, RouteAttr, RouteError, RouteMessage,
};
use patronus::network::vlan::{get_vlan, vlan_from_link, vlan_name, vlans_from_links, VlanInterface};

#[test]
fn test_backend_detection() {
    let probe = HaProbe { keepalived: true, ucarp: false, vrrpd: false };
    let backends = HaManager::list_available_backends(&probe);
    assert!(!backends.is_empty());
}

#[test]
fn test_proposal_formatting() {
    let manager = IpsecManager::new();

    let ike_prop =
        manager.format_ike_proposals(&[IpsecCipher::Aes256], &[IpsecIntegrity::Sha256], &[DhGroup::Modp2048]);

    assert_eq!(ike_prop, "aes256-sha256-modp2048");
}

#[test]
fn test_gaming_preset() {
    let qos = QosManager::new();
    let preset = qos.create_gaming_preset("eth0", "100mbit");

    assert_eq!(preset.classes.len(), 3);
    assert_eq!(preset.classes[0].priority, 0);
}

#[test]
fn test_voip_preset() {
    let qos = QosManager::new();
    let preset = qos.create_voip_preset("eth0");

    assert_eq!(preset.classes.len(), 1);
    assert_eq!(preset.classes[0].match_dst_port, Some(5060));
}

#[test]
fn ha_auto_detection_prefers_keepalived_then_ucarp() {
    let m = HaManager::new_auto(&HaProbe { keepalived: false, ucarp: true, vrrpd: true });
    assert_eq!(m.backend(), HaBackend::Ucarp);
    let m = HaManager::new_auto(&HaProbe { keepalived: true, ucarp: true, vrrpd: true });
    assert_eq!(m.backend(), HaBackend::Keepalived);
    let none = HaManager::list_available_backends(&HaProbe { keepalived: false, ucarp: false, vrrpd: false });
    assert!(none.is_empty());
}

#[test]
fn ipsec_proposals_cross_every_choice() {
    let m = IpsecManager::new();
    let p = m.format_ike_proposals(
        &[IpsecCipher::Aes128, IpsecCipher::Aes256],
        &[IpsecIntegrity::Sha256],
        &[DhGroup::Modp2048],
    );
    assert_eq!(p, "aes128-sha256-modp2048,aes256-sha256-modp2048");
}

fn ddns_config(provider: DdnsProvider, hostname: &str) -> DdnsConfig {
    let mut c = DdnsConfig::default();
    c.provider = provider;
    c.hostname = hostname.to_string();
    c
}

#[test]
fn ddns_update_only_when_address_changes_or_forced() {
    let mut m = DdnsManager::new(DdnsConfig::default());
    let ip = IpAddress::V4(203, 0, 113, 7);
    assert!(m.needs_update(ip, false));
    m.record_update(ip, 1000);
    assert!(!m.needs_update(ip, false));
    assert!(m.needs_update(ip, true));
    assert!(m.needs_update(IpAddress::V4(203, 0, 113, 8), false));
    let st = m.get_status(2000);
    assert_eq!(st.update_count, 1);
    assert_eq!(st.current_ip, Some(ip));
    assert_eq!(st.last_update, Some(1000));
    assert_eq!(st.last_check, Some(2000));
    assert_eq!(st.status, UpdateStatus::UpToDate);
    assert_eq!(st.hostname, "example.duckdns.org");
}

#[test]
fn ddns_status_unknown_before_first_update() {
    let m = DdnsManager::new(DdnsConfig::default());
    let st = m.get_status(5);
    assert_eq!(st.status, UpdateStatus::Unknown);
    assert_eq!(st.provider, "DuckDNS { token: \"\" }");
    assert!(st.last_error.is_none());
}

#[test]
fn ddns_provider_text_matches_debug() {
    let p = DdnsProvider::Custom {
        update_url: "https://x/{ip}".to_string(),
        username: Some("u\"1".to_string()),
        password: None,
    };
    assert_eq!(provider_text(&p), format!("{:?}", p));
    let p = DdnsProvider::AWSRoute53 {
        access_key: "a".to_string(),
        secret_key: "b\\c".to_string(),
        region: "eu".to_string(),
    };
    assert_eq!(provider_text(&p), format!("{:?}", p));
}

#[test]
fn ddns_google_request() {
    let c = ddns_config(
        DdnsProvider::GoogleDomains { username: "user".to_string(), password: "pw".to_string() },
        "home.example.com",
    );
    let m = DdnsManager::new(c);
    match m.update_action(IpAddress::V4(1, 2, 3, 4)).unwrap() {
        UpdateAction::Curl { args, check } => {
            assert_eq!(
                args,
                vec![
                    "-s".to_string(),
                    "-u".to_string(),
                    "user:pw".to_string(),
                    "https://domains.google.com/nic/update?hostname=home.example.com&myip=1.2.3.4".to_string(),
                ]
            );
            assert_eq!(check, ResponseCheck::GoogleDomains);
        },
        UpdateAction::Nothing => panic!("a request is expected"),
    }
}

#[test]
fn ddns_namecheap_splits_host_and_domain() {
    let c = ddns_config(DdnsProvider::Namecheap { password: "secret".to_string() }, "www.example.co.uk");
    let m = DdnsManager::new(c);
    match m.update_action(IpAddress::V4(10, 0, 0, 1)).unwrap() {
        UpdateAction::Curl { args, check } => {
            assert_eq!(args.len(), 2);
            assert_eq!(
                args[1],
                "https://dynamicdns.park-your-domain.com/update?host=www&domain=example.co.uk&password=secret&ip=10.0.0.1"
            );
            assert_eq!(check, ResponseCheck::Namecheap);
        },
        UpdateAction::Nothing => panic!("a request is expected"),
    }
}

#[test]
fn ddns_duckdns_and_freedns_urls() {
    let m = DdnsManager::new(ddns_config(DdnsProvider::DuckDNS { token: "tok".to_string() }, "myhome.duckdns.org"));
    match m.update_action(IpAddress::V4(9, 9, 9, 9)).unwrap() {
        UpdateAction::Curl { args, .. } => {
            assert_eq!(args[1], "https://www.duckdns.org/update?domains=myhome&token=tok&ip=9.9.9.9")
        },
        UpdateAction::Nothing => panic!("a request is expected"),
    }
    let m = DdnsManager::new(ddns_config(DdnsProvider::FreeDNS { token: "abc".to_string() }, "x.y"));
    match m.update_action(IpAddress::V4(9, 9, 9, 9)).unwrap() {
        UpdateAction::Curl { args, .. } => assert_eq!(args[1], "https://sync.afraid.org/u/abc/?ip=9.9.9.9"),
        UpdateAction::Nothing => panic!("a request is expected"),
    }
}

#[test]
fn ddns_custom_fills_placeholders() {
    let p = DdnsProvider::Custom {
        update_url: "https://dns.example/{hostname}/{ip}?h={hostname}".to_string(),
        username: Some("me".to_string()),
        password: Some("pw".to_string()),
    };
    let m = DdnsManager::new(ddns_config(p, "a.b"));
    match m.update_action(IpAddress::V4(1, 1, 1, 1)).unwrap() {
        UpdateAction::Curl { args, check } => {
            assert_eq!(
                args,
                vec![
                    "-s".to_string(),
                    "-u".to_string(),
                    "me:pw".to_string(),
                    "https://dns.example/a.b/1.1.1.1?h=a.b".to_string(),
                ]
            );
            assert_eq!(check, ResponseCheck::Custom);
        },
        UpdateAction::Nothing => panic!("a request is expected"),
    }
}

#[test]
fn ddns_cloudflare_needs_a_dot() {
    let m = DdnsManager::new(ddns_config(DdnsProvider::Cloudflare { api_token: "t".to_string() }, "localhost"));
    match m.update_action(IpAddress::V4(1, 1, 1, 1)) {
        Err(DdnsError::Config(msg)) => assert_eq!(msg, "Invalid hostname format"),
        _ => panic!("an error is expected"),
    }
    let m = DdnsManager::new(ddns_config(DdnsProvider::Cloudflare { api_token: "t".to_string() }, "a.example.com"));
    assert!(matches!(m.update_action(IpAddress::V4(1, 1, 1, 1)), Ok(UpdateAction::Nothing)));
}

#[test]
fn ddns_response_checks() {
    assert!(check_response(ResponseCheck::DynDns, "good 1.2.3.4").is_ok());
    assert!(check_response(ResponseCheck::NoIp, "nochg 1.2.3.4").is_ok());
    match check_response(ResponseCheck::NoIp, "badauth") {
        Err(DdnsError::Network(m)) => assert_eq!(m, "No-IP update failed: badauth"),
        _ => panic!("an error is expected"),
    }
    assert!(check_response(ResponseCheck::Namecheap, "<x><ErrCount>0</ErrCount></x>").is_ok());
    assert!(check_response(ResponseCheck::Namecheap, "<ErrCount>1</ErrCount>").is_err());
    assert!(check_response(ResponseCheck::FreeDns, "Address has not changed").is_ok());
    assert!(check_response(ResponseCheck::DuckDns, "  OK\n").is_ok());
    assert!(check_response(ResponseCheck::DuckDns, "KO").is_err());
    assert!(check_response(ResponseCheck::Custom, "anything").is_ok());
}

#[test]
fn ddns_reads_inet_lines() {
    let out = "2: eth0: <BROADCAST,MULTICAST,UP> mtu 1500\n    link/ether 00:11:22:33:44:55 brd ff:ff:ff:ff:ff:ff\n    inet 192.168.1.10/24 brd 192.168.1.255 scope global eth0\n    inet 10.0.0.5/8 scope global secondary eth0\n";
    assert_eq!(inet_address_texts(out), vec!["192.168.1.10".to_string(), "10.0.0.5".to_string()]);
    assert!(inet_address_texts("    inet6 fe80::1/64 scope link\n").is_empty());
    assert_eq!(trimmed("  203.0.113.9\n"), "203.0.113.9");
}

#[test]
fn interfaces_from_link_messages() {
    let m = LinkMessage {
        index: 3,
        up: true,
        attributes: vec![
            LinkAttr::Mtu(9000),
            LinkAttr::IfName("eth1".to_string()),
            LinkAttr::Address(vec![0x00, 0x1a, 0x2b, 0xff, 0x04, 0x5c]),
            LinkAttr::IfName("ignored".to_string()),
        ],
    };
    let i = interface_from_link(&m);
    assert_eq!(i.name, "eth1");
    assert_eq!(i.mac_address, Some("00:1a:2b:ff:04:5c".to_string()));
    assert_eq!(i.mtu, 9000);
    assert!(i.enabled);
    assert_eq!(i.index, 3);
    assert!(i.ip_addresses.is_empty());

    let bare = LinkMessage { index: 7, up: false, attributes: vec![] };
    let j = interface_from_link(&bare);
    assert_eq!(j.name, "interface7");
    assert_eq!(j.mac_address, None);
    assert_eq!(j.mtu, 1500);
    assert!(!j.enabled);
    assert_eq!(mac_string(&vec![]), "");
}

fn iface(name: &str, index: u32) -> Interface {
    Interface {
        name: name.to_string(),
        mac_address: None,
        ip_addresses: vec![],
        mtu: 1500,
        enabled: true,
        index,
    }
}

#[test]
fn interfaces_lookup_by_name_and_index() {
    let list = vec![iface("lo", 1), iface("eth0", 2), iface("eth0", 5)];
    assert_eq!(get_by_name(&list, "eth0").map(|i| i.index), Some(2));
    assert!(get_by_name(&list, "wlan0").is_none());
    assert_eq!(get_by_index(&list, 1).map(|i| i.name.clone()), Some("lo".to_string()));
    assert_eq!(interface_name(&list, 5), "eth0");
    assert_eq!(interface_name(&list, 42), "if42");
}

#[test]
fn vlan_names_and_links() {
    assert_eq!(vlan_name("eth0", 100, None), "eth0.100");
    assert_eq!(vlan_name("eth0", 100, Some("guest")), "guest");
    let parents = vec![iface("eth0", 2)];
    let vlan = LinkMessage {
        index: 9,
        up: true,
        attributes: vec![
            LinkAttr::IfName("eth0.20".to_string()),
            LinkAttr::Link(2),
            LinkAttr::VlanKind,
            LinkAttr::VlanId(20),
        ],
    };
    let plain = LinkMessage { index: 2, up: true, attributes: vec![LinkAttr::IfName("eth0".to_string())] };
    let orphan = LinkMessage { index: 11, up: true, attributes: vec![LinkAttr::VlanKind, LinkAttr::Link(77)] };
    assert!(vlan_from_link(&plain, &parents).is_none());
    let v = vlan_from_link(&vlan, &parents).unwrap();
    assert_eq!((v.name.as_str(), v.parent.as_str(), v.vlan_id, v.index), ("eth0.20", "eth0", 20, 9));
    let o = vlan_from_link(&orphan, &parents).unwrap();
    assert_eq!((o.name.as_str(), o.parent.as_str(), o.vlan_id), ("vlan11", "if77", 0));
    let no_parent = LinkMessage { index: 12, up: true, attributes: vec![LinkAttr::VlanKind] };
    assert_eq!(vlan_from_link(&no_parent, &parents).unwrap().parent, "unknown");
    let all: Vec<VlanInterface> = vlans_from_links(&vec![plain, vlan, orphan], &parents);
    assert_eq!(all.len(), 2);
    assert_eq!(get_vlan(&all, "vlan11").map(|v| v.index), Some(11));
    assert!(get_vlan(&all, "eth0").is_none());
}

fn net(a: u8, b: u8, c: u8, d: u8, len: u8) -> IpNetwork {
    IpNetwork { addr: IpAddress::V4(a, b, c, d), prefix_len: len }
}

#[test]
fn routing_messages_and_matching() {
    let m = RouteMessage {
        prefix_len: 24,
        table: 254,
        attributes: vec![
            RouteAttr::Destination(RouteAddress::Inet(Ipv4Address(10, 1, 0, 0))),
            RouteAttr::Gateway(RouteAddress::Inet(Ipv4Address(10, 0, 0, 1))),
            RouteAttr::Oif(3),
            RouteAttr::Priority(100),
        ],
    };
    let r = route_from_message(&m, Some("eth0".to_string()));
    assert_eq!(r.destination, Some(net(10, 1, 0, 0, 24)));
    assert_eq!(r.gateway, Some(IpAddress::V4(10, 0, 0, 1)));
    assert_eq!(r.metric, Some(100));
    assert_eq!(r.table, 254);
    assert_eq!(route_address_to_ip(RouteAddress::Other), IpAddress::V4(0, 0, 0, 0));

    let default_route = Route {
        destination: None,
        gateway: Some(IpAddress::V4(192, 168, 0, 1)),
        interface: None,
        metric: None,
        table: 254,
    };
    let local = Route { destination: Some(net(127, 0, 0, 0, 8)), gateway: None, interface: None, metric: None, table: 255 };
    assert!(route_matches(Some(net(10, 1, 0, 0, 24)), None, &r));
    assert!(!route_matches(Some(net(10, 1, 0, 0, 16)), None, &r));
    assert!(route_matches(None, Some(IpAddress::V4(192, 168, 0, 1)), &default_route));
    assert!(!route_matches(None, Some(IpAddress::V4(192, 168, 0, 2)), &default_route));
    let routes = vec![r, default_route, local];
    assert_eq!(removal_targets(Some(net(10, 1, 0, 0, 24)), None, &routes), vec![net(10, 1, 0, 0, 24)]);
    assert!(removal_targets(None, None, &routes).is_empty());
    let flush = flush_targets(&routes);
    assert_eq!(flush.len(), 2);
    assert_eq!(flush[1], (None, Some(IpAddress::V4(192, 168, 0, 1))));
}

#[test]
fn routing_add_plans() {
    let gw = IpAddress::V4(10, 0, 0, 1);
    assert_eq!(
        plan_add_route(Some(net(10, 2, 0, 0, 16)), Some(gw), Some(4)),
        Ok(AddRoute::Via {
            destination: Ipv4Address(10, 2, 0, 0),
            prefix_len: 16,
            gateway: Ipv4Address(10, 0, 0, 1),
            oif: Some(4),
        })
    );
    assert_eq!(
        plan_default_gateway(gw, None),
        Ok(AddRoute::Default { gateway: Ipv4Address(10, 0, 0, 1), oif: None })
    );
    assert_eq!(
        plan_add_route(Some(net(10, 2, 0, 0, 16)), None, None),
        Err(RouteError::Network("Interface required for direct routes".to_string()))
    );
    assert_eq!(
        plan_add_route(None, None, Some(1)),
        Err(RouteError::Network("At least destination or gateway required".to_string()))
    );
    let v6 = IpAddress::V6(0x2001, 0xdb8, 0, 0, 0, 0, 0, 1);
    assert_eq!(
        plan_add_route(None, Some(v6), None),
        Err(RouteError::Network("Expected IPv4 gateway".to_string()))
    );
    assert_eq!(
        plan_add_route(Some(IpNetwork { addr: v6, prefix_len: 64 }), Some(gw), None),
        Err(RouteError::Network("Expected IPv4 address".to_string()))
    );
}
