use patronus::net::IpAddress;
use patronus::network::gateway_groups::{
    AdvancedGatewayGroup, GatewayGroupErrorKind, GatewayGroupManager, GatewayGroupMember,
};

#[test]
fn test_tiered_failover() {
    let group = AdvancedGatewayGroup::example_tiered_failover();

    let online = vec!["fiber_wan".to_string(), "cable_wan".to_string(), "lte_wan".to_string()];
    assert_eq!(group.get_active_tier(&online), Some(1));

    let online = vec!["cable_wan".to_string(), "lte_wan".to_string()];
    assert_eq!(group.get_active_tier(&online), Some(2));

    let online = vec!["lte_wan".to_string()];
    assert_eq!(group.get_active_tier(&online), Some(3));

    let online: Vec<String> = vec![];
    assert_eq!(group.get_active_tier(&online), None);
}

#[test]
fn test_load_balance_within_tier() {
    let group = AdvancedGatewayGroup::example_load_balance_with_backup();

    let online = vec!["fiber1_wan".to_string(), "fiber2_wan".to_string(), "cable_wan".to_string()];

    assert_eq!(group.get_active_tier(&online), Some(1));

    let active = group.get_active_members(&online);
    assert_eq!(active.len(), 2);
    assert!(active.iter().all(|m| m.tier == 1));
}

#[test]
fn test_weighted_routing() {
    let group = AdvancedGatewayGroup::example_weighted_load_balance();

    let online = vec!["wan_1gbps".to_string(), "wan_500mbps".to_string()];
    let active = group.get_active_members(&online);

    assert_eq!(active.len(), 2);

    let wan1 = active.iter().find(|m| m.gateway_name == "wan_1gbps").unwrap();
    let wan2 = active.iter().find(|m| m.gateway_name == "wan_500mbps").unwrap();

    assert_eq!(wan1.weight, 200);
    assert_eq!(wan2.weight, 100);
}

#[test]
fn test_group_validation() {
    let mut group = AdvancedGatewayGroup::example_tiered_failover();
    assert!(group.validate().is_ok());

    group.members.clear();
    assert!(group.validate().is_err());

    group.members.push(GatewayGroupMember {
        gateway_name: "test".to_string(),
        tier: 0,
        weight: 100,
    });
    assert!(group.validate().is_err());
}

#[test]
fn test_gateway_group_manager() {
    let mut manager = GatewayGroupManager::new();

    let group = AdvancedGatewayGroup::example_tiered_failover();
    let name = group.name.clone();
    manager.add_group(group).unwrap();

    assert_eq!(manager.list_groups().len(), 1);
    assert!(manager.get_group(&name).is_some());

    manager.remove_group(&name).unwrap();
    assert_eq!(manager.list_groups().len(), 0);
}

#[test]
fn gateway_tiers_sorted_and_deduplicated() {
    let group = AdvancedGatewayGroup::example_load_balance_with_backup();
    assert_eq!(group.get_tiers(), vec![1, 2]);
    assert_eq!(group.get_tier_gateways(1), vec!["fiber1_wan".to_string(), "fiber2_wan".to_string()]);
}

#[test]
fn gateway_validation_errors_name_the_offender() {
    let mut group = AdvancedGatewayGroup::example_weighted_load_balance();
    group.members[1].gateway_name = "wan_1gbps".to_string();
    let e = group.validate().unwrap_err();
    assert_eq!(e.kind, GatewayGroupErrorKind::DuplicateGateway);
    assert_eq!(e.name, "wan_1gbps");

    let mut group = AdvancedGatewayGroup::example_weighted_load_balance();
    group.members[1].weight = 300;
    let e = group.validate().unwrap_err();
    assert_eq!(e.kind, GatewayGroupErrorKind::InvalidWeight);
    assert_eq!(e.value, 300);

    let mut group = AdvancedGatewayGroup::example_weighted_load_balance();
    group.members[0].tier = 11;
    let e = group.validate().unwrap_err();
    assert_eq!(e.kind, GatewayGroupErrorKind::InvalidTier);
    assert_eq!(e.value, 11);
}

#[test]
fn gateway_status_and_routing() {
    let mut manager = GatewayGroupManager::new();
    manager.add_group(AdvancedGatewayGroup::example_load_balance_with_backup()).unwrap();
    let online = vec!["cable_wan".to_string()];
    let summary = manager.get_status_summary(&online);
    assert_eq!(summary.len(), 1);
    assert_eq!(summary[0].0, "WAN_LoadBalance");
    assert_eq!(summary[0].1.active_tier, Some(2));
    assert!(summary[0].1.is_degraded);
    assert!(!summary[0].1.is_healthy);
    assert_eq!(summary[0].1.active_gateways, 1);
    assert_eq!(summary[0].1.total_gateways, 3);

    let ips = vec![("cable_wan".to_string(), IpAddress::V4(10, 0, 0, 1))];
    let ifaces = vec![("cable_wan".to_string(), "eth2".to_string())];
    let cfg = manager.generate_routing_config("WAN_LoadBalance", &online, &ips, &ifaces).unwrap();
    assert_eq!(cfg.active_tier, 2);
    assert_eq!(cfg.nexthops.len(), 1);
    assert_eq!(cfg.nexthops[0].gateway, IpAddress::V4(10, 0, 0, 1));
    assert_eq!(cfg.nexthops[0].interface, "eth2");
    assert!(!cfg.sticky);

    let err = manager.generate_routing_config("WAN_LoadBalance", &online, &[], &ifaces);
    assert_eq!(err.err().unwrap().kind, GatewayGroupErrorKind::GatewayIpNotFound);
    let err = manager.generate_routing_config("nope", &online, &ips, &ifaces);
    assert_eq!(err.err().unwrap().kind, GatewayGroupErrorKind::GroupNotFound);
    let none: Vec<String> = vec![];
    let err = manager.generate_routing_config("WAN_LoadBalance", &none, &ips, &ifaces);
    assert_eq!(err.err().unwrap().kind, GatewayGroupErrorKind::NoOnlineGateways);
}

#[test]
fn healthy_only_when_every_tier_one_gateway_is_online() {
    let mut manager = GatewayGroupManager::new();
    manager.add_group(AdvancedGatewayGroup::example_load_balance_with_backup()).unwrap();

    let one = vec!["fiber1_wan".to_string()];
    let s = manager.get_status_summary(&one)[0].1;
    assert_eq!(s.active_tier, Some(1));
    assert!(!s.is_healthy);
    assert!(!s.is_degraded);
    assert!(!s.is_down);

    let both = vec!["fiber1_wan".to_string(), "fiber2_wan".to_string()];
    let s = manager.get_status_summary(&both)[0].1;
    assert!(s.is_healthy);
    assert_eq!(s.active_gateways, 2);

    let none: Vec<String> = vec![];
    let s = manager.get_status_summary(&none)[0].1;
    assert!(s.is_down);
    assert!(!s.is_healthy);
}
