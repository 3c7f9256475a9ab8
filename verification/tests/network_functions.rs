use patronus::net::IpAddress;
use patronus::network_functions::address_translation::{NatManager, NatRule, NatType, PacketInfo};
use patronus::network_functions::loadbalancer::{Backend, BackendStatus, LoadBalancer, LoadBalancingAlgorithm};

#[test]
fn test_backend_creation() {
    let backend = Backend::new("web-1", IpAddress::V4(192, 168, 1, 10), 8080);

    assert_eq!(backend.name, "web-1");
    assert_eq!(backend.port, 8080);
    assert_eq!(backend.weight, 100);
    assert!(backend.is_available());
}

#[test]
fn test_backend_health_status() {
    let mut backend = Backend::new("web-1", IpAddress::V4(192, 168, 1, 10), 8080);

    assert_eq!(backend.status, BackendStatus::Healthy);
    assert_eq!(backend.consecutive_failures, 0);

    backend.mark_unhealthy();
    assert_eq!(backend.status, BackendStatus::Unhealthy);
    assert_eq!(backend.consecutive_failures, 1);

    backend.mark_healthy();
    assert_eq!(backend.status, BackendStatus::Healthy);
    assert_eq!(backend.consecutive_failures, 0);
}

#[test]
fn test_load_balancer_creation() {
    let mut lb = LoadBalancer::new("web-lb", LoadBalancingAlgorithm::RoundRobin);
    let backend = Backend::new("web-1", IpAddress::V4(192, 168, 1, 10), 8080);
    let id = lb.add_backend(backend);
    assert!(lb.get_backend(&id).is_some());
}

#[test]
fn test_round_robin_selection() {
    let mut lb = LoadBalancer::new("web-lb", LoadBalancingAlgorithm::RoundRobin);
    lb.add_backend(Backend::new("web-1", IpAddress::V4(192, 168, 1, 10), 8080));
    lb.add_backend(Backend::new("web-2", IpAddress::V4(192, 168, 1, 11), 8080));

    let selected1 = lb.select_backend(None);
    let selected2 = lb.select_backend(None);
    let selected3 = lb.select_backend(None);

    assert!(selected1.is_some());
    assert!(selected2.is_some());
    assert!(selected3.is_some());
    assert_ne!(selected1.as_ref().unwrap().id, selected2.as_ref().unwrap().id);
    assert_eq!(selected1.as_ref().unwrap().id, selected3.as_ref().unwrap().id);
}

#[test]
fn test_least_connections_selection() {
    let mut lb = LoadBalancer::new("web-lb", LoadBalancingAlgorithm::LeastConnections);
    let mut backend1 = Backend::new("web-1", IpAddress::V4(192, 168, 1, 10), 8080);
    backend1.active_connections = 5;
    let backend2 = Backend::new("web-2", IpAddress::V4(192, 168, 1, 11), 8080);
    let id2 = backend2.id;
    lb.add_backend(backend1);
    lb.add_backend(backend2);

    let selected = lb.select_backend(None);
    assert!(selected.is_some());
    assert_eq!(selected.unwrap().id, id2);
}

#[test]
fn test_weighted_round_robin() {
    let mut lb = LoadBalancer::new("web-lb", LoadBalancingAlgorithm::WeightedRoundRobin);
    lb.add_backend(Backend::new("web-1", IpAddress::V4(192, 168, 1, 10), 8080).with_weight(200));
    lb.add_backend(Backend::new("web-2", IpAddress::V4(192, 168, 1, 11), 8080).with_weight(100));

    let mut web1_count = 0;
    let mut web2_count = 0;
    for _ in 0..300 {
        if let Some(backend) = lb.select_backend(None) {
            if backend.name == "web-1" {
                web1_count += 1;
            } else if backend.name == "web-2" {
                web2_count += 1;
            }
        }
    }
    assert!(web1_count > web2_count);
}

#[test]
fn test_ip_hash_selection() {
    let mut lb = LoadBalancer::new("web-lb", LoadBalancingAlgorithm::IpHash);
    lb.add_backend(Backend::new("web-1", IpAddress::V4(192, 168, 1, 10), 8080));
    lb.add_backend(Backend::new("web-2", IpAddress::V4(192, 168, 1, 11), 8080));

    let client_ip = IpAddress::V4(203, 0, 113, 50);
    let selected1 = lb.select_backend(Some(client_ip));
    let selected2 = lb.select_backend(Some(client_ip));
    let selected3 = lb.select_backend(Some(client_ip));

    assert!(selected1.is_some());
    assert_eq!(selected1.as_ref().unwrap().id, selected2.as_ref().unwrap().id);
    assert_eq!(selected1.as_ref().unwrap().id, selected3.as_ref().unwrap().id);
}

#[test]
fn test_connection_tracking() {
    let mut lb = LoadBalancer::new("web-lb", LoadBalancingAlgorithm::RoundRobin);
    let id = lb.add_backend(Backend::new("web-1", IpAddress::V4(192, 168, 1, 10), 8080));

    lb.increment_connection(&id);
    lb.increment_connection(&id);

    let backend = lb.get_backend(&id).unwrap();
    assert_eq!(backend.active_connections, 2);
    assert_eq!(backend.total_connections, 2);

    lb.decrement_connection(&id);
    let backend = lb.get_backend(&id).unwrap();
    assert_eq!(backend.active_connections, 1);
}

#[test]
fn test_health_checks() {
    let mut lb = LoadBalancer::new("web-lb", LoadBalancingAlgorithm::RoundRobin);
    lb.add_backend(Backend::new("web-1", IpAddress::V4(192, 168, 1, 10), 8080));
    lb.add_backend(Backend::new("web-2", IpAddress::V4(192, 168, 1, 11), 8080));

    let results = lb.perform_health_checks();
    assert_eq!(results.total, 2);
    assert_eq!(results.checked.len(), 2);
}

#[test]
fn load_balancer_stats() {
    let mut lb = LoadBalancer::new("web-lb", LoadBalancingAlgorithm::RoundRobin);
    let id = lb.add_backend(Backend::new("web-1", IpAddress::V4(192, 168, 1, 10), 8080));
    lb.increment_connection(&id);

    let stats = lb.get_stats();
    assert_eq!(stats.total_backends, 1);
    assert_eq!(stats.healthy_backends, 1);
    assert_eq!(stats.active_connections, 1);
}

#[test]
fn test_nat_rule_creation() {
    let rule = NatRule::new("test-snat", NatType::Snat, IpAddress::V4(203, 0, 113, 1));

    assert_eq!(rule.name, "test-snat");
    assert_eq!(rule.nat_type, NatType::Snat);
    assert!(rule.enabled);
}

#[test]
fn test_nat_rule_builder() {
    let rule = NatRule::new("port-forward-ssh", NatType::PortForward, IpAddress::V4(192, 168, 1, 100))
        .with_dst_port(22)
        .with_translated_port(2222)
        .with_protocol("tcp")
        .with_interface("wan0");

    assert_eq!(rule.dst_port, Some(22));
    assert_eq!(rule.translated_port, Some(2222));
    assert_eq!(rule.protocol, Some("tcp".to_string()));
}

fn packet(dst_port: u16) -> PacketInfo {
    PacketInfo {
        src_addr: IpAddress::V4(203, 0, 113, 50),
        dst_addr: IpAddress::V4(203, 0, 113, 1),
        src_port: 54321,
        dst_port,
        protocol: "tcp".to_string(),
        interface: "wan0".to_string(),
    }
}

#[test]
fn test_packet_matching() {
    let rule = NatRule::new("test-match", NatType::Dnat, IpAddress::V4(192, 168, 1, 100))
        .with_dst_port(80)
        .with_protocol("tcp");
    assert!(rule.matches(&packet(80)));
}

#[test]
fn test_packet_no_match() {
    let rule = NatRule::new("test-no-match", NatType::Dnat, IpAddress::V4(192, 168, 1, 100))
        .with_dst_port(80)
        .with_protocol("tcp");
    assert!(!rule.matches(&packet(443)));
}

#[test]
fn test_nat_manager() {
    let mut manager = NatManager::new();
    let id = manager.add_rule(NatRule::new("test-rule", NatType::Snat, IpAddress::V4(203, 0, 113, 1)));
    assert!(manager.get_rule(&id).is_some());
    assert_eq!(manager.list_rules().len(), 1);
}

#[test]
fn test_apply_nat() {
    let mut manager = NatManager::new();
    let rule = NatRule::new("web-forward", NatType::PortForward, IpAddress::V4(192, 168, 1, 100))
        .with_dst_port(80)
        .with_translated_port(8080)
        .with_protocol("tcp");
    manager.add_rule(rule);

    let result = manager.apply_nat(&packet(80));
    assert!(result.is_some());
    let (addr, port) = result.unwrap();
    assert_eq!(addr, IpAddress::V4(192, 168, 1, 100));
    assert_eq!(port, Some(8080));
}

#[test]
fn test_session_creation() {
    let mut manager = NatManager::new();
    manager.add_rule(NatRule::new("test-session", NatType::Dnat, IpAddress::V4(192, 168, 1, 100)).with_dst_port(443));
    manager.apply_nat(&packet(443));
    assert_eq!(manager.get_sessions().len(), 1);
}

#[test]
fn nat_stats() {
    let mut manager = NatManager::new();
    manager.add_rule(NatRule::new("stats-test", NatType::Snat, IpAddress::V4(203, 0, 113, 1)));
    let stats = manager.get_stats();
    assert_eq!(stats.total_rules, 1);
    assert_eq!(stats.active_sessions, 0);
}

#[test]
fn health_check_counts_the_backends_that_pass() {
    let mut lb = LoadBalancer::new("web-lb", LoadBalancingAlgorithm::RoundRobin);
    lb.add_backend(Backend::new("web-1", IpAddress::V4(192, 168, 1, 10), 8080));
    let mut down = Backend::new("web-2", IpAddress::V4(192, 168, 1, 11), 8080);
    down.mark_unhealthy();
    lb.add_backend(down);
    lb.add_backend(Backend::new("web-3", IpAddress::V4(192, 168, 1, 12), 8080));

    let results = lb.perform_health_checks();
    assert_eq!(results.total, 3);
    assert_eq!(results.healthy, 2);
    assert_eq!(results.unhealthy, 1);
}
