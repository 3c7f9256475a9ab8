use patronus::mpls::{LabelSwitchedPath, MplsLabel, MplsManager, MplsServiceClass, ProviderConnection};

#[test]
fn test_service_class_priority() {
    assert_eq!(MplsServiceClass::RealTime.priority(), 1);
    assert_eq!(MplsServiceClass::Business.priority(), 2);
    assert_eq!(MplsServiceClass::BestEffort.priority(), 3);
}

#[test]
fn test_mpls_label_creation() {
    let label = MplsLabel::new(12345, 5, 64);
    assert_eq!(label.label, 12345);
    assert_eq!(label.exp, 5);
    assert_eq!(label.ttl, 64);
}

#[test]
fn test_mpls_label_masking() {
    let label = MplsLabel::new(0xFFFFFFFF, 0xFF, 64);
    assert_eq!(label.label, 0xFFFFF);
    assert_eq!(label.exp, 0x7);
}

#[test]
fn mpls_label_keeps_low_bits_only() {
    let label = MplsLabel::new(0x12345678, 0x0D, 1);
    assert_eq!(label.label, 0x45678);
    assert_eq!(label.exp, 5);
    let again = MplsLabel::new(label.label, label.exp, label.ttl);
    assert_eq!(again, label);
}

#[test]
fn test_lsp_creation() {
    let lsp = LabelSwitchedPath::new(
        "lsp-1".to_string(),
        "router1".to_string(),
        "router2".to_string(),
        1000.0,
        MplsServiceClass::Business,
    );

    assert_eq!(lsp.name, "lsp-1");
    assert_eq!(lsp.ingress_router, "router1");
    assert_eq!(lsp.egress_router, "router2");
    assert!(!lsp.active);
}

#[test]
fn test_lsp_label_stack() {
    let mut lsp = LabelSwitchedPath::new(
        "test".to_string(),
        "r1".to_string(),
        "r2".to_string(),
        100.0,
        MplsServiceClass::RealTime,
    );

    lsp.push_label(MplsLabel::new(100, 1, 64));
    lsp.push_label(MplsLabel::new(200, 2, 64));

    assert_eq!(lsp.labels.len(), 2);

    let popped = lsp.pop_label();
    assert!(popped.is_some());
    assert_eq!(popped.unwrap().label, 200);
    assert_eq!(lsp.labels.len(), 1);
}

#[test]
fn test_provider_connection_creation() {
    let conn = ProviderConnection::new(
        "AT&T".to_string(),
        "CIRCUIT-12345".to_string(),
        10000.0,
        "192.168.1.1".to_string(),
    );

    assert_eq!(conn.provider_name, "AT&T");
    assert_eq!(conn.circuit_id, "CIRCUIT-12345");
    assert!(!conn.connected);
}

#[test]
fn test_mpls_manager_create_lsp() {
    let mut manager = MplsManager::new();

    let lsp_id = manager.create_lsp(
        "test-lsp".to_string(),
        "r1".to_string(),
        "r2".to_string(),
        1000.0,
        MplsServiceClass::Business,
    );

    let lsp = manager.get_lsp(&lsp_id);
    assert!(lsp.is_some());
    assert_eq!(lsp.unwrap().name, "test-lsp");
}

#[test]
fn test_activate_lsp() {
    let mut manager = MplsManager::new();
    let lsp_id = manager.create_lsp("test".to_string(), "r1".to_string(), "r2".to_string(), 1000.0, MplsServiceClass::RealTime);

    assert!(manager.activate_lsp(&lsp_id));

    let lsp = manager.get_lsp(&lsp_id).unwrap();
    assert!(lsp.active);
}

#[test]
fn test_add_label_to_lsp() {
    let mut manager = MplsManager::new();
    let lsp_id = manager.create_lsp("test".to_string(), "r1".to_string(), "r2".to_string(), 1000.0, MplsServiceClass::Business);

    let label = MplsLabel::new(12345, 3, 64);
    assert!(manager.add_label_to_lsp(&lsp_id, label));

    let lsp = manager.get_lsp(&lsp_id).unwrap();
    assert_eq!(lsp.labels.len(), 1);
    assert_eq!(lsp.labels[0].label, 12345);
}

#[test]
fn test_list_active_lsps() {
    let mut manager = MplsManager::new();

    let lsp1 = manager.create_lsp("lsp1".to_string(), "r1".to_string(), "r2".to_string(), 1000.0, MplsServiceClass::RealTime);
    let _lsp2 = manager.create_lsp("lsp2".to_string(), "r2".to_string(), "r3".to_string(), 2000.0, MplsServiceClass::Business);

    manager.activate_lsp(&lsp1);

    let active = manager.list_active_lsps();
    assert_eq!(active.len(), 1);
    assert_eq!(active[0].name, "lsp1");
}

#[test]
fn test_get_lsps_by_service_class() {
    let mut manager = MplsManager::new();

    manager.create_lsp("rt1".to_string(), "r1".to_string(), "r2".to_string(), 1000.0, MplsServiceClass::RealTime);
    manager.create_lsp("biz1".to_string(), "r2".to_string(), "r3".to_string(), 2000.0, MplsServiceClass::Business);
    manager.create_lsp("rt2".to_string(), "r3".to_string(), "r4".to_string(), 1500.0, MplsServiceClass::RealTime);

    let realtime = manager.get_lsps_by_service_class(&MplsServiceClass::RealTime);
    assert_eq!(realtime.len(), 2);
}

#[test]
fn test_register_provider_connection() {
    let mut manager = MplsManager::new();

    let conn = ProviderConnection::new("Verizon".to_string(), "VZ-123".to_string(), 5000.0, "10.0.0.1".to_string());
    let conn_id = conn.id;

    manager.register_provider_connection(conn);

    let retrieved = manager.get_connection(&conn_id);
    assert!(retrieved.is_some());
    assert_eq!(retrieved.unwrap().provider_name, "Verizon");
}

#[test]
fn test_connect_disconnect_provider() {
    let mut manager = MplsManager::new();

    let conn = ProviderConnection::new("CenturyLink".to_string(), "CL-456".to_string(), 10000.0, "10.1.1.1".to_string());
    let conn_id = conn.id;

    manager.register_provider_connection(conn);

    assert!(manager.connect_provider(&conn_id));
    let conn = manager.get_connection(&conn_id).unwrap();
    assert!(conn.connected);

    assert!(manager.disconnect_provider(&conn_id));
    let conn = manager.get_connection(&conn_id).unwrap();
    assert!(!conn.connected);
}

#[test]
fn test_list_connected_providers() {
    let mut manager = MplsManager::new();

    let conn1 = ProviderConnection::new("Provider1".to_string(), "P1-001".to_string(), 1000.0, "10.0.0.1".to_string());
    let id1 = conn1.id;
    let conn2 = ProviderConnection::new("Provider2".to_string(), "P2-002".to_string(), 2000.0, "10.0.0.2".to_string());

    manager.register_provider_connection(conn1);
    manager.register_provider_connection(conn2);

    manager.connect_provider(&id1);

    let connected = manager.list_connected_providers();
    assert_eq!(connected.len(), 1);
    assert_eq!(connected[0].provider_name, "Provider1");
}

#[test]
fn unknown_paths_and_circuits_are_reported() {
    let mut manager: MplsManager<f64> = MplsManager::default();
    assert!(!manager.activate_lsp(&1));
    assert!(!manager.deactivate_lsp(&1));
    assert!(!manager.add_label_to_lsp(&1, MplsLabel::new(1, 0, 1)));
    assert!(!manager.connect_provider(&1));
    assert!(!manager.disconnect_provider(&1));
    assert!(manager.get_lsp(&1).is_none());
    assert!(manager.get_connection(&1).is_none());
    assert!(manager.list_active_lsps().is_empty());
}

#[test]
fn deactivating_undoes_activating() {
    let mut manager = MplsManager::new();
    let id = manager.create_lsp("p".to_string(), "a".to_string(), "b".to_string(), 10.0, MplsServiceClass::BestEffort);
    assert!(manager.activate_lsp(&id));
    assert_eq!(manager.list_active_lsps().len(), 1);
    assert!(manager.deactivate_lsp(&id));
    assert!(manager.list_active_lsps().is_empty());
    let lsp = manager.get_lsp(&id).unwrap();
    assert!(!lsp.active);
    assert_eq!(lsp.bandwidth_mbps, 10.0);
    assert_eq!(lsp.service_class, MplsServiceClass::BestEffort);
}

#[test]
fn pop_on_an_empty_stack_gives_nothing() {
    let mut lsp = LabelSwitchedPath::new("p".to_string(), "a".to_string(), "b".to_string(), 1u32, MplsServiceClass::Business);
    assert!(lsp.pop_label().is_none());
    assert!(lsp.labels.is_empty());
}
