use patronus::multitenancy::isolation::{IsolationManager, QuotaError, ResourceQuota};

#[test]
fn test_quota_enforcement() {
    let mut manager = IsolationManager::new();
    let org_id = uuid::Uuid::new_v4().as_u128();

    let quota = ResourceQuota { max_sites: Some(5), max_tunnels: Some(10), max_bandwidth_mbps: Some(100), max_users: Some(10) };

    manager.set_quota(org_id, quota);

    assert!(manager.increment_sites(org_id, 3).is_ok());
    assert!(manager.increment_sites(org_id, 3).is_err());
    assert!(manager.increment_sites(org_id, 2).is_ok());
}

#[test]
fn test_unlimited_quota() {
    let mut manager = IsolationManager::new();
    let org_id = uuid::Uuid::new_v4().as_u128();

    manager.set_quota(org_id, ResourceQuota::unlimited());

    assert!(manager.increment_sites(org_id, 1000).is_ok());
    assert!(manager.increment_tunnels(org_id, 1000).is_ok());
    assert!(manager.increment_users(org_id, 1000).is_ok());
}

#[test]
fn test_usage_tracking() {
    let mut manager = IsolationManager::new();
    let org_id = uuid::Uuid::new_v4().as_u128();

    let quota = ResourceQuota { max_sites: Some(100), max_tunnels: Some(100), max_bandwidth_mbps: Some(1000), max_users: Some(100) };

    manager.set_quota(org_id, quota);

    manager.increment_sites(org_id, 5).unwrap();
    manager.increment_tunnels(org_id, 10).unwrap();
    manager.increment_users(org_id, 3).unwrap();

    let usage = manager.get_usage(&org_id);
    assert_eq!(usage.sites, 5);
    assert_eq!(usage.tunnels, 10);
    assert_eq!(usage.users, 3);
}

#[test]
fn test_decrement() {
    let mut manager = IsolationManager::new();
    let org_id = uuid::Uuid::new_v4().as_u128();

    let quota = ResourceQuota { max_sites: Some(10), max_tunnels: Some(10), max_bandwidth_mbps: Some(100), max_users: Some(10) };

    manager.set_quota(org_id, quota);

    manager.increment_sites(org_id, 5).unwrap();
    manager.decrement_sites(org_id, 2);

    let usage = manager.get_usage(&org_id);
    assert_eq!(usage.sites, 3);

    assert!(manager.increment_sites(org_id, 5).is_ok());
}

#[test]
fn quota_errors() {
    let mut manager = IsolationManager::new();
    assert_eq!(manager.increment_sites(7, 1), Err(QuotaError::NoQuotaSet));
    manager.set_quota(7, ResourceQuota { max_sites: Some(1), max_tunnels: None, max_bandwidth_mbps: Some(10), max_users: None });
    assert!(matches!(manager.increment_sites(7, 2), Err(QuotaError::QuotaExceeded { requested: 2, max: Some(1), .. })));
    assert!(matches!(manager.set_bandwidth(7, 11), Err(QuotaError::BandwidthExceedsQuota { bandwidth: 11, limit: 10 })));
    assert!(manager.set_bandwidth(7, 10).is_ok());
}
