use patronus::multitenancy::organization::{
    quota_for_tier, OrgError, Organization, OrganizationManager, ResourceQuota, SubscriptionTier,
};

#[test]
fn test_organization_creation() {
    let org = Organization::new("acme", "Acme Corporation").with_tier(SubscriptionTier::Professional);

    assert_eq!(org.name, "acme");
    assert_eq!(org.display_name, "Acme Corporation");
    assert_eq!(org.subscription_tier, SubscriptionTier::Professional);
    assert_eq!(org.quota.max_sites, Some(100));
}

#[test]
fn test_organization_hierarchy() {
    let mut manager = OrganizationManager::new();

    let parent = Organization::new("parent", "Parent Org").with_tier(SubscriptionTier::Enterprise);
    let parent_id = parent.id;
    manager.create_organization(parent).unwrap();

    let child = Organization::new("child", "Child Org").with_parent(parent_id);
    let child_id = child.id;
    manager.create_organization(child).unwrap();

    let children = manager.get_children(&parent_id);
    assert_eq!(children.len(), 1);
    assert_eq!(children[0].id, child_id);

    let hierarchy = manager.get_hierarchy(&parent_id);
    assert_eq!(hierarchy.len(), 2);
}

#[test]
fn test_tier_upgrade() {
    let mut manager = OrganizationManager::new();

    let org = Organization::new("test", "Test Org");
    let org_id = org.id;
    manager.create_organization(org).unwrap();

    manager.update_tier(&org_id, SubscriptionTier::Enterprise).unwrap();

    let updated = manager.get_organization(&org_id).unwrap();
    assert_eq!(updated.subscription_tier, SubscriptionTier::Enterprise);
    assert!(updated.quota.max_sites.is_none());
}

#[test]
fn test_cannot_delete_with_children() {
    let mut manager = OrganizationManager::new();

    let parent = Organization::new("parent", "Parent");
    let parent_id = parent.id;
    manager.create_organization(parent).unwrap();

    let child = Organization::new("child", "Child").with_parent(parent_id);
    manager.create_organization(child).unwrap();

    let result = manager.delete_organization(&parent_id);
    assert!(result.is_err());
}

#[test]
fn tier_quotas() {
    assert_eq!(ResourceQuota::default(), quota_for_tier(SubscriptionTier::Free));
    let s = quota_for_tier(SubscriptionTier::Starter);
    assert_eq!((s.max_sites, s.max_tunnels, s.max_bandwidth_mbps, s.max_users), (Some(20), Some(50), Some(500), Some(50)));
    let f = quota_for_tier(SubscriptionTier::Free);
    assert_eq!((f.max_sites, f.max_tunnels, f.max_bandwidth_mbps, f.max_users), (Some(5), Some(10), Some(100), Some(10)));
}

#[test]
fn hierarchy_visits_children_last_listed_first() {
    let mut m = OrganizationManager::new();
    let root = Organization::new("root", "Root");
    let root_id = root.id;
    m.create_organization(root).unwrap();
    let a = Organization::new("a", "A").with_parent(root_id);
    let a_id = a.id;
    m.create_organization(a).unwrap();
    let b = Organization::new("b", "B").with_parent(root_id);
    m.create_organization(b).unwrap();
    let a1 = Organization::new("a1", "A1").with_parent(a_id);
    m.create_organization(a1).unwrap();
    let names: Vec<String> = m.get_hierarchy(&root_id).iter().map(|o| o.name.clone()).collect();
    assert_eq!(names, vec!["root", "b", "a", "a1"]);
    assert!(m.get_hierarchy(&12345u128).is_empty());
}

#[test]
fn delete_takes_the_child_off_its_parent() {
    let mut m = OrganizationManager::new();
    let p = Organization::new("p", "P");
    let p_id = p.id;
    m.create_organization(p).unwrap();
    let c = Organization::new("c", "C").with_parent(p_id);
    let c_id = c.id;
    m.create_organization(c).unwrap();
    assert!(m.get_organization(&c_id).unwrap().is_child_of(&p_id));
    assert_eq!(m.delete_organization(&c_id), Ok(()));
    assert!(m.get_organization(&c_id).is_none());
    assert!(m.get_children(&p_id).is_empty());
    assert_eq!(m.delete_organization(&p_id), Ok(()));
}

#[test]
fn org_errors() {
    let mut m = OrganizationManager::new();
    assert_eq!(m.update_tier(&1u128, SubscriptionTier::Starter), Err(OrgError::NotFound));
    assert_eq!(OrgError::NotFound.message(), "Organization not found");
    assert_eq!(OrgError::HasChildren.message(), "Cannot delete organization with children");
    let o = Organization::new("x", "X");
    let id = o.id;
    m.create_organization(o).unwrap();
    assert_eq!(m.update_tier_at(&id, SubscriptionTier::Starter, 77), Ok(()));
    let u = m.get_organization(&id).unwrap();
    assert_eq!(u.updated_at, 77);
    assert_eq!(u.quota.max_users, Some(50));
}
