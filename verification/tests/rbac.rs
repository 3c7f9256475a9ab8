use patronus::ids::new_v4;
use patronus::multitenancy::rbac::{Permission, RbacError, RbacManager, Role, User};

#[test]
fn test_role_creation() {
    let org_id = new_v4();
    let role = Role::viewer(org_id);

    assert_eq!(role.name, "viewer");
    assert!(role.has_permission(&Permission::SiteRead));
    assert!(!role.has_permission(&Permission::SiteWrite));
}

#[test]
fn test_admin_has_all_permissions() {
    let org_id = new_v4();
    let admin = Role::admin(org_id);

    assert!(admin.has_permission(&Permission::SiteRead));
    assert!(admin.has_permission(&Permission::SiteWrite));
    assert!(admin.has_permission(&Permission::UserDelete));
    assert!(admin.has_permission(&Permission::AdminAll));
}

#[test]
fn test_user_role_assignment() {
    let mut manager = RbacManager::new();
    let org_id = new_v4();

    let viewer = Role::viewer(org_id);
    let viewer_id = viewer.id;
    manager.create_role(viewer).unwrap();

    let user = User::new("alice", "alice@example.com", org_id).with_role(viewer_id);
    let user_id = user.id;
    manager.create_user(user).unwrap();

    assert!(manager.check_permission(&user_id, &Permission::SiteRead));
    assert!(!manager.check_permission(&user_id, &Permission::SiteWrite));
}

#[test]
fn test_multiple_roles() {
    let mut manager = RbacManager::new();
    let org_id = new_v4();

    let viewer = Role::viewer(org_id);
    let viewer_id = viewer.id;
    manager.create_role(viewer).unwrap();

    let operator = Role::operator(org_id);
    let operator_id = operator.id;
    manager.create_role(operator).unwrap();

    let user = User::new("bob", "bob@example.com", org_id)
        .with_role(viewer_id)
        .with_role(operator_id);
    let user_id = user.id;
    manager.create_user(user).unwrap();

    assert!(manager.check_permission(&user_id, &Permission::SiteRead));
    assert!(manager.check_permission(&user_id, &Permission::SiteWrite));
    assert!(!manager.check_permission(&user_id, &Permission::SiteDelete));
}

#[test]
fn test_cross_org_role_assignment_fails() {
    let mut manager = RbacManager::new();
    let org1 = new_v4();
    let org2 = new_v4();

    let role = Role::viewer(org1);
    let role_id = role.id;
    manager.create_role(role).unwrap();

    let user = User::new("charlie", "charlie@example.com", org2).with_role(role_id);

    let result = manager.create_user(user);
    assert!(result.is_err());
}

#[test]
fn test_get_user_permissions() {
    let mut manager = RbacManager::new();
    let org_id = new_v4();

    let operator = Role::operator(org_id);
    let operator_id = operator.id;
    manager.create_role(operator).unwrap();

    let user = User::new("dave", "dave@example.com", org_id).with_role(operator_id);
    let user_id = user.id;
    manager.create_user(user).unwrap();

    let permissions = manager.get_user_permissions(&user_id);
    assert!(permissions.contains(&Permission::SiteRead));
    assert!(permissions.contains(&Permission::SiteWrite));
    assert!(permissions.contains(&Permission::PolicyWrite));
    assert!(!permissions.contains(&Permission::UserDelete));
}

#[test]
fn rbac_unknown_role_is_reported() {
    let mut manager = RbacManager::new();
    let org = 7u128;
    let user = User::new("erin", "erin@example.com", org).with_role(99);
    assert_eq!(manager.create_user(user), Err(RbacError::RoleNotFound(99)));
}

#[test]
fn rbac_org_mismatch_is_reported() {
    let mut manager = RbacManager::new();
    let mut role = Role::viewer(1);
    role.id = 10;
    manager.create_role(role).unwrap();
    let user = User::new("frank", "frank@example.com", 2).with_role(10);
    assert_eq!(
        manager.create_user(user),
        Err(RbacError::RoleOrgMismatch { role_id: 10, org_id: 2 })
    );
}

#[test]
fn rbac_assign_role_errors_and_dedup() {
    let mut manager = RbacManager::new();
    assert_eq!(manager.assign_role(&1, &2), Err(RbacError::UserNotFound));
    let mut user = User::new("gina", "gina@example.com", 5);
    user.id = 1;
    manager.create_user(user).unwrap();
    assert_eq!(manager.assign_role(&1, &2), Err(RbacError::RoleNotFound(2)));
    let mut other = Role::operator(6);
    other.id = 3;
    manager.create_role(other).unwrap();
    assert_eq!(
        manager.assign_role(&1, &3),
        Err(RbacError::RoleOrgMismatch { role_id: 3, org_id: 5 })
    );
    let mut role = Role::operator(5);
    role.id = 2;
    manager.create_role(role).unwrap();
    assert_eq!(manager.assign_role(&1, &2), Ok(()));
    assert_eq!(manager.assign_role(&1, &2), Ok(()));
    assert!(manager.check_permission(&1, &Permission::TunnelWrite));
    let users = manager.get_org_users(&5);
    assert_eq!(users.len(), 1);
    assert_eq!(users[0].role_ids, vec![2]);
}

#[test]
fn rbac_admin_permissions_collapse_to_admin_all() {
    let mut manager = RbacManager::new();
    let mut admin = Role::admin(1);
    admin.id = 100;
    let mut viewer = Role::viewer(1);
    viewer.id = 101;
    manager.create_role(viewer).unwrap();
    manager.create_role(admin).unwrap();
    let mut user = User::new("hal", "hal@example.com", 1).with_role(101).with_role(100);
    user.id = 42;
    manager.create_user(user).unwrap();
    assert_eq!(manager.get_user_permissions(&42), vec![Permission::AdminAll]);
    assert!(manager.check_permission(&42, &Permission::OrgDelete));
    assert!(manager.get_user_permissions(&43).is_empty());
    let roles = manager.get_org_roles(&1);
    assert_eq!(roles.len(), 2);
    assert_eq!(roles[0].id, 101);
    assert_eq!(roles[1].id, 100);
}

#[test]
fn rbac_check_agrees_with_effective_permissions() {
    let mut manager = RbacManager::new();
    let mut op = Role::operator(3);
    op.id = 1;
    manager.create_role(op).unwrap();
    let mut user = User::new("ivy", "ivy@example.com", 3).with_role(1);
    user.id = 9;
    manager.create_user(user).unwrap();
    let perms = manager.get_user_permissions(&9);
    for p in [
        Permission::SiteRead,
        Permission::SiteWrite,
        Permission::SiteDelete,
        Permission::UserRead,
        Permission::OrgRead,
        Permission::PolicyWrite,
    ] {
        assert_eq!(
            manager.check_permission(&9, &p),
            perms.contains(&p) || perms.contains(&Permission::AdminAll)
        );
    }
}

#[test]
fn role_with_permissions_ignores_duplicates() {
    let r = Role::new("custom", "desc", 1)
        .with_permission(Permission::SiteRead)
        .with_permissions(vec![Permission::SiteRead, Permission::TunnelRead]);
    assert_eq!(r.permissions.len(), 2);
    assert!(r.has_permission(&Permission::TunnelRead));
    assert!(!r.has_permission(&Permission::AdminAll));
}
