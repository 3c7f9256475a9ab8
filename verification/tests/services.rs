use patronus::multicloud::aws::{AwsConfig, AwsConnector};
use patronus::multicloud::manager::{connection_key, CloudProvider};
use patronus::observability::dashboards::{GrafanaDashboard, PanelType};
use patronus::observability::tracing::{trace_id, Uuid};
use patronus::plugin::{PluginConfig, PluginMetadata};
use patronus::proxy::haproxy::{
    AccessControlList, AclCondition, Backend, BackendRule, BackendServer, BalanceAlgorithm, Frontend, HAProxyConfig,
    HAProxyManager, HealthCheck, ProxyMode,
};
use patronus::net::IpAddress;
use patronus::rl_optimizer::route_optimizer::{RouteAction, RouteState};
use patronus::saas::{SaaSPlatform, Subscription, SubscriptionTier, Tenant};

#[test]
fn test_ml_dashboard() {
    let dashboard = GrafanaDashboard::ml_dashboard();
    assert!(dashboard.title.contains("ML"));
    assert_eq!(dashboard.panels.len(), 3);
}

#[test]
fn network_overview_panels() {
    let dashboard = GrafanaDashboard::network_overview();
    assert_eq!(dashboard.title, "Patronus Network Overview");
    assert_eq!(dashboard.panels.len(), 4);
    assert_eq!(dashboard.panels[3].panel_type, PanelType::Stat);
    assert_eq!(dashboard.panels[2].targets, vec!["histogram_quantile(0.95, patronus_latency_ms)".to_string()]);
}

#[test]
fn trace_ids_are_nil() {
    assert_eq!(Uuid::new_v4(), "00000000-0000-0000-0000-000000000000");
    assert_eq!(trace_id(), "trace-00000000-0000-0000-0000-000000000000");
}

struct TestPlugin {
    metadata: PluginMetadata,
}

impl TestPlugin {
    fn new() -> Self {
        Self {
            metadata: PluginMetadata {
                name: "test-plugin".to_string(),
                version: "1.0.0".to_string(),
                author: "Test Author".to_string(),
                description: "A test plugin".to_string(),
            },
        }
    }

    fn metadata(&self) -> PluginMetadata {
        self.metadata.clone()
    }
}

#[test]
fn test_plugin_metadata() {
    let plugin = TestPlugin::new();
    let metadata = plugin.metadata();
    assert_eq!(metadata.name, "test-plugin");
    assert_eq!(metadata.version, "1.0.0");
}

#[test]
fn plugin_config_default() {
    let c = PluginConfig::default();
    assert!(c.enabled);
    assert!(c.settings.is_empty());
}

#[test]
fn test_route_action_creation() {
    let action = RouteAction::new("node2".to_string());
    assert_eq!(action.next_hop, "node2");
}

#[test]
fn tier_site_limits() {
    assert_eq!(SubscriptionTier::Free.max_sites(), 2);
    assert_eq!(SubscriptionTier::Starter.max_sites(), 10);
    assert_eq!(SubscriptionTier::Professional.max_sites(), 100);
    assert_eq!(SubscriptionTier::Enterprise.max_sites(), usize::MAX);
}

#[test]
fn test_subscription_creation() {
    let tenant_id = uuid::Uuid::new_v4().as_u128();
    let sub = Subscription::new(tenant_id, SubscriptionTier::Professional);
    assert_eq!(sub.tenant_id, tenant_id);
    assert_eq!(sub.tier, SubscriptionTier::Professional);
    assert!(sub.is_active());
    assert!(!sub.is_expired());
}

#[test]
fn test_tenant_creation() {
    let tenant = Tenant::new("Acme Corp".to_string(), "admin@acme.com".to_string());
    assert_eq!(tenant.name, "Acme Corp");
    assert_eq!(tenant.email, "admin@acme.com");
    assert!(tenant.subscription_id.is_none());
}

#[test]
fn saas_subscriptions_and_quota() {
    let mut p = SaaSPlatform::new();
    let t = p.create_tenant("Test Corp".to_string(), "t@example.com".to_string());
    assert_eq!(p.get_tenant(&t).unwrap().name, "Test Corp");
    assert!(p.create_subscription(1u128, SubscriptionTier::Free).is_none());
    let sid = p.create_subscription(t, SubscriptionTier::Starter).unwrap();
    assert_eq!(p.get_subscription(&sid).unwrap().tier, SubscriptionTier::Starter);
    assert_eq!(p.quota_tier_at(&t, 0), Some(SubscriptionTier::Starter));
    assert!(p.check_sites_at(&t, 10, 0));
    assert!(!p.check_sites_at(&t, 11, 0));
    assert!(p.upgrade_subscription(&sid, SubscriptionTier::Professional));
    assert!(p.check_sites_at(&t, 50, 0));
    let stats = p.platform_stats_at(0);
    assert_eq!(stats.total_tenants, 1);
    assert_eq!(stats.active_subscriptions, 1);
    assert_eq!(stats.tier_distribution, vec![("Professional".to_string(), 1)]);
    assert_eq!(p.list_active_tenants_at(0).len(), 1);
    assert!(p.cancel_subscription(&sid));
    assert!(!p.get_subscription(&sid).unwrap().is_active());
    assert_eq!(p.quota_tier_at(&t, 0), None);
    assert!(p.list_active_tenants_at(0).is_empty());
    assert!(!p.cancel_subscription(&7u128));
    assert!(!p.upgrade_subscription(&7u128, SubscriptionTier::Free));
}

#[test]
fn saas_expiry() {
    let mut s = Subscription::new(1, SubscriptionTier::Free);
    s.expires_at = Some(100);
    assert!(!s.is_expired_at(100));
    assert!(s.is_expired_at(101));
    assert!(s.is_active_at(50));
    assert!(!s.is_active_at(500));
}

fn server(name: &str, last: u8) -> BackendServer {
    BackendServer {
        id: name.to_string(),
        name: name.to_string(),
        address: IpAddress::V4(10, 0, 0, last),
        port: 8080,
        weight: 100,
        max_conn: None,
        backup: false,
        check: HealthCheck::default(),
        ssl: false,
        send_proxy: false,
        enabled: true,
    }
}

#[test]
fn haproxy_configuration_text() {
    let mut c = HAProxyConfig::default();
    c.stats.enabled = false;
    c.frontends.push(Frontend {
        id: "f".to_string(),
        name: "web".to_string(),
        bind_address: IpAddress::V4(0, 0, 0, 0),
        bind_port: 80,
        mode: ProxyMode::HTTP,
        default_backend: "app".to_string(),
        ssl: false,
        ssl_cert: None,
        ssl_key: None,
        ssl_ca: None,
        force_https: true,
        max_conn: Some(500),
        rate_limit: None,
        client_timeout: 30,
        connect_timeout: 5,
        acls: vec![AccessControlList { name: "is_api".to_string(), condition: AclCondition::PathBegins("/api".to_string()) }],
        use_backend_rules: vec![BackendRule { acl_name: "is_api".to_string(), backend_name: "api".to_string(), negate: true }],
        xff_enabled: false,
        compression: false,
        http2_enabled: false,
        enabled: true,
    });
    let mut second = server("s2", 3);
    second.weight = 50;
    second.backup = true;
    second.check.check_port = Some(9000);
    let mut off = server("s3", 4);
    off.enabled = false;
    c.backends.push(Backend {
        id: "b".to_string(),
        name: "app".to_string(),
        mode: ProxyMode::HTTP,
        balance: BalanceAlgorithm::LeastConn,
        servers: vec![server("s1", 2), second, off],
        sticky_session: true,
        cookie_name: Some("SRV".to_string()),
        server_timeout: 30,
        connect_timeout: 5,
        forwardfor: true,
        httpclose: false,
        enabled: true,
    });
    let m = HAProxyManager::new(c);
    let text = m.generate_config();
    assert!(text.starts_with("# HAProxy Configuration\n# Generated by Patronus\n\nglobal\n    maxconn 10000\n    log /dev/log local0 Info\n    nbthread 4\n"));
    assert!(!text.contains("listen stats"));
    let frontend = "frontend web\n    bind 0.0.0.0:80\n    mode http\n    timeout client 30s\n    maxconn 500\n    redirect scheme https code 301 if !{ ssl_fc }\n    acl is_api path_beg /api\n    use_backend api if !is_api\n    default_backend app\n\n";
    assert!(text.contains(frontend));
    let backend = "backend app\n    mode http\n    balance leastconn\n    timeout server 30s\n    timeout connect 5s\n    option forwardfor\n    cookie SRV insert indirect nocache\n    server s1 10.0.0.2:8080 check inter 2s rise 2 fall 3\n    server s2 10.0.0.3:8080 weight 50 backup check inter 2s rise 2 fall 3 port 9000\n\n";
    assert!(text.ends_with(backend));
    assert_eq!(
        m.generate_acl(&AccessControlList { name: "h".to_string(), condition: AclCondition::HeaderExists("X-A".to_string()) }),
        "    acl h hdr_cnt(X-A) gt 0\n"
    );
    assert_eq!(m.server_maint_command("app", "s1", true), "set server app/s1 state maint");
    assert_eq!(m.validate_args(), vec!["-c", "-f", "/etc/haproxy/haproxy.cfg"]);
}

#[test]
fn haproxy_stats_section() {
    let m = HAProxyManager::new(HAProxyConfig::default());
    let text = m.generate_config();
    assert!(text.contains("listen stats\n    bind 127.0.0.1:8404\n    mode http\n    stats enable\n    stats uri /stats\n    stats refresh 5s\n    stats auth admin:changeme\n    stats admin if TRUE\n\n"));
}

#[test]
fn multicloud_keys_and_connectors() {
    assert_eq!(connection_key(CloudProvider::AWS, "us-east-1"), "AWS_us-east-1");
    let c = AwsConnector::new(AwsConfig {
        access_key_id: "k".to_string(),
        secret_access_key: "s".to_string(),
        region: "us-east-1".to_string(),
        vpc_id: "vpc-12345".to_string(),
        transit_gateway_id: Some("abc".to_string()),
    });
    assert_eq!(c.config().vpc_id, "vpc-12345");
    assert_eq!(c.transit_gateway_vpc_id(), Some("tgw-abc".to_string()));
}

#[test]
fn route_state_index_lookup() {
    let s = |n: &str, d: &str, q: u8| RouteState { current_node: n.to_string(), destination: d.to_string(), quality_bucket: q };
    let table = vec![(s("a", "z", 5), 0usize), (s("b", "z", 5), 1), (s("a", "z", 7), 2)];
    assert_eq!(s("b", "z", 5).to_index(&table), Some(1));
    assert_eq!(s("a", "z", 7).to_index(&table), Some(2));
    assert_eq!(s("a", "y", 5).to_index(&table), None);
}
