use patronus::network::dns::{DnsMode, UnboundConfig, UnboundManager};
use patronus::network::ha::{HaBackend, HaCluster, HaManager, HaRole};
use patronus::network::ipsec::{IpsecManager, IpsecTunnelConfig};
use patronus::network::openvpn::{
    OpenVpnAuth, OpenVpnCipher, OpenVpnClientConfig, OpenVpnManager, OpenVpnProtocol, OpenVpnServerConfig,
};
use patronus::network_functions::waf::{HttpRequest, WafAction, WafRule, WafRuleType};

#[test]
fn test_config_generation() {
    let manager = UnboundManager::new();
    let config = UnboundConfig::default();

    let conf = manager.generate_config(&config).unwrap();

    assert!(conf.contains("server:"));
    assert!(conf.contains("interface:"));
    assert!(conf.contains("port: 53"));
}

#[test]
fn test_forwarder_config() {
    let manager = UnboundManager::new();
    let mut config = UnboundConfig::default();
    config.mode = DnsMode::Forwarder;
    config.forward_tls = true;
    config.forward_tls_name = Some("cloudflare-dns.com".to_string());

    let conf = manager.generate_config(&config).unwrap();

    assert!(conf.contains("forward-zone:"));
    assert!(conf.contains("forward-tls-upstream: yes"));
}

#[test]
fn test_cluster_config() {
    let cluster = HaCluster::default();
    assert_eq!(cluster.role, HaRole::Master);
    assert!(cluster.enabled);
}

#[test]
fn test_keepalived_config_generation() {
    let manager = HaManager::new(HaBackend::Keepalived);
    let cluster = HaCluster::default();

    let config = manager.generate_keepalived_config(&cluster).unwrap();
    assert!(config.contains("vrrp_instance"));
    assert!(config.contains("virtual_ipaddress"));
}

#[test]
fn test_tunnel_config_generation() {
    let manager = IpsecManager::new();
    let config = IpsecTunnelConfig::default();

    let conf = manager.generate_tunnel_config(&config).unwrap();

    assert!(conf.contains("conn tunnel1"));
    assert!(conf.contains("keyexchange=ikev2"));
    assert!(conf.contains("auto=start"));
}

#[test]
fn test_server_config_generation() {
    let manager = OpenVpnManager::new();
    let config = OpenVpnServerConfig::default();

    let conf = manager.generate_server_config(&config).unwrap();

    assert!(conf.contains("mode server"));
    assert!(conf.contains("proto udp"));
    assert!(conf.contains("port 1194"));
}

#[test]
fn test_client_config_generation() {
    let manager = OpenVpnManager::new();
    let config = OpenVpnClientConfig {
        name: "client1".to_string(),
        enabled: true,
        remote_host: "vpn.example.com".to_string(),
        remote_port: 1194,
        protocol: OpenVpnProtocol::Udp,
        device: "tun".to_string(),
        cipher: OpenVpnCipher::Aes256Gcm,
        auth: OpenVpnAuth::Sha256,
        compression: false,
        verify_x509_name: Some("vpn.example.com".to_string()),
        ca_cert_path: "/etc/patronus/openvpn/ca.crt".to_string(),
        client_cert_path: "/etc/patronus/openvpn/client.crt".to_string(),
        client_key_path: "/etc/patronus/openvpn/client.key".to_string(),
        tls_auth: false,
        tls_crypt: true,
        tls_key_path: Some("/etc/patronus/openvpn/ta.key".to_string()),
    };

    let conf = manager.generate_client_config(&config).unwrap();

    assert!(conf.contains("client"));
    assert!(conf.contains("remote vpn.example.com 1194"));
}

#[test]
fn test_waf_rule_creation() {
    let rule = WafRule::new("SQL Injection", WafRuleType::SqlInjection, r"union.*select", WafAction::Block);

    assert_eq!(rule.name, "SQL Injection");
    assert_eq!(rule.rule_type, WafRuleType::SqlInjection);
    assert_eq!(rule.action, WafAction::Block);
    assert!(rule.enabled);
}

#[test]
fn test_sql_injection_detection() {
    let rule = WafRule::new(
        "SQL Injection",
        WafRuleType::SqlInjection,
        r"(?i)(union.*select|select.*from)",
        WafAction::Block,
    );

    let headers = vec![("User-Agent".to_string(), "Mozilla/5.0".to_string())];

    let malicious_request = HttpRequest {
        method: "GET".to_string(),
        url: "/search?q=1' UNION SELECT * FROM users--".to_string(),
        headers: headers.clone(),
        body: None,
        client_ip: "203.0.113.50".to_string(),
    };

    assert!(rule.matches(&malicious_request));

    let safe_request = HttpRequest {
        method: "GET".to_string(),
        url: "/search?q=normal search".to_string(),
        headers,
        body: None,
        client_ip: "203.0.113.50".to_string(),
    };

    assert!(!rule.matches(&safe_request));
}

#[test]
fn test_xss_detection() {
    let rule = WafRule::new(
        "XSS Detection",
        WafRuleType::CrossSiteScripting,
        r"(?i)(<script|javascript:|onerror=)",
        WafAction::Block,
    );

    let xss_request = HttpRequest {
        method: "POST".to_string(),
        url: "/comment".to_string(),
        headers: vec![],
        body: Some("<script>alert('XSS')</script>".to_string()),
        client_ip: "203.0.113.50".to_string(),
    };

    assert!(rule.matches(&xss_request));
}

#[test]
fn test_path_traversal_detection() {
    let rule = WafRule::new("Path Traversal", WafRuleType::PathTraversal, r"(\.\./|\.\\.)", WafAction::Block);

    let traversal_request = HttpRequest {
        method: "GET".to_string(),
        url: "/download?file=../../../etc/passwd".to_string(),
        headers: vec![],
        body: None,
        client_ip: "203.0.113.50".to_string(),
    };

    assert!(rule.matches(&traversal_request));
}
