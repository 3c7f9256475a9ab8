use patronus::multicloud::aws::{AwsConfig, AwsConnector, ConnectError};
use patronus::multicloud::azure::{AzureConfig, AzureConnector};
use patronus::multicloud::gcp::{GcpConfig, GcpConnector};
use patronus::multicloud::manager::{CloudConnection, CloudProvider, MultiCloudManager};

fn aws_config(transit_gateway_id: Option<String>) -> AwsConfig {
    AwsConfig {
        access_key_id: "test_key".to_string(),
        secret_access_key: "test_secret".to_string(),
        region: "us-east-1".to_string(),
        vpc_id: "vpc-12345".to_string(),
        transit_gateway_id,
    }
}

fn connection(provider: CloudProvider, region: &str, vpc_id: &str, tunnel_id: u32, latency_ms: f64) -> CloudConnection<f64> {
    CloudConnection {
        provider,
        region: region.to_string(),
        vpc_id: vpc_id.to_string(),
        local_ip: "10.0.0.1".to_string(),
        remote_ip: "172.31.0.1".to_string(),
        tunnel_id,
        connected: true,
        latency_ms,
    }
}

#[test]
fn test_aws_vpc_connection() {
    let connector = AwsConnector::new(aws_config(None));
    let connection = connector.connect_vpc(5.0);

    assert_eq!(connection.provider, CloudProvider::AWS);
    assert_eq!(connection.region, "us-east-1");
    assert!(connection.connected);
}

#[test]
fn test_azure_vnet_connection() {
    let config = AzureConfig {
        subscription_id: "test_sub".to_string(),
        tenant_id: "test_tenant".to_string(),
        client_id: "test_client".to_string(),
        client_secret: "test_secret".to_string(),
        region: "eastus".to_string(),
        vnet_id: "vnet-12345".to_string(),
        resource_group: "rg-patronus".to_string(),
    };

    let connector = AzureConnector::new(config);
    let connection = connector.connect_vnet(8.0);

    assert_eq!(connection.provider, CloudProvider::Azure);
    assert_eq!(connection.region, "eastus");
    assert!(connection.connected);

    let wan = connector.connect_vwan(6.0);
    assert_eq!(wan.vpc_id, "vwan-vnet-12345");
    assert_eq!(wan.tunnel_id, 4);
}

#[test]
fn test_gcp_vpc_connection() {
    let config = GcpConfig {
        project_id: "test-project".to_string(),
        service_account_key: "test_key".to_string(),
        region: "us-central1".to_string(),
        network_name: "default".to_string(),
    };

    let connector = GcpConnector::new(config);
    let connection = connector.connect_vpc(7.0);

    assert_eq!(connection.provider, CloudProvider::GCP);
    assert_eq!(connection.region, "us-central1");
    assert!(connection.connected);

    let router = connector.connect_cloud_router("edge", 4.0);
    assert_eq!(router.vpc_id, "router-edge");
    assert_eq!(router.remote_ip, "10.128.3.1");
}

#[test]
fn transit_gateway_needs_an_id() {
    let without = AwsConnector::new(aws_config(None));
    assert_eq!(without.connect_transit_gateway(3.0).err(), Some(ConnectError::NoTransitGateway));
    assert_eq!(ConnectError::NoTransitGateway.message(), "No Transit Gateway ID configured");

    let with = AwsConnector::new(aws_config(Some("tgw-1".to_string())));
    let c = with.connect_transit_gateway(3.0).unwrap();
    assert_eq!(c.vpc_id, "tgw-tgw-1");
    assert_eq!(c.tunnel_id, 2);
    assert_eq!(c.local_ip, "10.0.1.1");
    assert_eq!(c.latency_ms, 3.0);
}

#[test]
fn test_add_connection() {
    let mut manager = MultiCloudManager::new();
    manager.add_connection(connection(CloudProvider::AWS, "us-east-1", "vpc-12345", 1, 5.0));

    let connections = manager.get_connections();
    assert_eq!(connections.len(), 1);
    assert_eq!(connections[0].provider, CloudProvider::AWS);
}

#[test]
fn test_get_provider_connections() {
    let mut manager = MultiCloudManager::new();
    manager.add_connection(connection(CloudProvider::AWS, "us-east-1", "vpc-12345", 1, 5.0));
    manager.add_connection(connection(CloudProvider::Azure, "eastus", "vnet-12345", 2, 8.0));

    let aws_connections = manager.get_provider_connections(CloudProvider::AWS);
    assert_eq!(aws_connections.len(), 1);
    assert_eq!(aws_connections[0].region, "us-east-1");
}

#[test]
fn one_connection_per_provider_and_region() {
    let mut manager: MultiCloudManager<f64> = MultiCloudManager::default();
    manager.add_connection(connection(CloudProvider::AWS, "eu", "a", 1, 5.0));
    manager.add_connection(connection(CloudProvider::GCP, "eu", "b", 2, 5.0));
    manager.add_connection(connection(CloudProvider::AWS, "eu", "c", 3, 9.0));
    let all = manager.get_connections();
    assert_eq!(all.len(), 2);
    assert_eq!(all[0].vpc_id, "c");
    assert_eq!(all[1].vpc_id, "b");

    manager.update_status(CloudProvider::GCP, "eu", false, 12.5);
    let gcp = manager.get_provider_connections(CloudProvider::GCP);
    assert!(!gcp[0].connected);
    assert_eq!(gcp[0].latency_ms, 12.5);

    manager.update_status(CloudProvider::Azure, "eu", false, 1.0);
    assert_eq!(manager.get_connections().len(), 2);

    manager.remove_connection(CloudProvider::AWS, "eu");
    let all = manager.get_connections();
    assert_eq!(all.len(), 1);
    assert_eq!(all[0].provider, CloudProvider::GCP);
    manager.remove_connection(CloudProvider::AWS, "eu");
    assert_eq!(manager.get_connections().len(), 1);
}
