//! Azure subscriptions and the connector that holds their settings.
use vstd::prelude::*;
use crate::text::owned;
use crate::multicloud::manager::{CloudConnection, CloudProvider};

verus! {

/// Credentials, region and network of an Azure subscription.
#[derive(Clone, Debug)]
pub struct AzureConfig {
    pub subscription_id: String,
    pub tenant_id: String,
    pub client_id: String,
    pub client_secret: String,
    pub region: String,
    pub vnet_id: String,
    pub resource_group: String,
}

/// Connects to Azure networks.
pub struct AzureConnector {
    config: AzureConfig,
}

impl AzureConnector {
    pub closed spec fn config_view(&self) -> AzureConfig {
        self.config
    }

    /// A connector with these settings.
    pub fn new(config: AzureConfig) -> (c: AzureConnector)
        ensures
            c.config_view() == config,
    {
        AzureConnector { config }
    }

    /// The settings.
    pub fn config(&self) -> (c: &AzureConfig)
        ensures
            *c == self.config_view(),
    {
        &self.config
    }
}

impl AzureConnector {
    /// The tunnel to the configured virtual network: tunnel 3 from 10.0.0.1
    /// to 10.1.0.1, up, with the given latency.
    pub fn connect_vnet<L>(&self, latency_ms: L) -> (r: CloudConnection<L>)
        ensures
            r.provider == CloudProvider::Azure,
            r.region == self.config_view().region,
            r.vpc_id == self.config_view().vnet_id,
            r.local_ip@ == "10.0.0.1"@,
            r.remote_ip@ == "10.1.0.1"@,
            r.tunnel_id == 3,
            r.connected,
            r.latency_ms == latency_ms,
    {
        CloudConnection {
            provider: CloudProvider::Azure,
            region: self.config.region.clone(),
            vpc_id: self.config.vnet_id.clone(),
            local_ip: owned("10.0.0.1"),
            remote_ip: owned("10.1.0.1"),
            tunnel_id: 3,
            connected: true,
            latency_ms,
        }
    }

    /// The tunnel to the virtual WAN of the configured network: tunnel 4
    /// from 10.0.2.1 to 10.1.2.1 into `vwan-<vnet>`, up, with the given
    /// latency.
    pub fn connect_vwan<L>(&self, latency_ms: L) -> (r: CloudConnection<L>)
        ensures
            r.provider == CloudProvider::Azure,
            r.region == self.config_view().region,
            r.vpc_id@ == "vwan-"@ + self.config_view().vnet_id@,
            r.local_ip@ == "10.0.2.1"@,
            r.remote_ip@ == "10.1.2.1"@,
            r.tunnel_id == 4,
            r.connected,
            r.latency_ms == latency_ms,
    {
        let mut vpc_id = owned("vwan-");
        vpc_id.append(self.config.vnet_id.as_str());
        CloudConnection {
            provider: CloudProvider::Azure,
            region: self.config.region.clone(),
            vpc_id,
            local_ip: owned("10.0.2.1"),
            remote_ip: owned("10.1.2.1"),
            tunnel_id: 4,
            connected: true,
            latency_ms,
        }
    }
}

} // verus!
