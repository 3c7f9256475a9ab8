//! Google Cloud projects and the connector that holds their settings.
use vstd::prelude::*;
use crate::text::owned;
use crate::multicloud::manager::{CloudConnection, CloudProvider};

verus! {

/// Project, key, region and network of a Google Cloud project.
#[derive(Clone, Debug)]
pub struct GcpConfig {
    pub project_id: String,
    pub service_account_key: String,
    pub region: String,
    pub network_name: String,
}

/// Connects to Google Cloud networks.
pub struct GcpConnector {
    config: GcpConfig,
}

impl GcpConnector {
    pub closed spec fn config_view(&self) -> GcpConfig {
        self.config
    }

    /// A connector with these settings.
    pub fn new(config: GcpConfig) -> (c: GcpConnector)
        ensures
            c.config_view() == config,
    {
        GcpConnector { config }
    }

    /// The settings.
    pub fn config(&self) -> (c: &GcpConfig)
        ensures
            *c == self.config_view(),
    {
        &self.config
    }
}

impl GcpConnector {
    /// The tunnel to the configured network: tunnel 5 from 10.0.0.1 to
    /// 10.128.0.1, up, with the given latency.
    pub fn connect_vpc<L>(&self, latency_ms: L) -> (r: CloudConnection<L>)
        ensures
            r.provider == CloudProvider::GCP,
            r.region == self.config_view().region,
            r.vpc_id == self.config_view().network_name,
            r.local_ip@ == "10.0.0.1"@,
            r.remote_ip@ == "10.128.0.1"@,
            r.tunnel_id == 5,
            r.connected,
            r.latency_ms == latency_ms,
    {
        CloudConnection {
            provider: CloudProvider::GCP,
            region: self.config.region.clone(),
            vpc_id: self.config.network_name.clone(),
            local_ip: owned("10.0.0.1"),
            remote_ip: owned("10.128.0.1"),
            tunnel_id: 5,
            connected: true,
            latency_ms,
        }
    }

    /// The tunnel to a Cloud Router: tunnel 6 from 10.0.3.1 to 10.128.3.1
    /// into `router-<name>`, up, with the given latency.
    pub fn connect_cloud_router<L>(&self, router_name: &str, latency_ms: L) -> (r: CloudConnection<L>)
        ensures
            r.provider == CloudProvider::GCP,
            r.region == self.config_view().region,
            r.vpc_id@ == "router-"@ + router_name@,
            r.local_ip@ == "10.0.3.1"@,
            r.remote_ip@ == "10.128.3.1"@,
            r.tunnel_id == 6,
            r.connected,
            r.latency_ms == latency_ms,
    {
        let mut vpc_id = owned("router-");
        vpc_id.append(router_name);
        CloudConnection {
            provider: CloudProvider::GCP,
            region: self.config.region.clone(),
            vpc_id,
            local_ip: owned("10.0.3.1"),
            remote_ip: owned("10.128.3.1"),
            tunnel_id: 6,
            connected: true,
            latency_ms,
        }
    }
}

} // verus!
