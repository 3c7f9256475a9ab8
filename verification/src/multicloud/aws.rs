//! AWS accounts and the connector that holds their settings.
use vstd::prelude::*;
use crate::text::owned;
use crate::multicloud::manager::{CloudConnection, CloudProvider};

verus! {

/// Credentials, region and network of an AWS account.
#[derive(Clone, Debug)]
pub struct AwsConfig {
    pub access_key_id: String,
    pub secret_access_key: String,
    pub region: String,
    pub vpc_id: String,
    pub transit_gateway_id: Option<String>,
}

/// Connects to AWS networks.
pub struct AwsConnector {
    config: AwsConfig,
}

impl AwsConnector {
    pub closed spec fn config_view(&self) -> AwsConfig {
        self.config
    }

    /// A connector with these settings.
    pub fn new(config: AwsConfig) -> (c: AwsConnector)
        ensures
            c.config_view() == config,
    {
        AwsConnector { config }
    }

    /// The settings.
    pub fn config(&self) -> (c: &AwsConfig)
        ensures
            *c == self.config_view(),
    {
        &self.config
    }

    /// The network id of a transit gateway connection, `tgw-<id>`; none
    /// without a configured transit gateway.
    pub fn transit_gateway_vpc_id(&self) -> (r: Option<String>)
        ensures
            match self.config_view().transit_gateway_id {
                Some(id) => r matches Some(s) && s@ == "tgw-"@ + id@,
                None => r is None,
            },
    {
        match &self.config.transit_gateway_id {
            Some(id) => {
                let mut s = owned("tgw-");
                s.append(id.as_str());
                Some(s)
            },
            None => None,
        }
    }
}

/// Why a connection could not be made.
#[derive(PartialEq, Eq, Structural, Clone, Copy, Debug)]
pub enum ConnectError {
    NoTransitGateway,
}

impl ConnectError {
    /// The message of the error.
    pub fn message(&self) -> (s: String)
        ensures
            s@ == "No Transit Gateway ID configured"@,
    {
        owned("No Transit Gateway ID configured")
    }
}

impl AwsConnector {
    /// The tunnel to the configured VPC: tunnel 1 from 10.0.0.1 to
    /// 172.31.0.1, up, with the given latency.
    pub fn connect_vpc<L>(&self, latency_ms: L) -> (r: CloudConnection<L>)
        ensures
            r.provider == CloudProvider::AWS,
            r.region == self.config_view().region,
            r.vpc_id == self.config_view().vpc_id,
            r.local_ip@ == "10.0.0.1"@,
            r.remote_ip@ == "172.31.0.1"@,
            r.tunnel_id == 1,
            r.connected,
            r.latency_ms == latency_ms,
    {
        CloudConnection {
            provider: CloudProvider::AWS,
            region: self.config.region.clone(),
            vpc_id: self.config.vpc_id.clone(),
            local_ip: owned("10.0.0.1"),
            remote_ip: owned("172.31.0.1"),
            tunnel_id: 1,
            connected: true,
            latency_ms,
        }
    }

    /// The tunnel to the configured transit gateway: tunnel 2 from 10.0.1.1
    /// to 172.31.1.1 into `tgw-<id>`, up, with the given latency; refused
    /// without a transit gateway.
    pub fn connect_transit_gateway<L>(&self, latency_ms: L) -> (r: Result<CloudConnection<L>, ConnectError>)
        ensures
            match self.config_view().transit_gateway_id {
                None => r == Err::<CloudConnection<L>, ConnectError>(ConnectError::NoTransitGateway),
                Some(id) => r matches Ok(c) && c.provider == CloudProvider::AWS && c.region == self.config_view().region
                    && c.vpc_id@ == "tgw-"@ + id@ && c.local_ip@ == "10.0.1.1"@ && c.remote_ip@ == "172.31.1.1"@
                    && c.tunnel_id == 2 && c.connected && c.latency_ms == latency_ms,
            },
    {
        match self.transit_gateway_vpc_id() {
            Some(vpc_id) => Ok(
                CloudConnection {
                    provider: CloudProvider::AWS,
                    region: self.config.region.clone(),
                    vpc_id,
                    local_ip: owned("10.0.1.1"),
                    remote_ip: owned("172.31.1.1"),
                    tunnel_id: 2,
                    connected: true,
                    latency_ms,
                },
            ),
            None => Err(ConnectError::NoTransitGateway),
        }
    }
}

} // verus!
