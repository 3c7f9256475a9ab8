pub mod clock;
pub mod ids;
pub mod mpls;
pub mod net;
pub mod network;
pub mod network_functions;
pub mod text;
pub mod multitenancy;
pub mod monitoring;
pub mod observability;
pub mod plugin;
pub mod rl_optimizer;
pub mod mlops;
pub mod multicloud;
pub mod saas;
pub mod proxy;
