pub mod dashboards;
pub mod metrics;
pub mod tracing;
