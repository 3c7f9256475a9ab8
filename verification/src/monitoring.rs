pub mod alerts;
pub mod status;
pub mod metrics;
