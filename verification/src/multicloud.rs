pub mod aws;
pub mod azure;
pub mod gcp;
pub mod manager;
