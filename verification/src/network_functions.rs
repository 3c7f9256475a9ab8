pub mod loadbalancer;
pub mod address_translation;
pub mod waf;
