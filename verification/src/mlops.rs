pub mod pipeline;
pub mod registry;
pub mod retraining;
