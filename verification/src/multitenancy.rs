pub mod rbac;
pub mod isolation;
pub mod organization;
