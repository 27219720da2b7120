//! The adapter of a locally offered service instance.
pub use crate::connection::{ServiceAdapter, ServiceInstanceID};
