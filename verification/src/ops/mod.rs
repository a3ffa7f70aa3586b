//! Operations: incident management and metric labels.
pub mod incidents;
pub mod metrics;
