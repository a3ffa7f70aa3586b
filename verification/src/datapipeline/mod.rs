//! The data pipeline: JSON body transform rules and change detection of
//! watched endpoints.
pub mod transforms;
pub mod pipeline;
