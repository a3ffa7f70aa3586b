//! Deployment: blue/green releases with automatic rollback, and feature flags.
pub mod releases;
pub mod feature_flags;
