//! The command-line interface: its command model and the saved session.
pub mod token_store;
pub mod commands;
