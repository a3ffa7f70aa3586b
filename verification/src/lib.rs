//! Verified core of the xiraNET gateway platform: the decision logic of the
//! gateway pipeline, its resilience primitives, identity rules and the
//! operational state machines, each stated over a mathematical model.

pub mod text;
pub mod store;
pub mod gateway;
pub mod identity;
pub mod clock;
pub mod fmt;
pub mod ids;
pub mod crypto;
pub mod automation;
pub mod alerting;
pub mod config;
pub mod dbgateway;
pub mod datapipeline;
pub mod cli;
pub mod deployment;
pub mod ops;
pub mod admin;
pub mod bus;
pub mod discovery;
