//! Automation: scheduled calls and step workflows.
pub mod workflows;
pub mod cron;
pub mod calls;
pub mod retry;
pub mod event_bus;
