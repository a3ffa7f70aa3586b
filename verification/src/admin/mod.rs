//! The admin API's request bodies and the checks its handlers make on them
//! before they reach the stores.
pub mod openapi;
pub mod requests;
