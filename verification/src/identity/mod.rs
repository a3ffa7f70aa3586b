//! Identity: users and roles, sessions, and the second factor.
pub mod mfa;
pub mod users;
pub mod sessions;
pub mod authenticator;
pub mod secret_box;
