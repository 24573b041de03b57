//! Accounts, secrets, leases, authorization flows and their failures.

pub mod lease;
pub mod oauth;
pub mod redirect;
pub mod resilience;
pub mod secret_store;
pub mod store;
pub mod types;
pub mod urlcode;
pub mod urls;
