//! A threshold approval gate for privileged administrative actions, with
//! the test-oracle price update as the action it guards.

pub mod bytes;
pub mod error;
pub mod fingerprint;
pub mod multisig;
pub mod oracle;
pub mod laws;
