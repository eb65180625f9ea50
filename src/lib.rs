//! Log-driven readiness checks for a peer-to-peer test network: peer
//! identifier extraction with bounded retries, reversible placeholder
//! substitution in a configuration document, and connectivity classification
//! of free-text logs.

pub mod text;
pub mod rewrite;
pub mod error;
pub mod peer_id;
pub mod classify;
pub mod bootstrap;
pub mod stages;
