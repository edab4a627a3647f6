//! Administrative control plane of a secrets-management service: lifecycle
//! state machine, stores, and a route table gated by lifecycle state and policy.
pub mod backend;
pub mod dedup;
pub mod entity_api;
pub mod error;
pub mod identity;
pub mod leases;
pub mod lifecycle;
pub mod mounts;
pub mod paths;
pub mod policies;
pub mod router;
pub mod tokens;
