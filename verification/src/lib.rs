pub mod types;
pub mod crypto;
pub mod json;
pub mod tpm;
pub mod secret;
pub mod persist;
pub mod license;
pub mod rotation;
pub mod degraded;
pub mod audit;
pub mod ipc;
pub mod config;
pub mod engine;
pub mod cli;
pub mod metrics;
