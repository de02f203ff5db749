//! Management of local SSH key material and of the SSH client configuration
//! file that routes connections to those keys.
//!
//! The crate covers the key lifecycle (planning generation, cataloguing,
//! deletion support) and the idempotent synchronization of per-key routing
//! entries into a shared configuration file. Filesystem access, subprocess
//! invocation and clipboard access are left to the surrounding application;
//! this library computes, on plain values, everything those steps need.

pub mod catalog;
pub mod config_sync;
pub mod generator;
pub mod manager;
pub mod paths;
pub mod security;
pub mod settings;
pub mod strutil;

pub use catalog::PubFileRecord;
pub use catalog::SSHKey;
pub use generator::GenPlan;
pub use generator::KeyOpError;
pub use manager::KeyManager;
pub use security::SecurityManager;
pub use settings::Config;
pub use settings::GitConfig;
pub use settings::ProxySettings;
pub use settings::Theme;
