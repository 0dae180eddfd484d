//! Deployment engine for packaged Bedrock editions: archive extraction under a
//! conflict policy, manifest identity reading, and the reconciliation of a
//! manifest against the host package registry.
pub mod logger;
pub mod text;
pub mod edition;
pub mod entry_path;
pub mod archive;
pub mod extract;
pub mod manifest;
pub mod reconcile;
pub mod version;
pub mod cli;
