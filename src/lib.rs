//! Host side of a sandboxed extension runtime: path and capability policy,
//! the shared runtime store, the host bridge decisions, and the extension
//! registry with its configuration and UI-contribution metadata.

pub mod bridge;
pub mod color;
pub mod config;
pub mod fad;
pub mod json;
pub mod manager;
pub mod metadata;
pub mod paths;
pub mod policy;
pub mod release;
pub mod store;
