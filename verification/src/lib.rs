//! Verified core of a development-cache cleanup tool: discovery of cache
//! directories, inspection and classification, action planning, and
//! backup-based execution with per-entry failure isolation.
pub mod actions;
pub mod cache_entry;
pub mod ci;
pub mod classify;
pub mod config;
pub mod discover;
pub mod docker;
pub mod doctor;
pub mod edge;
pub mod errors;
pub mod exit_codes;
pub mod hf;
pub mod inspect;
pub mod mcp;
pub mod npx;
pub mod output;
pub mod package_managers;
pub mod text;
pub mod timefmt;
pub mod torch;
pub mod util;
