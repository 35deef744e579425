//! Verified core of a Linux host-monitoring agent.
//!
//! The agent periodically gathers a snapshot of the host's state by invoking
//! external diagnostic tools and normalizing their free-text output into a
//! stable data model.  Everything in this crate is the pure part of that
//! engine: platform detection, fallback chains, and the parsing rules that
//! turn raw tool output into records.  Running the tools, the filesystem,
//! and the network delivery live outside the library and hand it plain
//! string values.

pub mod access;
pub mod boot;
pub mod config;
pub mod hardware;
pub mod network;
pub mod platform;
pub mod security;
pub mod services;
pub mod snapshot;
pub mod text;
pub mod tool;
