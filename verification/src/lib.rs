//! Security scanner for MCP (Model Context Protocol) server configurations.
//!
//! The library resolves heterogeneous configuration files into a uniform
//! map of server descriptors, models the capabilities a server advertises
//! (tools, prompts, resources), detects drift in capability descriptions
//! through content fingerprints backed by persistent state, and interprets
//! the remote verification protocol with index-correlated results.
//!
//! All I/O (file system, processes, network) lives outside this crate; the
//! functions here are pure logic over plain values, verified against the
//! contracts they state.

pub mod assoc;
pub mod cli;
pub mod config;
pub mod hash;
pub mod json;
pub mod mcp_types;
pub mod scan;
pub mod storage_file;
pub mod text;
pub mod time;
pub mod verify_api;


