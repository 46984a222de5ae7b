//! Capability-based permission engine for webview-hosted applications.
//!
//! The engine decides which native commands frontend content may invoke over
//! the IPC boundary: it models permissions, permission sets and scopes,
//! aggregates permission declaration files into one canonical manifest per
//! plugin, and classifies the origin of a call as local or remote by matching
//! it against authored URL patterns.

pub mod acl;
pub mod device;
pub mod idmap;
pub mod manifest;
pub mod migrate;
pub mod pattern;
pub mod strcmp;
pub mod value;

