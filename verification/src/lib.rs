//! Core logic for incremental code-base indexing and network-path selection.
//!
//! The crate covers deterministic content chunking and batched upload
//! planning, per-project index-status tracking, file-watch debouncing,
//! proxy candidate handling, and the comparative speed-test engine.
//! Network and file-system work is left to the surrounding application;
//! everything here is pure logic over plain values.

pub mod batch;
pub mod chunk;
pub mod config;
pub mod encoding;
pub mod paths;
pub mod proxy;
pub mod registry;
pub mod speedtest;
pub mod status;
pub mod strutil;
pub mod upload;
pub mod version;
pub mod watcher;
