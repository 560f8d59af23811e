//! Incremental patch orchestrator for a locally installed, versioned client.
//!
//! The library resolves which update bundles form a valid, contiguous version
//! chain from the client's current version, verifies precondition integrity,
//! and applies each bundle's file deletions and binary patches with
//! bounded-failure, partial-success semantics. Archive extraction, binary
//! patch application and file removal are consumed as capabilities, so the
//! core decisions are verified while the outside work stays replaceable.

pub mod binary_version;
pub mod chain;
pub mod deletefiles;
pub mod error;
pub mod hdiffmap;
pub mod json;
pub mod tool;
pub mod updater;
pub mod utils;
pub mod integrity;
