//! Verified core of an installer that fetches a versioned software
//! distribution from a vendor catalog page, unpacks a two-stage nested
//! archive, and reconciles it into a target directory while preserving a
//! protected user-data subtree.
//!
//! The modules here hold the decision logic — catalog parsing and ordering,
//! path-traversal defense, archiver output parsing, reconciliation planning,
//! version probing, and the progress state machine — each with a contract.
//! The surrounding process (network, filesystem, subprocess supervision)
//! drives these functions from outside.

pub mod text;
pub mod version;
pub mod errors;
pub mod catalog;
pub mod page;
pub mod pattern;
pub mod resolver;
pub mod archive;
pub mod reconcile;
pub mod orchestrator;
pub mod probe;
pub mod directory;
pub mod checkver;
