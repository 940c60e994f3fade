//! Lowering backend for contracts emitted by the Vyper front-end compiler.
//!
//! The library consumes the front end's tree-shaped expression IR together
//! with its function metadata and ABI, lowers each contract through a
//! two-pass (declare, then define) code-generation protocol, fingerprints
//! the build with a Keccak-256 content hash, and aggregates per-contract
//! results into a single project build, injecting the shared forwarder
//! helper contract exactly once when any contract references it.

pub mod artifact;
pub mod context;
pub mod contract;
pub mod deps;
pub mod error;
pub mod forwarder;
pub mod expression;
pub mod function;
pub mod hash;
pub mod metadata;
pub mod parser;
pub mod project;
pub mod strutil;
pub mod version;
pub mod vyper;

pub use error::Error;
pub use version::Version;
