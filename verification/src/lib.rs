//! Tamper-evident, append-only chains of document revisions.
//!
//! A chain is a sequence of revisions, each carrying layered hashes: a
//! content hash over an ordered key/value map, a metadata hash binding the
//! revision to its predecessor, and a verification hash on top, optionally
//! strengthened by a wallet signature and a Merkle-anchored blockchain
//! witness. This crate provides the hash primitives, the chain and genesis
//! validator, the signature integrity checker and the witness integrity
//! checker, together with the flag taxonomy each check reports.

pub mod chain;
pub mod content;
pub mod crypt;
pub mod files;
pub mod hashes;
pub mod integrity;
pub mod merkle;
pub mod model;
pub mod models;
pub mod revision_check;
pub mod signature_check;
pub mod util;
pub mod verification;
pub mod witness_check;
