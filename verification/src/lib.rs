//! An append-only, address-indexed attestation registry.
//!
//! Records of four kinds (credentials, schemas, attestations and requests)
//! live in independently addressed storage cells. The address of a cell is
//! derived from a kind tag and an ordered list of seeds, so the registry
//! needs no index: whoever knows the seeds can recompute the address and
//! decode what is stored there.

pub mod account;
pub mod address;
pub mod claim;
pub mod cli;
pub mod client;
pub mod credential;
pub mod error;
pub mod fields;
pub mod instruction;
pub mod kind;
pub mod ledger;
pub mod processor;
pub mod query;
pub mod schema;
pub mod wire;
