//! Coordination of immutable-chunk storage for a vault node.
//!
//! The coordinator ([`idata_handler::IDataHandler`]) admits the requests that
//! concern immutable chunks, chooses the holders of a chunk, gathers the answers
//! of the holders in one operation for each request ([`idata_op::IDataOp`]),
//! keeps the metadata of the chunks in a store on disk ([`store::MetadataStore`]),
//! and hands out actions ([`messaging::Action`]) for what has to be sent. The
//! decisions of the vault around it are in [`vault`].

pub mod data;
pub mod foreign;
pub mod idata_handler;
pub mod idata_op;
pub mod laws;
pub mod messaging;
pub mod metadata;
pub mod name;
pub mod store;
pub mod utils;
pub mod vault;

pub use crate::vault::{Command, Init, Vault};
