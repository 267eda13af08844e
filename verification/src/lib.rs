//! Forwards account-change notifications of tracked programs to a remote
//! table: filter by owner, decode the payload, merge it into one JSON
//! document, and describe the upsert that sends it.
//!
//! The library decides and computes; it neither reads files nor talks to
//! the network. A host hands it plain values (a parsed configuration, an
//! event, the outcome of an upsert) and acts on what it returns.

pub mod base58;
pub mod config;
pub mod document;
pub mod error;
pub mod filter;
pub mod json;
pub mod plugin;
pub mod record;
pub mod sync;
pub mod text;

pub use config::Configuration;
pub use error::FatalError;
pub use plugin::SupabasePlugin;
pub use record::NewAccount;
