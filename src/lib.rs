//! A short-URL store: short codes mapped to long URLs, an audit trail of
//! creation and lookup events, analytics over that trail, and API keys that
//! gate the mutating operations.

pub mod config;
pub mod types;
pub mod db_store;
pub mod laws;
pub mod request;
