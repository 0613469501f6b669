//! Persistence logic for conversation sessions kept in a partitioned
//! key-value table: key derivation, the rows themselves, and the requests
//! that create, find, update and close a session.

pub mod error;
pub mod keys;
pub mod laws;
pub mod record;
pub mod store;
