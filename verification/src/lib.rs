//! The access layer of a books catalog kept in one table of a key-value
//! store: how a book is keyed and stored, how the three reads and the one
//! write are planned, and what each endpoint answers once the store has
//! been asked. Nothing here performs I/O; a gateway outside this library
//! executes the plans.

pub mod attribute;
pub mod codec;
pub mod gateway;
pub mod handlers;
pub mod keys;
pub mod laws;
pub mod listing;
pub mod planner;
pub mod query;
pub mod record;
pub mod text;
