//! Export registry and connection-lifecycle core of a network block device server.
//!
//! The verified part holds the table of named exports, the shared registry that
//! sessions read and a reload replaces as a whole, and the decisions that turn an
//! export's description into the size and access mode of its backing store.

pub mod config;
pub mod error;
pub mod registry;
pub mod resolve;
