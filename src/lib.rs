//! Core of a document-collection portal backend: the bearer-token guard, a
//! tenant-scoped resource graph held in an in-memory entity store, partial
//! updates, and the assembly of nested responses.

pub mod assemble;
pub mod auth;
pub mod error;
pub mod model;
pub mod table;
pub mod merge;
pub mod store;
pub mod text;
