//! Inspects the layout of a PostgreSQL data directory ("PGDATA"): classifies
//! directory entries against a catalog of structurally-known members, parses
//! the on-disk names of per-database directories and relation fork-segment
//! files, and resolves path-like navigation tokens into a view of the tree.

pub mod common;
pub mod pgdata;
pub mod viewers;
