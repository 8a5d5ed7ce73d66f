//! A verified core of a package manager: a mirrored package index with
//! lookup and synchronization, execution contexts bound to local or remote
//! targets, and the release orchestration that composes them.
//!
//! The cache answers membership, lookup and listing queries against a
//! mirror snapshot and swaps in a new snapshot wholesale on each
//! successful synchronization; the context manager owns named bindings to
//! execution targets; the release layer resolves assets, checks checksums,
//! and records installs and uninstalls. File and network transfer stay
//! with the callers: they hand snapshots, fetched digests and command
//! outcomes in as plain values.

pub mod cache;
pub mod context;
pub mod errors;
pub mod executor;
pub mod model;
pub mod parse;
pub mod pattern;
pub mod release;
