//! Content-based file deduplication.
//!
//! The crate holds the decision core of a deduplicating scan of a directory
//! tree: how a file's content is fingerprinted, how paths are re-rooted under
//! a quarantine directory, and what becomes of each file the scan visits.
//! It performs no input or output itself. A caller walks the tree, reads the
//! files, feeds what it saw to an [`engine::Engine`] and makes the changes
//! that [`action::mutations`] lists for the outcome the engine returns.
//!
//! - [`digest`]: the fingerprint of a content, SHA-256 in hexadecimal.
//! - [`path`]: paths as text, and how to re-root one.
//! - [`config`]: the configuration of a run and its validation.
//! - [`registry`]: which path is canonical for each fingerprint.
//! - [`model`]: the mathematical model of a run.
//! - [`engine`]: the engine, stated against the model.
//! - [`action`]: the changes to the file system that an outcome stands for.
//! - [`error`]: the errors that end a run.
//! - [`laws`]: what holds of every run, proved of the model.

pub mod action;
pub mod config;
pub mod digest;
pub mod engine;
pub mod error;
pub mod laws;
pub mod model;
pub mod path;
pub mod registry;
