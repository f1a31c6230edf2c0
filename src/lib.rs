//! Full-text indexing of the blocks of a collaborative document.
//!
//! A mutation listener marks a shared dirty counter; a reindex pass drains it
//! and, when anything was pending, projects every block onto an index entry
//! (its id, its title and its body text) and commits the entries to a
//! tantivy index; queries run against that index and map hits back to block
//! ids.
pub mod content;
pub mod dirty;
pub mod engine;
pub mod error;
pub mod results;
pub mod plugin;
