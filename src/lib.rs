//! An in-memory file-path index with filename and extension postings,
//! path filter rules, index persistence and the decisions of the background
//! scanner and the change watcher.

pub mod config;
pub mod error;
pub mod text;
pub mod filter;
pub mod postings;
pub mod index;
pub mod persistence;
pub mod laws;
pub mod indexer;
pub mod watcher;
pub mod file_type;
pub mod fast_index;
