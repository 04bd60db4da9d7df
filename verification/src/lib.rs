//! The consistency core of a personal library of PDF documents.
//!
//! Reading progress is kept in two replicas, one of the device alone and one
//! that a cloud service may share with other devices; `progress` holds the
//! records and the rule that reconciles them, `session` the operations on
//! them. `identity`, `hash_cache`, `pdf_info` and `scan` give each document
//! its content hash and its description and cache both. `writer` brings a
//! record to its file without ever leaving part of one there.
//!
//! The library touches no file itself. Whatever reads, writes or parses is
//! asked of a host, one step at a time, and every decision in between is made
//! here.

pub mod hash_cache;
pub mod hex;
pub mod icloud;
pub mod identity;
mod keyed;
pub mod library;
pub mod outline;
pub mod pdf_info;
pub mod progress;
pub mod scan;
pub mod session;
pub mod text;
pub mod timestamp;
pub mod watcher;
pub mod window;
pub mod writer;
