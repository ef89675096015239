//! A small, deduplicated list of author identifiers kept in a text file that
//! belongs to a project directory: locating the file, reading and writing its
//! format, adding and removing identifiers, and reporting what changed.
//!
//! The library computes on plain values; reading and writing files, probing
//! directories and talking to the operator are left to the caller.

pub mod author_set;
pub mod error;
pub mod manager;
pub mod order;
pub mod report;
pub mod session;
pub mod store;
pub mod style;
pub mod tally;
pub mod text;
