//! The on-disk session format: the header, the entry taxonomy, file and
//! directory naming, version migrations, the splitting of a session file
//! into entry lines, and compaction-aware context reconstruction.

pub mod context;
pub mod entry;
pub mod header;
pub mod migrate;
pub mod naming;
pub mod parse;
