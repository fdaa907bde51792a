//! Filtered mirroring of a remote `day/time/file` log archive: listing
//! parsing, entry filters, entry metadata, and the decisions of the sync
//! engine, each stated and proved with Verus.

pub mod clock;
pub mod config;
pub mod entry;
pub mod errors;
pub mod filter;
pub mod listing;
pub mod sync;
pub mod term;
pub mod text;
