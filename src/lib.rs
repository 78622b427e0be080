//! A broadcasting cache: it turns upstream listings into a normalised
//! snapshot, keeps the latest snapshot, and tells live subscribers when it
//! changes.

pub mod json;
pub mod normalize;
pub mod parse;
pub mod store;
pub mod ingest;
pub mod registry;
