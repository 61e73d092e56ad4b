//! Resolves audio files to catalog metadata records and writes that metadata
//! into the files' native tag formats.
//!
//! The crate covers three pieces: a rate-limited, caching catalog client, a
//! title-normalization and fuzzy-matching algorithm that picks the right
//! catalog track for a local file, and a per-field tag merge/write policy for
//! the two supported tag families.

pub mod dates;
pub mod discogs;
pub mod files;
pub mod json;
pub mod levenshtein;
pub mod matcher;
pub mod normalize;
pub mod numbers;
pub mod records;
pub mod strlist;
pub mod text;
pub mod writer;
