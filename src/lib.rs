//! Near-duplicate detection: text is folded into fixed-size SuperMinHash
//! signatures, and an inverted index over signature slot values finds earlier
//! documents whose position-aligned agreement reaches a threshold.

pub mod buckets;
pub mod index;
pub mod sketch;
pub mod dedup;
pub mod laws;
