//! Classifies keyboard trigrams (three consecutive keystrokes) by the
//! hand/finger pattern they require and aggregates timing samples into
//! per-category statistics.

pub mod avg;
pub mod data;
pub mod laws;
pub mod mapping;
pub mod stats;
pub mod trigram_patterns;
