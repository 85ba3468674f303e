//! Tracks, their cached metadata, and what the workers report.
pub mod cache;
pub mod cache_laws;
pub mod messages;
pub mod track;
