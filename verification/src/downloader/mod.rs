//! What is asked of yt-dlp and how its answers are read.
pub mod cookies;
pub mod failure;
pub mod json;
pub mod metadata;
pub mod metadata_laws;
pub mod request_laws;
pub mod verdict_laws;
pub mod ytdlp;
