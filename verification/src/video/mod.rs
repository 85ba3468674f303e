//! Encoder selection, ffmpeg argument lists and the combine ladder.
pub mod chapter_laws;
pub mod checkpoint;
pub mod combine;
pub mod combine_laws;
pub mod concat;
pub mod encoder;
pub mod encoder_laws;
pub mod ffmpeg;
pub mod graph_laws;
pub mod ladder;
pub mod ladder_laws;
pub mod pass_laws;
pub mod probe;
pub mod probe_laws;
pub mod render_laws;
pub mod renderer;
pub mod timeline;
pub mod timing_laws;
