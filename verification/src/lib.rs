//! Decision logic of a playlist-to-video converter: everything that can be
//! decided from plain values, with the contracts that say what is decided.
pub mod config;
pub mod downloader;
pub mod gui;
pub mod models;
pub mod number;
pub mod number_laws;
pub mod pipeline;
pub mod platform;
pub mod reading;
pub mod setup;
pub mod text;
pub mod text_laws;
pub mod tool_laws;
pub mod utils;
pub mod video;
