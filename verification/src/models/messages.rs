//! What the background workers tell the window.
use vstd::prelude::*;
use vstd::string::*;

use super::track::{MetaFailure, Track, TrackMetadata, TrackStatus};
use crate::downloader::cookies::CookieStatus;
use crate::video::encoder::EncoderSupport;

verus! {

/// How far the work has come: what is being done, and which part of all of it is
/// done (`done` out of `of`).
pub struct Progress {
    pub phase: String,
    pub done: u128,
    pub of: u128,
}

/// How an encoder benchmark came out.
#[derive(Debug, Clone)]
pub struct BenchmarkResult {
    /// The encoder.
    pub encoder: String,
    /// How long the sample took, in microseconds: a millisecond at least.
    pub elapsed_us: u64,
    /// Size of the output in bytes.
    pub size_bytes: u64,
}

/// A message of a background worker.
pub enum WorkerMsg {
    Log(String),
    /// A loaded playlist, its title and its rows, or why there is none.
    Playlist(Result<(String, Vec<Track>), String>),
    /// The metadata of one row, or why it could not be had.
    TrackMeta(usize, Result<TrackMetadata, MetaFailure>),
    /// The first metadata pass is over. `permanent` and `restricted` count the
    /// failures that no retry, or no anonymous retry, can mend.
    MetaLoadFinished {
        cancelled: bool,
        failed: usize,
        rate_limited: usize,
        permanent: usize,
        restricted: usize,
    },
    /// The retry of this row has begun.
    MetaRetrying(usize),
    /// How many rows of a retry pass are not yet resolved.
    MetaRetryProgress { remaining: usize, total: usize },
    /// A retry pass is over. `gave_up` says that it stopped early because the
    /// rate limit did not ease.
    MetaRetryFinished {
        recovered: usize,
        still_failed: usize,
        permanent: usize,
        restricted: usize,
        cancelled: bool,
        gave_up: bool,
    },
    TrackStatus(usize, TrackStatus),
    Progress(Progress),
    Finished { ok: usize, failed: usize, cancelled: bool },
    /// The versions of the tools that were found.
    Tools { ffmpeg: Option<String>, ytdlp: Option<String> },
    /// Which encoders this machine can use.
    Encoders(EncoderSupport),
    /// The encoder that the running conversion uses.
    EncoderActive(String),
    BenchmarkDone(Result<BenchmarkResult, String>),
    /// What came of reading the browser's cookies.
    CookieStatus(CookieStatus),
    /// A line of the tool installation.
    SetupProgress(String),
    /// The tool installation is over.
    SetupDone {
        success: bool,
        message: String,
        /// Whether it failed for want of administrator rights.
        needs_elevation: bool,
    },
}

} // verus!
