//! Playlist entries as they are shown and edited.
use vstd::prelude::*;
use vstd::string::*;

pub use crate::downloader::failure::FailureKind;
use crate::text;
use crate::text::lines_of;

verus! {

/// Per-track processing state.
#[derive(Debug, PartialEq)]
pub enum TrackStatus {
    Pending,
    Downloading,
    Rendering,
    Done(String),
    Failed(String),
}

impl Clone for TrackStatus {
    fn clone(&self) -> (r: Self)
        ensures
            r == *self,
    {
        match self {
            TrackStatus::Pending => TrackStatus::Pending,
            TrackStatus::Downloading => TrackStatus::Downloading,
            TrackStatus::Rendering => TrackStatus::Rendering,
            TrackStatus::Done(path) => TrackStatus::Done(path.clone()),
            TrackStatus::Failed(reason) => TrackStatus::Failed(reason.clone()),
        }
    }
}

/// Why a metadata fetch failed, and whether trying again could help. The verdict
/// is made once, where the error is at hand, and travels with the failure.
#[derive(Debug, PartialEq)]
pub struct MetaFailure {
    /// The full error.
    pub message: String,
    /// How this failure is treated.
    pub kind: FailureKind,
    /// Short reason for the row, when there is one to give.
    pub reason: Option<String>,
}

impl Clone for MetaFailure {
    fn clone(&self) -> (r: Self)
        ensures
            r == *self,
    {
        MetaFailure {
            message: self.message.clone(),
            kind: self.kind,
            reason: copy_text(&self.reason),
        }
    }
}

/// A copy of an optional text.
pub fn copy_text(s: &Option<String>) -> (r: Option<String>)
    ensures
        r == *s,
{
    match s {
        Some(x) => Some(x.clone()),
        None => None,
    }
}

/// The value behind an optional text.
pub open spec fn opt(s: Option<String>) -> Option<Seq<char>> {
    match s {
        Some(x) => Some(x@),
        None => None,
    }
}

impl MetaFailure {
    /// A failure worth retrying (rate limiting, network trouble).
    pub fn transient(message: String) -> (r: Self)
        ensures
            r == (MetaFailure { message, kind: FailureKind::Retryable, reason: None }),
    {
        MetaFailure { message, kind: FailureKind::Retryable, reason: None }
    }

    /// SoundCloud refused an anonymous client: no use repeating the request as it
    /// is, but no permanent verdict either.
    pub fn restricted(message: String, reason: String) -> (r: Self)
        ensures
            r == (MetaFailure { message, kind: FailureKind::Restricted, reason: Some(reason) }),
    {
        MetaFailure { message, kind: FailureKind::Restricted, reason: Some(reason) }
    }

    /// A failure that no number of retries can fix.
    pub fn permanent(message: String, reason: String) -> (r: Self)
        ensures
            r == (MetaFailure { message, kind: FailureKind::Permanent, reason: Some(reason) }),
    {
        MetaFailure { message, kind: FailureKind::Permanent, reason: Some(reason) }
    }

    /// Whether the track is gone for good.
    pub fn is_permanent(&self) -> (r: bool)
        ensures
            r == (self.kind is Permanent),
    {
        self.kind.is_permanent()
    }

    /// Whether access was refused.
    pub fn is_restricted(&self) -> (r: bool)
        ensures
            r == (self.kind is Restricted),
    {
        self.kind == FailureKind::Restricted
    }

    /// Whether an automatic retry pass picks this up. Refused access is left out:
    /// the identical request would fail identically.
    pub fn is_auto_retryable(&self) -> (r: bool)
        ensures
            r == (self.kind is Retryable),
    {
        self.kind.is_retryable()
    }

    pub open spec fn spec_headline(self) -> Seq<char> {
        match self.reason {
            Some(reason) => reason@,
            None => if lines_of(self.message@).len() == 0 {
                "unknown error"@
            } else {
                lines_of(self.message@)[0]
            },
        }
    }

    /// The one-line explanation: the reason, else the first line of the error.
    pub fn headline(&self) -> (r: String)
        ensures
            r@ == self.spec_headline(),
    {
        match &self.reason {
            Some(reason) => reason.clone(),
            None => {
                let lines = text::lines(self.message.as_str());
                assert(text::views(lines@).len() == lines@.len());
                if lines.len() == 0 {
                    "unknown error".to_owned()
                } else {
                    assert(text::views(lines@)[0] == lines@[0]@);
                    lines[0].clone()
                }
            },
        }
    }
}

/// State of the per-track metadata fetch.
#[derive(Debug, PartialEq)]
pub enum MetaState {
    /// Only the playlist row is there; the metadata is still being fetched.
    Loading,
    Loaded,
    /// The metadata could not be had.
    Failed(MetaFailure),
}

impl Clone for MetaState {
    fn clone(&self) -> (r: Self)
        ensures
            r == *self,
    {
        match self {
            MetaState::Loading => MetaState::Loading,
            MetaState::Loaded => MetaState::Loaded,
            MetaState::Failed(failure) => MetaState::Failed(failure.clone()),
        }
    }
}

/// Fully resolved metadata of one track.
#[derive(Debug, PartialEq)]
pub struct TrackMetadata {
    pub id: String,
    pub title: String,
    pub uploader: String,
    /// Seconds.
    pub duration: u64,
    pub thumbnail: Option<String>,
    pub url: String,
}

impl Clone for TrackMetadata {
    fn clone(&self) -> (r: Self)
        ensures
            r == *self,
    {
        TrackMetadata {
            id: self.id.clone(),
            title: self.title.clone(),
            uploader: self.uploader.clone(),
            duration: self.duration,
            thumbnail: copy_text(&self.thumbnail),
            url: self.url.clone(),
        }
    }
}

/// Resolved metadata, as values.
pub struct MetadataView {
    pub id: Seq<char>,
    pub title: Seq<char>,
    pub uploader: Seq<char>,
    pub duration: u64,
    pub thumbnail: Option<Seq<char>>,
    pub url: Seq<char>,
}

impl View for TrackMetadata {
    type V = MetadataView;

    open spec fn view(&self) -> MetadataView {
        MetadataView {
            id: self.id@,
            title: self.title@,
            uploader: self.uploader@,
            duration: self.duration,
            thumbnail: opt(self.thumbnail),
            url: self.url@,
        }
    }
}

/// A playlist entry.
#[derive(Debug)]
pub struct Track {
    pub id: String,
    pub url: String,
    pub title: String,
    pub uploader: String,
    /// Seconds (0 until the metadata is there).
    pub duration: u64,
    /// Remote thumbnail for the list.
    pub thumbnail: Option<String>,
    pub selected: bool,
    /// How long the video plays this song, in microseconds.
    pub play_us: u64,
    pub status: TrackStatus,
    pub meta: MetaState,
}

impl Clone for Track {
    fn clone(&self) -> (r: Self)
        ensures
            r == *self,
    {
        Track {
            id: self.id.clone(),
            url: self.url.clone(),
            title: self.title.clone(),
            uploader: self.uploader.clone(),
            duration: self.duration,
            thumbnail: copy_text(&self.thumbnail),
            selected: self.selected,
            play_us: self.play_us,
            status: self.status.clone(),
            meta: self.meta.clone(),
        }
    }
}

/// How long a song of unknown length plays by default (60 s).
pub const DEFAULT_PLAY_US: u64 = 60_000_000;

/// Seconds as microseconds, capped at the largest machine integer.
pub open spec fn capped_us(seconds: u64) -> u64 {
    if seconds * 1_000_000 > u64::MAX {
        u64::MAX
    } else {
        (seconds * 1_000_000) as u64
    }
}

/// Converts seconds to microseconds.
pub fn to_us(seconds: u64) -> (r: u64)
    ensures
        r == capped_us(seconds),
{
    if seconds > u64::MAX / 1_000_000 {
        u64::MAX
    } else {
        seconds * 1_000_000
    }
}

/// How long a song plays: all of it (or the default where its length is not
/// known), but not longer than the limit, where there is one.
pub open spec fn play_time(duration: u64, max_us: u64) -> u64 {
    let play = if duration > 0 {
        capped_us(duration)
    } else {
        DEFAULT_PLAY_US
    };
    if max_us > 0 && max_us < play {
        max_us
    } else {
        play
    }
}

impl Track {
    /// Whether this is the row of an entry whose metadata is not there yet.
    pub open spec fn is_placeholder(
        self,
        id: Seq<char>,
        url: Seq<char>,
        title: Option<Seq<char>>,
    ) -> bool {
        &&& self.id@ == id
        &&& self.url@ == url
        &&& self.title@ == (match title {
            Some(t) => t,
            None => "Track "@ + id,
        })
        &&& self.uploader@.len() == 0
        &&& self.duration == 0
        &&& self.thumbnail is None
        &&& self.selected
        &&& self.play_us == DEFAULT_PLAY_US
        &&& self.status is Pending
        &&& self.meta is Loading
    }

    /// The row of a playlist entry before its metadata is there.
    pub fn placeholder(id: String, url: String, title: Option<String>) -> (r: Self)
        ensures
            r.is_placeholder(id@, url@, opt(title)),
    {
        let title = match title {
            Some(t) => t,
            None => {
                let mut s = "Track ".to_owned();
                s.append(id.as_str());
                s
            },
        };
        Track {
            id,
            url,
            title,
            uploader: String::new(),
            duration: 0,
            thumbnail: None,
            selected: true,
            play_us: DEFAULT_PLAY_US,
            status: TrackStatus::Pending,
            meta: MetaState::Loading,
        }
    }

    /// Whether `after` is this row filled in from resolved metadata.
    pub open spec fn filled_in(
        self,
        meta: TrackMetadata,
        global_max_us: u64,
        after: Track,
    ) -> bool {
        &&& after.title == meta.title
        &&& after.uploader == meta.uploader
        &&& after.duration == meta.duration
        &&& after.thumbnail == meta.thumbnail
        &&& after.url == (if meta.url@.len() > 0 {
            meta.url
        } else {
            self.url
        })
        &&& after.play_us == play_time(meta.duration, global_max_us)
        &&& after.meta is Loaded
        &&& after.id == self.id
        &&& after.selected == self.selected
        &&& after.status == self.status
    }

    /// Fills this row in from resolved metadata; what is selected and how far the
    /// track has been processed stays.
    pub fn apply_metadata(&mut self, meta: &TrackMetadata, global_max_us: u64)
        ensures
            old(self).filled_in(*meta, global_max_us, *final(self)),
    {
        self.title = meta.title.clone();
        self.uploader = meta.uploader.clone();
        self.duration = meta.duration;
        self.thumbnail = copy_text(&meta.thumbnail);
        if !meta.url.as_str().is_empty() {
            self.url = meta.url.clone();
        }
        let play: u64 = if meta.duration > 0 { to_us(meta.duration) } else { DEFAULT_PLAY_US };
        self.play_us = if global_max_us > 0 && global_max_us < play { global_max_us } else { play };
        self.meta = MetaState::Loaded;
    }
}

/// A song never plays longer than it lasts (where that is known) nor longer than
/// the limit (where there is one).
pub proof fn law_play_time_respects_song_and_limit(duration: u64, max_us: u64)
    ensures
        duration > 0 ==> play_time(duration, max_us) <= duration * 1_000_000,
        max_us > 0 ==> play_time(duration, max_us) <= max_us,
        play_time(duration, max_us) > 0,
{
}

/// A song plays for as long as it lasts and the limit allows: whatever else would do is
/// no longer. One of unknown length counts as a minute.
pub proof fn law_a_song_plays_as_long_as_allowed(duration: u64, max_us: u64, other: u64)
    ensures
        other <= play_time(duration, max_us) <==> {
            &&& if duration > 0 {
                other <= duration * 1_000_000
            } else {
                other <= 60_000_000
            }
            &&& max_us > 0 ==> other <= max_us
        },
{
}

/// A failure is told by its reason where it has one, else by the first line of its
/// message.
pub proof fn law_a_failure_is_told_by_its_reason(f: MetaFailure)
    ensures
        f.reason is Some ==> f.spec_headline() == f.reason->0@,
        f.reason is None && lines_of(f.message@).len() > 0 ==> f.spec_headline() == lines_of(
            f.message@,
        )[0],
{
}

} // verus!
