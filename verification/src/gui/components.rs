//! One row of the track list: what it says, and in which tone.
use vstd::prelude::*;
use vstd::string::*;

use crate::downloader::failure::FailureKind;
use crate::models::track::{opt, to_us, capped_us, MetaState, Track, TrackStatus};
use crate::text;
use crate::utils::filesystem::{clock, clock_text};

verus! {

/// The tone in which something is shown.
#[derive(Debug, Clone, Copy, PartialEq, Eq, Structural)]
pub enum Tone {
    /// Of no weight.
    Faint,
    /// Under way.
    Accent,
    Good,
    Bad,
    /// A fact to report, not an error to act on.
    Warn,
}

/// A text in its tone, with what is said where the pointer rests on it.
pub struct Shown {
    pub text: String,
    pub tone: Tone,
    pub hover: Option<String>,
}

/// A text in its tone, as values.
pub struct ShownView {
    pub text: Seq<char>,
    pub tone: Tone,
    pub hover: Option<Seq<char>>,
}

impl View for Shown {
    type V = ShownView;

    open spec fn view(&self) -> ShownView {
        ShownView { text: self.text@, tone: self.tone, hover: opt(self.hover) }
    }
}

/// Texts, as values.
pub open spec fn shown_views(list: Seq<Shown>) -> Seq<ShownView> {
    list.map_values(|s: Shown| s@)
}

pub(crate) fn shown(text: &str, tone: Tone) -> (r: Shown)
    ensures
        r@ == (ShownView { text: text@, tone, hover: None }),
{
    Shown { text: text.to_owned(), tone, hover: None }
}

pub(crate) fn shown_with(text: &str, tone: Tone, hover: &str) -> (r: Shown)
    ensures
        r@ == (ShownView { text: text@, tone, hover: Some(hover@) }),
{
    Shown { text: text.to_owned(), tone, hover: Some(hover.to_owned()) }
}

/// How the status of a track is shown.
pub open spec fn status_view(status: TrackStatus) -> ShownView {
    match status {
        TrackStatus::Pending => ShownView { text: "•"@, tone: Tone::Faint, hover: None },
        TrackStatus::Downloading => ShownView {
            text: "⬇ downloading"@,
            tone: Tone::Accent,
            hover: None,
        },
        TrackStatus::Rendering => ShownView {
            text: "🎬 rendering"@,
            tone: Tone::Accent,
            hover: None,
        },
        TrackStatus::Done(path) => ShownView {
            text: "✓ done"@,
            tone: Tone::Good,
            hover: Some(path@),
        },
        TrackStatus::Failed(reason) => ShownView {
            text: "✗ failed"@,
            tone: Tone::Bad,
            hover: Some(reason@),
        },
    }
}

/// Says how the status of a track is shown.
pub fn status_label(status: &TrackStatus) -> (r: Shown)
    ensures
        r@ == status_view(*status),
{
    match status {
        TrackStatus::Pending => shown("•", Tone::Faint),
        TrackStatus::Downloading => shown("⬇ downloading", Tone::Accent),
        TrackStatus::Rendering => shown("🎬 rendering", Tone::Accent),
        TrackStatus::Done(path) => shown_with("✓ done", Tone::Good, path.as_str()),
        TrackStatus::Failed(reason) => shown_with("✗ failed", Tone::Bad, reason.as_str()),
    }
}

/// What stands below the title of a row. A row that is gone for good states its
/// reason; a refused one is worded as an observation, for it may well be there
/// for those who are signed in; any other failure reads as an error.
pub open spec fn row_lines(t: Track) -> Seq<ShownView> {
    match t.meta {
        MetaState::Loading => seq![
            ShownView { text: "fetching metadata..."@, tone: Tone::Faint, hover: None },
        ],
        MetaState::Loaded => seq![
            ShownView {
                text: t.uploader@ + "   ·   "@ + clock(t.duration as nat),
                tone: Tone::Faint,
                hover: None,
            },
        ],
        MetaState::Failed(f) => match f.kind {
            FailureKind::Permanent => seq![
                ShownView { text: "Metadata unavailable"@, tone: Tone::Warn, hover: None },
                ShownView {
                    text: "Reason: "@ + f.spec_headline(),
                    tone: Tone::Warn,
                    hover: Some(f.message@),
                },
            ],
            FailureKind::Restricted => seq![
                ShownView { text: "Metadata unavailable"@, tone: Tone::Warn, hover: None },
                ShownView {
                    text: f.spec_headline(),
                    tone: Tone::Warn,
                    hover: Some(
                        f.message@
                            + "\n\nSoundCloud refused this track to an anonymous client. Setting a cookies file (Settings → SoundCloud Authentication) and pressing Retry Failed Metadata may recover it."@,
                    ),
                },
            ],
            FailureKind::Retryable => seq![
                ShownView {
                    text: "metadata unavailable: "@ + f.spec_headline(),
                    tone: Tone::Bad,
                    hover: Some(f.message@),
                },
            ],
        },
    }
}

/// Writes what stands below the title of a row.
pub fn row_text(t: &Track) -> (r: Vec<Shown>)
    ensures
        shown_views(r@) == row_lines(*t),
{
    let mut lines: Vec<Shown> = Vec::new();
    match &t.meta {
        MetaState::Loading => lines.push(shown("fetching metadata...", Tone::Faint)),
        MetaState::Loaded => {
            let mut s = t.uploader.clone();
            s.append("   ·   ");
            s.append(clock_text(t.duration).as_str());
            lines.push(shown(s.as_str(), Tone::Faint));
        },
        MetaState::Failed(f) => {
            match f.kind {
                FailureKind::Permanent => {
                    lines.push(shown("Metadata unavailable", Tone::Warn));
                    let mut s = "Reason: ".to_owned();
                    s.append(f.headline().as_str());
                    lines.push(shown_with(s.as_str(), Tone::Warn, f.message.as_str()));
                },
                FailureKind::Restricted => {
                    lines.push(shown("Metadata unavailable", Tone::Warn));
                    let mut hover = f.message.clone();
                    hover.append(
                        "\n\nSoundCloud refused this track to an anonymous client. Setting a cookies file (Settings → SoundCloud Authentication) and pressing Retry Failed Metadata may recover it.",
                    );
                    lines.push(shown_with(f.headline().as_str(), Tone::Warn, hover.as_str()));
                },
                FailureKind::Retryable => {
                    let mut s = "metadata unavailable: ".to_owned();
                    s.append(f.headline().as_str());
                    lines.push(shown_with(s.as_str(), Tone::Bad, f.message.as_str()));
                },
            }
        },
    }
    assert(shown_views(lines@) =~= row_lines(*t));
    lines
}

/// Longest a song may be set to play where nothing limits it (two hours).
pub const EDITOR_LIMIT_US: u64 = 7_200_000_000;

/// How long a row can be set to play at most: as long as the limit allows, else
/// as long as the song lasts, else two hours.
pub open spec fn longest_play(t: Track, global_max_us: u64) -> u64 {
    if global_max_us > 0 {
        global_max_us
    } else if t.duration > 0 {
        capped_us(t.duration)
    } else {
        EDITOR_LIMIT_US
    }
}

/// Says how long a row can be set to play at most.
pub fn play_limit(t: &Track, global_max_us: u64) -> (r: u64)
    ensures
        r == longest_play(*t, global_max_us),
{
    if global_max_us > 0 {
        global_max_us
    } else if t.duration > 0 {
        to_us(t.duration)
    } else {
        EDITOR_LIMIT_US
    }
}

/// The reason of a failed conversion, cut to a length that fits under the row.
pub open spec fn failure_note(reason: Seq<char>) -> Seq<char> {
    if reason.len() > 600 {
        "Reason:\n"@ + reason.take(600) + " [...]"@
    } else {
        "Reason:\n"@ + reason
    }
}

/// Writes what stands under the row of a failed conversion.
pub fn failure_text(status: &TrackStatus) -> (r: Option<String>)
    ensures
        opt(r) == (match *status {
            TrackStatus::Failed(reason) => Some(failure_note(reason@)),
            _ => None,
        }),
{
    match status {
        TrackStatus::Failed(reason) => {
            let chars = text::to_chars(reason.as_str());
            let mut s = "Reason:\n".to_owned();
            if chars.len() > 600 {
                let head = text::slice_of(chars.as_slice(), 0, 600);
                s.append(text::from_chars(head.as_slice()).as_str());
                s.append(" [...]");
                assert(head@ =~= reason@.take(600));
            } else {
                s.append(reason.as_str());
            }
            Some(s)
        },
        _ => None,
    }
}

/// One row of the track list.
pub struct TrackRow {
    /// What stands below the title.
    pub lines: Vec<Shown>,
    pub status: Shown,
    /// How long it can be set to play at most.
    pub limit_us: u64,
    /// What stands under the row, after a failed conversion.
    pub failure: Option<String>,
}

/// What a row of the track list shows.
pub fn track_row(t: &Track, global_max_us: u64) -> (r: TrackRow)
    ensures
        shown_views(r.lines@) == row_lines(*t),
        r.status@ == status_view(t.status),
        r.limit_us == longest_play(*t, global_max_us),
        opt(r.failure) == (match t.status {
            TrackStatus::Failed(reason) => Some(failure_note(reason@)),
            _ => None,
        }),
{
    TrackRow {
        lines: row_text(t),
        status: status_label(&t.status),
        limit_us: play_limit(t, global_max_us),
        failure: failure_text(&t.status),
    }
}

} // verus!
