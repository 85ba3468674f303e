//! The panels around the track list: what they say, and what can be pressed.
use vstd::prelude::*;
use vstd::string::*;

use super::components::{shown, shown_views, shown_with, Shown, ShownView, Tone};
use super::rows::{count_in, count_selected, selected_in, RowState};
use super::session::{AppState, RetrySummary, Session};
use crate::config::settings::{
    is_netscape, lowered_first_line, CookieBrowser, DEFAULT_BATCH_COMBINE_CHUNK_SIZE,
    DEFAULT_COMBINE_CHUNK_SIZE,
};
use crate::downloader::cookies::CookieStatus;
use crate::models::messages::BenchmarkResult;
use crate::models::track::{copy_text, opt, Track};
use crate::pipeline::load::{describe_backoff, ladder_text};
use crate::pipeline::tools::{fps_text, frames_per_second, mebibytes, mebibytes_text};
use crate::text;
use crate::text::{decimal, nearest_even, seconds1, trimmed};
use crate::utils::filesystem::{clock, format_duration, whole_seconds};
use crate::video::encoder::{Availability, EncoderChoice, EncoderSupport};

verus! {

// ---------------------------------------------------------------------------
// Tools
// ---------------------------------------------------------------------------

/// The badge of a tool.
pub open spec fn badge(name: Seq<char>, version: Option<Seq<char>>, checked: bool) -> ShownView {
    if !checked {
        ShownView { text: name + ": checking..."@, tone: Tone::Faint, hover: version }
    } else {
        match version {
            Some(_) => ShownView { text: name + " ✓"@, tone: Tone::Good, hover: version },
            None => ShownView {
                text: name + " ✗ not found"@,
                tone: Tone::Bad,
                hover: Some(
                    "'"@ + name
                        + "' was not found on PATH.\nInstall it or set its full path in Settings below."@,
                ),
            },
        }
    }
}

/// Writes the badge of a tool.
pub fn tool_badge(name: &str, version: &Option<String>, checked: bool) -> (r: Shown)
    ensures
        r@ == badge(name@, opt(*version), checked),
{
    let mut s = name.to_owned();
    if !checked {
        s.append(": checking...");
        Shown { text: s, tone: Tone::Faint, hover: copy_text(version) }
    } else if version.is_some() {
        s.append(" ✓");
        Shown { text: s, tone: Tone::Good, hover: copy_text(version) }
    } else {
        s.append(" ✗ not found");
        let mut hover = "'".to_owned();
        hover.append(name);
        hover.append(
            "' was not found on PATH.\nInstall it or set its full path in Settings below.",
        );
        Shown { text: s, tone: Tone::Bad, hover: Some(hover) }
    }
}

/// Says of a tool whether it is there.
pub fn missing_line(name: &str, missing: bool) -> (r: Shown)
    ensures
        r@ == (if missing {
            ShownView { text: "✗ "@ + name@ + " — not found"@, tone: Tone::Bad, hover: None }
        } else {
            ShownView { text: "✓ "@ + name@ + " — installed"@, tone: Tone::Good, hover: None }
        }),
{
    let mut s = (if missing { "✗ " } else { "✓ " }).to_owned();
    s.append(name);
    s.append(if missing { " — not found" } else { " — installed" });
    Shown {
        text: s,
        tone: if missing {
            Tone::Bad
        } else {
            Tone::Good
        },
        hover: None,
    }
}

// ---------------------------------------------------------------------------
// Track list
// ---------------------------------------------------------------------------

/// What is added about rows that a retry leaves out or may fail on again.
pub open spec fn unavailable_note(permanent: nat, restricted: nat) -> Seq<char> {
    (if permanent > 0 {
        "\n\n"@ + decimal(permanent)
            + " track(s) are permanently unavailable (deleted, private or region-locked) and are not retried — each row shows why."@
    } else {
        Seq::empty()
    }) + (if restricted > 0 {
        "\n\n"@ + decimal(restricted)
            + " track(s) were refused to an anonymous client. Pick your browser under SoundCloud Authentication first, otherwise they will fail the same way."@
    } else {
        Seq::empty()
    })
}

/// What the retry button says where the pointer rests on it.
pub open spec fn retry_hint(failed: nat, permanent: nat, restricted: nat) -> Seq<char> {
    if failed > 0 {
        "Re-fetch metadata for the "@ + decimal(failed)
            + " track(s) that failed.\nTracks that already loaded are left untouched."@
            + unavailable_note(permanent, restricted)
    } else if permanent > 0 {
        "Nothing left to retry."@ + unavailable_note(permanent, restricted)
    } else {
        "All tracks have metadata."@
    }
}

/// The retry button.
pub struct RetryButton {
    pub label: String,
    pub enabled: bool,
    pub hint: String,
}

impl Session {
    /// What stands in place of an empty track list.
    pub fn empty_list_text(&self) -> (r: &'static str)
        ensures
            r@ == (if self.state == AppState::LoadingPlaylist {
                "Loading playlist..."@
            } else {
                "Paste a SoundCloud playlist URL above and press Load Playlist"@
            }),
    {
        if self.state == AppState::LoadingPlaylist {
            "Loading playlist..."
        } else {
            "Paste a SoundCloud playlist URL above and press Load Playlist"
        }
    }

    /// The heading of the track list.
    pub fn list_heading(&self) -> (r: Option<String>)
        ensures
            opt(r) == (match self.playlist_title {
                Some(title) => Some(
                    title@ + "  ("@ + decimal(self.tracks@.len() as nat) + " tracks)"@,
                ),
                None => None,
            }),
    {
        match &self.playlist_title {
            Some(title) => {
                let mut s = title.clone();
                s.append("  (");
                s.append(text::dec(self.tracks.len() as u64).as_str());
                s.append(" tracks)");
                Some(s)
            },
            None => None,
        }
    }

    /// Whether this is the retry button.
    pub open spec fn shows_retry_button(self, r: Option<RetryButton>) -> bool {
        &&& r is Some == (!self.retry.running && !self.meta_loading)
        &&& r is Some ==> {
            &&& r->0.label@ == "⟳ Retry Failed Metadata ("@ + decimal(self.failed_count())
                + ")"@
            &&& r->0.enabled == (self.state == AppState::Idle && self.failed_count() > 0)
            &&& r->0.hint@ == retry_hint(
                self.failed_count(),
                count_in(self.tracks@, RowState::Permanent),
                count_in(self.tracks@, RowState::Restricted),
            )
        }
    }

    /// The retry button: there once the first metadata pass is over and no retry
    /// runs, and of use while a row may still be mended and nothing else goes on.
    pub fn retry_button(&self) -> (r: Option<RetryButton>)
        ensures
            self.shows_retry_button(r),
    {
        if self.retrying() || self.meta_loading {
            return None;
        }
        let failed = self.failed_meta_count();
        let permanent = self.permanent_meta_count();
        let restricted = self.restricted_meta_count();
        let mut label = "⟳ Retry Failed Metadata (".to_owned();
        label.append(text::dec(failed as u64).as_str());
        label.append(")");
        let mut note = String::new();
        let ghost first = if permanent > 0 {
            "\n\n"@ + decimal(permanent as nat)
                + " track(s) are permanently unavailable (deleted, private or region-locked) and are not retried — each row shows why."@
        } else {
            Seq::empty()
        };
        if permanent > 0 {
            note.append("\n\n");
            note.append(text::dec(permanent as u64).as_str());
            note.append(
                " track(s) are permanently unavailable (deleted, private or region-locked) and are not retried — each row shows why.",
            );
        }
        assert(note@ =~= first);
        if restricted > 0 {
            note.append("\n\n");
            note.append(text::dec(restricted as u64).as_str());
            note.append(
                " track(s) were refused to an anonymous client. Pick your browser under SoundCloud Authentication first, otherwise they will fail the same way.",
            );
        }
        assert(note@ =~= unavailable_note(permanent as nat, restricted as nat));
        let hint = if failed > 0 {
            let mut s = "Re-fetch metadata for the ".to_owned();
            s.append(text::dec(failed as u64).as_str());
            s.append(" track(s) that failed.\nTracks that already loaded are left untouched.");
            s.append(note.as_str());
            s
        } else if permanent > 0 {
            let mut s = "Nothing left to retry.".to_owned();
            s.append(note.as_str());
            s
        } else {
            "All tracks have metadata.".to_owned()
        };
        Some(RetryButton { label, enabled: !self.busy() && failed > 0, hint })
    }

    /// What the convert button says.
    pub fn convert_label(&self) -> (r: String)
        ensures
            r@ == "▶  Convert "@ + decimal(selected_in(self.tracks@)) + " track(s)"@,
    {
        let mut s = "▶  Convert ".to_owned();
        s.append(text::dec(count_selected(self.tracks.as_slice()) as u64).as_str());
        s.append(" track(s)");
        s
    }

    /// What is said beside the convert button while a tool is missing.
    pub fn tools_hint(&self) -> (r: Option<&'static str>)
        ensures
            r is Some == (self.tools.checked && (self.tools.ffmpeg is None
                || self.tools.ytdlp is None)),
            r is Some ==> r->0@ == "install ffmpeg and yt-dlp to convert"@,
    {
        if self.tools.checked && (self.tools.ffmpeg.is_none() || self.tools.ytdlp.is_none()) {
            Some("install ffmpeg and yt-dlp to convert")
        } else {
            None
        }
    }
}

// ---------------------------------------------------------------------------
// Metadata retry
// ---------------------------------------------------------------------------

/// What the retry panel shows.
pub enum RetryPanel {
    Nothing,
    /// Recovery is at work, or waits (`waiting`) for its next pass: how much of
    /// the whole playlist is resolved, and what is said of it.
    Recovery { done: usize, of: usize, count: String, note: String, waiting: bool },
    /// A pass that the button started: how much of it is done, and what is said.
    Pass { done: usize, of: usize, note: String, count: String },
    /// How the last pass came out.
    Summary { heading: &'static str, counts: Vec<Shown>, hint: Option<String> },
}

/// The heading over how a pass came out.
pub open spec fn summary_heading(s: RetrySummary) -> Seq<char> {
    if s.cancelled {
        "Metadata retry cancelled."@
    } else if s.gave_up {
        "Metadata retry stopped — SoundCloud is still rate limiting."@
    } else if s.auto {
        "Automatic metadata retry complete."@
    } else {
        "Metadata retry complete."@
    }
}

/// What can be done about the rows that still failed: the button where another
/// try may help, signing in where they were refused, nothing where they are gone.
pub open spec fn summary_hint(s: RetrySummary) -> Option<Seq<char>> {
    if s.still_failed > s.permanent + s.restricted {
        Some("Use Retry Failed Metadata above to try the remaining tracks again."@)
    } else if s.restricted > 0 {
        Some(
            decimal(s.restricted as nat)
                + " track(s) were refused to an anonymous client — they are not necessarily gone. Pick your browser under Settings → SoundCloud Authentication, then press Retry Failed Metadata."@,
        )
    } else if s.permanent > 0 {
        Some(
            decimal(s.permanent as nat)
                + " track(s) are permanently unavailable and cannot be recovered — each row shows the reason. Retrying will not help."@,
        )
    } else {
        None
    }
}

/// A number of tracks.
pub open spec fn tracks_text(n: nat) -> Seq<char> {
    decimal(n) + " tracks"@
}

/// The counts of how a pass came out: recovered and still failed always, refused
/// and gone for good only where there are any. What each counts is said where the
/// pointer rests on it.
pub open spec fn summary_counts(s: RetrySummary) -> Seq<ShownView> {
    seq![
        ShownView {
            text: "Recovered: "@ + tracks_text(s.recovered as nat),
            tone: Tone::Good,
            hover: None,
        },
        ShownView {
            text: "Still failed: "@ + tracks_text(s.still_failed as nat),
            tone: if s.still_failed > 0 {
                Tone::Bad
            } else {
                Tone::Good
            },
            hover: None,
        },
    ] + (if s.restricted > 0 {
        seq![
            ShownView {
                text: "Restricted: "@ + tracks_text(s.restricted as nat),
                tone: Tone::Warn,
                hover: Some(
                    "SoundCloud refused these to an anonymous client. A cookies file may recover them — they are not confirmed unavailable."@,
                ),
            },
        ]
    } else {
        Seq::empty()
    }) + (if s.permanent > 0 {
        seq![
            ShownView {
                text: "Unavailable: "@ + tracks_text(s.permanent as nat),
                tone: Tone::Warn,
                hover: None,
            },
        ]
    } else {
        Seq::empty()
    })
}

fn counted(what: &str, n: usize, tone: Tone) -> (r: Shown)
    ensures
        r@ == (ShownView { text: what@ + tracks_text(n as nat), tone, hover: None }),
{
    let mut s = what.to_owned();
    let mut count = text::dec(n as u64);
    count.append(" tracks");
    s.append(count.as_str());
    Shown { text: s, tone, hover: None }
}

fn write_counts(s: &RetrySummary) -> (r: Vec<Shown>)
    ensures
        shown_views(r@) == summary_counts(*s),
{
    let mut counts: Vec<Shown> = Vec::new();
    counts.push(counted("Recovered: ", s.recovered, Tone::Good));
    counts.push(
        counted(
            "Still failed: ",
            s.still_failed,
            if s.still_failed > 0 {
                Tone::Bad
            } else {
                Tone::Good
            },
        ),
    );
    if s.restricted > 0 {
        let line = counted("Restricted: ", s.restricted, Tone::Warn);
        counts.push(
            shown_with(
                line.text.as_str(),
                Tone::Warn,
                "SoundCloud refused these to an anonymous client. A cookies file may recover them — they are not confirmed unavailable.",
            ),
        );
    }
    if s.permanent > 0 {
        counts.push(counted("Unavailable: ", s.permanent, Tone::Warn));
    }
    assert(shown_views(counts@) =~= summary_counts(*s));
    counts
}

fn write_hint(s: &RetrySummary) -> (r: Option<String>)
    ensures
        opt(r) == summary_hint(*s),
{
    if s.still_failed as u128 > s.permanent as u128 + s.restricted as u128 {
        Some("Use Retry Failed Metadata above to try the remaining tracks again.".to_owned())
    } else if s.restricted > 0 {
        let mut t = text::dec(s.restricted as u64);
        t.append(
            " track(s) were refused to an anonymous client — they are not necessarily gone. Pick your browser under Settings → SoundCloud Authentication, then press Retry Failed Metadata.",
        );
        Some(t)
    } else if s.permanent > 0 {
        let mut t = text::dec(s.permanent as u64);
        t.append(
            " track(s) are permanently unavailable and cannot be recovered — each row shows the reason. Retrying will not help.",
        );
        Some(t)
    } else {
        None
    }
}

/// "n / total recovered".
pub open spec fn recovered_text(resolved: nat, total: nat) -> Seq<char> {
    decimal(resolved) + " / "@ + decimal(total) + " recovered"@
}

impl Session {
    /// Whether this is what the retry panel shows at the time `now`.
    pub open spec fn shows_retry(self, now: u64, panel: RetryPanel) -> bool {
        let total = self.tracks@.len();
        let resolved = count_in(self.tracks@, RowState::Loaded);
        match self.retry.progress {
            Some(p) => if p.auto {
                &&& panel is Recovery
                &&& panel->Recovery_done == resolved && panel->Recovery_of == total
                &&& panel->Recovery_count@ == recovered_text(resolved, total)
                &&& panel->Recovery_note@ == "Recovering metadata..."@
                &&& !panel->waiting
            } else {
                &&& panel is Pass
                &&& panel->Pass_done == (if p.remaining < p.total {
                    p.total - p.remaining
                } else {
                    0
                })
                &&& panel->Pass_of == p.total
                &&& panel->Pass_note@ == "Retrying metadata..."@
                &&& panel->Pass_count@ == decimal(p.remaining as nat) + " / "@ + decimal(
                    p.total as nat,
                ) + " remaining"@
            },
            None => match self.retry.next_at {
                Some(at) => {
                    let secs = if at > now {
                        ((at - now) / 1000) as nat
                    } else {
                        0
                    };
                    &&& panel is Recovery
                    &&& panel->Recovery_done == resolved && panel->Recovery_of == total
                    &&& panel->Recovery_count@ == recovered_text(resolved, total)
                    &&& panel->Recovery_note@ == decimal(
                        count_in(self.tracks@, RowState::Retryable),
                    ) + " remaining — retrying in "@ + decimal(secs) + "s..."@
                    &&& panel->waiting
                },
                None => match self.retry.summary {
                    Some(s) => {
                        &&& panel is Summary
                        &&& panel->heading@ == summary_heading(s)
                        &&& shown_views(panel->counts@) == summary_counts(s)
                        &&& opt(panel->hint) == summary_hint(s)
                    },
                    None => panel is Nothing,
                },
            },
        }
    }

    fn recovered_so_far(&self) -> (r: String)
        ensures
            r@ == recovered_text(count_in(self.tracks@, RowState::Loaded), self.tracks@.len()),
    {
        let mut s = text::dec(self.resolved_meta_count() as u64);
        s.append(" / ");
        s.append(text::dec(self.tracks.len() as u64).as_str());
        s.append(" recovered");
        s
    }

    /// What the retry panel shows: a pass that runs, the wait for the next one, or
    /// how the last one came out. Recovery is measured on the whole playlist.
    pub fn retry_panel(&self, now: u64) -> (r: RetryPanel)
        ensures
            self.shows_retry(now, r),
    {
        if let Some(p) = self.retry.progress {
            if p.auto {
                return RetryPanel::Recovery {
                    done: self.resolved_meta_count(),
                    of: self.tracks.len(),
                    count: self.recovered_so_far(),
                    note: "Recovering metadata...".to_owned(),
                    waiting: false,
                };
            }
            let mut count = text::dec(p.remaining as u64);
            count.append(" / ");
            count.append(text::dec(p.total as u64).as_str());
            count.append(" remaining");
            return RetryPanel::Pass {
                done: if p.remaining < p.total {
                    p.total - p.remaining
                } else {
                    0
                },
                of: p.total,
                note: "Retrying metadata...".to_owned(),
                count,
            };
        }
        if let Some(at) = self.retry.next_at {
            let secs: u64 = if at > now {
                (at - now) / 1000
            } else {
                0
            };
            let mut note = text::dec(self.auto_recoverable_count() as u64);
            note.append(" remaining — retrying in ");
            note.append(text::dec(secs).as_str());
            note.append("s...");
            return RetryPanel::Recovery {
                done: self.resolved_meta_count(),
                of: self.tracks.len(),
                count: self.recovered_so_far(),
                note,
                waiting: true,
            };
        }
        match self.retry.summary {
            Some(s) => RetryPanel::Summary {
                heading: if s.cancelled {
                    "Metadata retry cancelled."
                } else if s.gave_up {
                    "Metadata retry stopped — SoundCloud is still rate limiting."
                } else if s.auto {
                    "Automatic metadata retry complete."
                } else {
                    "Metadata retry complete."
                },
                counts: write_counts(&s),
                hint: write_hint(&s),
            },
            None => RetryPanel::Nothing,
        }
    }

    /// What the settings say of the shared back-off.
    pub fn backoff_text(&self) -> (r: String)
        ensures
            r@ == "Shared rate-limit cooldown: "@ + ladder_text(self.settings.ladder())
                + "  (one cooldown pauses every worker)"@,
    {
        let mut s = "Shared rate-limit cooldown: ".to_owned();
        let steps = self.settings.retry_backoff();
        assert(steps@ =~= self.settings.ladder());
        s.append(describe_backoff(steps.as_slice()).as_str());
        s.append("  (one cooldown pauses every worker)");
        s
    }
}

// ---------------------------------------------------------------------------
// Cookies
// ---------------------------------------------------------------------------

impl Session {
    /// Whether the cookies can be checked now.
    pub fn can_check_cookies(&self) -> (r: bool)
        ensures
            r == (!self.cookie_checking && self.settings.cookie_browser
                != CookieBrowser::NoBrowser),
    {
        !self.cookie_checking && self.settings.cookie_browser != CookieBrowser::NoBrowser
    }

    /// What is known of the cookies.
    pub open spec fn cookie_view(self) -> ShownView {
        if self.cookie_checking {
            ShownView { text: "Checking..."@, tone: Tone::Faint, hover: None }
        } else {
            match self.cookie_status {
                None => ShownView {
                    text: if self.settings.cookie_browser == CookieBrowser::NoBrowser {
                        "Not using cookies"@
                    } else {
                        "Not checked yet — press Check"@
                    },
                    tone: Tone::Faint,
                    hover: None,
                },
                Some(status) => ShownView {
                    text: status@.headline(),
                    tone: if status is Available {
                        Tone::Good
                    } else if status is Disabled {
                        Tone::Faint
                    } else {
                        Tone::Bad
                    },
                    hover: None,
                },
            }
        }
    }

    /// Says what is known of the cookies.
    pub fn cookie_line(&self) -> (r: Shown)
        ensures
            r@ == self.cookie_view(),
    {
        if self.cookie_checking {
            return shown("Checking...", Tone::Faint);
        }
        match &self.cookie_status {
            None => if self.settings.cookie_browser == CookieBrowser::NoBrowser {
                shown("Not using cookies", Tone::Faint)
            } else {
                shown("Not checked yet — press Check", Tone::Faint)
            },
            Some(status) => {
                let tone = match status {
                    CookieStatus::Available { .. } => Tone::Good,
                    CookieStatus::Disabled => Tone::Faint,
                    _ => Tone::Bad,
                };
                shown(status.headline().as_str(), tone)
            },
        }
    }

    /// Whether a cookies file is offered. It is the way out, not the way: it shows
    /// only once a browser has failed, or where a file is already set.
    pub fn offers_cookies_file(&self) -> (r: bool)
        ensures
            r == ((self.cookie_status is Some && !(self.cookie_status->0 is Available)
                && !(self.cookie_status->0 is Disabled)) || trimmed(
                self.settings.cookies_path@,
            ).len() > 0),
    {
        let failed = match &self.cookie_status {
            None => false,
            Some(CookieStatus::Available { .. }) => false,
            Some(CookieStatus::Disabled) => false,
            Some(_) => true,
        };
        failed || !text::trim(self.settings.cookies_path.as_str()).as_str().is_empty()
    }

    /// Says why the cookies file is of no use, if it is of none: whether it is
    /// there, and what it holds, is given.
    pub fn cookies_file_warning(&self, is_file: bool, content: Option<&str>) -> (r: Option<
        &'static str,
    >)
        ensures
            r is Some == (self.file_missing(is_file) || self.file_unusable(
                match content {
                    Some(c) => Some(c@),
                    None => None,
                },
            )),
            r is Some ==> r->0@ == (if self.file_missing(is_file) {
                "⚠ That file does not exist — it is being ignored."@
            } else {
                "⚠ That file is not in Netscape format — it is being ignored. Most browser \"export cookies\" extensions save JSON, which yt-dlp cannot read; choose an export option that says cookies.txt or Netscape."@
            }),
    {
        if self.settings.cookies_missing(is_file) {
            Some("⚠ That file does not exist — it is being ignored.")
        } else if self.settings.cookies_wrong_format(content) {
            Some(
                "⚠ That file is not in Netscape format — it is being ignored. Most browser \"export cookies\" extensions save JSON, which yt-dlp cannot read; choose an export option that says cookies.txt or Netscape.",
            )
        } else {
            None
        }
    }

    /// Whether a cookies file is set that is not there.
    pub open spec fn file_missing(self, is_file: bool) -> bool {
        trimmed(self.settings.cookies_path@).len() > 0 && !is_file
    }

    /// Whether a cookies file is set whose content is in another format.
    pub open spec fn file_unusable(self, content: Option<Seq<char>>) -> bool {
        &&& trimmed(self.settings.cookies_path@).len() > 0
        &&& content is Some
        &&& !is_netscape(content->0, lowered_first_line(content->0))
    }
}

// ---------------------------------------------------------------------------
// Encoding
// ---------------------------------------------------------------------------

/// An encoder that can be picked, or cannot and says why.
pub struct EncoderOption {
    pub choice: EncoderChoice,
    pub enabled: bool,
    pub selected: bool,
    pub hover: Option<String>,
}

impl Session {
    /// The option of an encoder.
    pub open spec fn is_option(self, choice: EncoderChoice, option: EncoderOption) -> bool {
        &&& option.choice == choice
        &&& option.selected == (self.settings.encoder == choice)
        &&& option.enabled == (opt(option.hover) is None)
        &&& opt(option.hover) == (match choice.spec_kind() {
            None => None,
            Some(kind) => match self.encoder_support {
                None => Some("Detecting encoders..."@),
                Some(support) => match support.spec_availability(kind) {
                    Availability::Available => None,
                    Availability::Unavailable(reason) => Some(reason@),
                },
            },
        })
    }

    /// The encoders to pick from. Until the machine has been probed, no hardware
    /// encoder can be picked.
    pub fn encoder_options(&self) -> (r: Vec<EncoderOption>)
        ensures
            r@.len() == 5,
            self.is_option(EncoderChoice::Auto, r@[0]),
            self.is_option(EncoderChoice::Cpu, r@[1]),
            self.is_option(EncoderChoice::Nvenc, r@[2]),
            self.is_option(EncoderChoice::Qsv, r@[3]),
            self.is_option(EncoderChoice::Amf, r@[4]),
    {
        let choices = EncoderChoice::all();
        let mut options: Vec<EncoderOption> = Vec::new();
        for i in 0..choices.len()
            invariant
                choices@.len() == 5,
                options@.len() == i,
                forall|k: int|
                    0 <= k < i ==> self.is_option(choices@[k], #[trigger] options@[k]),
        {
            options.push(self.encoder_option(choices[i]));
        }
        options
    }

    fn encoder_option(&self, choice: EncoderChoice) -> (r: EncoderOption)
        ensures
            self.is_option(choice, r),
    {
        let availability = match &self.encoder_support {
            Some(support) => support.choice_availability(choice),
            None => EncoderSupport::default().choice_availability(choice),
        };
        let (enabled, hover) = match availability {
            Availability::Available => (true, None),
            Availability::Unavailable(reason) => (
                false,
                if self.encoder_support.is_none() {
                    Some("Detecting encoders...".to_owned())
                } else {
                    Some(reason)
                },
            ),
        };
        EncoderOption { choice, enabled, selected: self.settings.encoder == choice, hover }
    }

    /// Whether this is what the encoder settings come to.
    pub open spec fn is_encoder_outcome(self, name: Seq<char>, note: Option<Seq<char>>) -> bool {
        &&& name == self.encoder_kind().spec_full_label()
        &&& self.encoder_support is Some ==> note == self.encoder_support->0.fallback_note(
            self.settings.encoder,
        )
        &&& self.encoder_support is None ==> note == (match self.settings.encoder.spec_kind() {
            Some(kind) => Some(
                kind.spec_short_label()
                    + " is not available (not yet detected); using CPU (libx264) instead."@,
            ),
            None => None,
        })
    }

    /// What the encoder settings come to: the encoder's name, and the note where
    /// the chosen one is not available.
    pub fn encoder_outcome(&self) -> (r: (String, Option<String>))
        ensures
            self.is_encoder_outcome(r.0@, opt(r.1)),
    {
        match &self.encoder_support {
            Some(support) => {
                let (resolved, note) = support.resolve(
                    self.settings.encoder,
                    self.settings.hardware_decode,
                );
                (resolved.kind.full_label(), note)
            },
            None => {
                let (resolved, note) = EncoderSupport::default().resolve(
                    self.settings.encoder,
                    self.settings.hardware_decode,
                );
                proof {
                    reveal_strlit(" is not available (");
                    reveal_strlit("not yet detected");
                    reveal_strlit("); using CPU (libx264) instead.");
                    reveal_strlit(
                        " is not available (not yet detected); using CPU (libx264) instead.",
                    );
                    if self.settings.encoder.spec_kind() is Some {
                        let name = self.settings.encoder.spec_kind()->0.spec_short_label();
                        assert(name + " is not available ("@ + "not yet detected"@
                            + "); using CPU (libx264) instead."@ =~= name
                            + " is not available (not yet detected); using CPU (libx264) instead."@);
                    }
                }
                (resolved.kind.full_label(), note)
            },
        }
    }

    /// Whether a benchmark can be started.
    pub fn can_benchmark(&self) -> (r: bool)
        ensures
            r == (self.state == AppState::Idle && !self.benchmarking),
    {
        !self.busy() && !self.benchmarking
    }
}

/// How a batch size is offered; the default one says so.
pub open spec fn batch_label(n: nat, what: Seq<char>, default: nat) -> Seq<char> {
    if n == default {
        decimal(n) + what + " (default)"@
    } else {
        decimal(n) + what
    }
}

/// The label of a number of clips per pass.
pub fn clips_label(n: usize) -> (r: String)
    ensures
        r@ == batch_label(n as nat, " clips"@, DEFAULT_COMBINE_CHUNK_SIZE as nat),
{
    let mut s = text::dec(n as u64);
    s.append(" clips");
    if n == DEFAULT_COMBINE_CHUNK_SIZE {
        s.append(" (default)");
    }
    s
}

/// The label of a number of batches per pass.
pub fn batches_label(n: usize) -> (r: String)
    ensures
        r@ == batch_label(n as nat, " batches"@, DEFAULT_BATCH_COMBINE_CHUNK_SIZE as nat),
{
    let mut s = text::dec(n as u64);
    s.append(" batches");
    if n == DEFAULT_BATCH_COMBINE_CHUNK_SIZE {
        s.append(" (default)");
    }
    s
}

/// A transition length, to the nearest second.
pub open spec fn transition_text(us: nat) -> Seq<char> {
    decimal(nearest_even(us, 1_000_000)) + " seconds"@
}

/// The label of the transition length that is set.
pub fn transition_label(us: u64) -> (r: String)
    ensures
        r@ == transition_text(us as nat),
{
    let secs: u128 = text::to_nearest_even(us as u128, 1_000_000);
    assert(secs <= u64::MAX) by {
        assert(nearest_even(us as nat, 1_000_000) <= us / 1_000_000 + 1);
    }
    let mut s = text::dec(secs as u64);
    s.append(" seconds");
    s
}

/// The label under which a transition length is offered.
pub fn transition_option(us: u64) -> (r: String)
    ensures
        r@ == (if us == 0 {
            "None (hard cut)"@
        } else {
            transition_text(us as nat)
        }),
{
    if us == 0 {
        "None (hard cut)".to_owned()
    } else {
        transition_label(us)
    }
}

// ---------------------------------------------------------------------------
// Benchmarks
// ---------------------------------------------------------------------------

/// How long the selected rows play together, each a second at least.
pub open spec fn selected_time(tracks: Seq<Track>) -> nat
    decreases tracks.len(),
{
    if tracks.len() == 0 {
        0
    } else {
        selected_time(tracks.drop_last()) + (if !tracks.last().selected {
            0nat
        } else if tracks.last().play_us < 1_000_000 {
            1_000_000
        } else {
            tracks.last().play_us as nat
        })
    }
}

/// `n`, or the largest machine integer where that is less.
pub open spec fn capped(n: nat) -> nat {
    if n > u64::MAX {
        u64::MAX as nat
    } else {
        n
    }
}

fn selected_us(tracks: &[Track]) -> (r: u64)
    ensures
        r == capped(selected_time(tracks@)),
{
    let mut total: u64 = 0;
    for i in 0..tracks.len()
        invariant
            total == capped(selected_time(tracks@.take(i as int))),
    {
        assert(tracks@.take(i + 1).drop_last() =~= tracks@.take(i as int));
        if tracks[i].selected {
            let play: u64 = if tracks[i].play_us < 1_000_000 {
                1_000_000
            } else {
                tracks[i].play_us
            };
            total = if total > u64::MAX - play {
                u64::MAX
            } else {
                total + play
            };
        }
    }
    assert(tracks@.take(tracks@.len() as int) =~= tracks@);
    total
}

/// How long a render of so much video takes at the measured rate: the sample is
/// thirty seconds long, and no rate below a tenth of a frame per second counts.
pub open spec fn estimate(total_us: nat, elapsed_us: nat) -> nat {
    let sample = if elapsed_us > 9_000_000_000 {
        9_000_000_000
    } else {
        elapsed_us
    };
    capped(total_us * sample / 30_000_000)
}

fn estimate_us(total_us: u64, elapsed_us: u64) -> (r: u64)
    ensures
        r == estimate(total_us as nat, elapsed_us as nat),
{
    let sample: u64 = if elapsed_us > 9_000_000_000 {
        9_000_000_000
    } else {
        elapsed_us
    };
    assert(total_us * sample <= u64::MAX * 9_000_000_000) by (nonlinear_arith)
        requires
            total_us <= u64::MAX,
            sample <= 9_000_000_000,
    ;
    let product: u128 = total_us as u128 * sample as u128;
    let us: u128 = product / 30_000_000;
    if us > u64::MAX as u128 {
        u64::MAX
    } else {
        us as u64
    }
}

/// A line of the benchmark table.
pub struct BenchmarkRow {
    pub encoder: String,
    pub time: String,
    pub fps: String,
    pub size: String,
    pub estimate: Option<String>,
}

/// Whether this is the line of a benchmark, with an estimate for `total_us` of
/// video where there is any.
pub open spec fn is_row(b: BenchmarkResult, total_us: nat, row: BenchmarkRow) -> bool {
    &&& row.encoder@ == b.encoder@
    &&& row.time@ == seconds1(b.elapsed_us as nat) + "s"@
    &&& row.fps@ == decimal(frames_per_second(b.elapsed_us as nat))
    &&& row.size@ == mebibytes(b.size_bytes as nat) + " MB"@
    &&& opt(row.estimate) == (if total_us > 0 {
        Some(clock(whole_seconds(estimate(total_us, b.elapsed_us as nat))))
    } else {
        None
    })
}

fn benchmark_row(b: &BenchmarkResult, total_us: u64) -> (r: BenchmarkRow)
    requires
        b.elapsed_us > 0,
    ensures
        is_row(*b, total_us as nat, r),
{
    let mut time = text::seconds_1(b.elapsed_us);
    time.append("s");
    let mut size = mebibytes_text(b.size_bytes);
    size.append(" MB");
    BenchmarkRow {
        encoder: b.encoder.clone(),
        time,
        fps: fps_text(b.elapsed_us),
        size,
        estimate: if total_us > 0 {
            Some(format_duration(estimate_us(total_us, b.elapsed_us)))
        } else {
            None
        },
    }
}

impl Session {
    /// The benchmark table, with the note under it: each encoder's rate is
    /// projected to what is selected.
    pub fn benchmark_table(&self) -> (r: (Vec<BenchmarkRow>, Option<String>))
        requires
            self.well_formed(),
        ensures
            r.0@.len() == self.benchmarks@.len(),
            forall|i: int|
                0 <= i < r.0@.len() ==> is_row(
                    self.benchmarks@[i],
                    capped(selected_time(self.tracks@)),
                    #[trigger] r.0@[i],
                ),
            opt(r.1) == (if self.benchmarks@.len() > 0 && selected_time(self.tracks@) > 0 {
                Some(
                    "Estimate for the "@ + decimal(selected_in(self.tracks@))
                        + " selected track(s) (~"@ + clock(
                        whole_seconds(capped(selected_time(self.tracks@))),
                    ) + ") at each encoder's measured rate."@,
                )
            } else {
                None
            }),
    {
        let total: u64 = selected_us(self.tracks.as_slice());
        let mut rows: Vec<BenchmarkRow> = Vec::new();
        for i in 0..self.benchmarks.len()
            invariant
                total == capped(selected_time(self.tracks@)),
                forall|i: int|
                    0 <= i < self.benchmarks@.len() ==> (
                    #[trigger] self.benchmarks@[i]).elapsed_us > 0,
                rows@.len() == i,
                forall|k: int|
                    0 <= k < i ==> is_row(self.benchmarks@[k], total as nat, #[trigger] rows@[k]),
        {
            rows.push(benchmark_row(&self.benchmarks[i], total));
        }
        let note = if rows.len() > 0 && total > 0 {
            let mut s = "Estimate for the ".to_owned();
            s.append(text::dec(count_selected(self.tracks.as_slice()) as u64).as_str());
            s.append(" selected track(s) (~");
            s.append(format_duration(total).as_str());
            s.append(") at each encoder's measured rate.");
            Some(s)
        } else {
            None
        };
        (rows, note)
    }
}

} // verus!
