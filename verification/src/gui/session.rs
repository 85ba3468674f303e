//! The state of the window, and how it answers the background workers and the
//! user. What has to be done outside (starting a pass, cancelling one, writing to
//! a log file) is handed back as a value.
use vstd::prelude::*;
use vstd::string::*;

use super::rows::{
    count_in, count_rows, fetches, pick_targets, put_rows_back, remembers, restored, selected_in,
    targets_of, RetryTarget, RowBefore, RowState,
};
use crate::config::settings::{ExportMode, Settings};
use crate::downloader::cookies::CookieStatus;
use crate::models::messages::{BenchmarkResult, Progress, WorkerMsg};
use crate::models::track::{
    capped_us, opt, play_time, MetaFailure, MetaState, Track, TrackMetadata, TrackStatus,
};
use crate::text;
use crate::text::{decimal, ends, starts, views};
use crate::video::encoder::{EncoderKind, EncoderSupport, ResolvedEncoder};

verus! {

/// First wait between automatic recovery passes, in seconds. Short: the first
/// pass often clears most rows, and a quick second one mops up the rest.
pub const RECOVERY_BACKOFF_START: u64 = 15;

/// Longest wait between automatic recovery passes, in seconds.
pub const RECOVERY_BACKOFF_MAX: u64 = 300;

/// What the application is doing.
#[derive(Debug, Clone, Copy, PartialEq, Eq, Structural)]
pub enum AppState {
    Idle,
    LoadingPlaylist,
    Converting,
}

/// The dialog that helps to install missing tools.
pub enum SetupUi {
    Hidden,
    /// Tools are missing and winget can install them.
    Prompt,
    /// Tools are missing and have to be installed by hand.
    NoWinget,
    /// Being installed; holds what the installer said.
    Installing(Vec<String>),
    Failed { message: String, needs_elevation: bool },
    Success(String),
}

/// What was chosen in the setup dialog.
#[derive(Debug, Clone, Copy, PartialEq, Eq, Structural)]
pub enum SetupAction {
    Nothing,
    Install,
    Dismiss,
    Elevate,
    Close,
}

/// What is to be done after a choice in the setup dialog.
#[derive(Debug, Clone, Copy, PartialEq, Eq, Structural)]
pub enum SetupOrder {
    Nothing,
    /// Install the tools that are missing.
    Install { ffmpeg: bool, ytdlp: bool },
    /// Restart with administrator rights.
    Elevate,
}

/// What was chosen when asked whether to resume.
#[derive(Debug, Clone, Copy, PartialEq, Eq, Structural)]
pub enum ResumeChoice {
    Undecided,
    Resume,
    StartOver,
    Cancel,
}

/// Which tools were found, once that has been checked.
pub struct ToolStatus {
    pub checked: bool,
    pub ffmpeg: Option<String>,
    pub ytdlp: Option<String>,
}

/// A retry pass while it runs.
#[derive(Debug, Clone, Copy, PartialEq, Eq, Structural)]
pub struct RetryProgress {
    pub remaining: usize,
    pub total: usize,
    /// Whether it started by itself.
    pub auto: bool,
}

/// How the last retry pass came out.
#[derive(Debug, Clone, Copy, PartialEq, Eq, Structural)]
pub struct RetrySummary {
    pub recovered: usize,
    pub still_failed: usize,
    /// Of those that still failed, how many are gone for good.
    pub permanent: usize,
    /// Of those that still failed, how many were refused.
    pub restricted: usize,
    pub cancelled: bool,
    /// It stopped early because the rate limit did not ease.
    pub gave_up: bool,
    pub auto: bool,
}

/// The metadata retry: the pass that runs, and the recovery loop around it.
pub struct Retry {
    pub running: bool,
    pub progress: Option<RetryProgress>,
    pub summary: Option<RetrySummary>,
    /// Whether the last pass started by itself.
    pub was_automatic: bool,
    /// When the next automatic pass is due, in milliseconds of a clock that never
    /// goes back, while one is being waited for.
    pub next_at: Option<u64>,
    /// The current wait between automatic passes, in seconds.
    pub backoff: u64,
    /// The failures that the retried rows had before.
    pub before: Vec<RowBefore>,
}

/// A conversion to be started.
pub struct ConvertOrder {
    pub mode: ExportMode,
    /// The selected rows, with their places in the list.
    pub selected: Vec<(usize, Track)>,
    pub encoder: ResolvedEncoder,
    pub playlist_name: String,
}

/// Everything that the window shows.
pub struct Session {
    pub settings: Settings,
    pub url: String,
    pub playlist_title: Option<String>,
    pub tracks: Vec<Track>,
    pub state: AppState,
    /// Whether the first metadata pass is still running.
    pub meta_loading: bool,
    pub retry: Retry,
    /// What the last cookie check found.
    pub cookie_status: Option<CookieStatus>,
    pub cookie_checking: bool,
    pub progress: Option<Progress>,
    pub tools: ToolStatus,
    pub error: Option<String>,
    pub logs: Vec<String>,
    pub show_logs: bool,
    /// The export mode that the running conversion was started in.
    pub active_export_mode: ExportMode,
    pub setup: SetupUi,
    /// Whether the setup dialog has been turned away.
    pub setup_dismissed: bool,
    /// Whether the user is being asked to resume or start over.
    pub resume_prompt: bool,
    /// What the encoder probe found, once it has reported.
    pub encoder_support: Option<EncoderSupport>,
    /// The encoder that the running conversion uses.
    pub active_encoder: Option<String>,
    pub benchmarking: bool,
    /// The last benchmarks, newest first.
    pub benchmarks: Vec<BenchmarkResult>,
}

/// What is to be done after a message: a line for the log file, and the rows of a
/// retry pass to be started (none where none is to be started).
pub struct Effects {
    pub log_file_line: Option<String>,
    pub retry: Vec<RetryTarget>,
}

// ---------------------------------------------------------------------------
// Lists
// ---------------------------------------------------------------------------

/// A list that has grown past `most` loses its first `excess` entries.
pub open spec fn shortened<T>(list: Seq<T>, most: int, excess: int) -> Seq<T> {
    if list.len() > most {
        list.skip(excess)
    } else {
        list
    }
}

/// Adds a line to a list, and drops the oldest lines where it grows too long.
fn put_shortened(list: &mut Vec<String>, line: &str, most: usize, excess: usize)
    requires
        excess <= most,
    ensures
        views(final(list)@) == shortened(
            views(old(list)@).push(line@),
            most as int,
            excess as int,
        ),
{
    let ghost all = views(list@).push(line@);
    text::put(list, line);
    assert(views(list@) =~= all);
    if list.len() > most {
        let ghost whole = list@;
        let kept = list.split_off(excess);
        *list = kept;
        assert(views(list@) =~= all.skip(excess as int));
    }
}

/// Whether a file in the work directory is a rendered clip.
pub open spec fn is_clip(name: Seq<char>) -> bool {
    starts(name, "clip_"@) && ends(name, ".mp4"@)
}

/// Whether a file in the work directory is a combined batch.
pub open spec fn is_batch(name: Seq<char>) -> bool {
    starts(name, "batch_"@) && ends(name, ".mkv"@)
}

/// How many of the files are rendered clips.
pub open spec fn clips_in(names: Seq<Seq<char>>) -> nat
    decreases names.len(),
{
    if names.len() == 0 {
        0
    } else {
        clips_in(names.drop_last()) + (if is_clip(names.last()) {
            1nat
        } else {
            0
        })
    }
}

/// Whether a combined export could reuse any of the files.
pub open spec fn resumable(names: Seq<Seq<char>>) -> bool {
    exists|i: int| 0 <= i < names.len() && (is_clip(#[trigger] names[i]) || is_batch(names[i]))
}

/// Whether the work directory holds anything that a combined export could reuse:
/// a rendered clip or a combined batch.
pub fn work_has_resumable_artifacts(names: &[String]) -> (r: bool)
    ensures
        r == resumable(views(names@)),
{
    for i in 0..names.len()
        invariant
            forall|k: int|
                0 <= k < i ==> !is_clip(#[trigger] views(names@)[k]) && !is_batch(
                    views(names@)[k],
                ),
    {
        let n = names[i].as_str();
        assert(views(names@)[i as int] == n@);
        if (text::has_prefix(n, "clip_") && text::has_suffix(n, ".mp4")) || (text::has_prefix(
            n,
            "batch_",
        ) && text::has_suffix(n, ".mkv")) {
            return true;
        }
    }
    false
}

fn count_clips(names: &[String]) -> (r: usize)
    ensures
        r == clips_in(views(names@)),
{
    let mut n: usize = 0;
    for i in 0..names.len()
        invariant
            n == clips_in(views(names@).take(i as int)),
            n <= i,
    {
        assert(views(names@).take(i + 1).drop_last() =~= views(names@).take(i as int));
        assert(views(names@)[i as int] == names@[i as int]@);
        if text::has_prefix(names[i].as_str(), "clip_") && text::has_suffix(
            names[i].as_str(),
            ".mp4",
        ) {
            n = n + 1;
        }
    }
    assert(views(names@).take(names@.len() as int) =~= views(names@));
    n
}

/// What is said of an interrupted conversion that can be resumed.
pub open spec fn resume_lines(names: Seq<Seq<char>>) -> Seq<Seq<char>> {
    if !resumable(names) {
        Seq::empty()
    } else {
        let clips = if clips_in(names) > 0 {
            seq![
                decimal(clips_in(names))
                    + " rendered clip(s) found — they will be reused on Resume."@,
            ]
        } else {
            Seq::empty()
        };
        seq!["Found a previous conversion in progress."@] + clips + seq![
            "Press Convert to resume where it left off; metadata recovery continues in the background."@,
        ]
    }
}

// ---------------------------------------------------------------------------
// Rows
// ---------------------------------------------------------------------------

/// A row once its metadata is there.
pub open spec fn with_metadata(t: Track, meta: TrackMetadata, max_us: u64) -> Track {
    Track {
        title: meta.title,
        uploader: meta.uploader,
        duration: meta.duration,
        thumbnail: meta.thumbnail,
        url: if meta.url@.len() > 0 {
            meta.url
        } else {
            t.url
        },
        play_us: play_time(meta.duration, max_us),
        meta: MetaState::Loaded,
        ..t
    }
}

/// A row once its metadata could not be had. One that is gone for good cannot be
/// converted either and is deselected.
pub open spec fn with_failure(t: Track, failure: MetaFailure) -> Track {
    Track {
        selected: t.selected && !(failure.kind is Permanent),
        meta: MetaState::Failed(failure),
        ..t
    }
}

/// A row after its metadata fetch.
pub open spec fn after_fetch(
    t: Track,
    result: Result<TrackMetadata, MetaFailure>,
    max_us: u64,
) -> Track {
    match result {
        Ok(meta) => with_metadata(t, meta, max_us),
        Err(failure) => with_failure(t, failure),
    }
}

/// The rows with one of them replaced, where there is one at that place.
pub open spec fn replaced(tracks: Seq<Track>, index: usize, t: Track) -> Seq<Track> {
    if index < tracks.len() {
        tracks.update(index as int, t)
    } else {
        tracks
    }
}

/// How long a row plays under a changed limit.
pub open spec fn limited(t: Track, max_us: u64) -> Track {
    Track {
        play_us: if max_us > 0 {
            if max_us < t.play_us {
                max_us
            } else {
                t.play_us
            }
        } else if t.duration > 0 {
            capped_us(t.duration)
        } else {
            t.play_us
        },
        ..t
    }
}

/// A row when a conversion begins.
pub open spec fn pending(t: Track) -> Track {
    Track {
        status: if t.selected {
            TrackStatus::Pending
        } else {
            t.status
        },
        ..t
    }
}

/// The selected rows with their places, in order.
pub open spec fn selection(tracks: Seq<Track>) -> Seq<(usize, Track)>
    decreases tracks.len(),
{
    if tracks.len() == 0 {
        Seq::empty()
    } else {
        let rest = selection(tracks.drop_last());
        if tracks.last().selected {
            rest.push(((tracks.len() - 1) as usize, tracks.last()))
        } else {
            rest
        }
    }
}

pub(crate) fn pick_selected(tracks: &[Track]) -> (r: Vec<(usize, Track)>)
    ensures
        r@ == selection(tracks@),
        r@.len() == selected_in(tracks@),
{
    let mut out: Vec<(usize, Track)> = Vec::new();
    for i in 0..tracks.len()
        invariant
            out@ == selection(tracks@.take(i as int)),
            out@.len() == selected_in(tracks@.take(i as int)),
    {
        assert(tracks@.take(i + 1).drop_last() =~= tracks@.take(i as int));
        if tracks[i].selected {
            out.push((i, tracks[i].clone()));
        }
    }
    assert(tracks@.take(tracks@.len() as int) =~= tracks@);
    out
}

/// The benchmarks with a new result in front, where there is one.
pub open spec fn newest_first(
    list: Seq<BenchmarkResult>,
    result: Result<BenchmarkResult, String>,
) -> Seq<BenchmarkResult> {
    match result {
        Ok(b) => seq![b] + list,
        Err(_) => list,
    }
}

// ---------------------------------------------------------------------------
// Texts
// ---------------------------------------------------------------------------

/// What is said when a conversion is over.
pub open spec fn completion(mode: ExportMode, ok: nat, failed: nat, cancelled: bool) -> Seq<char> {
    match mode {
        ExportMode::Separate => if cancelled {
            "Cancelled — "@ + decimal(ok) + " video(s) created, "@ + decimal(failed) + " failed"@
        } else if failed > 0 {
            "Done — "@ + decimal(ok) + " video(s) created, "@ + decimal(failed) + " failed"@
        } else {
            "Done — "@ + decimal(ok) + " video(s) created 🎉"@
        },
        ExportMode::Combined => if cancelled {
            "Cancelled — no playlist video created"@
        } else if ok == 0 {
            "Failed — no playlist video created ("@ + decimal(failed) + " track(s) failed)"@
        } else if failed > 0 {
            "Done — 1 playlist video created ("@ + decimal(failed) + " track(s) skipped) 🎉"@
        } else {
            "Done — 1 playlist video created 🎉"@
        },
    }
}

/// What the log says of rows that no retry can mend.
pub open spec fn permanent_line(permanent: nat, failed: nat) -> Seq<char> {
    decimal(permanent) + " of "@ + decimal(failed)
        + " failed track(s) are permanently unavailable (deleted, private or region-locked) — they are marked as such and will not be retried."@
}

/// What the log says of rows that were refused.
pub open spec fn restricted_line(restricted: nat, failed: nat) -> Seq<char> {
    decimal(restricted) + " of "@ + decimal(failed)
        + " failed track(s) were refused to an anonymous client. These are not necessarily gone — set a cookies file under Settings → SoundCloud Authentication and press Retry Failed Metadata to try again signed in."@
}

/// What the log says when recovery starts by itself.
pub open spec fn recovery_line(remaining: nat) -> Seq<char> {
    "→ Recovering missing metadata automatically ("@ + decimal(remaining)
        + " track(s) remaining)"@
}

/// What the log says when recovery has to wait.
pub open spec fn waiting_line(remaining: nat, secs: nat) -> Seq<char> {
    "⏳ "@ + decimal(remaining) + " track(s) still missing metadata — retrying in "@ + decimal(secs)
        + "s."@
}

/// A text made of two counts.
fn two_counts(first: usize, second: usize, rest: &str) -> (r: String)
    ensures
        r@ == decimal(first as nat) + " of "@ + decimal(second as nat) + rest@,
{
    let mut s = text::dec(first as u64);
    s.append(" of ");
    s.append(text::dec(second as u64).as_str());
    s.append(rest);
    s
}

// ---------------------------------------------------------------------------
// The session
// ---------------------------------------------------------------------------

impl Session {
    /// The session at startup.
    pub fn new(settings: Settings, encoder_support: Option<EncoderSupport>) -> (r: Self)
        ensures
            r.settings == settings,
            r.encoder_support == encoder_support,
            r.active_export_mode == settings.export_mode,
            r.url@.len() == 0,
            r.playlist_title is None,
            r.tracks@.len() == 0,
            r.state == AppState::Idle,
            !r.meta_loading,
            !r.retry.running && r.retry.progress is None && r.retry.summary is None,
            !r.retry.was_automatic && r.retry.next_at is None,
            r.retry.backoff == RECOVERY_BACKOFF_START && r.retry.before@.len() == 0,
            r.cookie_status is None && !r.cookie_checking,
            r.progress is None && r.error is None && r.active_encoder is None,
            !r.tools.checked && r.tools.ffmpeg is None && r.tools.ytdlp is None,
            r.logs@.len() == 0 && !r.show_logs,
            r.setup is Hidden && !r.setup_dismissed && !r.resume_prompt,
            !r.benchmarking && r.benchmarks@.len() == 0,
            r.well_formed(),
    {
        let mode = settings.export_mode;
        Session {
            settings,
            url: String::new(),
            playlist_title: None,
            tracks: Vec::new(),
            state: AppState::Idle,
            meta_loading: false,
            retry: Retry {
                running: false,
                progress: None,
                summary: None,
                was_automatic: false,
                next_at: None,
                backoff: RECOVERY_BACKOFF_START,
                before: Vec::new(),
            },
            cookie_status: None,
            cookie_checking: false,
            progress: None,
            tools: ToolStatus { checked: false, ffmpeg: None, ytdlp: None },
            error: None,
            logs: Vec::new(),
            show_logs: false,
            active_export_mode: mode,
            setup: SetupUi::Hidden,
            setup_dismissed: false,
            resume_prompt: false,
            encoder_support,
            active_encoder: None,
            benchmarking: false,
            benchmarks: Vec::new(),
        }
    }

    /// The encoder that the settings come to on this machine.
    pub open spec fn encoder_kind(self) -> EncoderKind {
        match self.encoder_support {
            Some(support) => support.resolved_kind(self.settings.encoder),
            None => EncoderKind::Cpu,
        }
    }

    /// Resolves the configured encoder against what the machine supports. Before
    /// that is known, nothing but the CPU is relied on.
    pub fn resolve_encoder(&self) -> (r: ResolvedEncoder)
        ensures
            r.kind == self.encoder_kind(),
            r.hardware_decode == (self.settings.hardware_decode && self.encoder_kind()
                != EncoderKind::Cpu),
    {
        match &self.encoder_support {
            Some(support) => support.resolve(
                self.settings.encoder,
                self.settings.hardware_decode,
            ).0,
            None => EncoderSupport::default().resolve(
                self.settings.encoder,
                self.settings.hardware_decode,
            ).0,
        }
    }

    /// Whether something is being loaded or converted.
    pub fn busy(&self) -> (r: bool)
        ensures
            r == (self.state != AppState::Idle),
    {
        self.state != AppState::Idle
    }

    /// Whether a retry pass is running.
    pub fn retrying(&self) -> (r: bool)
        ensures
            r == self.retry.running,
    {
        self.retry.running
    }

    /// The rows that the retry button would act on: all that failed and are not
    /// gone for good.
    pub open spec fn failed_count(self) -> nat {
        count_in(self.tracks@, RowState::Retryable) + count_in(self.tracks@, RowState::Restricted)
    }

    /// Counts the rows that the retry button would act on.
    pub fn failed_meta_count(&self) -> (r: usize)
        ensures
            r == self.failed_count(),
            r <= self.tracks@.len(),
    {
        proof {
            super::rows::law_every_row_is_counted_once(self.tracks@);
        }
        let rows = self.tracks.as_slice();
        assert(rows@.len() == rows.len());
        count_rows(rows, RowState::Retryable) + count_rows(rows, RowState::Restricted)
    }

    /// Counts the rows that can never load.
    pub fn permanent_meta_count(&self) -> (r: usize)
        ensures
            r == count_in(self.tracks@, RowState::Permanent),
    {
        count_rows(self.tracks.as_slice(), RowState::Permanent)
    }

    /// Counts the rows that were refused to an anonymous client.
    pub fn restricted_meta_count(&self) -> (r: usize)
        ensures
            r == count_in(self.tracks@, RowState::Restricted),
    {
        count_rows(self.tracks.as_slice(), RowState::Restricted)
    }

    /// Counts the rows that automatic recovery can still mend.
    pub fn auto_recoverable_count(&self) -> (r: usize)
        ensures
            r == count_in(self.tracks@, RowState::Retryable),
    {
        count_rows(self.tracks.as_slice(), RowState::Retryable)
    }

    /// Counts the rows whose metadata is there.
    pub fn resolved_meta_count(&self) -> (r: usize)
        ensures
            r == count_in(self.tracks@, RowState::Loaded),
            r <= self.tracks@.len(),
    {
        count_rows(self.tracks.as_slice(), RowState::Loaded)
    }

    /// Adds a line to the log.
    pub(crate) fn note(&mut self, line: &str)
        ensures
            *final(self) == (Session { logs: final(self).logs, ..*old(self) }),
            views(final(self).logs@) == views(old(self).logs@).push(line@),
    {
        text::put(&mut self.logs, line);
        assert(views(self.logs@) =~= views(old(self).logs@).push(line@));
    }

    // -----------------------------------------------------------------------
    // Retry and recovery
    // -----------------------------------------------------------------------

    /// Whether `after` is this session with a retry of `targets` started. Where
    /// there is nothing to retry, only the remembered failures are gone.
    pub open spec fn retry_started(
        self,
        auto: bool,
        after: Session,
        targets: Seq<RetryTarget>,
    ) -> bool {
        let at = targets_of(self.tracks@, auto);
        &&& fetches(targets, self.tracks@, at)
        &&& remembers(after.retry.before@, self.tracks@, at)
        &&& after == (Session {
            retry: if at.len() == 0 {
                Retry { before: after.retry.before, ..self.retry }
            } else {
                Retry {
                    before: after.retry.before,
                    running: true,
                    summary: None,
                    was_automatic: auto,
                    progress: Some(
                        RetryProgress {
                            remaining: at.len() as usize,
                            total: at.len() as usize,
                            auto,
                        },
                    ),
                    ..self.retry
                }
            },
            ..self
        })
    }

    /// Starts a retry of every row that may still be mended, and hands back what
    /// is to be fetched. Rows whose metadata is there are not among them, nor are
    /// rows that are gone for good; `auto` leaves refused rows out too.
    pub fn start_retry_metadata(&mut self, auto: bool) -> (r: Vec<RetryTarget>)
        ensures
            old(self).retry_started(auto, *final(self), r@),
    {
        let (targets, before) = pick_targets(self.tracks.as_slice(), auto);
        self.retry.before = before;
        if targets.len() > 0 {
            self.retry.summary = None;
            self.retry.was_automatic = auto;
            self.retry.progress = Some(
                RetryProgress { remaining: targets.len(), total: targets.len(), auto },
            );
            self.retry.running = true;
        }
        targets
    }

    /// Stops the recovery loop, a pass that is due included. Returns whether a
    /// running pass is to be cancelled.
    pub fn cancel_retry(&mut self) -> (r: bool)
        ensures
            r == old(self).retry.running,
            *final(self) == (Session {
                logs: final(self).logs,
                retry: Retry { next_at: None, ..old(self).retry },
                ..*old(self)
            }),
            views(final(self).logs@) == (if old(self).retry.running {
                views(old(self).logs@).push("Stopping metadata recovery..."@)
            } else {
                views(old(self).logs@)
            }),
    {
        self.retry.next_at = None;
        if self.retry.running {
            self.note("Stopping metadata recovery...");
        }
        self.retry.running
    }

    /// Whether recovery is to start now: it is switched on, nothing else is
    /// fetching or converting, no pass is being waited for, and there is a row
    /// that a plain repeat may mend.
    pub open spec fn recovery_due(self) -> bool {
        &&& self.settings.auto_recover_metadata
        &&& !self.retry.running
        &&& !self.meta_loading
        &&& self.state != AppState::Converting
        &&& self.retry.next_at is None
        &&& count_in(self.tracks@, RowState::Retryable) > 0
    }

    /// Whether `after` is this session, `said` added to the log, with recovery
    /// started if it is due.
    pub open spec fn recovery_considered(
        self,
        said: Seq<Seq<char>>,
        after: Session,
        targets: Seq<RetryTarget>,
    ) -> bool {
        let noted = Session { logs: after.logs, ..self };
        if self.recovery_due() {
            &&& views(after.logs@) == views(self.logs@) + said + seq![
                recovery_line(count_in(self.tracks@, RowState::Retryable)),
            ]
            &&& noted.retry_started(true, after, targets)
        } else {
            &&& views(after.logs@) == views(self.logs@) + said
            &&& after == noted
            &&& targets.len() == 0
        }
    }

    /// Starts a recovery pass if one is due.
    pub fn maybe_start_recovery(&mut self) -> (r: Vec<RetryTarget>)
        ensures
            old(self).recovery_considered(Seq::empty(), *final(self), r@),
    {
        let ghost none = Seq::<Seq<char>>::empty();
        assert(views(self.logs@) + none =~= views(self.logs@));
        if !self.settings.auto_recover_metadata || self.retrying() || self.meta_loading
            || self.state == AppState::Converting || self.retry.next_at.is_some()
            || self.auto_recoverable_count() == 0 {
            return Vec::new();
        }
        let mut line = "→ Recovering missing metadata automatically (".to_owned();
        line.append(text::dec(self.auto_recoverable_count() as u64).as_str());
        line.append(" track(s) remaining)");
        self.note(line.as_str());
        assert(views(self.logs@) =~= views(old(self).logs@) + none + seq![line@]);
        self.start_retry_metadata(true)
    }

    /// The next wait: short again after progress, doubled up to the cap after a
    /// pass that recovered nothing.
    pub open spec fn next_backoff(backoff: nat, recovered: nat) -> nat {
        if recovered > 0 {
            RECOVERY_BACKOFF_START as nat
        } else if backoff * 2 < RECOVERY_BACKOFF_MAX {
            backoff * 2
        } else {
            RECOVERY_BACKOFF_MAX as nat
        }
    }

    /// Whether `after` is this session with the recovery loop ended, or its next
    /// pass scheduled.
    pub open spec fn recovery_rearmed(
        self,
        recovered: usize,
        cancelled: bool,
        now: u64,
        after: Session,
    ) -> bool {
        let remaining = count_in(self.tracks@, RowState::Retryable);
        if !self.settings.auto_recover_metadata || cancelled {
            after == (Session { retry: Retry { next_at: None, ..self.retry }, ..self })
        } else if remaining == 0 {
            &&& after == (Session {
                logs: after.logs,
                retry: Retry { next_at: None, backoff: RECOVERY_BACKOFF_START, ..self.retry },
                ..self
            })
            &&& views(after.logs@) == views(self.logs@).push(
                "✓ Metadata recovery complete — every track resolved."@,
            )
        } else {
            let wait = Session::next_backoff(self.retry.backoff as nat, recovered as nat);
            &&& after == (Session {
                logs: after.logs,
                retry: Retry {
                    next_at: Some((now + wait * 1000) as u64),
                    backoff: wait as u64,
                    ..self.retry
                },
                ..self
            })
            &&& views(after.logs@) == views(self.logs@).push(waiting_line(remaining, wait))
        }
    }

    /// After a pass, ends the recovery loop or schedules its next pass. A
    /// cancelled pass ends it, and so does switching recovery off.
    pub fn rearm_recovery(&mut self, recovered: usize, cancelled: bool, now: u64)
        requires
            now + RECOVERY_BACKOFF_MAX * 1000 <= u64::MAX,
        ensures
            old(self).recovery_rearmed(recovered, cancelled, now, *final(self)),
    {
        if !self.settings.auto_recover_metadata || cancelled {
            self.retry.next_at = None;
            return;
        }
        let remaining = self.auto_recoverable_count();
        if remaining == 0 {
            self.retry.next_at = None;
            self.retry.backoff = RECOVERY_BACKOFF_START;
            self.note("✓ Metadata recovery complete — every track resolved.");
            return;
        }
        let wait: u64 = if recovered > 0 {
            RECOVERY_BACKOFF_START
        } else if self.retry.backoff < RECOVERY_BACKOFF_MAX / 2 {
            self.retry.backoff * 2
        } else {
            RECOVERY_BACKOFF_MAX
        };
        self.retry.backoff = wait;
        self.retry.next_at = Some(now + wait * 1000);
        let mut line = "⏳ ".to_owned();
        line.append(text::dec(remaining as u64).as_str());
        line.append(" track(s) still missing metadata — retrying in ");
        line.append(text::dec(wait).as_str());
        line.append("s.");
        self.note(line.as_str());
    }

    /// Whether `after` is this session after a look at the clock, with a pass of these
    /// targets started, or (`waiting`) still waited for.
    pub open spec fn ticked(
        self,
        now: u64,
        after: Session,
        targets: Seq<RetryTarget>,
        waiting: bool,
    ) -> bool {
        match self.retry.next_at {
            None => after == self && targets.len() == 0 && !waiting,
            Some(at) => {
                let woken = Session {
                    retry: Retry { next_at: None, ..self.retry },
                    ..self
                };
                if now < at {
                    after == self && targets.len() == 0 && waiting
                } else if self.state != AppState::Converting && !self.retry.running {
                    woken.retry_started(true, after, targets) && !waiting
                } else {
                    after == woken && targets.len() == 0 && !waiting
                }
            },
        }
    }

    /// Starts the pass that is due, once its time has come. The second result
    /// says whether a pass is still being waited for.
    pub fn tick_recovery(&mut self, now: u64) -> (r: (Vec<RetryTarget>, bool))
        ensures
            old(self).ticked(now, *final(self), r.0@, r.1),
    {
        match self.retry.next_at {
            None => (Vec::new(), false),
            Some(at) => {
                if now >= at {
                    self.retry.next_at = None;
                    if self.state != AppState::Converting && !self.retrying() {
                        (self.start_retry_metadata(true), false)
                    } else {
                        (Vec::new(), false)
                    }
                } else {
                    (Vec::new(), true)
                }
            },
        }
    }

    /// Puts the rows that a retry never finished back to their failures.
    pub fn restore_unfinished_retries(&mut self)
        ensures
            *final(self) == (Session {
                tracks: final(self).tracks,
                retry: Retry { before: final(self).retry.before, ..old(self).retry },
                ..*old(self)
            }),
            final(self).tracks@ == restored(old(self).tracks@, old(self).retry.before@),
            final(self).retry.before@.len() == 0,
    {
        put_rows_back(&mut self.tracks, self.retry.before.as_slice());
        self.retry.before = Vec::new();
    }
}

// ---------------------------------------------------------------------------
// Messages
// ---------------------------------------------------------------------------

impl Session {
    /// After a line for the log: the oldest thousand go when there are more than
    /// three thousand.
    pub open spec fn after_log(self, line: Seq<char>, after: Session) -> bool {
        &&& after == (Session { logs: after.logs, ..self })
        &&& views(after.logs@) == shortened(views(self.logs@).push(line), 3000, 1000)
    }

    /// Takes a line for the log. Returns whether it goes to the log file too.
    pub fn log(&mut self, line: &str) -> (r: bool)
        ensures
            old(self).after_log(line@, *final(self)),
            r == old(self).settings.debug_mode,
    {
        put_shortened(&mut self.logs, line, 3000, 1000);
        self.settings.debug_mode
    }

    /// After a playlist was loaded, or could not be.
    pub open spec fn after_playlist(
        self,
        result: Result<(String, Vec<Track>), String>,
        work: Seq<Seq<char>>,
        after: Session,
    ) -> bool {
        match result {
            Ok((title, tracks)) => {
                &&& after == (Session {
                    state: AppState::Idle,
                    playlist_title: Some(title),
                    tracks,
                    error: None,
                    logs: after.logs,
                    ..self
                })
                &&& views(after.logs@) == views(self.logs@) + resume_lines(work)
            },
            Err(e) => after == (Session {
                state: AppState::Idle,
                error: Some(e),
                meta_loading: false,
                ..self
            }),
        }
    }

    /// Takes a loaded playlist. `work` names what the work directory holds.
    pub fn playlist(&mut self, result: Result<(String, Vec<Track>), String>, work: &[String])
        ensures
            old(self).after_playlist(result, views(work@), *final(self)),
    {
        self.state = AppState::Idle;
        match result {
            Ok((title, tracks)) => {
                self.playlist_title = Some(title);
                self.tracks = tracks;
                self.error = None;
                self.announce_resume_if_any(work);
            },
            Err(e) => {
                self.error = Some(e);
                self.meta_loading = false;
            },
        }
    }

    /// Says whether an interrupted conversion waits to be resumed.
    pub fn announce_resume_if_any(&mut self, work: &[String])
        ensures
            *final(self) == (Session { logs: final(self).logs, ..*old(self) }),
            views(final(self).logs@) == views(old(self).logs@) + resume_lines(views(work@)),
    {
        let ghost before = views(self.logs@);
        if !work_has_resumable_artifacts(work) {
            assert(before + Seq::<Seq<char>>::empty() =~= before);
            return;
        }
        let clips = count_clips(work);
        self.note("Found a previous conversion in progress.");
        if clips > 0 {
            let mut line = text::dec(clips as u64);
            line.append(" rendered clip(s) found — they will be reused on Resume.");
            self.note(line.as_str());
        }
        self.note(
            "Press Convert to resume where it left off; metadata recovery continues in the background.",
        );
        assert(views(self.logs@) =~= before + resume_lines(views(work@)));
    }

    /// After the metadata fetch of a row.
    pub open spec fn after_track_meta(
        self,
        index: usize,
        result: Result<TrackMetadata, MetaFailure>,
        after: Session,
    ) -> bool {
        &&& after == (Session { tracks: after.tracks, ..self })
        &&& after.tracks@ == replaced(
            self.tracks@,
            index,
            after_fetch(self.tracks@[index as int], result, self.settings.max_track_us),
        )
    }

    /// Takes the metadata of a row, or why it could not be had.
    pub fn track_meta(&mut self, index: usize, result: Result<TrackMetadata, MetaFailure>)
        ensures
            old(self).after_track_meta(index, result, *final(self)),
    {
        if index < self.tracks.len() {
            let mut t = self.tracks[index].clone();
            match result {
                Ok(meta) => t.apply_metadata(&meta, self.settings.max_track_us),
                Err(failure) => {
                    if failure.is_permanent() {
                        t.selected = false;
                    }
                    t.meta = MetaState::Failed(failure);
                },
            }
            self.tracks.set(index, t);
        }
    }

    /// What is said when the first metadata pass is over.
    pub open spec fn load_lines(failed: nat, permanent: nat, restricted: nat) -> Seq<Seq<char>> {
        (if permanent > 0 {
            seq![permanent_line(permanent, failed)]
        } else {
            Seq::empty()
        }) + (if restricted > 0 {
            seq![restricted_line(restricted, failed)]
        } else {
            Seq::empty()
        })
    }

    /// After the first metadata pass.
    pub open spec fn after_meta_load(
        self,
        cancelled: bool,
        failed: usize,
        permanent: usize,
        restricted: usize,
        after: Session,
        targets: Seq<RetryTarget>,
    ) -> bool {
        let said = Session::load_lines(failed as nat, permanent as nat, restricted as nat);
        let loaded = Session { meta_loading: false, ..self };
        if cancelled {
            &&& after == (Session { logs: after.logs, ..loaded })
            &&& views(after.logs@) == views(self.logs@) + said
            &&& targets.len() == 0
        } else {
            loaded.recovery_considered(said, after, targets)
        }
    }

    /// Takes the end of the first metadata pass. What is still missing is
    /// recovered in the background, unless the pass was cancelled.
    pub fn meta_load_finished(
        &mut self,
        cancelled: bool,
        failed: usize,
        permanent: usize,
        restricted: usize,
    ) -> (r: Vec<RetryTarget>)
        ensures
            old(self).after_meta_load(cancelled, failed, permanent, restricted, *final(self), r@),
    {
        let ghost before = views(self.logs@);
        let ghost said = Session::load_lines(failed as nat, permanent as nat, restricted as nat);
        self.meta_loading = false;
        if permanent > 0 {
            let line = two_counts(
                permanent,
                failed,
                " failed track(s) are permanently unavailable (deleted, private or region-locked) — they are marked as such and will not be retried.",
            );
            self.note(line.as_str());
        }
        if restricted > 0 {
            let line = two_counts(
                restricted,
                failed,
                " failed track(s) were refused to an anonymous client. These are not necessarily gone — set a cookies file under Settings → SoundCloud Authentication and press Retry Failed Metadata to try again signed in.",
            );
            self.note(line.as_str());
        }
        assert(views(self.logs@) =~= before + said);
        if cancelled {
            Vec::new()
        } else {
            let r = self.maybe_start_recovery();
            assert(before + said + Seq::<Seq<char>>::empty() =~= before + said);
            r
        }
    }

    /// Takes the start of a row's retry.
    pub fn meta_retrying(&mut self, index: usize)
        ensures
            old(self).after_meta_retrying(index, *final(self)),
    {
        if index < self.tracks.len() {
            let mut t = self.tracks[index].clone();
            t.meta = MetaState::Loading;
            self.tracks.set(index, t);
        }
    }

    /// After the start of a row's retry.
    pub open spec fn after_meta_retrying(self, index: usize, after: Session) -> bool {
        &&& after == (Session { tracks: after.tracks, ..self })
        &&& after.tracks@ == replaced(
            self.tracks@,
            index,
            (Track { meta: MetaState::Loading, ..self.tracks@[index as int] }),
        )
    }

    /// After a retry pass.
    pub open spec fn after_retry_pass(
        self,
        summary: RetrySummary,
        now: u64,
        after: Session,
    ) -> bool {
        let ended = Session {
            tracks: after.tracks,
            retry: Retry {
                running: false,
                progress: None,
                summary: Some(summary),
                before: after.retry.before,
                ..self.retry
            },
            ..self
        };
        &&& after.tracks@ == restored(self.tracks@, self.retry.before@)
        &&& after.retry.before@.len() == 0
        &&& ended.recovery_rearmed(summary.recovered, summary.cancelled, now, after)
    }

    /// Takes the end of a retry pass: rows that it never finished get their
    /// failures back, and the recovery loop goes on or ends.
    pub fn meta_retry_finished(
        &mut self,
        recovered: usize,
        still_failed: usize,
        permanent: usize,
        restricted: usize,
        cancelled: bool,
        gave_up: bool,
        now: u64,
    )
        requires
            now + RECOVERY_BACKOFF_MAX * 1000 <= u64::MAX,
        ensures
            old(self).after_retry_pass(
                (RetrySummary {
                    recovered,
                    still_failed,
                    permanent,
                    restricted,
                    cancelled,
                    gave_up,
                    auto: old(self).retry.was_automatic,
                }),
                now,
                *final(self),
            ),
    {
        self.retry.running = false;
        self.retry.progress = None;
        self.retry.summary = Some(
            RetrySummary {
                recovered,
                still_failed,
                permanent,
                restricted,
                cancelled,
                gave_up,
                auto: self.retry.was_automatic,
            },
        );
        self.restore_unfinished_retries();
        self.rearm_recovery(recovered, cancelled, now);
    }

    /// After a row's status changed.
    pub open spec fn after_track_status(
        self,
        index: usize,
        status: TrackStatus,
        after: Session,
    ) -> bool {
        &&& after == (Session { tracks: after.tracks, ..self })
        &&& after.tracks@ == replaced(
            self.tracks@,
            index,
            (Track { status, ..self.tracks@[index as int] }),
        )
    }

    /// Takes the status of a row.
    pub fn track_status(&mut self, index: usize, status: TrackStatus)
        ensures
            old(self).after_track_status(index, status, *final(self)),
    {
        if index < self.tracks.len() {
            let mut t = self.tracks[index].clone();
            t.status = status;
            self.tracks.set(index, t);
        }
    }

    /// Sums a conversion up, in the words of the export mode that ran.
    pub fn completion_message(&self, ok: usize, failed: usize, cancelled: bool) -> (r: String)
        ensures
            r@ == completion(self.active_export_mode, ok as nat, failed as nat, cancelled),
    {
        match self.active_export_mode {
            ExportMode::Separate => {
                let mut s = (if cancelled { "Cancelled — " } else { "Done — " }).to_owned();
                s.append(text::dec(ok as u64).as_str());
                if cancelled || failed > 0 {
                    s.append(" video(s) created, ");
                    s.append(text::dec(failed as u64).as_str());
                    s.append(" failed");
                } else {
                    s.append(" video(s) created 🎉");
                }
                s
            },
            ExportMode::Combined => {
                if cancelled {
                    "Cancelled — no playlist video created".to_owned()
                } else if ok == 0 {
                    let mut s = "Failed — no playlist video created (".to_owned();
                    s.append(text::dec(failed as u64).as_str());
                    s.append(" track(s) failed)");
                    s
                } else if failed > 0 {
                    let mut s = "Done — 1 playlist video created (".to_owned();
                    s.append(text::dec(failed as u64).as_str());
                    s.append(" track(s) skipped) 🎉");
                    s
                } else {
                    "Done — 1 playlist video created 🎉".to_owned()
                }
            },
        }
    }

    /// After a conversion.
    pub open spec fn after_finished(
        self,
        ok: usize,
        failed: usize,
        cancelled: bool,
        after: Session,
    ) -> bool {
        let summary = completion(self.active_export_mode, ok as nat, failed as nat, cancelled);
        &&& after == (Session {
            state: AppState::Idle,
            active_encoder: None,
            logs: after.logs,
            progress: after.progress,
            ..self
        })
        &&& views(after.logs@) == views(self.logs@).push(summary)
        &&& after.progress is Some
        &&& after.progress->0.phase@ == summary
        &&& after.progress->0.done == (if cancelled {
            0u128
        } else {
            1
        })
        &&& after.progress->0.of == 1
    }

    /// Takes the end of a conversion.
    pub fn finished(&mut self, ok: usize, failed: usize, cancelled: bool)
        ensures
            old(self).after_finished(ok, failed, cancelled, *final(self)),
    {
        self.state = AppState::Idle;
        self.active_encoder = None;
        let summary = self.completion_message(ok, failed, cancelled);
        self.note(summary.as_str());
        self.progress = Some(
            Progress {
                phase: summary,
                done: if cancelled {
                    0
                } else {
                    1
                },
                of: 1,
            },
        );
    }

    /// The setup dialog after the tools were looked for: it opens, once, where
    /// one is missing.
    pub open spec fn offered_setup(self, winget: bool) -> SetupUi {
        if !self.setup_dismissed && self.setup is Hidden && self.tools.checked && (
        self.tools.ffmpeg is None || self.tools.ytdlp is None) {
            if winget {
                SetupUi::Prompt
            } else {
                SetupUi::NoWinget
            }
        } else {
            self.setup
        }
    }

    /// Opens the setup dialog if a tool is missing, unless it was turned away.
    pub fn maybe_open_setup(&mut self, winget: bool)
        ensures
            *final(self) == (Session { setup: old(self).offered_setup(winget), ..*old(self) }),
    {
        let hidden = match &self.setup {
            SetupUi::Hidden => true,
            _ => false,
        };
        if self.setup_dismissed || !hidden || !self.tools.checked {
            return;
        }
        if self.tools.ffmpeg.is_some() && self.tools.ytdlp.is_some() {
            return;
        }
        self.setup = if winget {
            SetupUi::Prompt
        } else {
            SetupUi::NoWinget
        };
    }

    /// After the tools were looked for.
    pub open spec fn after_tools(
        self,
        ffmpeg: Option<String>,
        ytdlp: Option<String>,
        winget: bool,
        after: Session,
    ) -> bool {
        let found = Session { tools: ToolStatus { checked: true, ffmpeg, ytdlp }, ..self };
        after == (Session { setup: found.offered_setup(winget), ..found })
    }

    /// Takes which tools were found. `winget` says whether it could install one.
    pub fn tools_found(&mut self, ffmpeg: Option<String>, ytdlp: Option<String>, winget: bool)
        ensures
            old(self).after_tools(ffmpeg, ytdlp, winget, *final(self)),
    {
        self.tools = ToolStatus { checked: true, ffmpeg, ytdlp };
        self.maybe_open_setup(winget);
    }

    /// After a benchmark: the six newest results are kept.
    pub open spec fn after_benchmark(
        self,
        result: Result<BenchmarkResult, String>,
        after: Session,
    ) -> bool {
        let all = newest_first(self.benchmarks@, result);
        &&& after == (Session {
            benchmarking: false,
            benchmarks: after.benchmarks,
            error: after.error,
            ..self
        })
        &&& after.benchmarks@ == (if all.len() > 6 {
            all.take(6)
        } else {
            all
        })
        &&& match result {
            Ok(_) => after.error == self.error,
            Err(e) => opt(after.error) == Some("Benchmark failed: "@ + e@),
        }
    }

    /// Takes the result of a benchmark.
    pub fn benchmark_done(&mut self, result: Result<BenchmarkResult, String>)
        ensures
            old(self).after_benchmark(result, *final(self)),
    {
        let ghost all = newest_first(self.benchmarks@, result);
        self.benchmarking = false;
        match result {
            Ok(b) => {
                self.benchmarks.truncate(5);
                self.benchmarks.insert(0, b);
            },
            Err(e) => {
                self.benchmarks.truncate(6);
                let mut s = "Benchmark failed: ".to_owned();
                s.append(e.as_str());
                self.error = Some(s);
            },
        }
        assert(self.benchmarks@ =~= (if all.len() > 6 {
            all.take(6)
        } else {
            all
        }));
    }

    /// After a cookie check.
    pub open spec fn after_cookie_status(self, status: CookieStatus, after: Session) -> bool {
        &&& after == (Session {
            cookie_checking: false,
            cookie_status: Some(status),
            logs: after.logs,
            ..self
        })
        &&& views(after.logs@) == views(self.logs@).push(
            "Cookie check ("@ + self.settings.cookie_browser.spec_label() + "): "@
                + status@.headline(),
        )
    }

    /// Takes what a cookie check found.
    pub fn cookies_checked(&mut self, status: CookieStatus)
        ensures
            old(self).after_cookie_status(status, *final(self)),
    {
        self.cookie_checking = false;
        let mut line = "Cookie check (".to_owned();
        line.append(self.settings.cookie_browser.label());
        line.append("): ");
        line.append(status.headline().as_str());
        self.note(line.as_str());
        self.cookie_status = Some(status);
    }

    /// After a line of the installer: of more than four hundred lines the oldest
    /// two hundred go.
    pub open spec fn after_setup_line(self, line: Seq<char>, after: Session) -> bool {
        &&& after == (Session { logs: after.logs, setup: after.setup, ..self })
        &&& views(after.logs@) == views(self.logs@).push(line)
        &&& match self.setup {
            SetupUi::Installing(log) => {
                &&& after.setup is Installing
                &&& views(after.setup->Installing_0@) == shortened(views(log@).push(line), 400, 200)
            },
            _ => after.setup == self.setup,
        }
    }

    /// Takes a line of the installer.
    pub fn setup_line(&mut self, line: &str)
        ensures
            old(self).after_setup_line(line@, *final(self)),
    {
        self.note(line);
        if let SetupUi::Installing(log) = &mut self.setup {
            put_shortened(log, line, 400, 200);
        }
    }

    /// After the installation.
    pub open spec fn after_setup(
        self,
        success: bool,
        message: String,
        needs_elevation: bool,
        after: Session,
    ) -> bool {
        &&& after == (Session {
            logs: after.logs,
            setup: if success {
                SetupUi::Success(message)
            } else {
                SetupUi::Failed { message, needs_elevation }
            },
            ..self
        })
        &&& views(after.logs@) == views(self.logs@).push(message@)
    }

    /// Takes the end of the installation.
    pub fn setup_done(&mut self, success: bool, message: String, needs_elevation: bool)
        ensures
            old(self).after_setup(success, message, needs_elevation, *final(self)),
    {
        self.note(message.as_str());
        self.setup = if success {
            SetupUi::Success(message)
        } else {
            SetupUi::Failed { message, needs_elevation }
        };
    }

    /// Whether `after` is this session once `msg` has been taken, at the time
    /// `now`, with `work` in the work directory; `effects` is what is to be done.
    pub open spec fn handled(
        self,
        msg: WorkerMsg,
        now: u64,
        winget: bool,
        work: Seq<Seq<char>>,
        after: Session,
        effects: Effects,
    ) -> bool {
        &&& opt(effects.log_file_line) == (match msg {
            WorkerMsg::Log(line) => if self.settings.debug_mode {
                Some(line@)
            } else {
                None
            },
            _ => None,
        })
        &&& (!(msg is MetaLoadFinished) ==> effects.retry@.len() == 0)
        &&& match msg {
            WorkerMsg::Log(line) => self.after_log(line@, after),
            WorkerMsg::Playlist(result) => self.after_playlist(result, work, after),
            WorkerMsg::TrackMeta(index, result) => self.after_track_meta(index, result, after),
            WorkerMsg::MetaLoadFinished { cancelled, failed, rate_limited, permanent, restricted }
                => self.after_meta_load(
                cancelled,
                failed,
                permanent,
                restricted,
                after,
                effects.retry@,
            ),
            WorkerMsg::MetaRetrying(index) => self.after_meta_retrying(index, after),
            WorkerMsg::MetaRetryProgress { remaining, total } => after == (Session {
                retry: Retry {
                    progress: Some(
                        RetryProgress { remaining, total, auto: self.retry.was_automatic },
                    ),
                    ..self.retry
                },
                ..self
            }),
            WorkerMsg::MetaRetryFinished {
                recovered,
                still_failed,
                permanent,
                restricted,
                cancelled,
                gave_up,
            } => self.after_retry_pass(
                RetrySummary {
                    recovered,
                    still_failed,
                    permanent,
                    restricted,
                    cancelled,
                    gave_up,
                    auto: self.retry.was_automatic,
                },
                now,
                after,
            ),
            WorkerMsg::TrackStatus(index, status) => self.after_track_status(index, status, after),
            WorkerMsg::Progress(progress) => after == (Session {
                progress: Some(progress),
                ..self
            }),
            WorkerMsg::Finished { ok, failed, cancelled } => self.after_finished(
                ok,
                failed,
                cancelled,
                after,
            ),
            WorkerMsg::Tools { ffmpeg, ytdlp } => self.after_tools(ffmpeg, ytdlp, winget, after),
            WorkerMsg::Encoders(support) => after == (Session {
                encoder_support: Some(support),
                ..self
            }),
            WorkerMsg::EncoderActive(label) => after == (Session {
                active_encoder: Some(label),
                ..self
            }),
            WorkerMsg::BenchmarkDone(result) => self.after_benchmark(result, after),
            WorkerMsg::CookieStatus(status) => self.after_cookie_status(status, after),
            WorkerMsg::SetupProgress(line) => self.after_setup_line(line@, after),
            WorkerMsg::SetupDone { success, message, needs_elevation } => self.after_setup(
                success,
                message,
                needs_elevation,
                after,
            ),
        }
    }

    /// Takes a message of a background worker.
    pub fn handle(&mut self, msg: WorkerMsg, now: u64, winget: bool, work: &[String]) -> (r:
        Effects)
        requires
            now + RECOVERY_BACKOFF_MAX * 1000 <= u64::MAX,
        ensures
            old(self).handled(msg, now, winget, views(work@), *final(self), r),
    {
        let mut log_file_line: Option<String> = None;
        let mut retry: Vec<RetryTarget> = Vec::new();
        match msg {
            WorkerMsg::Log(line) => {
                if self.log(line.as_str()) {
                    log_file_line = Some(line);
                }
            },
            WorkerMsg::Playlist(result) => self.playlist(result, work),
            WorkerMsg::TrackMeta(index, result) => self.track_meta(index, result),
            WorkerMsg::MetaLoadFinished {
                cancelled,
                failed,
                rate_limited: _,
                permanent,
                restricted,
            } => {
                retry = self.meta_load_finished(cancelled, failed, permanent, restricted);
            },
            WorkerMsg::MetaRetrying(index) => self.meta_retrying(index),
            WorkerMsg::MetaRetryProgress { remaining, total } => {
                self.retry.progress = Some(
                    RetryProgress { remaining, total, auto: self.retry.was_automatic },
                );
            },
            WorkerMsg::MetaRetryFinished {
                recovered,
                still_failed,
                permanent,
                restricted,
                cancelled,
                gave_up,
            } => self.meta_retry_finished(
                recovered,
                still_failed,
                permanent,
                restricted,
                cancelled,
                gave_up,
                now,
            ),
            WorkerMsg::TrackStatus(index, status) => self.track_status(index, status),
            WorkerMsg::Progress(progress) => {
                self.progress = Some(progress);
            },
            WorkerMsg::Finished { ok, failed, cancelled } => self.finished(ok, failed, cancelled),
            WorkerMsg::Tools { ffmpeg, ytdlp } => self.tools_found(ffmpeg, ytdlp, winget),
            WorkerMsg::Encoders(support) => {
                self.encoder_support = Some(support);
            },
            WorkerMsg::EncoderActive(label) => {
                self.active_encoder = Some(label);
            },
            WorkerMsg::BenchmarkDone(result) => self.benchmark_done(result),
            WorkerMsg::CookieStatus(status) => self.cookies_checked(status),
            WorkerMsg::SetupProgress(line) => self.setup_line(line.as_str()),
            WorkerMsg::SetupDone { success, message, needs_elevation } => self.setup_done(
                success,
                message,
                needs_elevation,
            ),
        }
        Effects { log_file_line, retry }
    }
}

} // verus!
