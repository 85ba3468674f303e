//! What the user does in the window, and what comes of it.
use vstd::prelude::*;
use vstd::string::*;

use super::rows::{
    count_in, count_selected, is_target, law_a_retry_takes_exactly_what_may_be_mended,
    law_no_retried_row_is_left_loading, put_back, restored, selected_in, targets_of, RetryTarget,
    RowBefore, RowState,
};
use super::session::{
    is_batch, is_clip, limited, newest_first, pending, pick_selected, resumable, selection,
    work_has_resumable_artifacts, AppState, ConvertOrder, Effects, ResumeChoice, Retry,
    RetrySummary, Session, SetupAction, SetupOrder, SetupUi, ToolStatus, RECOVERY_BACKOFF_MAX,
    RECOVERY_BACKOFF_START,
};
use crate::config::settings::{CookieBrowser, ExportMode, Settings};
use crate::downloader::cookies::CookieStatus;
use crate::models::messages::{Progress, WorkerMsg};
use crate::models::track::{opt, to_us, MetaFailure, MetaState, Track, TrackStatus};
use crate::pipeline::combined::clip_file;
use crate::text;
use crate::text::{trimmed, views};
use crate::video::encoder::{EncoderKind, ResolvedEncoder};
use crate::video::ladder::batch_name;

verus! {

/// What a song may play at most once the limit is switched on (60 s).
pub const FIRST_LIMIT_US: u64 = 60_000_000;

/// What is to be cancelled.
#[derive(Debug, Clone, Copy, PartialEq, Eq, Structural)]
pub struct CancelOrder {
    /// The playlist that is being loaded.
    pub load: bool,
    /// The retry pass.
    pub retry: bool,
}

impl Session {
    // -----------------------------------------------------------------------
    // Loading
    // -----------------------------------------------------------------------

    /// Whether a playlist can be loaded.
    pub open spec fn loadable(self) -> bool {
        (self.state == AppState::Idle && trimmed(self.url@).len() > 0)
    }

    /// Whether a playlist can be loaded: nothing is going on and there is an
    /// address.
    pub fn can_load(&self) -> (r: bool)
        ensures
            r == self.loadable(),
    {
        !self.busy() && !text::trim(self.url.as_str()).as_str().is_empty()
    }

    /// Whether `after` is this session with the load of a playlist begun.
    pub open spec fn load_started(self, after: Session) -> bool {
        &&& after == (Session {
            retry: Retry {
                running: false,
                progress: None,
                summary: None,
                next_at: None,
                backoff: RECOVERY_BACKOFF_START,
                before: after.retry.before,
                ..self.retry
            },
            meta_loading: true,
            error: None,
            playlist_title: None,
            tracks: after.tracks,
            state: AppState::LoadingPlaylist,
            ..self
        })
        &&& after.retry.before@.len() == 0
        &&& after.tracks@.len() == 0
    }

    /// Begins to load a playlist: what was known of the last one is gone, and so
    /// is its recovery. Passes that still run for the last one are to be
    /// cancelled.
    pub fn start_load_playlist(&mut self)
        ensures
            old(self).load_started(*final(self)),
    {
        self.retry.running = false;
        self.retry.progress = None;
        self.retry.summary = None;
        self.retry.before = Vec::new();
        self.retry.next_at = None;
        self.retry.backoff = RECOVERY_BACKOFF_START;
        self.meta_loading = true;
        self.error = None;
        self.playlist_title = None;
        self.tracks = Vec::new();
        self.state = AppState::LoadingPlaylist;
    }

    // -----------------------------------------------------------------------
    // Converting
    // -----------------------------------------------------------------------

    /// Whether a conversion can be started.
    pub open spec fn convertible(self) -> bool {
        (self.state == AppState::Idle && !self.retry.running && selected_in(self.tracks@)
            > 0 && self.tools.ffmpeg is Some && self.tools.ytdlp is Some)
    }

    /// Whether a conversion can be started. Not while a retry runs: two sets of
    /// requests at once are what brings rate limits on.
    pub fn can_convert(&self) -> (r: bool)
        ensures
            r == self.convertible(),
    {
        !self.busy() && !self.retrying() && count_selected(self.tracks.as_slice()) > 0
            && self.tools.ffmpeg.is_some() && self.tools.ytdlp.is_some()
    }

    /// Whether `after` is this session with a conversion started as `order` says,
    /// or with the error that nothing is selected.
    pub open spec fn convert_started(self, after: Session, order: Option<ConvertOrder>) -> bool {
        if selected_in(self.tracks@) == 0 {
            &&& after == (Session { error: after.error, ..self })
            &&& opt(after.error) == Some("No tracks selected."@)
            &&& order is None
        } else {
            &&& after == (Session {
                error: None,
                tracks: after.tracks,
                state: AppState::Converting,
                active_export_mode: self.settings.export_mode,
                progress: after.progress,
                ..self
            })
            &&& after.tracks@ == self.tracks@.map_values(|t: Track| pending(t))
            &&& after.progress is Some
            &&& after.progress->0.phase@ == "Starting..."@
            &&& after.progress->0.done == 0 && after.progress->0.of == 1
            &&& order is Some
            &&& order->0.mode == self.settings.export_mode
            &&& order->0.selected@ == selection(self.tracks@)
            &&& order->0.encoder.kind == self.encoder_kind()
            &&& order->0.encoder.hardware_decode == (self.settings.hardware_decode
                && self.encoder_kind() != EncoderKind::Cpu)
            &&& order->0.playlist_name@ == (match self.playlist_title {
                Some(title) => title@,
                None => Seq::empty(),
            })
        }
    }

    /// Starts to convert the selected rows.
    pub fn start_convert(&mut self) -> (r: Option<ConvertOrder>)
        ensures
            old(self).convert_started(*final(self), r),
    {
        let selected = pick_selected(self.tracks.as_slice());
        if selected.len() == 0 {
            self.error = Some("No tracks selected.".to_owned());
            return None;
        }
        self.error = None;
        let ghost before = self.tracks@;
        let mut rows: Vec<Track> = Vec::new();
        for i in 0..self.tracks.len()
            invariant
                self.tracks@ == before,
                rows@ == before.take(i as int).map_values(|t: Track| pending(t)),
        {
            let mut t = self.tracks[i].clone();
            if t.selected {
                t.status = TrackStatus::Pending;
            }
            assert(t == pending(before[i as int]));
            rows.push(t);
            assert(rows@ =~= before.take(i + 1).map_values(|t: Track| pending(t)));
        }
        assert(before.take(before.len() as int) =~= before);
        self.tracks = rows;
        self.state = AppState::Converting;
        self.active_export_mode = self.settings.export_mode;
        self.progress = Some(Progress { phase: "Starting...".to_owned(), done: 0, of: 1 });
        let playlist_name = match &self.playlist_title {
            Some(title) => title.clone(),
            None => String::new(),
        };
        assert(self.encoder_kind() == old(self).encoder_kind());
        Some(
            ConvertOrder {
                mode: self.settings.export_mode,
                selected,
                encoder: self.resolve_encoder(),
                playlist_name,
            },
        )
    }

    /// Whether `after` is this session once the convert button was pressed.
    pub open spec fn convert_clicked(
        self,
        work: Seq<Seq<char>>,
        after: Session,
        r: Option<ConvertOrder>,
    ) -> bool {
        if self.settings.export_mode == ExportMode::Combined && resumable(work) {
            after == (Session { resume_prompt: true, ..self }) && r is None
        } else {
            self.convert_started(after, r)
        }
    }

    /// Converts, or first asks whether to resume where a combined export left
    /// something in the work directory.
    pub fn on_convert_clicked(&mut self, work: &[String]) -> (r: Option<ConvertOrder>)
        ensures
            old(self).convert_clicked(views(work@), *final(self), r),
    {
        if self.settings.export_mode == ExportMode::Combined && work_has_resumable_artifacts(work) {
            self.resume_prompt = true;
            return None;
        }
        self.start_convert()
    }

    /// What is said when the question whether to resume is answered.
    pub open spec fn resume_line(
        choice: ResumeChoice,
        deleted: Result<Seq<char>, Seq<char>>,
    ) -> Seq<char> {
        match choice {
            ResumeChoice::StartOver => match deleted {
                Ok(dir) => "Started over — deleted work directory: "@ + dir,
                Err(e) => "Could not delete work directory ("@ + e + "); starting anyway."@,
            },
            _ => "Resuming previous conversion — reusing valid clips and batches."@,
        }
    }

    /// Whether `after` is this session once the question whether to resume was answered.
    pub open spec fn resume_decided(
        self,
        choice: ResumeChoice,
        deleted: Result<String, String>,
        after: Session,
        r: Option<ConvertOrder>,
    ) -> bool {
        match choice {
            ResumeChoice::Undecided => after == self && r is None,
            ResumeChoice::Cancel => after == (Session {
                resume_prompt: false,
                ..self
            }) && r is None,
            _ => {
                &&& views(after.logs@) == views(self.logs@).push(
                    Session::resume_line(
                        choice,
                        match deleted {
                            Ok(dir) => Ok(dir@),
                            Err(e) => Err(e@),
                        },
                    ),
                )
                &&& (Session {
                    resume_prompt: false,
                    logs: after.logs,
                    ..self
                }).convert_started(after, r)
            },
        }
    }

    /// Takes the answer to the question whether to resume. To start over, the
    /// work directory has been deleted (its path is given) or could not be (the
    /// error is); either way the conversion starts.
    pub fn resume_answered(&mut self, choice: ResumeChoice, deleted: Result<String, String>) -> (r:
        Option<ConvertOrder>)
        ensures
            old(self).resume_decided(choice, deleted, *final(self), r),
    {
        match choice {
            ResumeChoice::Undecided => None,
            ResumeChoice::Resume => {
                self.resume_prompt = false;
                self.note("Resuming previous conversion — reusing valid clips and batches.");
                self.start_convert()
            },
            ResumeChoice::StartOver => {
                self.resume_prompt = false;
                match deleted {
                    Ok(dir) => {
                        let mut line = "Started over — deleted work directory: ".to_owned();
                        line.append(dir.as_str());
                        self.note(line.as_str());
                    },
                    Err(e) => {
                        let mut line = "Could not delete work directory (".to_owned();
                        line.append(e.as_str());
                        line.append("); starting anyway.");
                        self.note(line.as_str());
                    },
                }
                self.start_convert()
            },
            ResumeChoice::Cancel => {
                self.resume_prompt = false;
                None
            },
        }
    }

    /// Whether `after` is this session with what is going on cancelled.
    pub open spec fn work_cancelled(self, after: Session, r: CancelOrder) -> bool {
        &&& r.load == (self.state == AppState::LoadingPlaylist)
        &&& r.retry == self.retry.running
        &&& after == (Session {
            state: if r.load {
                AppState::Idle
            } else {
                self.state
            },
            meta_loading: self.meta_loading && !r.load,
            retry: Retry { next_at: None, ..self.retry },
            logs: after.logs,
            ..self
        })
        &&& views(after.logs@) == views(self.logs@) + (if r.retry {
            seq!["Stopping metadata recovery..."@]
        } else {
            Seq::empty()
        }) + seq!["Cancelling..."@]
    }

    /// Cancels what is going on. A playlist that is being loaded is given up at
    /// once; a conversion ends when its worker says so. Recovery ends too.
    pub fn cancel_work(&mut self) -> (r: CancelOrder)
        ensures
            old(self).work_cancelled(*final(self), r),
    {
        let ghost before = views(self.logs@);
        let load = self.state == AppState::LoadingPlaylist;
        if load {
            self.state = AppState::Idle;
            self.meta_loading = false;
        }
        let retry = self.cancel_retry();
        self.note("Cancelling...");
        assert(views(self.logs@) =~= before + (if retry {
            seq!["Stopping metadata recovery..."@]
        } else {
            Seq::empty()
        }) + seq!["Cancelling..."@]);
        CancelOrder { load, retry }
    }

    // -----------------------------------------------------------------------
    // Tools, encoders, cookies
    // -----------------------------------------------------------------------

    /// Forgets which tools and encoders there are, for they are looked for anew.
    pub fn recheck_tools(&mut self)
        ensures
            *final(self) == (Session {
                tools: ToolStatus { checked: false, ..old(self).tools },
                encoder_support: None,
                ..*old(self)
            }),
    {
        self.tools.checked = false;
        self.encoder_support = None;
    }

    /// Whether `after` is this session with a benchmark started, where one can be.
    pub open spec fn benchmark_started(self, after: Session, r: Option<ResolvedEncoder>) -> bool {
        if self.benchmarking || self.state != AppState::Idle {
            after == self && r is None
        } else {
            &&& after == (Session { benchmarking: true, error: None, ..self })
            &&& r is Some
            &&& r->0.kind == self.encoder_kind()
            &&& r->0.hardware_decode == (self.settings.hardware_decode
                && self.encoder_kind() != EncoderKind::Cpu)
        }
    }

    /// Starts a benchmark, unless something is going on.
    pub fn start_benchmark(&mut self) -> (r: Option<ResolvedEncoder>)
        ensures
            old(self).benchmark_started(*final(self), r),
    {
        if self.benchmarking || self.busy() {
            return None;
        }
        self.benchmarking = true;
        self.error = None;
        assert(self.encoder_kind() == old(self).encoder_kind());
        Some(self.resolve_encoder())
    }

    /// What was found before is of no use once the cookies come from elsewhere.
    pub fn cookies_changed(&mut self)
        ensures
            *final(self) == (Session { cookie_status: None, ..*old(self) }),
    {
        self.cookie_status = None;
    }

    /// Whether `after` is this session with a cookie check started, where there is
    /// anything to check.
    pub open spec fn cookie_check_started(self, after: Session, r: bool) -> bool {
        &&& r == (self.settings.cookie_browser != CookieBrowser::NoBrowser)
        &&& r ==> {
            let browser = self.settings.cookie_browser;
            &&& after == (Session {
                cookie_checking: true,
                cookie_status: None,
                logs: after.logs,
                ..self
            })
            &&& views(after.logs@) == views(self.logs@).push(
                "Checking "@ + browser.spec_label() + " cookies (--cookies-from-browser "@
                    + browser.spec_ytdlp_name()->0 + ")..."@,
            )
        }
        &&& !r ==> after == (Session {
            cookie_status: Some(CookieStatus::Disabled),
            ..self
        })
    }

    /// Starts to check the browser's cookies. Returns whether there is anything to
    /// check: without a browser the answer is known.
    pub fn start_cookie_check(&mut self) -> (r: bool)
        ensures
            old(self).cookie_check_started(*final(self), r),
    {
        let browser = self.settings.cookie_browser;
        match browser.ytdlp_name() {
            None => {
                self.cookie_status = Some(CookieStatus::Disabled);
                false
            },
            Some(name) => {
                self.cookie_checking = true;
                self.cookie_status = None;
                let mut line = "Checking ".to_owned();
                line.append(browser.label());
                line.append(" cookies (--cookies-from-browser ");
                line.append(name);
                line.append(")...");
                self.note(line.as_str());
                true
            },
        }
    }

    /// Whether `after` is this session once this was chosen in the setup dialog.
    pub open spec fn setup_decided(
        self,
        action: SetupAction,
        after: Session,
        r: SetupOrder,
    ) -> bool {
        match action {
            SetupAction::Nothing => after == self && r == SetupOrder::Nothing,
            SetupAction::Install => {
                &&& after == (Session { setup: after.setup, ..self })
                &&& after.setup is Installing
                &&& views(after.setup->Installing_0@) == seq!["Starting installation..."@]
                &&& r == (SetupOrder::Install {
                    ffmpeg: self.tools.ffmpeg is None,
                    ytdlp: self.tools.ytdlp is None,
                })
            },
            SetupAction::Dismiss => after == (Session {
                setup: SetupUi::Hidden,
                setup_dismissed: true,
                ..self
            }) && r == SetupOrder::Nothing,
            SetupAction::Elevate => after == self && r == SetupOrder::Elevate,
            SetupAction::Close => after == (Session {
                setup: SetupUi::Hidden,
                ..self
            }) && r == SetupOrder::Nothing,
        }
    }

    /// Takes what was chosen in the setup dialog.
    pub fn setup_chosen(&mut self, action: SetupAction) -> (r: SetupOrder)
        ensures
            old(self).setup_decided(action, *final(self), r),
    {
        match action {
            SetupAction::Nothing => SetupOrder::Nothing,
            SetupAction::Install => {
                let log = text::list(vec!["Starting installation..."]);
                assert(views(log@) =~= seq!["Starting installation..."@]);
                self.setup = SetupUi::Installing(log);
                SetupOrder::Install {
                    ffmpeg: self.tools.ffmpeg.is_none(),
                    ytdlp: self.tools.ytdlp.is_none(),
                }
            },
            SetupAction::Dismiss => {
                self.setup_dismissed = true;
                self.setup = SetupUi::Hidden;
                SetupOrder::Nothing
            },
            SetupAction::Elevate => SetupOrder::Elevate,
            SetupAction::Close => {
                self.setup = SetupUi::Hidden;
                SetupOrder::Nothing
            },
        }
    }

    // -----------------------------------------------------------------------
    // Rows and settings
    // -----------------------------------------------------------------------

    /// Applies a changed limit to every row: none plays longer than the limit, and
    /// without a limit all play to their end, where that is known.
    pub fn apply_global_max(&mut self)
        ensures
            *final(self) == (Session { tracks: final(self).tracks, ..*old(self) }),
            final(self).tracks@ == old(self).tracks@.map_values(
                |t: Track| limited(t, old(self).settings.max_track_us),
            ),
    {
        let max: u64 = self.settings.max_track_us;
        let ghost before = self.tracks@;
        let mut rows: Vec<Track> = Vec::new();
        for i in 0..self.tracks.len()
            invariant
                self.tracks@ == before,
                rows@ == before.take(i as int).map_values(|t: Track| limited(t, max)),
        {
            let mut t = self.tracks[i].clone();
            if max > 0 {
                if max < t.play_us {
                    t.play_us = max;
                }
            } else if t.duration > 0 {
                t.play_us = to_us(t.duration);
            }
            assert(t == limited(before[i as int], max));
            rows.push(t);
            assert(rows@ =~= before.take(i + 1).map_values(|t: Track| limited(t, max)));
        }
        assert(before.take(before.len() as int) =~= before);
        self.tracks = rows;
    }

    /// Whether `after` is this session with the limit switched off, or on.
    pub open spec fn length_switched(self, unlimited: bool, after: Session) -> bool {
        &&& after.settings == (Settings {
            max_track_us: if unlimited {
                0
            } else {
                FIRST_LIMIT_US
            },
            ..self.settings
        })
        &&& after == (Session {
            settings: after.settings,
            tracks: after.tracks,
            ..self
        })
        &&& after.tracks@ == self.tracks@.map_values(
            |t: Track| limited(t, after.settings.max_track_us),
        )
    }

    /// Switches the limit off, or on at its first value.
    pub fn set_full_length(&mut self, unlimited: bool)
        ensures
            old(self).length_switched(unlimited, *final(self)),
    {
        self.settings.max_track_us = if unlimited {
            0
        } else {
            FIRST_LIMIT_US
        };
        self.apply_global_max();
    }

    /// Selects every row, or none.
    pub fn select_all(&mut self, selected: bool)
        ensures
            *final(self) == (Session { tracks: final(self).tracks, ..*old(self) }),
            final(self).tracks@ == old(self).tracks@.map_values(
                |t: Track| Track { selected, ..t },
            ),
    {
        let ghost before = self.tracks@;
        let mut rows: Vec<Track> = Vec::new();
        for i in 0..self.tracks.len()
            invariant
                self.tracks@ == before,
                rows@ == before.take(i as int).map_values(|t: Track| Track { selected, ..t }),
        {
            let mut t = self.tracks[i].clone();
            t.selected = selected;
            rows.push(t);
            assert(rows@ =~= before.take(i + 1).map_values(|t: Track| Track { selected, ..t }));
        }
        assert(before.take(before.len() as int) =~= before);
        self.tracks = rows;
    }

    /// The session with automatic recovery switched on or off.
    pub open spec fn with_auto_recover(self, on: bool) -> Session {
        Session {
            settings: Settings { auto_recover_metadata: on, ..self.settings },
            ..self
        }
    }

    fn switch_auto_recover(&mut self, on: bool)
        ensures
            *final(self) == old(self).with_auto_recover(on),
    {
        self.settings.auto_recover_metadata = on;
    }

    /// Switches automatic recovery. Switched on, it starts at once where a row
    /// waits for it; switched off, a pass that is due is dropped.
    pub fn set_auto_recover(&mut self, on: bool) -> (r: Vec<RetryTarget>)
        ensures
            on ==> old(self).with_auto_recover(true).recovery_considered(
                Seq::empty(),
                *final(self),
                r@,
            ),
            !on ==> r@.len() == 0 && *final(self) == (Session {
                retry: Retry { next_at: None, ..old(self).retry },
                ..old(self).with_auto_recover(false)
            }),
    {
        self.switch_auto_recover(on);
        if on {
            self.maybe_start_recovery()
        } else {
            self.retry.next_at = None;
            Vec::new()
        }
    }
}

// ---------------------------------------------------------------------------
// Laws
// ---------------------------------------------------------------------------

/// The wait between recovery passes stays between its first value and its cap,
/// never shrinks while nothing is recovered, and starts over on any progress.
pub proof fn law_recovery_wait_is_bounded(backoff: nat, recovered: nat)
    requires
        RECOVERY_BACKOFF_START <= backoff <= RECOVERY_BACKOFF_MAX,
    ensures
        RECOVERY_BACKOFF_START <= Session::next_backoff(backoff, recovered)
            <= RECOVERY_BACKOFF_MAX,
        recovered == 0 ==> Session::next_backoff(backoff, recovered) >= backoff,
        recovered > 0 ==> Session::next_backoff(backoff, recovered) == RECOVERY_BACKOFF_START,
{
}

/// Recovery never gives up by itself: while it is switched on, a pass that was
/// not cancelled is followed by another exactly as long as a row remains that a
/// plain repeat may mend. A cancelled pass is followed by none.
pub proof fn law_recovery_goes_on_until_nothing_is_left(
    before: Session,
    summary: RetrySummary,
    now: u64,
    after: Session,
)
    requires
        before.after_retry_pass(summary, now, after),
        before.settings.auto_recover_metadata,
    ensures
        after.retry.next_at is Some <==> !summary.cancelled && count_in(
            after.tracks@,
            RowState::Retryable,
        ) > 0,
        !after.retry.running,
{
}

/// A retry that is cut short changes no row that it did not finish. Whatever has
/// become of the rows when the pass ends (`during`), a row whose retry had only
/// begun has its old failure again, a row that the pass had not come to is as it
/// was, and a row that was finished stays as it came out.
pub proof fn law_a_cut_short_retry_leaves_rows_as_they_were(
    before: Session,
    auto: bool,
    started: Session,
    targets: Seq<RetryTarget>,
    during: Session,
    summary: RetrySummary,
    now: u64,
    after: Session,
)
    requires
        before.tracks@.len() <= usize::MAX,
        before.retry_started(auto, started, targets),
        during.tracks@.len() == before.tracks@.len(),
        during.retry.before@ == started.retry.before@,
        during.after_retry_pass(summary, now, after),
    ensures
        after.tracks@.len() == before.tracks@.len(),
        forall|i: int|
            #![trigger after.tracks@[i]]
            0 <= i < before.tracks@.len() ==> {
                let row = before.tracks@[i];
                &&& is_target(row, auto) && during.tracks@[i] == (Track {
                    meta: MetaState::Loading,
                    ..row
                }) ==> after.tracks@[i] == row
                &&& during.tracks@[i] == row ==> after.tracks@[i] == row
                &&& !(during.tracks@[i].meta is Loading) ==> after.tracks@[i] == during.tracks@[i]
            },
{
    let at = targets_of(before.tracks@, auto);
    let memory = started.retry.before@;
    law_a_retry_takes_exactly_what_may_be_mended(before.tracks@, auto);
    assert forall|j: int, k: int| 0 <= j < k < memory.len() implies (#[trigger] memory[j]).index
        != (#[trigger] memory[k]).index by {
        assert(memory[j].index == at[j]);
        assert(memory[k].index == at[k]);
    }
    law_no_retried_row_is_left_loading(during.tracks@, memory);
    assert forall|i: int|
        #![trigger after.tracks@[i]]
        0 <= i < before.tracks@.len() implies {
        let row = before.tracks@[i];
        &&& is_target(row, auto) && during.tracks@[i] == (Track {
            meta: MetaState::Loading,
            ..row
        }) ==> after.tracks@[i] == row
        &&& during.tracks@[i] == row ==> after.tracks@[i] == row
        &&& !(during.tracks@[i].meta is Loading) ==> after.tracks@[i] == during.tracks@[i]
    } by {
        let row = before.tracks@[i];
        if is_target(row, auto) {
            assert(at.contains(i as usize));
            let k = choose|k: int| 0 <= k < at.len() && at[k] == i as usize;
            assert(memory[k].index == i);
            assert(row.meta == MetaState::Failed(memory[k].failure));
            assert(after.tracks@[i] == put_back(during.tracks@[i], memory[k].failure));
        } else {
            assert forall|m: int| 0 <= m < memory.len() implies (#[trigger] memory[m]).index != i by {
                assert(is_target(before.tracks@[at[m] as int], auto));
            }
        }
    }
}

/// A row that is gone for good is deselected, and no retry takes it again.
pub proof fn law_a_lost_row_is_deselected_and_never_retried(
    before: Session,
    index: usize,
    failure: MetaFailure,
    after: Session,
    auto: bool,
)
    requires
        index < before.tracks@.len(),
        failure.kind is Permanent,
        before.after_track_meta(index, Err(failure), after),
    ensures
        !after.tracks@[index as int].selected,
        !is_target(after.tracks@[index as int], auto),
{
}

/// What a combined export leaves in the work directory is found again, so an
/// interrupted one can be resumed.
pub proof fn law_an_exports_own_files_are_found(names: Seq<Seq<char>>, i: int, k: nat, round: nat)
    requires
        0 <= i < names.len(),
        names[i] == clip_file(k) || names[i] == batch_name(round, k),
    ensures
        resumable(names),
{
    reveal_strlit("clip_");
    reveal_strlit("batch_");
    reveal_strlit("batch_r");
    reveal_strlit(".mp4");
    reveal_strlit(".mkv");
    let name = names[i];
    if name == clip_file(k) {
        assert(name.subrange(0, 5) =~= "clip_"@);
        assert(name.subrange(name.len() - 4, name.len() as int) =~= ".mp4"@);
        assert(is_clip(names[i]));
    } else {
        assert(name.subrange(0, 6) =~= "batch_"@);
        assert(name.subrange(name.len() - 4, name.len() as int) =~= ".mkv"@);
        assert(is_batch(names[i]));
    }
}

impl Session {
    /// What always holds of a session: the list fits into memory, the wait between
    /// recovery passes is within its bounds, the remembered rows are in the order
    /// of the list, and at most six benchmarks are kept, each with a time.
    pub open spec fn well_formed(self) -> bool {
        &&& self.tracks@.len() <= usize::MAX
        &&& RECOVERY_BACKOFF_START <= self.retry.backoff <= RECOVERY_BACKOFF_MAX
        &&& forall|j: int, k: int|
            0 <= j < k < self.retry.before@.len() ==> (#[trigger] self.retry.before@[j]).index < (
            #[trigger] self.retry.before@[k]).index
        &&& self.benchmarks@.len() <= 6
        &&& forall|i: int|
            0 <= i < self.benchmarks@.len() ==> (#[trigger] self.benchmarks@[i]).elapsed_us > 0
    }
}

/// Starting a retry keeps a session well formed.
pub proof fn law_starting_a_retry_keeps_the_session_well_formed(
    before: Session,
    auto: bool,
    after: Session,
    targets: Seq<RetryTarget>,
)
    requires
        before.well_formed(),
        before.retry_started(auto, after, targets),
    ensures
        after.well_formed(),
{
    let at = targets_of(before.tracks@, auto);
    law_a_retry_takes_exactly_what_may_be_mended(before.tracks@, auto);
    let memory = after.retry.before@;
    assert forall|j: int, k: int| 0 <= j < k < memory.len() implies (#[trigger] memory[j]).index < (
    #[trigger] memory[k]).index by {
        assert(memory[j].index == at[j]);
        assert(memory[k].index == at[k]);
    }
}

/// Every message keeps a session well formed (a playlist that fits into memory
/// and a benchmark with a time given).
pub proof fn law_messages_keep_the_session_well_formed(
    before: Session,
    msg: WorkerMsg,
    now: u64,
    winget: bool,
    work: Seq<Seq<char>>,
    after: Session,
    effects: Effects,
)
    requires
        before.well_formed(),
        before.handled(msg, now, winget, work, after, effects),
        match msg {
            WorkerMsg::Playlist(Ok((_, tracks))) => tracks@.len() <= usize::MAX,
            WorkerMsg::BenchmarkDone(Ok(b)) => b.elapsed_us > 0,
            _ => true,
        },
    ensures
        after.well_formed(),
{
    match msg {
        WorkerMsg::MetaLoadFinished { cancelled, failed, rate_limited, permanent, restricted } => {
            let loaded = Session { meta_loading: false, ..before };
            if !cancelled && loaded.recovery_due() {
                let noted = Session { logs: after.logs, ..loaded };
                law_starting_a_retry_keeps_the_session_well_formed(
                    noted,
                    true,
                    after,
                    effects.retry@,
                );
            }
        },
        WorkerMsg::MetaRetryFinished { recovered, .. } => {
            law_recovery_wait_is_bounded(before.retry.backoff as nat, recovered as nat);
            lemma_restored_len(before.tracks@, before.retry.before@);
        },
        WorkerMsg::BenchmarkDone(result) => {
            let all = newest_first(before.benchmarks@, result);
            assert forall|i: int| 0 <= i < all.len() implies (#[trigger] all[i]).elapsed_us > 0 by {
                if let Ok(b) = result {
                    if i > 0 {
                        assert(all[i] == before.benchmarks@[i - 1]);
                    }
                }
            }
        },
        _ => {},
    }
}

proof fn lemma_restored_len(tracks: Seq<Track>, before: Seq<RowBefore>)
    ensures
        restored(tracks, before).len() == tracks.len(),
    decreases before.len(),
{
    if before.len() > 0 {
        lemma_restored_len(tracks, before.drop_last());
    }
}

} // verus!
