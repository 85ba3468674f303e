//! Fetching one track's metadata resiliently: the steps between the requests.
//!
//! A transient failure closes the shared gate and the track is tried again, up to
//! a number of attempts. Refused access is tried once more with fresh browser
//! cookies. A lost track is given up at once.
use vstd::prelude::*;
use vstd::string::*;

use crate::config::settings::{rung, CookieBrowser, Settings};
use crate::downloader::cookies::{CookieSource, CookieStatus};
use crate::downloader::ytdlp::{
    FailureKind, MetaError, RetryDecision, NO_DATA_REASON, RESTRICTED_REASON,
};
use crate::models::track::{opt, MetaFailure, TrackMetadata};
use crate::pipeline::gate::{BackoffGate, ABORT_AFTER_CONSECUTIVE_PENALTIES};
use crate::text;
use crate::text::{decimal, lines_of};

verus! {

/// What all fetches of a batch share.
pub struct MetaFetch {
    /// Cookies of the first attempt.
    pub cookies: CookieSource,
    /// The selected browser, if any: where fresh cookies come from.
    pub browser: Option<CookieBrowser>,
    pub auto_cookie_refresh: bool,
    /// Pause before each request, in milliseconds.
    pub delay_ms: u64,
    /// Attempts per track, one at least.
    pub max_attempts: u32,
    /// The back-off ladder, in seconds.
    pub steps: Vec<u64>,
}

impl MetaFetch {
    /// There is at least one attempt.
    pub open spec fn well_formed(self) -> bool {
        self.max_attempts >= 1
    }

    /// Whether this is the batch that the settings describe.
    pub open spec fn is_batch_of(
        self,
        settings: Settings,
        delay_ms: u64,
        max_attempts: u32,
        cookies_content: Option<&str>,
    ) -> bool {
        &&& self.well_formed()
        &&& self.browser == (if settings.cookie_browser == CookieBrowser::NoBrowser {
            None
        } else {
            Some(settings.cookie_browser)
        })
        &&& settings.is_cookie_source(cookies_content, self.cookies)
        &&& self.auto_cookie_refresh == settings.auto_cookie_refresh
        &&& self.delay_ms == delay_ms
        &&& self.max_attempts == (if max_attempts < 1 {
            1
        } else {
            max_attempts
        })
        &&& self.steps@.len() == settings.attempts()
        &&& forall|i: int|
            0 <= i < self.steps@.len() ==> #[trigger] self.steps@[i] == rung(
                settings.initial_delay(),
                settings.max_delay(),
                i as nat,
            )
    }

    /// The batch that the settings describe; `cookies_content` is what the
    /// cookies file holds, where it can be read.
    pub fn new(
        settings: &Settings,
        delay_ms: u64,
        max_attempts: u32,
        cookies_content: Option<&str>,
    ) -> (r: Self)
        ensures
            r.is_batch_of(*settings, delay_ms, max_attempts, cookies_content),
    {
        let browser = if settings.cookie_browser == CookieBrowser::NoBrowser {
            None
        } else {
            Some(settings.cookie_browser)
        };
        MetaFetch {
            cookies: settings.cookie_source(cookies_content),
            browser,
            auto_cookie_refresh: settings.auto_cookie_refresh,
            delay_ms,
            max_attempts: if max_attempts < 1 {
                1
            } else {
                max_attempts
            },
            steps: settings.retry_backoff(),
        }
    }
}

/// Whether refused access makes the cookies be refreshed: only when that is on,
/// it was not done for this track yet, and there is a browser to refresh from.
pub fn should_refresh_cookies(
    auto_cookie_refresh: bool,
    already_refreshed: bool,
    browser: Option<CookieBrowser>,
) -> (r: bool)
    ensures
        r == (auto_cookie_refresh && !already_refreshed && browser is Some),
{
    auto_cookie_refresh && !already_refreshed && browser.is_some()
}

/// A failure, as values: its message, its kind and its reason.
pub type FailureView = (Seq<char>, FailureKind, Option<Seq<char>>);

/// What a failure says, as values.
pub open spec fn failure_view(f: MetaFailure) -> FailureView {
    (f.message@, f.kind, opt(f.reason))
}

/// What an optional failure says, as values.
pub open spec fn opt_failure(f: Option<MetaFailure>) -> Option<FailureView> {
    match f {
        Some(x) => Some(failure_view(x)),
        None => None,
    }
}

/// A transient failure with this message, as values.
pub open spec fn transient_view(message: Seq<char>) -> FailureView {
    (message, FailureKind::Retryable, None)
}

/// How far the fetch of one track has come.
pub struct TrackFetch {
    /// The attempt that is next or under way, from one on.
    pub attempt: u32,
    /// Whether the cookies were refreshed for this track.
    pub cookies_refreshed: bool,
    /// Cookies of the next request.
    pub cookies: CookieSource,
    /// The failure of the last request.
    pub last_error: Option<MetaFailure>,
}

/// What follows a request.
pub enum FetchStep {
    /// Wait for the shared gate, then request again.
    Again,
    /// Refresh the cookies of this browser, then wait and request again.
    RefreshCookies(CookieBrowser),
    /// The fetch is over.
    Done(Result<TrackMetadata, MetaFailure>),
}

/// What follows a request, and what the log says of it.
pub struct FetchReport {
    pub step: FetchStep,
    pub log: Option<String>,
    /// The whole batch is to be given up.
    pub gave_up: bool,
}

/// The first line of an error message.
pub open spec fn error_headline(message: Seq<char>) -> Seq<char> {
    if lines_of(message).len() == 0 {
        "unknown error"@
    } else {
        lines_of(message)[0]
    }
}

fn first_line(message: &str) -> (r: String)
    ensures
        r@ == error_headline(message@),
{
    let lines = text::lines(message);
    assert(text::views(lines@).len() == lines@.len());
    if lines.len() == 0 {
        "unknown error".to_owned()
    } else {
        assert(text::views(lines@)[0] == lines@[0]@);
        lines[0].clone()
    }
}

/// The reason of a failure, or a fallback.
pub open spec fn reason_or(reason: Option<&'static str>, fallback: Seq<char>) -> Seq<char> {
    match reason {
        Some(s) => s@,
        None => fallback,
    }
}

pub open spec fn downloaded_line(
    id: Seq<char>,
    title: Seq<char>,
    attempt: u32,
    max: u32,
) -> Seq<char> {
    "✓ Metadata downloaded — track "@ + id + " \""@ + title + "\" (attempt "@ + decimal(
        attempt as nat,
    ) + "/"@ + decimal(max as nat) + ")"@
}

pub open spec fn lost_line(id: Seq<char>, reason: Seq<char>, error: Seq<char>) -> Seq<char> {
    "Track "@ + id + " is permanently unavailable ("@ + reason + ") — not retrying ("@ + error
        + ")"@
}

pub open spec fn refreshing_line(
    id: Seq<char>,
    reason: Seq<char>,
    browser: CookieBrowser,
) -> Seq<char> {
    "Track "@ + id + ": "@ + reason + ". Refreshing browser cookies ("@ + browser.spec_label()
        + ") and retrying once..."@
}

pub open spec fn refused_line(
    id: Seq<char>,
    reason: Seq<char>,
    refreshed: bool,
    error: Seq<char>,
) -> Seq<char> {
    if refreshed {
        "Track "@ + id + ": "@ + reason + " — still refused after refreshing cookies ("@ + error
            + ")"@
    } else {
        "Track "@ + id + ": "@ + reason
            + ". Not retried automatically — select a browser under Settings → SoundCloud Authentication to try signed in ("@
            + error + ")"@
    }
}

pub open spec fn limited_line(
    id: Seq<char>,
    attempt: u32,
    max: u32,
    backoff: u64,
    abort: bool,
    error: Seq<char>,
) -> Seq<char> {
    "⏸ Rate limited / transient error on track "@ + id + " (attempt "@ + decimal(attempt as nat)
        + "/"@ + decimal(max as nat) + ") — global cooldown "@ + decimal(backoff as nat) + "s"@ + (
    if abort {
        "; giving up on this batch (background recovery will continue)"@
    } else if attempt >= max {
        "; maximum retries exceeded — track marked as failed"@
    } else {
        ", retrying"@
    }) + " ("@ + error + ")"@
}

impl TrackFetch {
    /// The attempt is one of those that are allowed.
    pub open spec fn well_formed(self, m: MetaFetch) -> bool {
        1 <= self.attempt <= m.max_attempts
    }

    /// Whether nothing was requested yet.
    pub open spec fn is_start(self, m: MetaFetch) -> bool {
        self.attempt == 1 && !self.cookies_refreshed && self.cookies == m.cookies
            && self.last_error is None
    }

    /// Whether a request is followed by another, and how the fetch then stands:
    /// either the same attempt is made again with fresh cookies, once, or the next
    /// attempt is made.
    pub open spec fn goes_on(self, m: MetaFetch, after: TrackFetch) -> bool {
        if after.attempt == self.attempt {
            &&& m.auto_cookie_refresh && m.browser is Some
            &&& !self.cookies_refreshed && after.cookies_refreshed
            &&& after.cookies == CookieSource::Browser(m.browser->0)
        } else {
            &&& after.attempt == self.attempt + 1 <= m.max_attempts
            &&& after.cookies_refreshed == self.cookies_refreshed
            &&& after.cookies == self.cookies
        }
    }

    /// The fetch of a track before its first request.
    pub fn start(m: &MetaFetch) -> (r: Self)
        requires
            m.well_formed(),
        ensures
            r.well_formed(*m),
            r.is_start(*m),
    {
        TrackFetch {
            attempt: 1,
            cookies_refreshed: false,
            cookies: m.cookies.clone(),
            last_error: None,
        }
    }

    /// The failure with which a fetch ends after its wait for the shared gate, if it
    /// does: that of the last request.
    pub open spec fn ends_at_gate(self, opened: bool, gave_up: bool) -> Option<FailureView> {
        if opened && !gave_up {
            None
        } else {
            Some(
                match opt_failure(self.last_error) {
                    Some(f) => f,
                    None => if !opened {
                        transient_view("metadata fetch cancelled"@)
                    } else {
                        transient_view(
                            "SoundCloud is still rate limiting — try again in a few minutes"@,
                        )
                    },
                },
            )
        }
    }

    /// Whether the fetch ends after the wait for the shared gate, instead of making its
    /// request: `opened` says that the wait was not cancelled, `gave_up` that the
    /// batch was given up meanwhile. The failure is that of the last request.
    pub fn after_wait(&self, opened: bool, gave_up: bool) -> (r: Option<MetaFailure>)
        ensures
            opt_failure(r) == self.ends_at_gate(opened, gave_up),
    {
        if opened && !gave_up {
            return None;
        }
        match &self.last_error {
            Some(f) => Some(f.clone()),
            None => if !opened {
                Some(MetaFailure::transient("metadata fetch cancelled".to_owned()))
            } else {
                Some(
                    MetaFailure::transient(
                        "SoundCloud is still rate limiting — try again in a few minutes".to_owned(),
                    ),
                )
            },
        }
    }

    /// What follows the outcome of a request for the track with this id, how the fetch
    /// and the shared gate then stand, and what the log says.
    pub open spec fn is_followed_by(
        self,
        m: MetaFetch,
        id: Seq<char>,
        outcome: Result<TrackMetadata, MetaError>,
        cancelled: bool,
        gate: BackoffGate,
        now: u64,
        after: TrackFetch,
        gate_after: BackoffGate,
        r: FetchReport,
    ) -> bool {
        match outcome {
            Ok(meta) => {
                &&& r.step == FetchStep::Done(Ok(meta))
                &&& opt(r.log) == Some(
                    downloaded_line(id, meta.title@, self.attempt, m.max_attempts),
                )
                &&& !r.gave_up
                &&& gate_after == gate.relaxed()
                &&& after == self
            },
            Err(e) => if e.cancelled || cancelled {
                &&& r.step is Done
                &&& r.step->Done_0 is Err
                &&& failure_view(r.step->Done_0->Err_0) == (match opt_failure(
                    self.last_error,
                ) {
                    Some(f) => f,
                    None => transient_view(e.message@),
                })
                &&& r.log is None
                &&& !r.gave_up
                &&& gate_after == gate
                &&& after == self
            } else {
                match e.kind {
                    FailureKind::Permanent => {
                        let reason = reason_or(e.reason, NO_DATA_REASON@);
                        &&& r.step is Done
                        &&& r.step->Done_0 is Err
                        &&& failure_view(r.step->Done_0->Err_0) == (
                            e.message@,
                            FailureKind::Permanent,
                            Some(reason),
                        )
                        &&& opt(r.log) == Some(
                            lost_line(id, reason, error_headline(e.message@)),
                        )
                        &&& !r.gave_up
                        &&& gate_after == gate
                        &&& after == self
                    },
                    FailureKind::Restricted => {
                        let reason = reason_or(e.reason, RESTRICTED_REASON@);
                        &&& !r.gave_up
                        &&& gate_after == gate
                        &&& if m.auto_cookie_refresh && !self.cookies_refreshed
                            && m.browser is Some {
                            &&& r.step == FetchStep::RefreshCookies(m.browser->0)
                            &&& opt(r.log) == Some(
                                refreshing_line(id, reason, m.browser->0),
                            )
                            &&& after.attempt == self.attempt
                            &&& after.cookies_refreshed
                            &&& after.cookies == CookieSource::Browser(m.browser->0)
                            &&& opt_failure(after.last_error) == Some(
                                (e.message@, FailureKind::Restricted, Some(reason)),
                            )
                        } else {
                            &&& r.step is Done
                            &&& r.step->Done_0 is Err
                            &&& failure_view(r.step->Done_0->Err_0) == (
                                e.message@,
                                FailureKind::Restricted,
                                Some(reason),
                            )
                            &&& opt(r.log) == Some(
                                refused_line(
                                    id,
                                    reason,
                                    self.cookies_refreshed,
                                    error_headline(e.message@),
                                ),
                            )
                            &&& after == self
                        }
                    },
                    FailureKind::Retryable => {
                        let backoff = gate.steps@[gate.level as int];
                        let abort = gate_after.consecutive
                            >= ABORT_AFTER_CONSECUTIVE_PENALTIES;
                        &&& gate_after == gate.penalized(now)
                        &&& r.gave_up == abort
                        &&& opt(r.log) == Some(
                            limited_line(
                                id,
                                self.attempt,
                                m.max_attempts,
                                backoff,
                                abort,
                                error_headline(e.message@),
                            ),
                        )
                        &&& opt_failure(after.last_error) == Some(
                            transient_view(e.message@),
                        )
                        &&& after.cookies_refreshed == self.cookies_refreshed
                        &&& after.cookies == self.cookies
                        &&& if abort || self.attempt >= m.max_attempts {
                            &&& r.step is Done
                            &&& r.step->Done_0 is Err
                            &&& failure_view(r.step->Done_0->Err_0) == transient_view(
                                e.message@,
                            )
                            &&& after.attempt == self.attempt
                        } else {
                            &&& r.step is Again
                            &&& after.attempt == self.attempt + 1
                        }
                    },
                }
            },
        }
    }

    /// Takes the outcome of a request for the track with this id in, and tells
    /// what follows. `cancelled` says that the batch is being cancelled, `gate` is
    /// the shared gate at time `now`.
    pub fn after_fetch(
        &mut self,
        m: &MetaFetch,
        id: &str,
        outcome: Result<TrackMetadata, MetaError>,
        cancelled: bool,
        gate: &mut BackoffGate,
        now: u64,
    ) -> (r: FetchReport)
        requires
            m.well_formed(),
            old(self).well_formed(*m),
            old(gate).well_formed(),
        ensures
            final(gate).well_formed(),
            final(self).well_formed(*m),
            !(r.step is Done) ==> old(self).goes_on(*m, *final(self)),
            old(self).is_followed_by(
                *m,
                id@,
                outcome,
                cancelled,
                *old(gate),
                now,
                *final(self),
                *final(gate),
                r,
            ),
    {
        let e = match outcome {
            Ok(meta) => {
                gate.relax();
                let mut s = "✓ Metadata downloaded — track ".to_owned();
                s.append(id);
                s.append(" \"");
                s.append(meta.title.as_str());
                s.append("\" (attempt ");
                s.append(text::dec(self.attempt as u64).as_str());
                s.append("/");
                s.append(text::dec(m.max_attempts as u64).as_str());
                s.append(")");
                return FetchReport {
                    step: FetchStep::Done(Ok(meta)),
                    log: Some(s),
                    gave_up: false,
                };
            },
            Err(e) => e,
        };
        if e.cancelled || cancelled {
            let failure = match &self.last_error {
                Some(f) => f.clone(),
                None => MetaFailure::transient(e.message.clone()),
            };
            return FetchReport { step: FetchStep::Done(Err(failure)), log: None, gave_up: false };
        }
        let line = first_line(e.message.as_str());
        match e.decision() {
            RetryDecision::PermanentFailure => {
                let reason = match e.reason {
                    Some(s) => s,
                    None => NO_DATA_REASON,
                };
                let mut s = "Track ".to_owned();
                s.append(id);
                s.append(" is permanently unavailable (");
                s.append(reason);
                s.append(") — not retrying (");
                s.append(line.as_str());
                s.append(")");
                let failure = MetaFailure::permanent(e.message.clone(), reason.to_owned());
                FetchReport { step: FetchStep::Done(Err(failure)), log: Some(s), gave_up: false }
            },
            RetryDecision::RefreshCookiesAndRetry => {
                let reason = match e.reason {
                    Some(s) => s,
                    None => RESTRICTED_REASON,
                };
                let failure = MetaFailure::restricted(e.message.clone(), reason.to_owned());
                if should_refresh_cookies(
                    m.auto_cookie_refresh,
                    self.cookies_refreshed,
                    m.browser,
                ) {
                    if let Some(browser) = m.browser {
                        let mut s = "Track ".to_owned();
                        s.append(id);
                        s.append(": ");
                        s.append(reason);
                        s.append(". Refreshing browser cookies (");
                        s.append(browser.label());
                        s.append(") and retrying once...");
                        // The attempt is made again rather than spent, so that
                        // fresh cookies get a try even on the last one.
                        self.cookies_refreshed = true;
                        self.cookies = CookieSource::Browser(browser);
                        self.last_error = Some(failure);
                        return FetchReport {
                            step: FetchStep::RefreshCookies(browser),
                            log: Some(s),
                            gave_up: false,
                        };
                    }
                }
                let mut s = "Track ".to_owned();
                s.append(id);
                s.append(": ");
                s.append(reason);
                if self.cookies_refreshed {
                    s.append(" — still refused after refreshing cookies (");
                } else {
                    s.append(
                        ". Not retried automatically — select a browser under Settings → SoundCloud Authentication to try signed in (",
                    );
                }
                s.append(line.as_str());
                s.append(")");
                FetchReport { step: FetchStep::Done(Err(failure)), log: Some(s), gave_up: false }
            },
            RetryDecision::Retry => {
                self.last_error = Some(MetaFailure::transient(e.message.clone()));
                let (backoff, abort) = gate.penalize(now);
                let last_attempt = self.attempt >= m.max_attempts;
                let mut s = "⏸ Rate limited / transient error on track ".to_owned();
                s.append(id);
                s.append(" (attempt ");
                s.append(text::dec(self.attempt as u64).as_str());
                s.append("/");
                s.append(text::dec(m.max_attempts as u64).as_str());
                s.append(") — global cooldown ");
                s.append(text::dec(backoff).as_str());
                s.append("s");
                s.append(
                    if abort {
                        "; giving up on this batch (background recovery will continue)"
                    } else if last_attempt {
                        "; maximum retries exceeded — track marked as failed"
                    } else {
                        ", retrying"
                    },
                );
                s.append(" (");
                s.append(line.as_str());
                s.append(")");
                if abort || last_attempt {
                    let failure = MetaFailure::transient(e.message.clone());
                    return FetchReport {
                        step: FetchStep::Done(Err(failure)),
                        log: Some(s),
                        gave_up: abort,
                    };
                }
                self.attempt = self.attempt + 1;
                FetchReport { step: FetchStep::Again, log: Some(s), gave_up: abort }
            },
        }
    }
}

/// The log line for refreshed cookies.
pub fn cookies_refreshed_line(status: &CookieStatus) -> (r: String)
    ensures
        r@ == "Cookie refresh: "@ + status@.headline() + ". Retrying..."@,
{
    let mut s = "Cookie refresh: ".to_owned();
    s.append(status.headline().as_str());
    s.append(". Retrying...");
    s
}

/// Whether request `i` follows the one before it.
pub open spec fn follows_up(m: MetaFetch, requests: Seq<TrackFetch>, i: int) -> bool {
    requests[i - 1].goes_on(m, requests[i])
}

/// Whether these are the requests for one track, as the fetch stands before each.
pub open spec fn is_history(m: MetaFetch, requests: Seq<TrackFetch>) -> bool {
    &&& requests.len() > 0
    &&& requests[0].is_start(m)
    &&& forall|i: int| 1 <= i < requests.len() ==> #[trigger] follows_up(m, requests, i)
}

/// A track is requested at most once more than there are attempts, the one more
/// being for fresh cookies, which are fetched at most once and only where that is
/// on and there is a browser: from then on every request is made with them.
pub proof fn law_requests_per_track_are_bounded(m: MetaFetch, requests: Seq<TrackFetch>)
    requires
        m.well_formed(),
        is_history(m, requests),
    ensures
        requests.len() <= m.max_attempts + 1,
        !(m.auto_cookie_refresh && m.browser is Some) ==> requests.len() <= m.max_attempts,
        requests.len() == requests.last().attempt + if requests.last().cookies_refreshed {
            1int
        } else {
            0
        },
        requests.last().well_formed(m),
        requests.last().cookies_refreshed ==> m.auto_cookie_refresh && m.browser is Some
            && requests.last().cookies == CookieSource::Browser(m.browser->0),
        !requests.last().cookies_refreshed ==> requests.last().cookies == m.cookies,
    decreases requests.len(),
{
    if requests.len() > 1 {
        let front = requests.drop_last();
        assert forall|i: int| 1 <= i < front.len() implies #[trigger] follows_up(m, front, i) by {
            assert(follows_up(m, requests, i));
        }
        law_requests_per_track_are_bounded(m, front);
        assert(follows_up(m, requests, requests.len() - 1));
    }
}

} // verus!
