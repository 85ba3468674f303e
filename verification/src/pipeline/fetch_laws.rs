//! What becomes of a track whose metadata is being fetched.
use vstd::prelude::*;

use crate::config::setting_laws::{is_ladder, lemma_rungs_are_a_ladder};
use crate::config::settings::{CookieBrowser, Settings};
use crate::downloader::cookies::CookieSource;
use crate::downloader::ytdlp::{FailureKind, MetaError};
use crate::models::track::TrackMetadata;
use crate::pipeline::fetch::{
    downloaded_line, failure_view, limited_line, lost_line, opt_failure, FetchReport, FetchStep,
    MetaFetch, TrackFetch,
};
use crate::pipeline::gate::BackoffGate;
use crate::text::{contains, decimal, ends, occurs_at};

verus! {

/// Metadata that arrives ends the fetch, and the shared gate relaxes without opening any
/// earlier.
pub proof fn law_metadata_ends_the_fetch(
    before: TrackFetch,
    m: MetaFetch,
    id: Seq<char>,
    meta: TrackMetadata,
    cancelled: bool,
    gate: BackoffGate,
    now: u64,
    after: TrackFetch,
    gate_after: BackoffGate,
    r: FetchReport,
)
    requires
        before.is_followed_by(m, id, Ok(meta), cancelled, gate, now, after, gate_after, r),
    ensures
        r.step == FetchStep::Done(Ok(meta)),
        !r.gave_up,
        gate_after.open_at == gate.open_at,
        gate_after.consecutive == 0,
        gate_after.level <= gate.level,
{
}

/// A failure ends as what it is: with its own message and its own kind. (One that comes
/// while the batch is cancelled leaves the failure before it standing.)
pub proof fn law_a_failure_keeps_its_kind(
    before: TrackFetch,
    m: MetaFetch,
    id: Seq<char>,
    e: MetaError,
    cancelled: bool,
    gate: BackoffGate,
    now: u64,
    after: TrackFetch,
    gate_after: BackoffGate,
    r: FetchReport,
)
    requires
        before.is_followed_by(m, id, Err(e), cancelled, gate, now, after, gate_after, r),
    ensures
        r.step matches FetchStep::Done(outcome) ==> outcome is Err,
        !(e.cancelled || cancelled) ==> (r.step matches FetchStep::Done(Err(f)) ==> {
            &&& failure_view(f).0 == e.message@
            &&& failure_view(f).1 == e.kind
            &&& e.kind == FailureKind::Retryable ==> failure_view(f).2 is None
            &&& e.kind != FailureKind::Retryable ==> failure_view(f).2 is Some && (e.reason is Some
                ==> failure_view(f).2->0 == e.reason->0@)
        }),
        e.cancelled || cancelled ==> {
            &&& r.step is Done
            &&& r.log is None && !r.gave_up
            &&& gate_after == gate && after == before
            &&& r.step matches FetchStep::Done(Err(f)) && match opt_failure(before.last_error) {
                Some(last) => failure_view(f) == last,
                None => failure_view(f) == (e.message@, FailureKind::Retryable, None::<Seq<char>>),
            }
        },
{
}

/// A lost track is never asked for again, and slows nobody down.
pub proof fn law_a_lost_track_is_given_up_at_once(
    before: TrackFetch,
    m: MetaFetch,
    id: Seq<char>,
    e: MetaError,
    gate: BackoffGate,
    now: u64,
    after: TrackFetch,
    gate_after: BackoffGate,
    r: FetchReport,
)
    requires
        before.is_followed_by(m, id, Err(e), false, gate, now, after, gate_after, r),
        !e.cancelled,
        e.kind == FailureKind::Permanent,
    ensures
        r.step is Done,
        gate_after == gate,
        !r.gave_up,
{
}

/// Refused access is tried again with fresh cookies exactly where that is on, there is
/// a browser, and it was not done for this track yet. The attempt is not spent, the
/// cookies are that browser's, and the shared gate stays as it is.
pub proof fn law_refused_access_gets_fresh_cookies_once(
    before: TrackFetch,
    m: MetaFetch,
    id: Seq<char>,
    e: MetaError,
    gate: BackoffGate,
    now: u64,
    after: TrackFetch,
    gate_after: BackoffGate,
    r: FetchReport,
)
    requires
        before.is_followed_by(m, id, Err(e), false, gate, now, after, gate_after, r),
        !e.cancelled,
        e.kind == FailureKind::Restricted,
    ensures
        r.step is RefreshCookies <==> m.auto_cookie_refresh && m.browser is Some
            && !before.cookies_refreshed,
        r.step is RefreshCookies ==> {
            &&& r.step->RefreshCookies_0 == m.browser->0
            &&& after.attempt == before.attempt
            &&& after.cookies_refreshed
            &&& after.cookies == CookieSource::Browser(m.browser->0)
            &&& opt_failure(after.last_error) is Some
            &&& (opt_failure(after.last_error)->0).0 == e.message@
            &&& (opt_failure(after.last_error)->0).1 == FailureKind::Restricted
        },
        r.step !is RefreshCookies ==> r.step is Done,
        gate_after == gate,
        !r.gave_up,
{
}

/// A transient failure closes the shared gate for the current rung and is tried again,
/// with the same cookies, as long as there are attempts left and the block has not
/// lasted for fifteen failures in a row; then the batch is given up.
pub proof fn law_transient_failures_are_tried_again(
    before: TrackFetch,
    m: MetaFetch,
    id: Seq<char>,
    e: MetaError,
    gate: BackoffGate,
    now: u64,
    after: TrackFetch,
    gate_after: BackoffGate,
    r: FetchReport,
)
    requires
        before.is_followed_by(m, id, Err(e), false, gate, now, after, gate_after, r),
        gate.well_formed(),
        gate.consecutive < usize::MAX,
        !e.cancelled,
        e.kind == FailureKind::Retryable,
    ensures
        r.step is Again <==> before.attempt < m.max_attempts && gate.consecutive + 1 < 15,
        r.step !is Again ==> r.step is Done,
        r.gave_up <==> gate.consecutive + 1 >= 15,
        r.step is Again ==> after.attempt == before.attempt + 1,
        r.step is Done ==> after.attempt == before.attempt,
        after.cookies == before.cookies,
        after.cookies_refreshed == before.cookies_refreshed,
        gate_after.consecutive == gate.consecutive + 1,
        now + gate.steps@[gate.level as int] * 1000 <= u64::MAX ==> gate_after.open_at >= now
            + gate.steps@[gate.level as int] * 1000,
        opt_failure(after.last_error) is Some && (opt_failure(after.last_error)->0).0 == e.message@,
{
}

/// A fetch ends at the shared gate exactly when the wait was cut short or the batch was given
/// up meanwhile. It then ends with the last failure that it met, or, where it met none,
/// with one that may be tried again.
pub proof fn law_a_wait_ends_the_fetch_only_when_cut_short(
    fetch: TrackFetch,
    opened: bool,
    gave_up: bool,
)
    ensures
        fetch.ends_at_gate(opened, gave_up) is None <==> opened && !gave_up,
        fetch.ends_at_gate(opened, gave_up) is Some && fetch.last_error is Some
            ==> fetch.ends_at_gate(opened, gave_up) == opt_failure(fetch.last_error),
        fetch.ends_at_gate(opened, gave_up) is Some && fetch.last_error is None ==> {
            let f = fetch.ends_at_gate(opened, gave_up)->0;
            &&& f.1 == FailureKind::Retryable
            &&& f.2 is None
            &&& !opened <==> f.0 == "metadata fetch cancelled"@
        },
{
    assert("metadata fetch cancelled"@
        != "SoundCloud is still rate limiting — try again in a few minutes"@) by {
        reveal_strlit("metadata fetch cancelled");
        reveal_strlit("SoundCloud is still rate limiting — try again in a few minutes");
        assert("metadata fetch cancelled"@[0] == 'm');
    }
}

/// A batch fetches as the settings say: with the cookies of the selected browser, or
/// else of the file that can be used; at least once per track; and with the ladder of
/// the settings, one rung per attempt.
pub proof fn law_a_batch_follows_the_settings(
    m: MetaFetch,
    settings: Settings,
    delay_ms: u64,
    max_attempts: u32,
    content: Option<&str>,
)
    requires
        m.is_batch_of(settings, delay_ms, max_attempts, content),
    ensures
        m.max_attempts >= 1 && (max_attempts >= 1 ==> m.max_attempts == max_attempts),
        m.delay_ms == delay_ms,
        m.auto_cookie_refresh == settings.auto_cookie_refresh,
        m.browser is Some <==> settings.cookie_browser != CookieBrowser::NoBrowser,
        m.browser is Some ==> m.browser->0 == settings.cookie_browser && m.cookies
            == CookieSource::Browser(settings.cookie_browser),
        m.steps@.len() == settings.attempts(),
        is_ladder(settings.initial_delay(), settings.max_delay(), m.steps@),
{
    lemma_rungs_are_a_ladder(settings.initial_delay(), settings.max_delay(), m.steps@);
}

/// A failed fetch is worth another try exactly when nobody cancelled it and its failure
/// may pass; a reason for giving up comes only with a lost track.
pub proof fn law_only_passing_failures_are_transient(e: MetaError)
    ensures
        e.is_passing() <==> !e.cancelled && e.kind == FailureKind::Retryable,
        e.kind == FailureKind::Permanent ==> e.final_reason() == e.reason,
        e.kind != FailureKind::Permanent ==> e.final_reason() is None,
{
}

/// How the log shows which attempt of how many this is.
pub open spec fn attempt_text(attempt: u32, max: u32) -> Seq<char> {
    "(attempt "@ + decimal(attempt as nat) + "/"@ + decimal(max as nat) + ")"@
}

/// What the log says of metadata that arrived names the track and the attempt.
pub proof fn law_the_log_names_what_arrived(id: Seq<char>, title: Seq<char>, attempt: u32, max: u32)
    ensures
        contains(downloaded_line(id, title, attempt, max), "track "@ + id + " "@),
        ends(downloaded_line(id, title, attempt, max), attempt_text(attempt, max)),
{
    let tried = attempt_text(attempt, max);
    let done = downloaded_line(id, title, attempt, max);
    lemma_pieces();
    let head = "✓ Metadata downloaded — "@;
    let key = "track "@ + id + " "@;
    assert(done =~= head + key + (seq!['"'] + title + seq!['"', ' ']) + tried);
    lemma_found(head, key, seq!['"'] + title + seq!['"', ' '], tried);
}

/// What the log says of a track that has to wait names the track and the attempt, and
/// quotes the error at the end.
pub proof fn law_the_log_names_what_has_to_wait(
    id: Seq<char>,
    error: Seq<char>,
    attempt: u32,
    max: u32,
    backoff: u64,
    abort: bool,
)
    ensures
        contains(
            limited_line(id, attempt, max, backoff, abort, error),
            "track "@ + id + " "@ + attempt_text(attempt, max),
        ),
        ends(limited_line(id, attempt, max, backoff, abort, error), "("@ + error + ")"@),
{
    let limited = limited_line(id, attempt, max, backoff, abort, error);
    lemma_pieces();
    let head = "⏸ Rate limited / transient error on "@;
    let key = "track "@ + id + " "@ + attempt_text(attempt, max);
    let last = "("@ + error + ")"@;
    let reason = if abort {
        "; giving up on this batch (background recovery will continue)"@
    } else if attempt >= max {
        "; maximum retries exceeded — track marked as failed"@
    } else {
        ", retrying"@
    };
    let middle = " — global cooldown "@ + decimal(backoff as nat) + "s"@ + reason + " "@;
    assert(limited =~= head + key + middle + last);
    lemma_found(head, key, middle, last);
}

/// What the log says of a lost track names it, and quotes the error at the end.
pub proof fn law_the_log_names_what_is_lost(id: Seq<char>, reason: Seq<char>, error: Seq<char>)
    ensures
        contains(lost_line(id, reason, error), "Track "@ + id),
        ends(lost_line(id, reason, error), "("@ + error + ")"@),
{
    let lost = lost_line(id, reason, error);
    lemma_pieces();
    let key = "Track "@ + id;
    let last = "("@ + error + ")"@;
    let middle = " is permanently unavailable ("@ + reason + ") — not retrying "@;
    assert(lost =~= Seq::empty() + key + middle + last);
    lemma_found(Seq::empty(), key, middle, last);
}

proof fn lemma_found(head: Seq<char>, key: Seq<char>, middle: Seq<char>, last: Seq<char>)
    ensures
        contains(head + key + middle + last, key),
        ends(head + key + middle + last, last),
{
    let s = head + key + middle + last;
    assert(s.subrange(head.len() as int, (head.len() + key.len()) as int) =~= key);
    assert(occurs_at(s, key, head.len() as int));
    assert(s.subrange(s.len() - last.len(), s.len() as int) =~= last);
}

proof fn lemma_pieces()
    ensures
        "✓ Metadata downloaded — track "@ == "✓ Metadata downloaded — "@ + "track "@,
        " \""@ == " "@ + seq!['"'],
        "\" (attempt "@ == seq!['"', ' '] + "(attempt "@,
        "⏸ Rate limited / transient error on track "@ == "⏸ Rate limited / transient error on "@
            + "track "@,
        " (attempt "@ == " "@ + "(attempt "@,
        ") — global cooldown "@ == ")"@ + " — global cooldown "@,
        " ("@ == " "@ + "("@,
        ") — not retrying ("@ == ") — not retrying "@ + "("@,
{
    reveal_strlit("✓ Metadata downloaded — track ");
    reveal_strlit("✓ Metadata downloaded — ");
    reveal_strlit("track ");
    reveal_strlit(" \"");
    reveal_strlit(" ");
    reveal_strlit("\" (attempt ");
    reveal_strlit("(attempt ");
    reveal_strlit("⏸ Rate limited / transient error on track ");
    reveal_strlit("⏸ Rate limited / transient error on ");
    reveal_strlit(" (attempt ");
    reveal_strlit(") — global cooldown ");
    reveal_strlit(")");
    reveal_strlit(" — global cooldown ");
    reveal_strlit(" (");
    reveal_strlit("(");
    reveal_strlit(") — not retrying (");
    reveal_strlit(") — not retrying ");
    assert("✓ Metadata downloaded — track "@ =~= "✓ Metadata downloaded — "@ + "track "@);
    assert(" \""@ =~= " "@ + seq!['"']);
    assert("\" (attempt "@ =~= seq!['"', ' '] + "(attempt "@);
    assert("⏸ Rate limited / transient error on track "@ =~= "⏸ Rate limited / transient error on "@
        + "track "@);
    assert(" (attempt "@ =~= " "@ + "(attempt "@);
    assert(") — global cooldown "@ =~= ")"@ + " — global cooldown "@);
    assert(" ("@ =~= " "@ + "("@);
    assert(") — not retrying ("@ =~= ") — not retrying "@ + "("@);
}

} // verus!
