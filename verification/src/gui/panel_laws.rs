//! What the panels and rows tell the user.
use vstd::prelude::*;

use super::components::{failure_note, longest_play, row_lines, status_view, Tone};
use super::panels::{
    badge, batch_label, estimate, is_row, selected_time, summary_counts, summary_heading,
    summary_hint, transition_text, unavailable_note, BenchmarkRow, EncoderOption, RetryButton,
    RetryPanel,
};
use super::rows::{count_in, is_target, row_state, selected_in, RowState};
use super::session::{AppState, RetrySummary, Session};
use crate::downloader::failure::FailureKind;
use crate::models::messages::BenchmarkResult;
use crate::models::track::{opt, MetaState, Track, TrackStatus};
use crate::reading::law_rounding_is_to_the_nearest;
use crate::text::{decimal, ends, nearest_even, starts};
use crate::utils::name_laws::{
    is_nearest_second, law_a_clock_reads_back, law_lengths_are_shown_to_the_nearest_second,
    shows_time,
};
use crate::video::encoder::EncoderChoice;

verus! {

// ---------------------------------------------------------------------------
// Rows
// ---------------------------------------------------------------------------

/// A status is told by its tone: a failed track is bad and says why, a finished one is
/// good and says where its video is, and one that is worked on stands out.
pub proof fn law_a_status_is_told_by_its_tone(status: TrackStatus)
    ensures
        status_view(status).tone == Tone::Bad <==> status is Failed,
        status_view(status).tone == Tone::Good <==> status is Done,
        status_view(status).tone == Tone::Accent <==> status is Downloading
            || status is Rendering,
        status_view(status).tone == Tone::Faint <==> status is Pending,
        status matches TrackStatus::Failed(reason) ==> status_view(status).hover == Some(reason@),
        status matches TrackStatus::Done(path) ==> status_view(status).hover == Some(path@),
{
}

/// A row shows its artist and length once they are there. A failure that another try may
/// mend reads as an error; one that it may not is stated as a fact. The whole message is
/// always at hand.
pub proof fn law_a_row_shows_what_is_known(t: Track)
    ensures
        row_lines(t).len() >= 1,
        t.meta is Loaded ==> row_lines(t).len() == 1 && starts(row_lines(t)[0].text, t.uploader@)
            && exists|shown: Seq<char>| #[trigger]
                shows_time(shown, t.duration as int) && ends(row_lines(t)[0].text, shown),
        t.meta matches MetaState::Failed(f) ==> {
            let last = row_lines(t).last();
            &&& last.tone == Tone::Bad <==> f.kind == FailureKind::Retryable
            &&& last.tone == Tone::Warn <==> f.kind != FailureKind::Retryable
            &&& last.hover is Some && starts(last.hover->0, f.message@)
            &&& ends(last.text, f.spec_headline())
        },
        t.meta is Loading ==> row_lines(t)[0].tone == Tone::Faint && row_lines(t).len() == 1,
{
    if t.meta is Loaded {
        let line = row_lines(t)[0].text;
        let shown = crate::utils::filesystem::clock(t.duration as nat);
        law_a_clock_reads_back(t.duration as nat);
        assert(line.subrange(0, t.uploader@.len() as int) =~= t.uploader@);
        assert(line.subrange(line.len() - shown.len(), line.len() as int) =~= shown);
        assert(shows_time(shown, t.duration as int) && ends(line, shown));
    }
    if let MetaState::Failed(f) = t.meta {
        let last = row_lines(t).last();
        let hover = last.hover->0;
        assert(hover.subrange(0, f.message@.len() as int) =~= f.message@);
        let head = f.spec_headline();
        assert(last.text.subrange(last.text.len() - head.len(), last.text.len() as int) =~= head);
    }
}

/// The state of a row is that of its metadata.
pub proof fn law_a_row_is_in_the_state_of_its_metadata(t: Track)
    ensures
        row_state(t) == RowState::Loading <==> t.meta is Loading,
        row_state(t) == RowState::Loaded <==> t.meta is Loaded,
        row_state(t) == RowState::Permanent <==> t.meta is Failed && t.meta->Failed_0.kind
            == FailureKind::Permanent,
        row_state(t) == RowState::Restricted <==> t.meta is Failed && t.meta->Failed_0.kind
            == FailureKind::Restricted,
        row_state(t) == RowState::Retryable <==> t.meta is Failed && t.meta->Failed_0.kind
            == FailureKind::Retryable,
{
}

/// Rows are counted one by one, each under its own state, and selected rows as selected.
pub proof fn law_rows_are_counted_as_what_they_are(tracks: Seq<Track>, t: Track, state: RowState)
    ensures
        count_in(Seq::empty(), state) == 0,
        count_in(tracks.push(t), state) == count_in(tracks, state) + if row_state(t) == state {
            1int
        } else {
            0
        },
        selected_in(Seq::empty()) == 0,
        selected_in(tracks.push(t)) == selected_in(tracks) + if t.selected {
            1int
        } else {
            0
        },
{
    assert(tracks.push(t).drop_last() =~= tracks);
}

/// A row can be set to play as long as the limit says, else as long as the song lasts,
/// else two hours.
pub proof fn law_a_row_plays_as_long_as_it_may(t: Track, max_us: u64)
    ensures
        max_us > 0 ==> longest_play(t, max_us) == max_us,
        max_us == 0 && 0 < t.duration <= 18_446_744_073_709 ==> longest_play(t, max_us) == t.duration
            * 1_000_000,
        max_us == 0 && t.duration == 0 ==> longest_play(t, max_us) == 2 * 3600 * 1_000_000,
{
}

/// The reason of a failure is shown whole up to six hundred characters; of a longer one
/// the first six hundred are, with a mark that there is more.
pub proof fn law_a_long_reason_is_cut(reason: Seq<char>)
    ensures
        starts(failure_note(reason), "Reason:\n"@),
        reason.len() <= 600 ==> ends(failure_note(reason), reason) && failure_note(reason).len()
            == "Reason:\n"@.len() + reason.len(),
        reason.len() > 600 ==> ends(failure_note(reason), reason.take(600) + " [...]"@),
{
    let s = failure_note(reason);
    let head = "Reason:\n"@;
    assert(s.subrange(0, head.len() as int) =~= head);
    if reason.len() <= 600 {
        assert(s.subrange(s.len() - reason.len(), s.len() as int) =~= reason);
    } else {
        let tail = reason.take(600) + " [...]"@;
        assert(s =~= head + tail);
        assert(s.subrange(s.len() - tail.len(), s.len() as int) =~= tail);
    }
}

// ---------------------------------------------------------------------------
// Tools, cookies, encoders
// ---------------------------------------------------------------------------

/// A tool's badge is good exactly when the tool was found, bad exactly when it was
/// looked for and not found, and names the tool.
pub proof fn law_a_badge_tells_whether_the_tool_is_there(
    name: Seq<char>,
    version: Option<Seq<char>>,
    checked: bool,
)
    ensures
        badge(name, version, checked).tone == Tone::Good <==> checked && version is Some,
        badge(name, version, checked).tone == Tone::Bad <==> checked && version is None,
        starts(badge(name, version, checked).text, name),
        version is Some ==> badge(name, version, checked).hover == version,
{
    let s = badge(name, version, checked).text;
    assert(s.subrange(0, name.len() as int) =~= name);
}

/// What is known of the cookies: nothing while they are checked, and good exactly when
/// they were read.
pub proof fn law_cookies_are_good_when_they_were_read(s: Session)
    ensures
        s.cookie_checking ==> s.cookie_view().tone == Tone::Faint,
        s.cookie_view().tone == Tone::Good <==> !s.cookie_checking && s.cookie_status is Some
            && s.cookie_status->0 is Available,
        s.cookie_view().tone == Tone::Bad <==> !s.cookie_checking && s.cookie_status is Some && !(
        s.cookie_status->0 is Available) && !(s.cookie_status->0 is Disabled),
        !s.cookie_checking && s.cookie_status is Some ==> s.cookie_view().text
            == s.cookie_status->0@.headline(),
{
}

/// An encoder can be picked exactly when it needs no hardware or its hardware is there,
/// and one that cannot says why; the one that is set is marked.
pub proof fn law_only_available_encoders_can_be_picked(
    s: Session,
    choice: EncoderChoice,
    option: EncoderOption,
)
    requires
        s.is_option(choice, option),
    ensures
        option.choice == choice,
        option.selected <==> s.settings.encoder == choice,
        choice == EncoderChoice::Auto || choice == EncoderChoice::Cpu ==> option.enabled,
        s.encoder_support is None && choice != EncoderChoice::Auto && choice != EncoderChoice::Cpu
            ==> !option.enabled,
        s.encoder_support is Some && choice == EncoderChoice::Nvenc ==> (option.enabled
            <==> s.encoder_support->0.nvenc is Available),
        s.encoder_support is Some && choice == EncoderChoice::Qsv ==> (option.enabled
            <==> s.encoder_support->0.qsv is Available),
        s.encoder_support is Some && choice == EncoderChoice::Amf ==> (option.enabled
            <==> s.encoder_support->0.amf is Available),
        s.encoder_support is Some && choice == EncoderChoice::Nvenc && !option.enabled ==> opt(
            option.hover,
        ) == Some(s.encoder_support->0.nvenc->Unavailable_0@),
        !option.enabled ==> option.hover is Some,
{
}

/// A batch size is offered by its number, and the default says that it is.
pub proof fn law_the_default_size_says_so(n: nat, what: Seq<char>, default: nat)
    ensures
        starts(batch_label(n, what, default), decimal(n) + what),
        n == default <==> batch_label(n, what, default) != decimal(n) + what,
        n == default ==> ends(batch_label(n, what, default), " (default)"@),
{
    let s = batch_label(n, what, default);
    let head = decimal(n) + what;
    assert(" (default)"@.len() > 0) by {
        reveal_strlit(" (default)");
    }
    assert(s.subrange(0, head.len() as int) =~= head);
    if n == default {
        assert(s.subrange(s.len() - " (default)"@.len(), s.len() as int) =~= " (default)"@);
        assert(s.len() > head.len());
    }
}

/// A transition is shown to the nearest second.
pub proof fn law_transitions_are_shown_to_the_nearest_second(us: nat)
    ensures
        exists|n: nat|
            {
                &&& transition_text(us) == #[trigger] decimal(n) + " seconds"@
                &&& 2 * (n * 1_000_000 - us) <= 1_000_000
                &&& 2 * (us - n * 1_000_000) <= 1_000_000
            },
{
    law_rounding_is_to_the_nearest(us, 1_000_000);
    let n = nearest_even(us, 1_000_000);
    assert(transition_text(us) == decimal(n) + " seconds"@);
}

// ---------------------------------------------------------------------------
// Retry
// ---------------------------------------------------------------------------

/// The retry button is there once the first pass is over and no retry runs, and can be
/// pressed exactly when nothing goes on and a row may be mended; it counts those rows.
pub proof fn law_the_retry_button_counts_what_it_takes(s: Session, r: Option<RetryButton>)
    requires
        s.shows_retry_button(r),
    ensures
        r is Some <==> !s.retry.running && !s.meta_loading,
        r is Some ==> (r->0.enabled <==> s.state == AppState::Idle && count_in(
            s.tracks@,
            RowState::Retryable,
        ) + count_in(s.tracks@, RowState::Restricted) > 0),
        r is Some ==> ends(
            r->0.label@,
            "("@ + decimal(
                count_in(s.tracks@, RowState::Retryable) + count_in(
                    s.tracks@,
                    RowState::Restricted,
                ),
            ) + ")"@,
        ),
{
    if r is Some {
        let label = r->0.label@;
        let tail = "("@ + decimal(s.failed_count()) + ")"@;
        assert("⟳ Retry Failed Metadata ("@ =~= "⟳ Retry Failed Metadata "@ + "("@) by {
            reveal_strlit("⟳ Retry Failed Metadata (");
            reveal_strlit("⟳ Retry Failed Metadata ");
            reveal_strlit("(");
        }
        assert(label =~= "⟳ Retry Failed Metadata "@ + tail);
        assert(label.subrange(label.len() - tail.len(), label.len() as int) =~= tail);
    }
}

/// The hint of the retry button speaks of lost and of refused rows exactly where there
/// are any.
pub proof fn law_the_hint_speaks_of_what_a_retry_leaves_out(permanent: nat, restricted: nat)
    ensures
        permanent == 0 && restricted == 0 <==> unavailable_note(permanent, restricted).len() == 0,
        permanent > 0 ==> starts(
            unavailable_note(permanent, restricted),
            "\n\n"@ + decimal(permanent) + " track(s) are permanently unavailable"@,
        ),
        permanent == 0 && restricted > 0 ==> starts(
            unavailable_note(permanent, restricted),
            "\n\n"@ + decimal(restricted) + " track(s) were refused"@,
        ),
{
    let note = unavailable_note(permanent, restricted);
    assert("\n\n"@.len() == 2) by {
        reveal_strlit("\n\n");
    }
    if permanent > 0 {
        let said =
            " track(s) are permanently unavailable (deleted, private or region-locked) and are not retried — each row shows why."@;
        let key = " track(s) are permanently unavailable"@;
        assert(said.len() >= key.len() && said.subrange(0, key.len() as int) =~= key) by {
            reveal_strlit(
                " track(s) are permanently unavailable (deleted, private or region-locked) and are not retried — each row shows why.",
            );
            reveal_strlit(" track(s) are permanently unavailable");
        }
        let head = "\n\n"@ + decimal(permanent);
        let front = head + said;
        assert(note.subrange(0, front.len() as int) =~= front);
        assert(front.subrange(0, (head + key).len() as int) =~= head + said.subrange(
            0,
            key.len() as int,
        ));
        assert(note.subrange(0, (head + key).len() as int) =~= front.subrange(
            0,
            (head + key).len() as int,
        ));
    } else if restricted > 0 {
        let said =
            " track(s) were refused to an anonymous client. Pick your browser under SoundCloud Authentication first, otherwise they will fail the same way."@;
        let key = " track(s) were refused"@;
        assert(said.len() >= key.len() && said.subrange(0, key.len() as int) =~= key) by {
            reveal_strlit(
                " track(s) were refused to an anonymous client. Pick your browser under SoundCloud Authentication first, otherwise they will fail the same way.",
            );
            reveal_strlit(" track(s) were refused");
        }
        let head = "\n\n"@ + decimal(restricted);
        let front = head + said;
        assert(note =~= front);
        assert(front.subrange(0, (head + key).len() as int) =~= head + said.subrange(
            0,
            key.len() as int,
        ));
    }
}

/// What a pass came to: the counts that are always shown, those that are shown where
/// there are any, and a hint exactly where something is left.
pub proof fn law_a_pass_is_summed_up(s: RetrySummary)
    requires
        s.still_failed >= s.permanent + s.restricted,
    ensures
        summary_counts(s).len() == 2 + (if s.restricted > 0 {
            1int
        } else {
            0
        }) + if s.permanent > 0 {
            1int
        } else {
            0
        },
        ends(summary_counts(s)[0].text, decimal(s.recovered as nat) + " tracks"@),
        ends(summary_counts(s)[1].text, decimal(s.still_failed as nat) + " tracks"@),
        summary_counts(s)[0].tone == Tone::Good,
        summary_counts(s)[1].tone == Tone::Bad <==> s.still_failed > 0,
        summary_hint(s) is None <==> s.still_failed == 0,
        s.cancelled ==> summary_heading(s) == "Metadata retry cancelled."@,
        !s.cancelled && s.gave_up ==> summary_heading(s)
            == "Metadata retry stopped — SoundCloud is still rate limiting."@,
{
    let a = summary_counts(s)[0].text;
    let b = summary_counts(s)[1].text;
    let x = decimal(s.recovered as nat) + " tracks"@;
    let y = decimal(s.still_failed as nat) + " tracks"@;
    assert(a.subrange(a.len() - x.len(), a.len() as int) =~= x);
    assert(b.subrange(b.len() - y.len(), b.len() as int) =~= y);
}

/// The retry panel shows a pass while one runs, the wait while one is scheduled, and
/// then how the last one came out. Recovery is measured on the whole playlist, and the
/// wait in whole seconds that are left.
pub proof fn law_the_panel_shows_what_goes_on(s: Session, now: u64, panel: RetryPanel)
    requires
        s.shows_retry(now, panel),
    ensures
        s.retry.progress matches Some(p) ==> (panel is Recovery <==> p.auto) && (panel is Pass
            <==> !p.auto),
        s.retry.progress is None && s.retry.next_at is Some ==> panel is Recovery
            && panel->waiting,
        s.retry.progress is None && s.retry.next_at is None ==> (panel is Summary
            <==> s.retry.summary is Some) && (panel is Nothing <==> s.retry.summary is None),
        panel is Recovery ==> panel->Recovery_done == count_in(s.tracks@, RowState::Loaded)
            && panel->Recovery_of == s.tracks@.len(),
        panel is Pass && s.retry.progress->0.remaining <= s.retry.progress->0.total
            ==> panel->Pass_done + s.retry.progress->0.remaining == panel->Pass_of
            == s.retry.progress->0.total,
{
}

// ---------------------------------------------------------------------------
// Benchmarks
// ---------------------------------------------------------------------------

/// What is selected plays together as long as its rows do, each a second at least; a row
/// that is not selected adds nothing.
pub proof fn law_selected_time_adds_up(tracks: Seq<Track>, t: Track)
    ensures
        selected_time(Seq::empty()) == 0,
        !t.selected ==> selected_time(tracks.push(t)) == selected_time(tracks),
        t.selected && t.play_us >= 1_000_000 ==> selected_time(tracks.push(t)) == selected_time(
            tracks,
        ) + t.play_us,
        t.selected && t.play_us < 1_000_000 ==> selected_time(tracks.push(t)) == selected_time(
            tracks,
        ) + 1_000_000,
{
    assert(tracks.push(t).drop_last() =~= tracks);
}

/// An estimate is in proportion to the sample of thirty seconds: what is to be rendered
/// takes as much longer than the sample took as it is longer than the sample.
pub proof fn law_estimates_are_in_proportion(total_us: nat, elapsed_us: nat)
    requires
        elapsed_us <= 9_000_000_000,
        estimate(total_us, elapsed_us) < u64::MAX,
    ensures
        estimate(total_us, elapsed_us) * 30_000_000 <= total_us * elapsed_us,
        total_us * elapsed_us < (estimate(total_us, elapsed_us) + 1) * 30_000_000,
{
}

/// A line of the table is that of its benchmark, and has an estimate exactly where
/// something is selected.
pub proof fn law_a_table_line_is_that_of_its_benchmark(
    b: BenchmarkResult,
    total_us: nat,
    row: BenchmarkRow,
)
    requires
        is_row(b, total_us, row),
    ensures
        row.encoder@ == b.encoder@,
        row.estimate is Some <==> total_us > 0,
        row.estimate is Some ==> exists|seconds: int| #[trigger]
            is_nearest_second(estimate(total_us, b.elapsed_us as nat) as int, seconds)
                && shows_time(row.estimate->0@, seconds),
        ends(row.time@, "s"@) && ends(row.size@, " MB"@),
{
    law_lengths_are_shown_to_the_nearest_second(estimate(total_us, b.elapsed_us as nat));
    assert(row.time@.subrange(row.time@.len() - "s"@.len(), row.time@.len() as int) =~= "s"@);
    assert(row.size@.subrange(row.size@.len() - " MB"@.len(), row.size@.len() as int) =~= " MB"@);
}

/// A pass that starts by itself takes the rows that a plain repeat may mend; the button
/// takes refused rows too; neither takes a row that is there, under way or lost.
pub proof fn law_a_retry_takes_failed_rows(t: Track)
    ensures
        is_target(t, true) <==> t.meta is Failed && t.meta->Failed_0.kind
            == FailureKind::Retryable,
        is_target(t, false) <==> t.meta is Failed && t.meta->Failed_0.kind
            != FailureKind::Permanent,
{
}

/// The encoder that is named is the one that will run, and there is a note exactly where
/// it is not the one that was chosen.
pub proof fn law_the_encoder_that_runs_is_named(
    s: Session,
    name: Seq<char>,
    note: Option<Seq<char>>,
)
    requires
        s.is_encoder_outcome(name, note),
    ensures
        name == s.encoder_kind().spec_full_label(),
        s.settings.encoder == EncoderChoice::Cpu || s.settings.encoder == EncoderChoice::Auto
            ==> note is None,
        note is Some <==> s.settings.encoder.spec_kind() is Some && s.encoder_kind()
            != s.settings.encoder.spec_kind()->0,
{
}

} // verus!
