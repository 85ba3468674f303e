//! What the window's state comes to, whatever is pressed and whatever arrives.
use vstd::prelude::*;

use super::actions::CancelOrder;
use super::rows::{count_in, selected_in, RetryTarget, RowState};
use super::session::{
    clips_in, completion, is_batch, is_clip, limited, pending, resumable, resume_lines, selection,
    shortened, AppState, ConvertOrder, ResumeChoice, Session, SetupAction, SetupOrder,
};
use crate::config::settings::{CookieBrowser, ExportMode};
use crate::models::messages::BenchmarkResult;
use crate::models::track::{capped_us, MetaFailure, MetaState, Track, TrackMetadata, TrackStatus};
use crate::text::{contains, decimal, ends, occurs_at, starts, trimmed, views};
use crate::video::encoder::{EncoderChoice, EncoderKind, ResolvedEncoder};
use crate::video::encoder_laws::law_a_choice_is_honoured;

verus! {

// ---------------------------------------------------------------------------
// What can be pressed
// ---------------------------------------------------------------------------

/// Nothing is started while something is going on. A playlist needs an address; a
/// conversion needs a selected row, both tools, and no retry beside it.
pub proof fn law_nothing_starts_beside_something_else(s: Session)
    ensures
        s.loadable() ==> s.state == AppState::Idle && trimmed(s.url@).len() > 0,
        s.state == AppState::Idle && trimmed(s.url@).len() > 0 ==> s.loadable(),
        s.convertible() ==> s.state == AppState::Idle && !s.retry.running,
        s.convertible() ==> s.tools.ffmpeg is Some && s.tools.ytdlp is Some,
        s.convertible() ==> selected_in(s.tracks@) > 0,
        s.state == AppState::Idle && !s.retry.running && s.tools.ffmpeg is Some
            && s.tools.ytdlp is Some && selected_in(s.tracks@) > 0 ==> s.convertible(),
{
}

/// A load starts from a clean list: no rows, no title, no error and no recovery of the
/// last playlist are left. Settings, tools and log stay.
pub proof fn law_a_load_starts_clean(s: Session, after: Session)
    requires
        s.load_started(after),
    ensures
        after.state == AppState::LoadingPlaylist && after.meta_loading,
        after.tracks@.len() == 0 && after.playlist_title is None && after.error is None,
        !after.retry.running && after.retry.next_at is None && after.retry.summary is None,
        after.retry.progress is None && after.retry.before@.len() == 0 && after.retry.backoff == 15,
        after.settings == s.settings && after.url == s.url && after.logs == s.logs,
        after.tools == s.tools && after.encoder_support == s.encoder_support,
{
}

/// A conversion takes exactly the selected rows, in their order and with their places,
/// in the mode and with the encoder that are set. They are all pending then; the other
/// rows stay as they are. Without a selected row nothing starts.
pub proof fn law_a_conversion_takes_the_selected_rows(
    s: Session,
    after: Session,
    order: Option<ConvertOrder>,
    i: int,
)
    requires
        s.convert_started(after, order),
        0 <= i < s.tracks@.len(),
    ensures
        order is Some <==> selected_in(s.tracks@) > 0,
        order is None ==> after.state == s.state && after.tracks == s.tracks && after.error is Some,
        order is Some ==> {
            &&& after.state == AppState::Converting && after.error is None
            &&& order->0.mode == s.settings.export_mode
            &&& after.active_export_mode == s.settings.export_mode
            &&& after.tracks@.len() == s.tracks@.len()
            &&& s.tracks@[i].selected ==> after.tracks@[i].status is Pending
            &&& !s.tracks@[i].selected ==> after.tracks@[i] == s.tracks@[i]
            &&& after.tracks@[i].id == s.tracks@[i].id
            &&& after.tracks@[i].selected == s.tracks@[i].selected
            &&& after.tracks@[i].play_us == s.tracks@[i].play_us
            &&& after.tracks@[i].meta == s.tracks@[i].meta
            &&& s.playlist_title is Some ==> order->0.playlist_name@ == s.playlist_title->0@
        },
{
}

/// The encoder of a conversion is the one that the settings stand for on this machine.
/// Whoever chose CPU encoding gets it; nothing is relied on before the machine has been
/// probed; and hardware decoding comes only with hardware encoding.
pub proof fn law_a_conversion_uses_the_encoder_that_is_set(s: Session)
    ensures
        s.settings.encoder == EncoderChoice::Cpu ==> s.encoder_kind() == EncoderKind::Cpu,
        s.encoder_support is None ==> s.encoder_kind() == EncoderKind::Cpu,
        s.encoder_support is Some && s.settings.encoder == EncoderChoice::Nvenc ==> (
        s.encoder_kind() == EncoderKind::Nvenc <==> s.encoder_support->0.nvenc is Available),
        s.encoder_support is Some && s.settings.encoder == EncoderChoice::Qsv ==> (s.encoder_kind()
            == EncoderKind::Qsv <==> s.encoder_support->0.qsv is Available),
        s.encoder_support is Some && s.settings.encoder == EncoderChoice::Amf ==> (s.encoder_kind()
            == EncoderKind::Amf <==> s.encoder_support->0.amf is Available),
{
    if let Some(support) = s.encoder_support {
        law_a_choice_is_honoured(support, s.settings.encoder, s.settings.hardware_decode);
    }
}

/// Whether places and rows are those that are selected.
pub open spec fn is_picked(tracks: Seq<Track>, picked: Seq<(usize, Track)>) -> bool {
    &&& forall|k: int|
        0 <= k < picked.len() ==> {
            &&& (#[trigger] picked[k]).0 < tracks.len()
            &&& picked[k].1 == tracks[picked[k].0 as int]
            &&& picked[k].1.selected
        }
    &&& forall|k: int, l: int|
        0 <= k < l < picked.len() ==> (#[trigger] picked[k]).0 < (#[trigger] picked[l]).0
    &&& forall|i: int|
        0 <= i < tracks.len() && (#[trigger] tracks[i]).selected ==> exists|k: int|
            0 <= k < picked.len() && (#[trigger] picked[k]).0 == i
}

/// The selection is every selected row, once, at its place and in order.
pub proof fn law_the_selection_is_every_selected_row(tracks: Seq<Track>)
    requires
        tracks.len() <= usize::MAX,
    ensures
        is_picked(tracks, selection(tracks)),
    decreases tracks.len(),
{
    if tracks.len() > 0 {
        let front = tracks.drop_last();
        let n = front.len() as int;
        let before = selection(front);
        let picked = selection(tracks);
        law_the_selection_is_every_selected_row(front);
        assert forall|k: int| 0 <= k < picked.len() implies {
            &&& (#[trigger] picked[k]).0 < tracks.len()
            &&& picked[k].1 == tracks[picked[k].0 as int]
            &&& picked[k].1.selected
        } by {
            if k < before.len() {
                assert(picked[k] == before[k]);
                assert(front[before[k].0 as int] == tracks[before[k].0 as int]);
            }
        }
        assert forall|k: int, l: int| 0 <= k < l < picked.len() implies (#[trigger] picked[k]).0
            < (#[trigger] picked[l]).0 by {
            assert(picked[k] == before[k]);
            if l < before.len() {
                assert(picked[l] == before[l]);
            }
        }
        assert forall|i: int| 0 <= i < tracks.len() && (#[trigger] tracks[i]).selected implies exists|
            k: int,
        | 0 <= k < picked.len() && (#[trigger] picked[k]).0 == i by {
            if i < n {
                assert(front[i] == tracks[i]);
                let k = choose|k: int| 0 <= k < before.len() && (#[trigger] before[k]).0 == i;
                assert(picked[k] == before[k]);
            } else {
                assert(picked[before.len() as int].0 == n);
            }
        }
    }
}

/// The convert button asks first exactly where a combined export has left something to
/// resume, and nothing has changed until that is answered.
pub proof fn law_leftovers_are_asked_about(
    s: Session,
    work: Seq<Seq<char>>,
    after: Session,
    r: Option<ConvertOrder>,
)
    requires
        s.convert_clicked(work, after, r),
        !s.resume_prompt,
    ensures
        after.resume_prompt <==> s.settings.export_mode == ExportMode::Combined && exists|i: int|
            0 <= i < work.len() && (is_clip(#[trigger] work[i]) || is_batch(work[i])),
        after.resume_prompt ==> r is None && after.state == s.state && after.tracks == s.tracks,
        !after.resume_prompt && selected_in(s.tracks@) > 0 ==> r is Some,
{
}

/// To cancel the question starts nothing; to resume or to start over starts the
/// conversion, and says which.
pub proof fn law_the_answer_decides(
    s: Session,
    choice: ResumeChoice,
    deleted: Result<String, String>,
    after: Session,
    r: Option<ConvertOrder>,
)
    requires
        s.resume_decided(choice, deleted, after, r),
    ensures
        choice == ResumeChoice::Undecided ==> after == s && r is None,
        choice == ResumeChoice::Cancel ==> r is None && !after.resume_prompt && after.state
            == s.state && after.tracks == s.tracks && after.logs == s.logs,
        choice == ResumeChoice::Resume || choice == ResumeChoice::StartOver
            ==> !after.resume_prompt && after.logs@.len() == s.logs@.len() + 1 && (r is Some
            <==> selected_in(s.tracks@) > 0),
        choice == ResumeChoice::StartOver && deleted is Ok ==> starts(
            views(after.logs@).last(),
            "Started over"@,
        ),
        choice == ResumeChoice::Resume ==> starts(views(after.logs@).last(), "Resuming"@),
{
    let line = Session::resume_line(
        choice,
        match deleted {
            Ok(dir) => Ok(dir@),
            Err(e) => Err(e@),
        },
    );
    if choice == ResumeChoice::Resume || choice == ResumeChoice::StartOver {
        assert(views(after.logs@).len() == after.logs@.len());
        assert(views(s.logs@).len() == s.logs@.len());
        assert(views(after.logs@).last() == line);
        if choice == ResumeChoice::Resume {
            reveal_strlit("Resuming");
            reveal_strlit("Resuming previous conversion — reusing valid clips and batches.");
            assert(line.subrange(0, "Resuming"@.len() as int) =~= "Resuming"@);
        } else if let Ok(dir) = deleted {
            reveal_strlit("Started over");
            reveal_strlit("Started over — deleted work directory: ");
            assert(line.subrange(0, "Started over"@.len() as int) =~= "Started over"@);
        }
    }
}

/// Cancelling gives a load up at once and leaves a conversion to end by itself; in
/// either case no recovery pass is waited for any longer, and no row is touched.
pub proof fn law_cancelling_leaves_the_rows_alone(s: Session, after: Session, r: CancelOrder)
    requires
        s.work_cancelled(after, r),
    ensures
        s.state == AppState::LoadingPlaylist ==> r.load && after.state == AppState::Idle
            && !after.meta_loading,
        s.state != AppState::LoadingPlaylist ==> !r.load && after.state == s.state,
        r.retry <==> s.retry.running,
        after.retry.next_at is None,
        after.retry.running == s.retry.running,
        after.tracks == s.tracks && after.settings == s.settings,
{
}

/// A benchmark starts exactly when none runs and nothing else goes on.
pub proof fn law_one_benchmark_at_a_time(s: Session, after: Session, r: Option<ResolvedEncoder>)
    requires
        s.benchmark_started(after, r),
    ensures
        r is Some <==> !s.benchmarking && s.state == AppState::Idle,
        r is Some ==> after.benchmarking && r->0.kind == s.encoder_kind(),
        r is Some && r->0.hardware_decode ==> s.settings.hardware_decode && r->0.kind
            != EncoderKind::Cpu,
        r is None ==> after == s,
{
}

/// A cookie check needs a browser: without one the answer is that cookies are not used.
pub proof fn law_a_cookie_check_needs_a_browser(s: Session, after: Session, r: bool)
    requires
        s.cookie_check_started(after, r),
    ensures
        r <==> s.settings.cookie_browser != CookieBrowser::NoBrowser,
        r ==> after.cookie_checking && after.cookie_status is None,
        !r ==> after.cookie_status is Some && after.cookie_status->0 is Disabled
            && after.cookie_checking == s.cookie_checking && after.logs == s.logs,
{
}

/// The setup dialog installs what is missing and nothing else, and does not come back
/// once it is turned away.
pub proof fn law_setup_installs_what_is_missing(
    s: Session,
    action: SetupAction,
    after: Session,
    r: SetupOrder,
    winget: bool,
)
    requires
        s.setup_decided(action, after, r),
    ensures
        r is Install <==> action == SetupAction::Install,
        r matches SetupOrder::Install { ffmpeg, ytdlp } ==> (ffmpeg <==> s.tools.ffmpeg is None)
            && (ytdlp <==> s.tools.ytdlp is None) && after.setup is Installing,
        r == SetupOrder::Elevate <==> action == SetupAction::Elevate,
        action == SetupAction::Dismiss ==> after.setup is Hidden && after.offered_setup(winget)
            is Hidden,
        action == SetupAction::Close ==> after.setup is Hidden && after.setup_dismissed
            == s.setup_dismissed,
        after.tools == s.tools && after.tracks == s.tracks,
{
}

/// The setup dialog opens exactly where a tool is known to be missing, none is open yet,
/// and it was not turned away; with winget it offers to install.
pub proof fn law_setup_is_offered_where_a_tool_is_missing(s: Session, winget: bool)
    requires
        s.setup is Hidden,
    ensures
        !(s.offered_setup(winget) is Hidden) <==> s.tools.checked && !s.setup_dismissed && (
        s.tools.ffmpeg is None || s.tools.ytdlp is None),
        s.offered_setup(winget) is Prompt ==> winget,
        s.offered_setup(winget) is NoWinget ==> !winget,
        s.offered_setup(winget) is Hidden || s.offered_setup(winget) is Prompt || s.offered_setup(
            winget,
        ) is NoWinget,
{
}

// ---------------------------------------------------------------------------
// Recovery
// ---------------------------------------------------------------------------

/// Recovery starts by itself exactly when it is on, a row waits for it, no pass is
/// scheduled, and nothing else fetches or converts.
pub proof fn law_recovery_waits_its_turn(s: Session)
    ensures
        s.retry.running || s.meta_loading || s.state == AppState::Converting
            || s.retry.next_at is Some ==> !s.recovery_due(),
        !s.settings.auto_recover_metadata ==> !s.recovery_due(),
        count_in(s.tracks@, RowState::Retryable) == 0 ==> !s.recovery_due(),
        s.settings.auto_recover_metadata && !s.retry.running && !s.meta_loading && s.state
            != AppState::Converting && s.retry.next_at is None && count_in(
            s.tracks@,
            RowState::Retryable,
        ) > 0 ==> s.recovery_due(),
{
}

/// The wait before the next recovery pass starts at fifteen seconds, doubles with every
/// pass that recovers nothing, up to five minutes, and is fifteen seconds again after one
/// that did.
pub proof fn law_the_recovery_wait_doubles(backoff: nat, recovered: nat)
    ensures
        recovered > 0 ==> Session::next_backoff(backoff, recovered) == 15,
        recovered == 0 && 2 * backoff <= 300 ==> Session::next_backoff(backoff, recovered) == 2
            * backoff,
        recovered == 0 && 2 * backoff > 300 ==> Session::next_backoff(backoff, recovered) == 300,
{
}

/// After a pass, the next one is scheduled exactly when recovery is on, the pass was not
/// cancelled and rows are left; and then for as many seconds ahead as the wait is long.
pub proof fn law_the_next_pass_is_scheduled_after_the_wait(
    s: Session,
    recovered: usize,
    cancelled: bool,
    now: u64,
    after: Session,
)
    requires
        s.recovery_rearmed(recovered, cancelled, now, after),
        now + 300_000 <= u64::MAX,
        s.retry.backoff <= 300,
    ensures
        after.retry.next_at is Some <==> s.settings.auto_recover_metadata && !cancelled && count_in(
            s.tracks@,
            RowState::Retryable,
        ) > 0,
        after.retry.next_at is Some ==> after.retry.next_at->0 == now + after.retry.backoff * 1000
            && after.retry.backoff == Session::next_backoff(
            s.retry.backoff as nat,
            recovered as nat,
        ),
        s.settings.auto_recover_metadata && !cancelled && count_in(s.tracks@, RowState::Retryable)
            == 0 ==> after.retry.backoff == 15,
        after.tracks == s.tracks && after.state == s.state,
{
}

/// A scheduled pass never starts before its time, and never beside a conversion or
/// another pass; its time comes only once.
pub proof fn law_a_pass_starts_at_its_time(
    s: Session,
    now: u64,
    after: Session,
    targets: Seq<RetryTarget>,
    waiting: bool,
)
    requires
        s.ticked(now, after, targets, waiting),
    ensures
        waiting <==> s.retry.next_at is Some && now < s.retry.next_at->0,
        targets.len() > 0 ==> s.retry.next_at is Some && now >= s.retry.next_at->0 && s.state
            != AppState::Converting && !s.retry.running && after.retry.running,
        waiting ==> after == s,
        !waiting ==> after.retry.next_at is None,
        after.tracks == s.tracks,
{
}

// ---------------------------------------------------------------------------
// What arrives
// ---------------------------------------------------------------------------

/// A playlist that arrives is what the window shows; one that does not leaves the rows
/// as they were and shows the error. Either way nothing is being loaded any longer.
pub proof fn law_a_playlist_is_shown_or_its_error(
    s: Session,
    result: Result<(String, Vec<Track>), String>,
    work: Seq<Seq<char>>,
    after: Session,
)
    requires
        s.after_playlist(result, work, after),
    ensures
        after.state == AppState::Idle,
        result matches Ok(p) ==> after.playlist_title == Some(p.0) && after.tracks == p.1
            && after.error is None && after.meta_loading == s.meta_loading,
        result matches Err(e) ==> after.error == Some(e) && after.tracks == s.tracks
            && after.playlist_title == s.playlist_title && !after.meta_loading,
        result is Ok ==> (after.logs@.len() > s.logs@.len() <==> resumable(work)),
{
    assert(views(after.logs@).len() == after.logs@.len());
    assert(views(s.logs@).len() == s.logs@.len());
}

/// What arrives of one row changes that row alone: metadata fill it in, a failure is
/// shown, and its id and progress stay.
pub proof fn law_a_row_is_changed_alone(
    s: Session,
    index: usize,
    result: Result<TrackMetadata, MetaFailure>,
    status: TrackStatus,
    fetched: Session,
    moved: Session,
    i: int,
)
    requires
        s.after_track_meta(index, result, fetched),
        s.after_track_status(index, status, moved),
        0 <= i < s.tracks@.len(),
    ensures
        fetched.tracks@.len() == s.tracks@.len() == moved.tracks@.len(),
        i != index ==> fetched.tracks@[i] == s.tracks@[i] && moved.tracks@[i] == s.tracks@[i],
        i == index ==> {
            &&& fetched.tracks@[i].id == s.tracks@[i].id
            &&& fetched.tracks@[i].status == s.tracks@[i].status
            &&& result matches Ok(meta) ==> {
                &&& fetched.tracks@[i].meta is Loaded
                &&& fetched.tracks@[i].title == meta.title
                &&& fetched.tracks@[i].uploader == meta.uploader
                &&& fetched.tracks@[i].duration == meta.duration
                &&& fetched.tracks@[i].selected == s.tracks@[i].selected
            }
            &&& result matches Err(f) ==> {
                &&& fetched.tracks@[i].meta == MetaState::Failed(f)
                &&& fetched.tracks@[i].title == s.tracks@[i].title
                &&& fetched.tracks@[i].selected == (s.tracks@[i].selected && !(
                f.kind is Permanent))
            }
            &&& moved.tracks@[i].status == status
            &&& moved.tracks@[i].meta == s.tracks@[i].meta
            &&& moved.tracks@[i].selected == s.tracks@[i].selected
            &&& moved.tracks@[i].title == s.tracks@[i].title
        },
{
}

/// A changed limit shortens what plays longer and nothing else; without a limit every
/// song plays to its end, where that is known.
pub proof fn law_a_limit_only_shortens(t: Track, max_us: u64)
    ensures
        max_us > 0 ==> limited(t, max_us).play_us <= max_us && limited(t, max_us).play_us
            <= t.play_us,
        max_us > 0 && t.play_us <= max_us ==> limited(t, max_us).play_us == t.play_us,
        max_us > 0 && t.play_us > max_us ==> limited(t, max_us).play_us == max_us,
        max_us == 0 && t.duration > 0 ==> limited(t, max_us).play_us == capped_us(t.duration),
        max_us == 0 && t.duration == 0 ==> limited(t, max_us).play_us == t.play_us,
        limited(t, max_us).selected == t.selected && limited(t, max_us).meta == t.meta,
        limited(t, max_us).id == t.id && limited(t, max_us).status == t.status,
{
}

/// A conversion that ends is summed up in the words of the mode that ran: separate
/// videos are counted, and a combined one is there or not.
pub proof fn law_a_conversion_is_summed_up(
    mode: ExportMode,
    ok: nat,
    failed: nat,
    cancelled: bool,
)
    ensures
        ({
            let line = completion(mode, ok, failed, cancelled);
            &&& cancelled ==> starts(line, "Cancelled — "@)
            &&& !cancelled && mode == ExportMode::Separate ==> starts(line, "Done — "@)
            &&& mode == ExportMode::Separate ==> contains(
                line,
                "— "@ + decimal(ok) + " video(s) created"@,
            )
            &&& mode == ExportMode::Combined && !cancelled && ok == 0 ==> starts(
                line,
                "Failed — no playlist video"@,
            )
            &&& mode == ExportMode::Combined && !cancelled && ok > 0 ==> starts(
                line,
                "Done — 1 playlist video"@,
            )
        }),
{
    let line = completion(mode, ok, failed, cancelled);
    match mode {
        ExportMode::Separate => lemma_counted_line(ok, failed, cancelled),
        ExportMode::Combined => {
            if cancelled {
                lemma_cancelled_line();
            } else if ok == 0 {
                let head = "Failed — no playlist video created ("@;
                assert(head.subrange(0, "Failed — no playlist video"@.len() as int)
                    =~= "Failed — no playlist video"@ && head.len()
                    > "Failed — no playlist video"@.len()) by {
                    reveal_strlit("Failed — no playlist video created (");
                    reveal_strlit("Failed — no playlist video");
                }
                assert(line.subrange(0, "Failed — no playlist video"@.len() as int)
                    =~= head.subrange(0, "Failed — no playlist video"@.len() as int));
            } else {
                lemma_combined_line(failed);
            }
        },
    }
}

proof fn lemma_cancelled_line()
    ensures
        starts("Cancelled — no playlist video created"@, "Cancelled — "@),
{
    reveal_strlit("Cancelled — no playlist video created");
    reveal_strlit("Cancelled — ");
    assert("Cancelled — no playlist video created"@.subrange(0, "Cancelled — "@.len() as int)
        =~= "Cancelled — "@);
}

proof fn lemma_combined_line(failed: nat)
    ensures
        starts(
            "Done — 1 playlist video created ("@ + decimal(failed) + " track(s) skipped) 🎉"@,
            "Done — 1 playlist video"@,
        ),
        starts("Done — 1 playlist video created 🎉"@, "Done — 1 playlist video"@),
{
    let head = "Done — 1 playlist video"@;
    let a = "Done — 1 playlist video created ("@;
    let b = "Done — 1 playlist video created 🎉"@;
    assert(a.len() >= head.len() && a.subrange(0, head.len() as int) =~= head) by {
        reveal_strlit("Done — 1 playlist video");
        reveal_strlit("Done — 1 playlist video created (");
    }
    assert(b.len() >= head.len() && b.subrange(0, head.len() as int) =~= head) by {
        reveal_strlit("Done — 1 playlist video");
        reveal_strlit("Done — 1 playlist video created 🎉");
    }
    let line = a + decimal(failed) + " track(s) skipped) 🎉"@;
    assert(line.subrange(0, head.len() as int) =~= a.subrange(0, head.len() as int));
}

proof fn lemma_counted_line(ok: nat, failed: nat, cancelled: bool)
    ensures
        ({
            let line = completion(ExportMode::Separate, ok, failed, cancelled);
            &&& cancelled ==> starts(line, "Cancelled — "@)
            &&& !cancelled ==> starts(line, "Done — "@)
            &&& contains(line, "— "@ + decimal(ok) + " video(s) created"@)
        }),
{
    let line = completion(ExportMode::Separate, ok, failed, cancelled);
    let head = if cancelled {
        "Cancelled — "@
    } else {
        "Done — "@
    };
    let first = if cancelled {
        "Cancelled "@
    } else {
        "Done "@
    };
    assert(head =~= first + "— "@) by {
        reveal_strlit("Cancelled — ");
        reveal_strlit("Done — ");
        reveal_strlit("Cancelled ");
        reveal_strlit("Done ");
        reveal_strlit("— ");
    }
    assert(" video(s) created, "@ =~= " video(s) created"@ + ", "@) by {
        reveal_strlit(" video(s) created, ");
        reveal_strlit(" video(s) created");
        reveal_strlit(", ");
    }
    assert(" video(s) created 🎉"@ =~= " video(s) created"@ + " 🎉"@) by {
        reveal_strlit(" video(s) created 🎉");
        reveal_strlit(" video(s) created");
        reveal_strlit(" 🎉");
    }
    let key = "— "@ + decimal(ok) + " video(s) created"@;
    let rest = if cancelled || failed > 0 {
        ", "@ + decimal(failed) + " failed"@
    } else {
        " 🎉"@
    };
    assert(line =~= first + key + rest);
    assert(line.subrange(first.len() as int, (first.len() + key.len()) as int) =~= key);
    assert(occurs_at(line, key, first.len() as int));
    assert(line.subrange(0, head.len() as int) =~= head);
}

/// The newest benchmark stands first, six are kept, and a failed one changes none of
/// them.
pub proof fn law_the_newest_benchmark_stands_first(
    s: Session,
    result: Result<BenchmarkResult, String>,
    after: Session,
)
    requires
        s.after_benchmark(result, after),
        s.benchmarks@.len() <= 6,
    ensures
        !after.benchmarking,
        after.benchmarks@.len() <= 6,
        result matches Ok(b) ==> {
            &&& after.benchmarks@.len() > 0 && after.benchmarks@[0] == b
            &&& after.error == s.error
            &&& forall|i: int|
                1 <= i < after.benchmarks@.len() ==> #[trigger] after.benchmarks@[i]
                    == s.benchmarks@[i - 1]
            &&& s.benchmarks@.len() < 6 ==> after.benchmarks@.len() == s.benchmarks@.len() + 1
        },
        result is Err ==> after.benchmarks@ == s.benchmarks@ && after.error is Some,
{
}

/// A list that has grown too long loses its oldest entries, and only then.
pub proof fn law_only_the_oldest_lines_go<T>(list: Seq<T>, most: int, excess: int)
    requires
        0 < excess <= most,
    ensures
        list.len() <= most ==> shortened(list, most, excess) == list,
        list.len() > most ==> shortened(list, most, excess).len() == list.len() - excess,
        list.len() > 0 ==> shortened(list, most, excess).last() == list.last(),
        list.len() == most + 1 ==> shortened(list, most, excess).len() <= most,
{
}

/// Clips are counted one by one, and only clips.
pub proof fn law_clips_are_counted(names: Seq<Seq<char>>, name: Seq<char>)
    ensures
        clips_in(Seq::empty()) == 0,
        clips_in(names.push(name)) == clips_in(names) + if is_clip(name) {
            1int
        } else {
            0
        },
{
    assert(names.push(name).drop_last() =~= names);
}

/// A file counts as a clip or a batch by both ends of its name.
pub proof fn law_clips_and_batches_are_told_by_their_names(name: Seq<char>)
    ensures
        is_clip(name) <==> starts(name, "clip_"@) && ends(name, ".mp4"@),
        is_batch(name) <==> starts(name, "batch_"@) && ends(name, ".mkv"@),
{
}

/// To switch the limit off lets every song play to its end, where that is known; to
/// switch it on lets none play longer than a minute.
pub proof fn law_the_limit_is_a_minute_or_none(s: Session, unlimited: bool, after: Session, i: int)
    requires
        s.length_switched(unlimited, after),
        0 <= i < s.tracks@.len(),
    ensures
        unlimited ==> after.settings.max_track_us == 0,
        !unlimited ==> after.settings.max_track_us == 60_000_000,
        after.tracks@.len() == s.tracks@.len(),
        !unlimited ==> after.tracks@[i].play_us <= 60_000_000,
        unlimited && s.tracks@[i].duration > 0 ==> after.tracks@[i].play_us == capped_us(
            s.tracks@[i].duration,
        ),
        after.tracks@[i].selected == s.tracks@[i].selected,
{
}

/// Leftovers of a conversion are announced exactly where there are any, with the number
/// of clips where there are clips.
pub proof fn law_leftovers_are_announced(names: Seq<Seq<char>>)
    ensures
        resume_lines(names).len() == if !resumable(names) {
            0int
        } else if clips_in(names) > 0 {
            3
        } else {
            2
        },
        resumable(names) && clips_in(names) > 0 ==> starts(
            resume_lines(names)[1],
            decimal(clips_in(names)) + " rendered clip"@,
        ),
{
    if resumable(names) && clips_in(names) > 0 {
        let line = resume_lines(names)[1];
        let head = decimal(clips_in(names)) + " rendered clip"@;
        assert(" rendered clip(s) found — they will be reused on Resume."@ =~= " rendered clip"@
            + "(s) found — they will be reused on Resume."@) by {
            reveal_strlit(" rendered clip(s) found — they will be reused on Resume.");
            reveal_strlit(" rendered clip");
            reveal_strlit("(s) found — they will be reused on Resume.");
        }
        assert(line.subrange(0, head.len() as int) =~= head);
    }
}

/// The first metadata pass is summed up by a line on lost rows and a line on refused
/// ones, each exactly where there are any.
pub proof fn law_a_load_is_summed_up(failed: nat, permanent: nat, restricted: nat)
    ensures
        Session::load_lines(failed, permanent, restricted).len() == (if permanent > 0 {
            1int
        } else {
            0
        }) + if restricted > 0 {
            1int
        } else {
            0
        },
        permanent > 0 ==> starts(
            Session::load_lines(failed, permanent, restricted)[0],
            decimal(permanent) + " of "@ + decimal(failed),
        ),
        restricted > 0 ==> starts(
            Session::load_lines(failed, permanent, restricted).last(),
            decimal(restricted) + " of "@ + decimal(failed),
        ),
{
    let lines = Session::load_lines(failed, permanent, restricted);
    if permanent > 0 {
        let head = decimal(permanent) + " of "@ + decimal(failed);
        assert(lines[0].subrange(0, head.len() as int) =~= head);
    }
    if restricted > 0 {
        let head = decimal(restricted) + " of "@ + decimal(failed);
        assert(lines.last().subrange(0, head.len() as int) =~= head);
    }
}

} // verus!
