//! What becomes of an export when its tracks come out one way or the other.
use vstd::prelude::*;

use crate::config::setting_laws::is_held;
use crate::config::settings::{number_or, Settings};
use crate::downloader::verdict_laws::law_only_refused_downloads_carry_advice;
use crate::downloader::failure::judged;
use crate::models::track::TrackStatus;
use crate::pipeline::combined::{
    clip_share, combine_share, download_share, is_combine_job, resume_lines, video_name,
    ClipFailure, CombinedRun,
};
use crate::pipeline::convert::{
    means_cancelled, progress_share, track_dirs, track_label, AfterTrack, ConvertRun, Finished,
    Progress, Stage, TrackStep,
};
use crate::text::{contains, ends, lowered, starts, trimmed};
use crate::utils::name_laws::{is_safe_form, law_safe_names_keep_what_they_can};
use crate::video::checkpoint::Checkpoint;
use crate::video::combine::PlaylistRenderer;
use crate::video::concat::ClipInfo;
use crate::video::encoder::{EncoderKind, ResolvedEncoder};

verus! {

// ---------------------------------------------------------------------------
// Separate videos
// ---------------------------------------------------------------------------

/// Every track counts once: as done when its video is there, as failed when it is not,
/// and as neither when the work was cancelled. A conversion ends early exactly when it
/// is cancelled, or when a track fails and that is to stop it. What is worth a look
/// after a failure is kept.
pub proof fn law_every_track_counts_once(
    before: ConvertRun,
    label: Seq<char>,
    outcome: Result<String, String>,
    cancelled: bool,
    after: ConvertRun,
    step: TrackStep,
)
    requires
        before.is_followed_by(label, outcome, cancelled, after, step),
    ensures
        after.total == before.total && after.continue_on_fail == before.continue_on_fail,
        after.ok == before.ok + if outcome is Ok {
            1int
        } else {
            0
        },
        after.failed == before.failed + if outcome is Err && !means_cancelled(
            cancelled,
            outcome->Err_0@,
        ) {
            1int
        } else {
            0
        },
        step.next_step == AfterTrack::Cancelled <==> outcome is Err && means_cancelled(
            cancelled,
            outcome->Err_0@,
        ),
        step.next_step == AfterTrack::Stopped <==> outcome is Err && !means_cancelled(
            cancelled,
            outcome->Err_0@,
        ) && !before.continue_on_fail,
        step.clean_up <==> outcome is Ok || step.next_step == AfterTrack::Cancelled,
        outcome matches Ok(path) ==> step.status == TrackStatus::Done(path),
        outcome matches Err(e) ==> !(step.status is Done),
        outcome matches Err(e) ==> (step.status is Failed <==> !means_cancelled(cancelled, e@)),
        step.status matches TrackStatus::Failed(message) ==> starts(
            message@,
            outcome->Err_0@,
        ),
{
    if let Err(e) = outcome {
        law_only_refused_downloads_carry_advice(e@, judged(lowered(e@)).0);
    }
}

/// Work counts as cancelled when it was, or when its error says so.
pub proof fn law_cancelled_work_is_told_by_its_error(cancelled: bool, error: Seq<char>)
    ensures
        cancelled ==> means_cancelled(cancelled, error),
        contains(error, "cancelled"@) ==> means_cancelled(cancelled, error),
        !cancelled && !contains(error, "cancelled"@) ==> !means_cancelled(cancelled, error),
{
}

/// Whether one share of the work is less than another.
pub open spec fn is_less(a: (int, int), b: (int, int)) -> bool {
    a.0 * b.1 < b.0 * a.1
}

/// Progress only ever rises: from the download of a track over its metadata to its
/// render, and from there to the download of the next; it never reaches the end before
/// the last track is done.
pub proof fn law_progress_rises_from_stage_to_stage(n: nat, total: nat)
    requires
        n < total,
    ensures
        is_less(
            progress_share(Stage::Downloading, n, total),
            progress_share(Stage::ReadingMetadata, n, total),
        ),
        is_less(
            progress_share(Stage::ReadingMetadata, n, total),
            progress_share(Stage::Rendering, n, total),
        ),
        is_less(
            progress_share(Stage::Rendering, n, total),
            progress_share(Stage::Downloading, n + 1, total),
        ),
        progress_share(Stage::Downloading, 0, total).0 == 0,
        forall|stage: Stage|
            (#[trigger] progress_share(stage, n, total)).0 < progress_share(stage, n, total).1,
{
    let a = progress_share(Stage::Downloading, n, total);
    let b = progress_share(Stage::ReadingMetadata, n, total);
    let c = progress_share(Stage::Rendering, n, total);
    let d = progress_share(Stage::Downloading, n + 1, total);
    let t = total as int;
    let m = n as int;
    assert(m * (100 * t) < (100 * m + 45) * t) by (nonlinear_arith)
        requires
            t > 0,
            m >= 0,
    ;
    assert((100 * m + 45) * (100 * t) < (100 * m + 55) * (100 * t)) by (nonlinear_arith)
        requires
            t > 0,
            m >= 0,
    ;
    assert((100 * m + 55) * t < (m + 1) * (100 * t)) by (nonlinear_arith)
        requires
            t > 0,
            m >= 0,
    ;
}

/// A track is named by its title and then its artist.
pub proof fn law_a_label_names_title_and_artist(title: Seq<char>, uploader: Seq<char>)
    ensures
        starts(track_label(title, uploader), title + " - "@),
        ends(track_label(title, uploader), uploader),
        track_label(title, uploader).len() == title.len() + 3 + uploader.len(),
{
    let s = track_label(title, uploader);
    reveal_strlit(" - ");
    assert(s.subrange(0, (title + " - "@).len() as int) =~= title + " - "@);
    assert(s.subrange(s.len() - uploader.len(), s.len() as int) =~= uploader);
}

// ---------------------------------------------------------------------------
// One combined video
// ---------------------------------------------------------------------------

/// A track without a clip costs an export nothing but that track: what is rendered
/// stays, and the export ends early exactly when it is cancelled or told to stop.
pub proof fn law_a_missing_clip_takes_no_other_away(
    before: CombinedRun,
    n: nat,
    label: Seq<char>,
    error: Seq<char>,
    cancelled: bool,
    continue_on_fail: bool,
    after: CombinedRun,
    r: ClipFailure,
)
    requires
        before.is_without_clip(n, label, error, cancelled, continue_on_fail, after, r),
    ensures
        after.clips == before.clips && after.contributing == before.contributing,
        after.checkpoint == before.checkpoint && after.total == before.total,
        r is Cancelled <==> means_cancelled(cancelled, error),
        r is GoOn <==> !means_cancelled(cancelled, error) && continue_on_fail,
        r is Stop <==> !means_cancelled(cancelled, error) && !continue_on_fail,
        after.failed == before.failed + if r is Cancelled {
            0int
        } else {
            1
        },
        r matches ClipFailure::GoOn(log, message) ==> starts(message@, error),
        r matches ClipFailure::Stop(log, message, others) ==> starts(message@, error),
{
    law_only_refused_downloads_carry_advice(error, judged(lowered(error)).0);
}

/// A clip that is there joins the export behind the clips before it, with its own
/// length, title and artist, and is recorded.
pub proof fn law_clips_join_in_order(
    before: CombinedRun,
    after: CombinedRun,
    index: usize,
    path: Seq<char>,
    duration: u64,
    title: Seq<char>,
    uploader: Seq<char>,
    i: int,
)
    requires
        after.with_clip(before, index, path, duration, title, uploader),
        before.clips@.len() == before.contributing@.len(),
        before.checkpoint.clips().no_duplicates(),
        0 <= i < before.clips@.len(),
    ensures
        after.clips@.len() == before.clips@.len() + 1 == after.contributing@.len(),
        after.clips@[i] == before.clips@[i] && after.contributing@[i] == before.contributing@[i],
        after.contributing@.last() == index,
        after.clips@.last().path@ == path,
        after.clips@.last().duration == duration,
        after.clips@.last().title@ == title,
        after.clips@.last().uploader@ == uploader,
        after.checkpoint.clips().contains(index),
        after.failed == before.failed && after.total == before.total,
{
    assert(after.clips@.drop_last()[i] == after.clips@[i]);
    crate::video::checkpoint::law_recording_lists_an_entry_once(
        before.checkpoint.clips(),
        index,
    );
}

/// When combining fails, no track is blamed: what counts as failed is what failed
/// before, and nothing is said of a run that was cancelled.
pub proof fn law_a_failed_combine_blames_no_track(
    run: CombinedRun,
    error: Seq<char>,
    cancelled: bool,
    log: Seq<Seq<char>>,
    finished: Finished,
)
    requires
        run.is_combine_failure(error, cancelled, log, finished),
    ensures
        finished.ok == 0,
        finished.failed == run.failed,
        finished.cancelled <==> means_cancelled(cancelled, error),
        finished.cancelled <==> log.len() == 0,
        !finished.cancelled ==> ends(log[0], error),
{
    if !finished.cancelled {
        let e = log[0];
        assert(e.subrange(e.len() - error.len(), e.len() as int) =~= error);
    }
}

/// A combined video is called what the settings say, else after its playlist; in either
/// case by a safe name. Its title is that of the playlist, where it has one.
pub proof fn law_a_combined_video_is_named_and_set_up_as_wished(
    settings: Settings,
    playlist: Seq<char>,
    clips: Vec<ClipInfo>,
    output: Seq<char>,
    encoder: ResolvedEncoder,
    r: PlaylistRenderer,
)
    requires
        is_combine_job(settings, playlist, clips, output, encoder, r),
    ensures
        trimmed(settings.playlist_video_name@).len() > 0 ==> is_safe_form(
            trimmed(settings.playlist_video_name@),
            video_name(settings, playlist),
        ),
        trimmed(settings.playlist_video_name@).len() == 0 ==> is_safe_form(
            playlist,
            video_name(settings, playlist),
        ),
        trimmed(playlist).len() > 0 ==> r.playlist_title@ == playlist,
        trimmed(playlist).len() == 0 ==> r.playlist_title@ == video_name(settings, playlist),
        r.clips == clips && r.output@ == output && r.encoder == encoder,
        r.transition == settings.transition_us && r.chapters == settings.enable_chapters,
        r.audio_bitrate_k == number_or(Some(settings.default_quality@), 320),
        is_held(settings.combine_chunk_size as int, 2, 64, r.chunk_size as int),
        is_held(settings.batch_combine_chunk_size as int, 2, 64, r.batch_chunk_size as int),
{
    law_safe_names_keep_what_they_can(playlist);
    law_safe_names_keep_what_they_can(trimmed(settings.playlist_video_name@));
}

/// An export says that it resumes exactly when an earlier attempt left something, and
/// that the encoder has changed exactly when it has.
pub proof fn law_a_resume_is_announced(c: Checkpoint, kind: EncoderKind)
    ensures
        resume_lines(c, kind).len() == 0 <==> c.clips().len() == 0 && c.batches().len() == 0,
        resume_lines(c, kind).len() <= 2,
        resume_lines(c, kind).len() == 2 <==> (c.clips().len() > 0 || c.batches().len() > 0)
            && c.encoder@.len() > 0 && c.encoder@ != kind.spec_codec(),
{
}

/// The progress of a combined export only ever rises: from the download of a track to
/// its clip, from there to the next track, and from the last clip to combining, which is
/// not the end.
pub proof fn law_progress_of_an_export_rises(n: nat, total: nat)
    requires
        n < total,
    ensures
        download_share(0, total).0 == 0,
        is_less(download_share(n, total), clip_share(n, total)),
        is_less(clip_share(n, total), download_share(n + 1, total)),
        is_less(clip_share(n, total), combine_share(total)),
        combine_share(total).0 < combine_share(total).1,
        combine_share(total) == download_share(total, total),
{
    let t = total as int + 1;
    let m = n as int;
    assert(m * (2 * t) < (2 * m + 1) * t) by (nonlinear_arith)
        requires
            t > 0,
    ;
    assert((2 * m + 1) * t < (m + 1) * (2 * t)) by (nonlinear_arith)
        requires
            t > 0,
    ;
    assert((2 * m + 1) * t < (t - 1) * (2 * t)) by (nonlinear_arith)
        requires
            t > m + 1,
            m >= 0,
    ;
}

/// Nothing is cleared away but what is named as a directory that tracks are worked on in.
pub proof fn law_only_track_directories_are_cleared(names: Seq<Seq<char>>, i: int)
    requires
        0 <= i < track_dirs(names).len(),
    ensures
        starts(track_dirs(names)[i], "track_"@),
        names.contains(track_dirs(names)[i]),
{
    let pred = |name: Seq<char>| starts(name, "track_"@);
    names.lemma_filter_pred(pred, i);
    names.lemma_filter_contains_rev(pred, track_dirs(names)[i]);
}

/// Combining starts exactly when there is a clip; either way no clip and no count
/// changes, and what is recorded of clips and batches stays.
pub proof fn law_combining_needs_a_clip(
    before: CombinedRun,
    after: CombinedRun,
    r: Result<Progress, String>,
)
    requires
        before.combining_started(after, r),
    ensures
        r is Ok <==> before.clips@.len() > 0,
        after.clips == before.clips && after.failed == before.failed,
        after.contributing == before.contributing && after.total == before.total,
        after.checkpoint.clips() == before.checkpoint.clips(),
        after.checkpoint.batches() == before.checkpoint.batches(),
        r is Ok ==> after.checkpoint.stage@ == "combine"@,
        r is Err ==> after.checkpoint == before.checkpoint,
        r matches Ok(p) ==> p.done == before.total && p.of == before.total + 1,
{
}

/// An export starts without clips and failures, and keeps what is recorded of an earlier
/// attempt; it says so where there is something.
pub proof fn law_an_export_keeps_what_was_recorded(
    found: Checkpoint,
    total: usize,
    playlist: Seq<char>,
    encoder: ResolvedEncoder,
    r: CombinedRun,
    log: Seq<Seq<char>>,
)
    requires
        CombinedRun::is_start(found, total, playlist, encoder, r, log),
    ensures
        r.total == total && r.failed == 0,
        r.clips@.len() == 0 && r.contributing@.len() == 0,
        r.checkpoint.clips() == found.clips() && r.checkpoint.batches() == found.batches(),
        r.checkpoint.playlist@ == playlist,
        r.checkpoint.encoder@ == encoder.kind.spec_codec(),
        log.len() == 0 <==> found.clips().len() == 0 && found.batches().len() == 0,
{
    law_a_resume_is_announced(found, encoder.kind);
}

/// When the video is there, every track with a clip is done, and the log names the file.
pub proof fn law_a_finished_export_counts_its_clips(
    run: CombinedRun,
    output: Seq<char>,
    cancelled: bool,
    line: Seq<char>,
    finished: Finished,
)
    requires
        run.is_done(output, cancelled, line, finished),
        run.contributing@.len() <= usize::MAX,
    ensures
        finished.ok == run.contributing@.len(),
        finished.failed == run.failed && finished.cancelled == cancelled,
        ends(line, output),
{
    assert(line.subrange(line.len() - output.len(), line.len() as int) =~= output);
}

} // verus!
