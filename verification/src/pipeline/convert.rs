//! Converting tracks one by one: what is said and decided around each download
//! and render.
use vstd::prelude::*;
use vstd::string::*;

use crate::downloader::failure::{annotate_download_failure, annotated, judged};
use crate::downloader::metadata::DownloadedTrack;
pub use crate::models::messages::Progress;
use crate::models::track::TrackStatus;
use crate::pipeline::combined::clip_file;
use crate::text;
use crate::text::{contains, decimal, lowered, starts, views, zero_padded};
use crate::video::checkpoint::CHECKPOINT_FILE;
use crate::video::ladder::batch_name;

verus! {

/// A track as progress and errors name it.
pub open spec fn track_label(title: Seq<char>, uploader: Seq<char>) -> Seq<char> {
    title + " - "@ + uploader
}

/// Names a track for progress and errors.
pub fn label_of(title: &str, uploader: &str) -> (r: String)
    ensures
        r@ == track_label(title@, uploader@),
{
    let mut s = title.to_owned();
    s.append(" - ");
    s.append(uploader);
    s
}

/// The directory that a track is worked on in.
pub open spec fn work_name(index: nat) -> Seq<char> {
    "track_"@ + zero_padded(decimal(index), 4)
}

/// The directory that a track is worked on in.
pub fn work_dir_name(index: usize) -> (r: String)
    ensures
        r@ == work_name(index as nat),
{
    let mut s = "track_".to_owned();
    s.append(text::dec_padded(index as u64, 4).as_str());
    s
}

/// Those of the names that are of directories that tracks are worked on in.
pub open spec fn track_dirs(names: Seq<Seq<char>>) -> Seq<Seq<char>> {
    names.filter(|name: Seq<char>| starts(name, "track_"@))
}

/// What a conversion leaves in the work directory and may clear away: the
/// directories of tracks, and nothing else.
pub fn leftover_dirs(names: &[String]) -> (r: Vec<String>)
    ensures
        views(r@) == track_dirs(views(names@)),
{
    let ghost all = views(names@);
    let mut dirs: Vec<String> = Vec::new();
    proof {
        reveal(Seq::filter);
    }
    assert(views(dirs@) =~= track_dirs(all.take(0)));
    for i in 0..names.len()
        invariant
            all == views(names@),
            views(dirs@) == track_dirs(all.take(i as int)),
    {
        proof {
            reveal(Seq::filter);
        }
        assert(all.take(i + 1).drop_last() =~= all.take(i as int));
        assert(all.take(i + 1).last() == names@[i as int]@);
        if text::has_prefix(names[i].as_str(), "track_") {
            text::put(&mut dirs, names[i].as_str());
        }
    }
    assert(all.take(names@.len() as int) =~= all);
    dirs
}

/// Clearing up after a conversion takes every directory that a track was worked on
/// in, and never a clip or a batch of a combined export, nor its progress record.
pub proof fn law_clearing_up_spares_a_combined_export(
    names: Seq<Seq<char>>,
    name: Seq<char>,
    index: nat,
    round: nat,
)
    ensures
        names.contains(work_name(index)) ==> track_dirs(names).contains(work_name(index)),
        name == clip_file(index) || name == batch_name(round, index) || name == CHECKPOINT_FILE@
            ==> !track_dirs(names).contains(name),
{
    reveal_strlit("track_");
    reveal_strlit("clip_");
    reveal_strlit("batch_r");
    reveal_strlit("resume.json");
    let pred = |name: Seq<char>| starts(name, "track_"@);
    let dirs = track_dirs(names);
    assert(work_name(index).subrange(0, 6) =~= "track_"@);
    if names.contains(work_name(index)) {
        let i = choose|i: int| 0 <= i < names.len() && names[i] == work_name(index);
        names.lemma_filter_contains(pred, i);
    }
    if dirs.contains(name) {
        let i = choose|i: int| 0 <= i < dirs.len() && dirs[i] == name;
        names.lemma_filter_pred(pred, i);
        assert(name.subrange(0, 6)[0] == 't');
    }
}

/// "Downloading Track n/total: label".
pub open spec fn download_phase(n: nat, total: nat, label: Seq<char>) -> Seq<char> {
    "Downloading Track "@ + decimal(n + 1) + "/"@ + decimal(total) + ": "@ + label
}

fn download_text(n: usize, total: usize, label: &str) -> (r: String)
    requires
        n < usize::MAX,
    ensures
        r@ == download_phase(n as nat, total as nat, label@),
{
    let mut s = "Downloading Track ".to_owned();
    s.append(text::dec(n as u64 + 1).as_str());
    s.append("/");
    s.append(text::dec(total as u64).as_str());
    s.append(": ");
    s.append(label);
    s
}

/// Where the conversion of a track is.
#[derive(Debug, Clone, Copy, PartialEq, Eq, Structural)]
pub enum Stage {
    Downloading,
    ReadingMetadata,
    Rendering,
}

/// What is shown while track `n` (from zero) of `total` is converted.
pub open spec fn phase_text(stage: Stage, n: nat, total: nat, label: Seq<char>) -> Seq<char> {
    match stage {
        Stage::Downloading => download_phase(n, total, label),
        Stage::ReadingMetadata => "Processing metadata... ("@ + label + ")"@,
        Stage::Rendering => "Rendering video... ("@ + label + ")"@,
    }
}

/// How much of a conversion is done in this stage of track `n` (from zero) of `total`:
/// so many parts of so many.
pub open spec fn progress_share(stage: Stage, n: nat, total: nat) -> (int, int) {
    match stage {
        Stage::Downloading => (n as int, total as int),
        Stage::ReadingMetadata => ((100 * n + 45) as int, 100 * total as int),
        Stage::Rendering => ((100 * n + 55) as int, 100 * total as int),
    }
}

/// The progress of converting track `n` (from zero) of `total`.
pub fn track_progress(stage: Stage, n: usize, total: usize, label: &str) -> (r: Progress)
    requires
        n < total,
    ensures
        r.phase@ == phase_text(stage, n as nat, total as nat, label@),
        r.done == progress_share(stage, n as nat, total as nat).0,
        r.of == progress_share(stage, n as nat, total as nat).1,
        r.done < r.of,
{
    match stage {
        Stage::Downloading => Progress {
            phase: download_text(n, total, label),
            done: n as u128,
            of: total as u128,
        },
        Stage::ReadingMetadata => {
            let mut s = "Processing metadata... (".to_owned();
            s.append(label);
            s.append(")");
            Progress { phase: s, done: 100 * (n as u128) + 45, of: 100 * (total as u128) }
        },
        Stage::Rendering => {
            let mut s = "Rendering video... (".to_owned();
            s.append(label);
            s.append(")");
            Progress { phase: s, done: 100 * (n as u128) + 55, of: 100 * (total as u128) }
        },
    }
}

/// The progress when everything is done.
pub fn progress_done() -> (r: Progress)
    ensures
        r.phase@ == "Done"@,
        r.done == 1,
        r.of == 1,
{
    Progress { phase: "Done".to_owned(), done: 1, of: 1 }
}

/// The log line for a download that is complete.
pub fn validated_line(d: &DownloadedTrack) -> (r: String)
    ensures
        r@ == "Validated download: audio="@ + d.audio@ + ", cover="@ + (match d.cover {
            Some(c) => c@,
            None => "(none)"@,
        }) + ", title="@ + d.meta.title@ + ", uploader="@ + d.meta.uploader@ + ", duration="@
            + decimal(d.meta.duration as nat) + "s"@,
{
    let mut s = "Validated download: audio=".to_owned();
    s.append(d.audio.as_str());
    s.append(", cover=");
    match &d.cover {
        Some(c) => s.append(c.as_str()),
        None => s.append("(none)"),
    }
    s.append(", title=");
    s.append(d.meta.title.as_str());
    s.append(", uploader=");
    s.append(d.meta.uploader.as_str());
    s.append(", duration=");
    s.append(text::dec(d.meta.duration).as_str());
    s.append("s");
    s
}

/// How a conversion ends.
#[derive(Debug, Clone, Copy, PartialEq, Eq, Structural)]
pub struct Finished {
    pub ok: usize,
    pub failed: usize,
    pub cancelled: bool,
}

/// A conversion of separate videos.
pub struct ConvertRun {
    pub total: usize,
    pub ok: usize,
    pub failed: usize,
    /// When a track fails, go on with the others.
    pub continue_on_fail: bool,
}

/// How a conversion goes on after a track.
#[derive(Debug, Clone, Copy, PartialEq, Eq, Structural)]
pub enum AfterTrack {
    GoOn,
    /// It ends here, because it was cancelled.
    Cancelled,
    /// It ends here, because a track failed.
    Stopped,
}

/// What follows a track.
pub struct TrackStep {
    pub log: Vec<String>,
    pub status: TrackStatus,
    pub next_step: AfterTrack,
    /// The track's work directory is deleted.
    pub clean_up: bool,
}

/// What the log says of a failed track: the error, and that the export stops
/// there, where it does.
pub open spec fn failure_lines(line: Seq<char>, number: nat, goes_on: bool) -> Seq<Seq<char>> {
    if goes_on {
        seq![line]
    } else {
        seq![line, stop_line(number)]
    }
}

/// "Stopping export: ...".
pub open spec fn stop_line(number: nat) -> Seq<char> {
    "Stopping export: 'Continue when a track fails' is off and track "@ + decimal(number)
        + " failed."@
}

/// Says that the export stops.
pub(crate) fn stop_text(number: u64) -> (r: String)
    ensures
        r@ == stop_line(number as nat),
{
    let mut s = "Stopping export: 'Continue when a track fails' is off and track ".to_owned();
    s.append(text::dec(number).as_str());
    s.append(" failed.");
    s
}

/// Whether an error means that the work was cancelled.
pub open spec fn means_cancelled(cancelled: bool, error: Seq<char>) -> bool {
    cancelled || contains(error, "cancelled"@)
}

/// Whether an error means that the work was cancelled.
pub fn is_cancellation(cancelled: bool, error: &str) -> (r: bool)
    ensures
        r == means_cancelled(cancelled, error@),
{
    cancelled || text::has(error, "cancelled")
}

/// The error that a row shows for a failed track: with advice where access was
/// refused.
pub open spec fn shown_error(error: Seq<char>) -> Seq<char> {
    annotated(error, judged(lowered(error)).0)
}

impl ConvertRun {
    /// No more tracks came out than there are.
    pub open spec fn well_formed(self) -> bool {
        self.ok + self.failed <= self.total
    }

    /// A conversion of this many tracks.
    pub fn new(total: usize, continue_on_fail: bool) -> (r: Self)
        ensures
            r.well_formed(),
            r == (ConvertRun { total, ok: 0, failed: 0, continue_on_fail }),
    {
        ConvertRun { total, ok: 0, failed: 0, continue_on_fail }
    }

    /// How the conversion ends where the output folder cannot be made: every
    /// track has failed.
    pub fn no_output_folder(&self, error: &str) -> (r: (String, Finished))
        ensures
            r.0@ == "ERROR: cannot create output folder: "@ + error@,
            r.1 == (Finished { ok: 0, failed: self.total, cancelled: false }),
    {
        let mut s = "ERROR: cannot create output folder: ".to_owned();
        s.append(error);
        (s, Finished { ok: 0, failed: self.total, cancelled: false })
    }

    /// How the conversion goes on after a failed track.
    pub open spec fn after_failure(self) -> AfterTrack {
        if self.continue_on_fail {
            AfterTrack::GoOn
        } else {
            AfterTrack::Stopped
        }
    }

    /// Whether `after` is this conversion with one more failed track, and `step`
    /// says so: `line` is the error for the log, `message` the one for the row.
    pub open spec fn track_failed(
        self,
        line: Seq<char>,
        message: Seq<char>,
        after: ConvertRun,
        step: TrackStep,
    ) -> bool {
        &&& after == (ConvertRun { failed: after.failed, ..self })
        &&& after.failed == self.failed + 1
        &&& views(step.log@) == failure_lines(
            line,
            (self.ok + self.failed + 1) as nat,
            self.continue_on_fail,
        )
        &&& step.status is Failed
        &&& step.status->Failed_0@ == message
        &&& step.next_step == self.after_failure()
        &&& !step.clean_up
    }

    fn fail_track(&mut self, line: String, message: String) -> (r: TrackStep)
        requires
            old(self).well_formed(),
            old(self).ok + old(self).failed < old(self).total,
        ensures
            final(self).well_formed(),
            old(self).track_failed(line@, message@, *final(self), r),
    {
        let number: u64 = (self.ok + self.failed + 1) as u64;
        self.failed = self.failed + 1;
        let mut log: Vec<String> = Vec::new();
        text::put(&mut log, line.as_str());
        let mut next_step = AfterTrack::GoOn;
        if !self.continue_on_fail {
            text::put(&mut log, stop_text(number).as_str());
            next_step = AfterTrack::Stopped;
        }
        assert(views(log@) =~= failure_lines(line@, number as nat, self.continue_on_fail));
        TrackStep { log, status: TrackStatus::Failed(message), next_step, clean_up: false }
    }

    /// Takes in that a track's work directory could not be made: the track has
    /// failed.
    pub fn no_work_dir(&mut self, error: &str) -> (r: TrackStep)
        requires
            old(self).well_formed(),
            old(self).ok + old(self).failed < old(self).total,
        ensures
            final(self).well_formed(),
            old(self).track_failed("ERROR: "@ + error@, error@, *final(self), r),
    {
        let mut s = "ERROR: ".to_owned();
        s.append(error);
        self.fail_track(s, error.to_owned())
    }

    /// Whether `after` is this conversion after a track came out so, and `step` what
    /// follows.
    pub open spec fn is_followed_by(
        self,
        label: Seq<char>,
        outcome: Result<String, String>,
        cancelled: bool,
        after: ConvertRun,
        step: TrackStep,
    ) -> bool {
        match outcome {
            Ok(path) => {
                &&& after == (ConvertRun { ok: after.ok, ..self })
                &&& after.ok == self.ok + 1
                &&& views(step.log@) == seq!["Finished: "@ + path@]
                &&& step.status == TrackStatus::Done(path)
                &&& step.next_step == AfterTrack::GoOn
                &&& step.clean_up
            },
            Err(e) => if means_cancelled(cancelled, e@) {
                &&& after == self
                &&& views(step.log@) == seq!["Cancelled during: "@ + label]
                &&& step.status is Pending
                &&& step.next_step == AfterTrack::Cancelled
                &&& step.clean_up
            } else {
                self.track_failed(
                    "ERROR on '"@ + label + "': "@ + shown_error(e@),
                    shown_error(e@),
                    after,
                    step,
                )
            },
        }
    }

    /// Takes the outcome of a track in: the path of its video, or the error.
    pub fn track_finished(
        &mut self,
        label: &str,
        outcome: Result<String, String>,
        cancelled: bool,
    ) -> (r: TrackStep)
        requires
            old(self).well_formed(),
            old(self).ok + old(self).failed < old(self).total,
        ensures
            final(self).well_formed(),
            old(self).is_followed_by(label@, outcome, cancelled, *final(self), r),
    {
        match outcome {
            Ok(path) => {
                self.ok = self.ok + 1;
                let mut s = "Finished: ".to_owned();
                s.append(path.as_str());
                let log = text::list(vec![s.as_str()]);
                assert(views(log@) =~= seq![s@]);
                TrackStep {
                    log,
                    status: TrackStatus::Done(path),
                    next_step: AfterTrack::GoOn,
                    clean_up: true,
                }
            },
            Err(e) => {
                if is_cancellation(cancelled, e.as_str()) {
                    let mut s = "Cancelled during: ".to_owned();
                    s.append(label);
                    let log = text::list(vec![s.as_str()]);
                    assert(views(log@) =~= seq![s@]);
                    return TrackStep {
                        log,
                        status: TrackStatus::Pending,
                        next_step: AfterTrack::Cancelled,
                        clean_up: true,
                    };
                }
                let message = annotate_download_failure(e.as_str());
                let mut s = "ERROR on '".to_owned();
                s.append(label);
                s.append("': ");
                s.append(message.as_str());
                self.fail_track(s, message)
            },
        }
    }

    /// How the conversion ends.
    pub fn finished(&self, cancelled: bool) -> (r: Finished)
        ensures
            r == (Finished { ok: self.ok, failed: self.failed, cancelled }),
    {
        Finished { ok: self.ok, failed: self.failed, cancelled }
    }
}

/// A failed track ends the conversion exactly where that was asked for; the
/// tracks that are done stay done.
pub proof fn law_a_failure_stops_only_where_asked(
    before: ConvertRun,
    line: Seq<char>,
    message: Seq<char>,
    after: ConvertRun,
    step: TrackStep,
)
    requires
        before.track_failed(line, message, after, step),
    ensures
        step.next_step == AfterTrack::Stopped <==> !before.continue_on_fail,
        step.next_step != AfterTrack::Cancelled,
        after.ok == before.ok,
{
}

} // verus!
