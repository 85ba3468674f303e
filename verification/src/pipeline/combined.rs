//! Converting a playlist into one video: which clips are reused, rendered or
//! given up, and how the export ends. Nothing that was rendered is ever deleted
//! before the video is there, so an interrupted export can go on.
use vstd::prelude::*;
use vstd::string::*;

use crate::config::settings::{
    clamped, number_or, Settings, MAX_COMBINE_CHUNK_SIZE, MIN_COMBINE_CHUNK_SIZE,
};
use crate::downloader::failure::annotate_download_failure;
use crate::models::track::TrackStatus;
use crate::pipeline::convert::{
    download_phase, is_cancellation, means_cancelled, shown_error, stop_line, stop_text, Finished,
    Progress,
};
use crate::text;
use crate::text::{decimal, law_padded_decimal_reads_back, seconds1, trimmed, views, zero_padded};
use crate::utils::filesystem::{safe_name, sanitize_filename};
use crate::video::checkpoint::{with_entry, Checkpoint};
use crate::video::combine::PlaylistRenderer;
use crate::video::concat::ClipInfo;
use crate::video::encoder::{EncoderKind, ResolvedEncoder};
use crate::video::ladder::{batch_name, first_level, ladder};
use crate::video::ladder_laws::{law_ladder_plays_every_clip_once_in_order, run, Contents};
use crate::video::timeline::{
    chapter_start, effective_transition, fits, law_transition_is_shorter_than_every_clip,
};
use crate::video::timing_laws::{cued, law_every_clip_starts_where_its_chapter_does, Cues};

verus! {

/// The clip of a track.
pub open spec fn clip_file(index: nat) -> Seq<char> {
    "clip_"@ + zero_padded(decimal(index), 4) + ".mp4"@
}

/// The clip of a track.
pub fn clip_name(index: usize) -> (r: String)
    ensures
        r@ == clip_file(index as nat),
{
    let mut s = "clip_".to_owned();
    s.append(text::dec_padded(index as u64, 4).as_str());
    s.append(".mp4");
    s
}

/// Different tracks have different clips, and no clip has the name of a batch.
pub proof fn law_clip_names_are_their_own(a: nat, b: nat, round: nat, i: nat)
    ensures
        clip_file(a) == clip_file(b) ==> a == b,
        clip_file(a) != batch_name(round, i),
{
    reveal_strlit("clip_");
    reveal_strlit(".mp4");
    reveal_strlit("batch_r");
    law_padded_decimal_reads_back(a, 4);
    law_padded_decimal_reads_back(b, 4);
    let x = clip_file(a);
    let y = clip_file(b);
    assert(x.subrange(5, x.len() - 4) =~= zero_padded(decimal(a), 4));
    assert(y.subrange(5, y.len() - 4) =~= zero_padded(decimal(b), 4));
    assert(x[0] == 'c');
    assert(batch_name(round, i)[0] == 'b');
}

/// The clips of the tracks with these indices.
pub open spec fn clip_files(indices: Seq<usize>) -> Seq<Seq<char>> {
    Seq::new(indices.len(), |i: int| clip_file(indices[i] as nat))
}

/// An export plays the clip of every track that takes part exactly once, in the
/// order of the tracks, however its passes are batched.
pub proof fn law_export_plays_every_track_in_order(
    files: Contents,
    indices: Seq<usize>,
    lengths: Seq<u64>,
    transition: u64,
    output: Seq<char>,
    leaf_max: int,
    batch_max: int,
)
    requires
        leaf_max >= 2,
        batch_max >= 2,
        indices.len() == lengths.len(),
        forall|i: int|
            0 <= i < indices.len() ==> files[#[trigger] clip_files(indices)[i]] == seq![
                clip_files(indices)[i],
            ],
    ensures
        run(
            files,
            ladder(
                first_level(clip_files(indices), lengths),
                transition,
                output,
                leaf_max,
                batch_max,
                0,
            ),
        )[output] == clip_files(indices),
{
    let names = clip_files(indices);
    assert forall|k: int, r: nat, i: nat| 0 <= k < names.len() implies #[trigger] names[k]
        != #[trigger] batch_name(r, i) by {
        law_clip_names_are_their_own(indices[k] as nat, 0, r, i);
    }
    law_ladder_plays_every_clip_once_in_order(
        files,
        names,
        lengths,
        transition,
        output,
        leaf_max,
        batch_max,
    );
}

/// In an export every track starts exactly where its chapter mark is, however its
/// passes are batched and whatever transition was asked for.
pub proof fn law_every_track_starts_at_its_chapter(
    files: Cues,
    indices: Seq<usize>,
    lengths: Seq<u64>,
    requested: u64,
    output: Seq<char>,
    leaf_max: int,
    batch_max: int,
)
    requires
        leaf_max >= 2,
        batch_max >= 2,
        indices.len() == lengths.len(),
        fits(lengths, effective_transition(lengths, requested)),
        forall|i: int|
            0 <= i < indices.len() ==> files[#[trigger] clip_files(indices)[i]] == seq![
                (clip_files(indices)[i], 0int),
            ],
    ensures
        ({
            let transition = effective_transition(lengths, requested);
            let video = cued(
                files,
                ladder(
                    first_level(clip_files(indices), lengths),
                    transition,
                    output,
                    leaf_max,
                    batch_max,
                    0,
                ),
                transition,
            )[output];
            &&& video.len() == indices.len()
            &&& forall|i: int|
                0 <= i < indices.len() ==> #[trigger] video[i] == (
                    clip_file(indices[i] as nat),
                    chapter_start(lengths, transition, i),
                )
        }),
{
    let names = clip_files(indices);
    assert forall|k: int, r: nat, i: nat| 0 <= k < names.len() implies #[trigger] names[k]
        != #[trigger] batch_name(r, i) by {
        law_clip_names_are_their_own(indices[k] as nat, 0, r, i);
    }
    law_transition_is_shorter_than_every_clip(lengths, requested);
    law_every_clip_starts_where_its_chapter_does(
        files,
        names,
        lengths,
        effective_transition(lengths, requested),
        output,
        leaf_max,
        batch_max,
    );
}

// ---------------------------------------------------------------------------
// The export
// ---------------------------------------------------------------------------

/// A combined export under way.
pub struct CombinedRun {
    pub total: usize,
    /// The clips so far, in playlist order.
    pub clips: Vec<ClipInfo>,
    /// The tracks of these clips.
    pub contributing: Vec<usize>,
    pub failed: usize,
    pub checkpoint: Checkpoint,
}

/// A text, or a question mark for an empty one.
pub open spec fn or_unknown(s: Seq<char>) -> Seq<char> {
    if s.len() == 0 {
        "?"@
    } else {
        s
    }
}

/// The log lines about what an earlier attempt left.
pub open spec fn resume_lines(c: Checkpoint, kind: EncoderKind) -> Seq<Seq<char>> {
    if c.clips().len() == 0 && c.batches().len() == 0 {
        Seq::empty()
    } else {
        let first = seq![
            "Resuming from checkpoint (stage: "@ + or_unknown(c.stage@) + ", "@ + decimal(
                c.clips().len(),
            ) + " clip(s), "@ + decimal(c.batches().len()) + " batch(es) recorded, encoder "@
                + or_unknown(c.encoder@) + ")."@,
        ];
        if c.encoder@.len() > 0 && c.encoder@ != kind.spec_codec() {
            first.push(
                "Note: previous run used "@ + c.encoder@ + ", now using "@ + kind.spec_codec()
                    + " — already-finished artifacts are kept; the final video re-encodes uniformly."@,
            )
        } else {
            first
        }
    }
}

fn known_or_mark(s: &str) -> (r: String)
    ensures
        r@ == or_unknown(s@),
{
    if s.is_empty() {
        "?".to_owned()
    } else {
        s.to_owned()
    }
}

fn resume_log(c: &Checkpoint, kind: EncoderKind) -> (r: Vec<String>)
    ensures
        views(r@) == resume_lines(*c, kind),
{
    let mut lines: Vec<String> = Vec::new();
    assert(views(lines@) =~= Seq::empty());
    if !c.has_progress() {
        return lines;
    }
    let mut s = "Resuming from checkpoint (stage: ".to_owned();
    s.append(known_or_mark(c.stage.as_str()).as_str());
    s.append(", ");
    s.append(text::dec(c.completed_clips.len() as u64).as_str());
    s.append(" clip(s), ");
    s.append(text::dec(c.completed_batches.len() as u64).as_str());
    s.append(" batch(es) recorded, encoder ");
    s.append(known_or_mark(c.encoder.as_str()).as_str());
    s.append(").");
    text::put(&mut lines, s.as_str());
    if !c.encoder.as_str().is_empty() && !text::same(c.encoder.as_str(), kind.codec()) {
        let mut n = "Note: previous run used ".to_owned();
        n.append(c.encoder.as_str());
        n.append(", now using ");
        n.append(kind.codec());
        n.append(
            " — already-finished artifacts are kept; the final video re-encodes uniformly.",
        );
        text::put(&mut lines, n.as_str());
    }
    assert(views(lines@) =~= resume_lines(*c, kind));
    lines
}

/// Whether a clip has these values.
pub open spec fn is_clip(
    c: ClipInfo,
    path: Seq<char>,
    duration: u64,
    title: Seq<char>,
    uploader: Seq<char>,
) -> bool {
    c.path@ == path && c.duration == duration && c.title@ == title && c.uploader@ == uploader
}

/// How much of an export is done while track `n` (from zero) of `total` is downloaded:
/// so many parts of so many. Combining counts as one more track.
pub open spec fn download_share(n: nat, total: nat) -> (int, int) {
    (n as int, (total + 1) as int)
}

/// How much of an export is done while the clip of track `n` (from zero) is made.
pub open spec fn clip_share(n: nat, total: nat) -> (int, int) {
    ((2 * n + 1) as int, (2 * (total + 1)) as int)
}

/// How much of an export is done when the clips are combined.
pub open spec fn combine_share(total: nat) -> (int, int) {
    (total as int, (total + 1) as int)
}

/// What follows a track whose clip could not be made.
pub enum ClipFailure {
    /// The export was cancelled; what the log says.
    Cancelled(String),
    /// The export goes on without the track: what the log says, and the error.
    GoOn(String, String),
    /// The export ends: what the log says, the error, and what is said of the
    /// tracks whose clips are there.
    Stop(Vec<String>, String, String),
}

impl CombinedRun {
    /// Each clip belongs to a track, and no more tracks came out than there are.
    pub open spec fn well_formed(self) -> bool {
        &&& self.clips@.len() == self.contributing@.len()
        &&& self.contributing@.len() + self.failed <= self.total
    }

    /// Whether `r` is an export of `total` tracks as it starts, with these lines for the log.
    pub open spec fn is_start(
        found: Checkpoint,
        total: usize,
        playlist: Seq<char>,
        encoder: ResolvedEncoder,
        r: CombinedRun,
        log: Seq<Seq<char>>,
    ) -> bool {
        &&& r.well_formed()
        &&& r.total == total
        &&& r.clips@.len() == 0
        &&& r.failed == 0
        &&& r.checkpoint.playlist@ == playlist
        &&& r.checkpoint.encoder@ == encoder.kind.spec_codec()
        &&& r.checkpoint.stage@ == "render"@
        &&& r.checkpoint.clips() == found.clips()
        &&& r.checkpoint.batches() == found.batches()
        &&& log == resume_lines(found, encoder.kind)
    }

    /// Starts an export of `total` tracks: says what an earlier attempt left, and
    /// notes what this one is.
    pub fn start(total: usize, found: Checkpoint, playlist: &str, encoder: &ResolvedEncoder) -> (r:
        (CombinedRun, Vec<String>))
        ensures
            CombinedRun::is_start(found, total, playlist@, *encoder, r.0, views(r.1@)),
    {
        let log = resume_log(&found, encoder.kind);
        let mut checkpoint = found;
        checkpoint.playlist = playlist.to_owned();
        checkpoint.encoder = encoder.kind.codec().to_owned();
        checkpoint.set_stage("render");
        (
            CombinedRun {
                total,
                clips: Vec::new(),
                contributing: Vec::new(),
                failed: 0,
                checkpoint,
            },
            log,
        )
    }

    /// What a track adds to the export when its clip is there.
    pub open spec fn with_clip(
        self,
        before: CombinedRun,
        index: usize,
        path: Seq<char>,
        duration: u64,
        title: Seq<char>,
        uploader: Seq<char>,
    ) -> bool {
        &&& self.total == before.total
        &&& self.failed == before.failed
        &&& self.contributing@ == before.contributing@.push(index)
        &&& self.clips@.len() == before.clips@.len() + 1
        &&& self.clips@.drop_last() == before.clips@
        &&& is_clip(self.clips@.last(), path, duration, title, uploader)
        &&& self.checkpoint.clips() == with_entry(before.checkpoint.clips(), index)
        &&& self.checkpoint.batches() == before.checkpoint.batches()
        &&& self.checkpoint.stage == before.checkpoint.stage
        &&& self.checkpoint.playlist == before.checkpoint.playlist
        &&& self.checkpoint.encoder == before.checkpoint.encoder
    }

    /// Takes a clip in that was just rendered.
    pub fn clip_ready(
        &mut self,
        index: usize,
        path: &str,
        duration: u64,
        title: &str,
        uploader: &str,
    )
        requires
            old(self).well_formed(),
            old(self).contributing@.len() + old(self).failed < old(self).total,
        ensures
            final(self).well_formed(),
            final(self).with_clip(*old(self), index, path@, duration, title@, uploader@),
    {
        let clip = ClipInfo {
            path: path.to_owned(),
            duration,
            title: title.to_owned(),
            uploader: uploader.to_owned(),
        };
        self.clips.push(clip);
        self.contributing.push(index);
        self.checkpoint.record_clip(index);
        assert(self.clips@.drop_last() =~= old(self).clips@);
    }

    /// Takes a clip in that an earlier attempt rendered and that can still be
    /// read: the log line and the progress for it.
    pub fn reuse_clip(
        &mut self,
        n: usize,
        index: usize,
        label: &str,
        path: &str,
        duration: u64,
        title: &str,
        uploader: &str,
    ) -> (r: (String, Progress))
        requires
            old(self).well_formed(),
            old(self).contributing@.len() + old(self).failed < old(self).total,
            n < old(self).total,
        ensures
            final(self).well_formed(),
            final(self).with_clip(*old(self), index, path@, duration, title@, uploader@),
            r.0@ == "✓ Reusing "@ + clip_file(index as nat) + " — already rendered ("@ + seconds1(
                duration as nat,
            ) + "s)"@,
            r.1.phase@ == "Reusing rendered clip "@ + decimal((n + 1) as nat) + "/"@ + decimal(
                old(self).total as nat,
            ) + ": "@ + label@,
            r.1.done == clip_share(n as nat, old(self).total as nat).0,
            r.1.of == clip_share(n as nat, old(self).total as nat).1,
    {
        let mut s = "✓ Reusing ".to_owned();
        s.append(clip_name(index).as_str());
        s.append(" — already rendered (");
        s.append(text::seconds_1(duration).as_str());
        s.append("s)");
        let mut phase = "Reusing rendered clip ".to_owned();
        phase.append(text::dec(n as u64 + 1).as_str());
        phase.append("/");
        phase.append(text::dec(self.total as u64).as_str());
        phase.append(": ");
        phase.append(label);
        let progress = Progress {
            phase,
            done: 2 * (n as u128) + 1,
            of: 2 * (self.total as u128 + 1),
        };
        self.clip_ready(index, path, duration, title, uploader);
        (s, progress)
    }

    /// The progress of downloading track `n` (from zero).
    pub fn downloading(&self, n: usize, label: &str) -> (r: Progress)
        requires
            n < self.total,
        ensures
            r.phase@ == download_phase(n as nat, self.total as nat, label@),
            r.done == download_share(n as nat, self.total as nat).0,
            r.of == download_share(n as nat, self.total as nat).1,
    {
        let mut phase = "Downloading Track ".to_owned();
        phase.append(text::dec(n as u64 + 1).as_str());
        phase.append("/");
        phase.append(text::dec(self.total as u64).as_str());
        phase.append(": ");
        phase.append(label);
        Progress { phase, done: n as u128, of: self.total as u128 + 1 }
    }

    /// The progress of rendering the clip of track `n` (from zero).
    pub fn rendering(&self, n: usize, label: &str) -> (r: Progress)
        requires
            n < self.total,
        ensures
            r.phase@ == "Rendering clip "@ + decimal((n + 1) as nat) + "/"@ + decimal(
                self.total as nat,
            ) + ": "@ + label@,
            r.done == clip_share(n as nat, self.total as nat).0,
            r.of == clip_share(n as nat, self.total as nat).1,
    {
        let mut phase = "Rendering clip ".to_owned();
        phase.append(text::dec(n as u64 + 1).as_str());
        phase.append("/");
        phase.append(text::dec(self.total as u64).as_str());
        phase.append(": ");
        phase.append(label);
        Progress { phase, done: 2 * (n as u128) + 1, of: 2 * (self.total as u128 + 1) }
    }

    /// Whether `after` is this export when the clip of track `n` (from zero) could not be
    /// made, and `r` what follows.
    pub open spec fn is_without_clip(
        self,
        n: nat,
        label: Seq<char>,
        error: Seq<char>,
        cancelled: bool,
        continue_on_fail: bool,
        after: CombinedRun,
        r: ClipFailure,
    ) -> bool {
        &&& after.total == self.total
        &&& after.clips == self.clips
        &&& after.contributing == self.contributing
        &&& after.checkpoint == self.checkpoint
        &&& if means_cancelled(cancelled, error) {
            &&& after.failed == self.failed
            &&& r is Cancelled
            &&& r->Cancelled_0@ == "Cancelled during: "@ + label
        } else {
            let line = "ERROR on '"@ + label + "': "@ + shown_error(error);
            &&& after.failed == self.failed + 1
            &&& match r {
                ClipFailure::Cancelled(_) => false,
                ClipFailure::GoOn(log, message) => {
                    &&& continue_on_fail
                    &&& log@ == line
                    &&& message@ == shown_error(error)
                },
                ClipFailure::Stop(log, message, others) => {
                    &&& !continue_on_fail
                    &&& views(log@) == seq![
                        line,
                        stop_line((n + 1) as nat),
                    ]
                    &&& message@ == shown_error(error)
                    &&& others@ == "Failed combining playlist video: track "@ + decimal(
                        (n + 1) as nat,
                    ) + " render missing"@
                },
            }
        }
    }

    /// Takes in that the clip of track `n` (from zero) could not be made.
    pub fn clip_failed(
        &mut self,
        n: usize,
        label: &str,
        error: &str,
        cancelled: bool,
        continue_on_fail: bool,
    ) -> (r: ClipFailure)
        requires
            old(self).well_formed(),
            old(self).contributing@.len() + old(self).failed < old(self).total,
            n < old(self).total,
        ensures
            final(self).well_formed(),
            old(self).is_without_clip(
                n as nat,
                label@,
                error@,
                cancelled,
                continue_on_fail,
                *final(self),
                r,
            ),
    {
        if is_cancellation(cancelled, error) {
            let mut s = "Cancelled during: ".to_owned();
            s.append(label);
            return ClipFailure::Cancelled(s);
        }
        self.failed = self.failed + 1;
        let message = annotate_download_failure(error);
        let mut line = "ERROR on '".to_owned();
        line.append(label);
        line.append("': ");
        line.append(message.as_str());
        if continue_on_fail {
            return ClipFailure::GoOn(line, message);
        }
        let stop = stop_text(n as u64 + 1);
        let mut log: Vec<String> = Vec::new();
        text::put(&mut log, line.as_str());
        text::put(&mut log, stop.as_str());
        assert(views(log@) =~= seq![line@, stop@]);
        let mut others = "Failed combining playlist video: track ".to_owned();
        others.append(text::dec(n as u64 + 1).as_str());
        others.append(" render missing");
        ClipFailure::Stop(log, message, others)
    }

    /// How an export ends that produced no video.
    pub fn without_video(&self, cancelled: bool) -> (r: Finished)
        ensures
            r == (Finished { ok: 0, failed: self.failed, cancelled }),
    {
        Finished { ok: 0, failed: self.failed, cancelled }
    }

    /// Whether `after` is this export gone over to combining.
    pub open spec fn combining_started(
        self,
        after: CombinedRun,
        r: Result<Progress, String>,
    ) -> bool {
        &&& after.well_formed()
        &&& after.total == self.total
        &&& after.clips == self.clips
        &&& after.contributing == self.contributing
        &&& after.failed == self.failed
        &&& match r {
            Err(e) => {
                &&& self.clips@.len() == 0
                &&& e@ == "ERROR: no tracks rendered successfully; nothing to combine."@
                &&& after.checkpoint == self.checkpoint
            },
            Ok(p) => {
                &&& self.clips@.len() > 0
                &&& p.phase@ == "Combining "@ + decimal(self.clips@.len())
                    + " track(s) into one video..."@
                &&& p.done == combine_share(self.total as nat).0
                &&& p.of == combine_share(self.total as nat).1
                &&& after.checkpoint.stage@ == "combine"@
                &&& after.checkpoint.playlist == self.checkpoint.playlist
                &&& after.checkpoint.encoder == self.checkpoint.encoder
                &&& after.checkpoint.clips() == self.checkpoint.clips()
                &&& after.checkpoint.batches() == self.checkpoint.batches()
            },
        }
    }

    /// Goes over to combining: the progress, or the error for an export without
    /// a single clip.
    pub fn start_combining(&mut self) -> (r: Result<Progress, String>)
        requires
            old(self).well_formed(),
        ensures
            old(self).combining_started(*final(self), r),
    {
        if self.clips.len() == 0 {
            return Err(
                "ERROR: no tracks rendered successfully; nothing to combine.".to_owned(),
            );
        }
        self.checkpoint.set_stage("combine");
        let mut phase = "Combining ".to_owned();
        phase.append(text::dec(self.clips.len() as u64).as_str());
        phase.append(" track(s) into one video...");
        Ok(Progress { phase, done: self.total as u128, of: self.total as u128 + 1 })
    }

    /// Whether an export whose video is there ends so.
    pub open spec fn is_done(
        self,
        output: Seq<char>,
        cancelled: bool,
        line: Seq<char>,
        finished: Finished,
    ) -> bool {
        &&& line == "Finished playlist video: "@ + output
        &&& finished == (Finished {
            ok: self.contributing@.len() as usize,
            failed: self.failed,
            cancelled,
        })
    }

    /// How an export ends whose video is there: every clip's track is done.
    pub fn video_done(&self, output: &str, cancelled: bool) -> (r: (String, Finished))
        ensures
            self.is_done(output@, cancelled, r.0@, r.1),
    {
        let mut s = "Finished playlist video: ".to_owned();
        s.append(output);
        (s, Finished { ok: self.contributing.len(), failed: self.failed, cancelled })
    }

    /// Whether an export whose combine step failed ends so, with these lines for the log.
    pub open spec fn is_combine_failure(
        self,
        error: Seq<char>,
        cancelled: bool,
        log: Seq<Seq<char>>,
        finished: Finished,
    ) -> bool {
        if means_cancelled(cancelled, error) {
            &&& log == Seq::<Seq<char>>::empty()
            &&& finished == (Finished { ok: 0, failed: self.failed, cancelled: true })
        } else {
            &&& log == seq![
                "ERROR: Failed combining playlist video:\n"@ + error,
                "All "@ + decimal(self.contributing@.len())
                    + " track(s) rendered successfully; the failure is in the final combine step, not in the tracks. The rendered clips and any finished batches have been kept — press Convert again to resume where this left off."@,
            ]
            &&& finished == (Finished { ok: 0, failed: self.failed, cancelled: false })
        }
    }

    /// How an export ends whose combine step failed: cancelled (nothing to say),
    /// or failed, with what the log says. The tracks did not fail, their clips
    /// are there and are kept; so they are not counted as failures.
    pub fn combine_failed(&self, error: &str, cancelled: bool) -> (r: (Vec<String>, Finished))
        ensures
            self.is_combine_failure(error@, cancelled, views(r.0@), r.1),
    {
        let mut log: Vec<String> = Vec::new();
        if is_cancellation(cancelled, error) {
            assert(views(log@) =~= Seq::empty());
            return (log, Finished { ok: 0, failed: self.failed, cancelled: true });
        }
        let mut s = "ERROR: Failed combining playlist video:\n".to_owned();
        s.append(error);
        let mut a = "All ".to_owned();
        a.append(text::dec(self.contributing.len() as u64).as_str());
        a.append(
            " track(s) rendered successfully; the failure is in the final combine step, not in the tracks. The rendered clips and any finished batches have been kept — press Convert again to resume where this left off.",
        );
        text::put(&mut log, s.as_str());
        text::put(&mut log, a.as_str());
        assert(views(log@) =~= seq![s@, a@]);
        (log, Finished { ok: 0, failed: self.failed, cancelled: false })
    }
}

/// The status of the tracks of an export whose combine step failed: they are to
/// be picked up again, or, where the export was cancelled, stay as they are.
pub fn status_after_combine_failure(error: &str, cancelled: bool) -> (r: Option<TrackStatus>)
    ensures
        match r {
            None => means_cancelled(cancelled, error@),
            Some(s) => !means_cancelled(cancelled, error@) && s is Pending,
        },
{
    if is_cancellation(cancelled, error) {
        None
    } else {
        Some(TrackStatus::Pending)
    }
}

/// The file name (without extension) of a combined video: the one that is set,
/// else that of the playlist.
pub open spec fn video_name(settings: Settings, playlist: Seq<char>) -> Seq<char> {
    if trimmed(settings.playlist_video_name@).len() == 0 {
        safe_name(playlist)
    } else {
        safe_name(trimmed(settings.playlist_video_name@))
    }
}

/// The file name (without extension) of a combined video.
pub fn combined_stem(settings: &Settings, playlist: &str) -> (r: String)
    ensures
        r@ == video_name(*settings, playlist@),
{
    let own = text::trim(settings.playlist_video_name.as_str());
    if own.as_str().is_empty() {
        sanitize_filename(playlist)
    } else {
        sanitize_filename(own.as_str())
    }
}

/// Whether this is the combine job of an export to `output`.
pub open spec fn is_combine_job(
    settings: Settings,
    playlist: Seq<char>,
    clips: Vec<ClipInfo>,
    output: Seq<char>,
    encoder: ResolvedEncoder,
    r: PlaylistRenderer,
) -> bool {
    &&& r.clips == clips
    &&& r.output@ == output
    &&& r.playlist_title@ == (if trimmed(playlist).len() == 0 {
        video_name(settings, playlist)
    } else {
        playlist
    })
    &&& r.transition == settings.transition_us
    &&& r.chapters == settings.enable_chapters
    &&& r.audio_bitrate_k == number_or(Some(settings.default_quality@), 320)
    &&& r.encoder == encoder
    &&& r.chunk_size == clamped(
        settings.combine_chunk_size as int,
        MIN_COMBINE_CHUNK_SIZE as int,
        MAX_COMBINE_CHUNK_SIZE as int,
    )
    &&& r.batch_chunk_size == clamped(
        settings.batch_combine_chunk_size as int,
        MIN_COMBINE_CHUNK_SIZE as int,
        MAX_COMBINE_CHUNK_SIZE as int,
    )
}

/// The combine job of an export to `output`: with the title of the playlist, or
/// the video's name where the playlist has none.
pub fn combine_job(
    settings: &Settings,
    playlist: &str,
    clips: Vec<ClipInfo>,
    output: &str,
    encoder: ResolvedEncoder,
) -> (r: PlaylistRenderer)
    ensures
        is_combine_job(*settings, playlist@, clips, output@, encoder, r),
{
    let title = if text::trim(playlist).as_str().is_empty() {
        combined_stem(settings, playlist)
    } else {
        playlist.to_owned()
    };
    PlaylistRenderer {
        clips,
        output: output.to_owned(),
        playlist_title: title,
        transition: settings.transition_us,
        chapters: settings.enable_chapters,
        audio_bitrate_k: settings.bitrate_k(),
        encoder,
        chunk_size: settings.combine_chunk(),
        batch_chunk_size: settings.batch_combine_chunk(),
    }
}

} // verus!
