//! Running the combine ladder: what is decided before, between and after the
//! ffmpeg passes. The passes themselves, the probes and the files are the
//! caller's.
use vstd::prelude::*;
use vstd::string::*;

use crate::text;
use crate::text::{
    contains_any, decimal, joined, lines_of, lowered, seconds1, seconds3, trimmed,
    views,
};
use crate::video::checkpoint::{with_entry, Checkpoint};

use crate::video::concat::{
    build_combine_filter, build_ffmetadata, build_pass_args, cmdline_len, cmdline_length,
    filter_chains, hwdecode_signatures, is_hwdecode_failure, metadata_document, pass_args,
    text_of, ClipInfo, MAX_COMBINE_CHUNK, WINDOWS_CMDLINE_LIMIT,
};
use crate::video::encoder::ResolvedEncoder;
use crate::video::ladder::{
    first_level, ladder, pass_views, plan_passes, PassView, PlannedPass,
};
use crate::video::ladder_laws::law_exactly_one_final_pass_and_it_is_last;
use crate::video::probe::distance;
use crate::video::timeline::{
    effective_transition, fits, joined_length, safe_transition, timeline_fits, total_duration,
    MIN_TRANSITION,
};

verus! {

/// A batch that is already there is reused only if its measured length is within
/// this of the length the plan predicts for it (2 s). A batch left over from
/// other clips or another transition differs by far more.
pub const BATCH_REUSE_TOLERANCE: u64 = 2_000_000;

/// A batch that differs by more than this from its prediction (0.05 s) is
/// reported.
pub const LENGTH_NOTE_THRESHOLD: u64 = 50_000;

/// The name of the metadata document in the work directory.
pub open spec fn metadata_file() -> Seq<char> {
    "playlist_meta.txt"@
}

/// A combined export that is about to run.
pub struct PlaylistRenderer {
    pub clips: Vec<ClipInfo>,
    pub output: String,
    pub playlist_title: String,
    /// Requested transition length in microseconds (0 = hard cut).
    pub transition: u64,
    pub chapters: bool,
    pub audio_bitrate_k: u32,
    /// Encoder for every combine pass.
    pub encoder: ResolvedEncoder,
    /// Most clips per first-level pass.
    pub chunk_size: usize,
    /// Most batch files per upper-level pass.
    pub batch_chunk_size: usize,
}

// ---------------------------------------------------------------------------
// Lengths and intermediates
// ---------------------------------------------------------------------------

/// The length that a list gives each name: the last entry for it counts.
pub open spec fn lengths_by_name(list: Seq<(String, u64)>) -> Map<Seq<char>, u64>
    decreases list.len(),
{
    if list.len() == 0 {
        Map::empty()
    } else {
        lengths_by_name(list.drop_last()).insert(list.last().0@, list.last().1)
    }
}

/// The names in a list.
pub open spec fn names_in(list: Seq<String>) -> Set<Seq<char>> {
    views(list).to_set()
}

/// The lengths of a pass's inputs: what was measured under an input's name, else
/// what the plan says.
pub open spec fn input_lengths(pass: PassView, lengths: Map<Seq<char>, u64>) -> Seq<u64> {
    Seq::new(
        pass.durations.len(),
        |i: int|
            if lengths.contains_key(pass.inputs[i]) {
                lengths[pass.inputs[i]]
            } else {
                pass.durations[i]
            },
    )
}

/// Which of the first `n` inputs are intermediates, each named once, in order.
pub open spec fn freed(inputs: Seq<Seq<char>>, held: Set<Seq<char>>, n: nat) -> Seq<Seq<char>>
    decreases n,
{
    if n == 0 {
        Seq::empty()
    } else {
        let before = freed(inputs, held, (n - 1) as nat);
        if held.contains(inputs[n - 1]) && !before.contains(inputs[n - 1]) {
            before.push(inputs[n - 1])
        } else {
            before
        }
    }
}

fn length_of(list: &Vec<(String, u64)>, name: &str) -> (r: Option<u64>)
    ensures
        match r {
            Some(us) => lengths_by_name(list@).contains_key(name@) && lengths_by_name(
                list@,
            )[name@] == us,
            None => !lengths_by_name(list@).contains_key(name@),
        },
{
    let mut n: usize = list.len();
    assert(list@.take(n as int) =~= list@);
    while n > 0
        invariant
            n <= list@.len(),
            lengths_by_name(list@).contains_key(name@) == lengths_by_name(
                list@.take(n as int),
            ).contains_key(name@),
            lengths_by_name(list@)[name@] == lengths_by_name(list@.take(n as int))[name@],
        decreases n,
    {
        assert(list@.take(n as int).drop_last() =~= list@.take(n - 1));
        if text::same(list[n - 1].0.as_str(), name) {
            return Some(list[n - 1].1);
        }
        n = n - 1;
    }
    None
}

fn input_lengths_of(pass: &PlannedPass, lengths: &Vec<(String, u64)>) -> (r: Vec<u64>)
    requires
        pass@.inputs.len() == pass@.durations.len(),
    ensures
        r@ == input_lengths(pass@, lengths_by_name(lengths@)),
{
    let mut out: Vec<u64> = Vec::new();
    for i in 0..pass.durations.len()
        invariant
            pass@.inputs.len() == pass@.durations.len(),
            out@ =~= input_lengths(pass@, lengths_by_name(lengths@)).take(i as int),
    {
        assert(pass@.inputs[i as int] == pass.inputs@[i as int]@);
        match length_of(lengths, pass.inputs[i].as_str()) {
            Some(us) => out.push(us),
            None => out.push(pass.durations[i]),
        }
    }
    assert(out@ =~= input_lengths(pass@, lengths_by_name(lengths@)));
    out
}

/// Takes `name` out of the list; tells whether it was there.
fn take_name(list: &mut Vec<String>, name: &str) -> (r: bool)
    requires
        views(old(list)@).no_duplicates(),
    ensures
        r == names_in(old(list)@).contains(name@),
        names_in(final(list)@) == names_in(old(list)@).remove(name@),
        views(final(list)@).no_duplicates(),
{
    let ghost before = views(list@);
    let mut i: usize = 0;
    while i < list.len() && !text::same(list[i].as_str(), name)
        invariant
            *list == *old(list),
            before == views(list@),
            i <= list@.len(),
            forall|j: int| 0 <= j < i ==> before[j] != name@,
        decreases list@.len() - i,
    {
        i = i + 1;
    }
    if i == list.len() {
        proof {
            assert(!before.contains(name@));
            assert(names_in(list@) =~= names_in(old(list)@).remove(name@));
        }
        return false;
    }
    let _gone = list.remove(i);
    proof {
        let after = views(list@);
        assert(before[i as int] == name@);
        assert(after =~= before.remove(i as int));
        assert forall|x: Seq<char>| #[trigger] after.contains(x) <==> before.contains(x) && x
            != name@ by {
            if after.contains(x) {
                let k = choose|k: int| 0 <= k < after.len() && after[k] == x;
                if k < i {
                    assert(before[k] == x);
                } else {
                    assert(before[k + 1] == x);
                }
            }
            if before.contains(x) && x != name@ {
                let k = choose|k: int| 0 <= k < before.len() && before[k] == x;
                if k < i {
                    assert(after[k] == x);
                } else {
                    assert(after[k - 1] == x);
                }
            }
        }
        assert(names_in(list@) =~= names_in(old(list)@).remove(name@));
    }
    true
}

/// Puts `name` into the list, unless it is there.
fn keep_name(list: &mut Vec<String>, name: &str)
    requires
        views(old(list)@).no_duplicates(),
    ensures
        names_in(final(list)@) == names_in(old(list)@).insert(name@),
        views(final(list)@).no_duplicates(),
{
    let ghost before = views(list@);
    if !text::holds(list.as_slice(), name) {
        text::put(list, name);
        proof {
            crate::video::checkpoint::law_recording_lists_an_entry_once(before, name@);
        }
    }
    assert(names_in(list@) =~= names_in(old(list)@).insert(name@));
}

// ---------------------------------------------------------------------------
// The run
// ---------------------------------------------------------------------------

/// What a run of the ladder has come to, as values.
#[verifier::ext_equal]
pub struct RunView {
    /// The pass that is next.
    pub next: nat,
    /// Measured length of every file that was measured, by name.
    pub lengths: Map<Seq<char>, u64>,
    /// The batch files that the next level has yet to consume.
    pub intermediates: Set<Seq<char>>,
    /// Whether a pass was skipped because its output was already there.
    pub reused_any: bool,
    /// Whether it was said where the run picks up.
    pub announced: bool,
    /// The batches that the progress record lists as finished.
    pub recorded: Seq<Seq<char>>,
}

/// A run of the ladder.
pub struct CombineRun {
    pub passes: Vec<PlannedPass>,
    pub transition: u64,
    pub audio_bitrate_k: u32,
    pub encoder: ResolvedEncoder,
    pub checkpoint: Checkpoint,
    pub next: usize,
    pub lengths: Vec<(String, u64)>,
    pub intermediates: Vec<String>,
    pub reused_any: bool,
    pub announced: bool,
}

impl View for CombineRun {
    type V = RunView;

    open spec fn view(&self) -> RunView {
        RunView {
            next: self.next as nat,
            lengths: lengths_by_name(self.lengths@),
            intermediates: names_in(self.intermediates@),
            reused_any: self.reused_any,
            announced: self.announced,
            recorded: self.checkpoint.batches(),
        }
    }
}

/// Whether the passes are a ladder's: each input has a length, and only the last
/// pass is final.
pub open spec fn is_plan(passes: Seq<PassView>) -> bool {
    &&& passes.len() >= 1
    &&& forall|i: int|
        0 <= i < passes.len() ==> (#[trigger] passes[i]).inputs.len() == passes[i].durations.len()
    &&& forall|i: int| 0 <= i < passes.len() ==> (#[trigger] passes[i]).is_final == (i
        == passes.len() - 1)
}

/// Whether every intermediate is the output of a batch pass that is done.
pub open spec fn only_batches(passes: Seq<PassView>, state: RunView) -> bool {
    forall|name: Seq<char>| #[trigger]
        state.intermediates.contains(name) ==> exists|i: int|
            0 <= i < state.next && i < passes.len() && !(#[trigger] passes[i]).is_final
                && passes[i].output == name
}

impl CombineRun {
    /// The passes of the run.
    pub open spec fn plan(self) -> Seq<PassView> {
        pass_views(self.passes@)
    }

    /// The passes are a ladder's, the intermediates are batches of passes that
    /// are done, and no name is kept twice.
    pub open spec fn well_formed(self) -> bool {
        &&& is_plan(self.plan())
        &&& self.next <= self.passes@.len() <= usize::MAX
        &&& views(self.intermediates@).no_duplicates()
        &&& only_batches(self.plan(), self@)
    }

    /// The pass that is next.
    pub open spec fn current(self) -> PassView {
        self.plan()[self@.next as int]
    }

    /// Whether passes are left.
    pub open spec fn unfinished(self) -> bool {
        self@.next < self.plan().len()
    }

    /// The lengths that the next pass works with.
    pub open spec fn current_lengths(self) -> Seq<u64> {
        input_lengths(self.current(), self@.lengths)
    }

    /// What stays the same all through a run.
    pub open spec fn same_job(self, other: CombineRun) -> bool {
        &&& self.passes == other.passes
        &&& self.transition == other.transition
        &&& self.audio_bitrate_k == other.audio_bitrate_k
        &&& self.encoder == other.encoder
        &&& self.checkpoint.playlist == other.checkpoint.playlist
        &&& self.checkpoint.encoder == other.checkpoint.encoder
        &&& self.checkpoint.completed_clips == other.checkpoint.completed_clips
    }
}

/// What well-formedness of a run means to its users: the passes are a ladder's,
/// and nothing but the output of a finished batch pass is ever held as an
/// intermediate, so no clip is.
pub proof fn law_intermediates_are_finished_batches(run: CombineRun)
    requires
        run.well_formed(),
    ensures
        is_plan(run.plan()),
        run@.next <= run.plan().len(),
        only_batches(run.plan(), run@),
{
}

// ---------------------------------------------------------------------------
// Before the first pass
// ---------------------------------------------------------------------------

/// A batch size within what one pass can take.
pub open spec fn clamped_chunk(n: usize) -> usize {
    if n < 2 {
        2
    } else if n > MAX_COMBINE_CHUNK {
        MAX_COMBINE_CHUNK
    } else {
        n
    }
}

fn clamp_chunk(n: usize) -> (r: usize)
    ensures
        r == clamped_chunk(n),
{
    if n < 2 {
        2
    } else if n > MAX_COMBINE_CHUNK {
        MAX_COMBINE_CHUNK
    } else {
        n
    }
}

/// The passes of an export whose clips have the given names and lengths.
pub open spec fn export_plan(
    renderer: PlaylistRenderer,
    inputs: Seq<Seq<char>>,
    lengths: Seq<u64>,
) -> Seq<PassView> {
    ladder(
        first_level(inputs, lengths),
        effective_transition(lengths, renderer.transition),
        renderer.output@,
        clamped_chunk(renderer.chunk_size) as int,
        clamped_chunk(renderer.batch_chunk_size) as int,
        0,
    )
}

/// The log lines that open an export of `passes` passes.
pub open spec fn opening_lines(
    renderer: PlaylistRenderer,
    transition: u64,
    passes: nat,
) -> Seq<Seq<char>> {
    let shortened = if transition == 0 && renderer.transition >= MIN_TRANSITION {
        seq![
            "Transition shortened to a hard cut (a selected track is shorter than the requested transition)"@,
        ]
    } else {
        Seq::empty()
    };
    let combining = "Combining "@ + decimal(renderer.clips@.len()) + " clip(s) into '"@
        + renderer.output@ + "' (transition "@ + seconds1(transition as nat) + "s, chapters "@ + (
    if renderer.chapters {
        "on)"@
    } else {
        "off)"@
    });
    let encoding = "Encoding with: "@ + renderer.encoder.kind.spec_full_label() + (
    if renderer.encoder.hardware_decode {
        " + hardware decode"@
    } else {
        ""@
    });
    let lines = shortened.push(combining).push(encoding);
    if passes > 1 {
        lines.push(
            decimal(renderer.clips@.len()) + " clips combined in a two-tier ladder (up to "@
                + decimal(clamped_chunk(renderer.chunk_size) as nat)
                + " clips per first-level batch, then up to "@ + decimal(
                clamped_chunk(renderer.batch_chunk_size) as nat,
            ) + " batches per combine) — "@ + decimal(passes) + " passes ("@ + decimal(
                (passes - 1) as nat,
            )
                + " batches + final). The small batch cap keeps only a few large intermediates open at once, bounding memory."@,
        )
    } else {
        lines
    }
}

/// What an export starts with.
pub struct CombineStart {
    pub run: CombineRun,
    /// The metadata document.
    pub metadata: String,
    /// Lines for the log.
    pub log: Vec<String>,
}

/// Why an export cannot start.
#[derive(Debug, Clone, Copy, PartialEq, Eq, Structural)]
pub enum CombineError {
    /// There are no clips.
    NoClips,
    /// The timeline is longer than a machine integer counts in microseconds.
    TooLong,
}

impl CombineError {
    pub open spec fn text(self) -> Seq<char> {
        match self {
            CombineError::NoClips => "no clips to combine"@,
            CombineError::TooLong => "the combined video would be too long"@,
        }
    }

    /// The error as a message.
    pub fn message(self) -> (r: String)
        ensures
            r@ == self.text(),
    {
        match self {
            CombineError::NoClips => "no clips to combine".to_owned(),
            CombineError::TooLong => "the combined video would be too long".to_owned(),
        }
    }
}

proof fn lemma_ladder_is_plan(
    level: Seq<crate::video::ladder::Item>,
    transition: u64,
    output: Seq<char>,
    leaf_max: int,
    batch_max: int,
    round: nat,
)
    requires
        leaf_max >= 2,
        batch_max >= 2,
    ensures
        is_plan(ladder(level, transition, output, leaf_max, batch_max, round)),
{
    law_exactly_one_final_pass_and_it_is_last(
        level,
        transition,
        output,
        leaf_max,
        batch_max,
        round,
    );
    crate::video::ladder_laws::law_every_input_has_a_length(
        level,
        transition,
        output,
        leaf_max,
        batch_max,
        round,
    );
}

impl PlaylistRenderer {
    /// Whether `r` is what the export of these clips starts with.
    pub open spec fn is_start(
        self,
        inputs: Seq<Seq<char>>,
        durations: Seq<u64>,
        checkpoint: Checkpoint,
        r: Result<CombineStart, CombineError>,
    ) -> bool {
        match r {
            Err(CombineError::NoClips) => self.clips@.len() == 0,
            Err(CombineError::TooLong) => self.clips@.len() > 0 && !fits(
                durations,
                effective_transition(durations, self.transition),
            ),
            Ok(start) => {
                let transition = effective_transition(durations, self.transition);
                &&& self.clips@.len() > 0
                &&& fits(durations, transition)
                &&& start.run.well_formed()
                &&& start.run.plan() == export_plan(self, inputs, durations)
                &&& start.run.transition == transition
                &&& start.run.audio_bitrate_k == self.audio_bitrate_k
                &&& start.run.encoder == self.encoder
                &&& start.run.checkpoint == checkpoint
                &&& start.run@.next == 0
                &&& start.run@.lengths == clip_lengths(inputs, durations)
                &&& start.run@.intermediates == Set::<Seq<char>>::empty()
                &&& !start.run@.reused_any
                &&& !start.run@.announced
                &&& start.metadata@ == metadata_document(
                    self.playlist_title@,
                    self.clips@,
                    durations,
                    transition,
                    self.chapters,
                )
                &&& views(start.log@) == opening_lines(
                    self,
                    transition,
                    start.run.plan().len(),
                )
            },
        }
    }

    /// Starts an export: `inputs` are the clips as they appear on the command
    /// line, `durations` their measured lengths, `checkpoint` what is recorded of
    /// an earlier attempt.
    pub fn combine(&self, inputs: &[String], durations: &[u64], checkpoint: Checkpoint) -> (r:
        Result<CombineStart, CombineError>)
        requires
            inputs@.len() == self.clips@.len(),
            durations@.len() == self.clips@.len(),
        ensures
            self.is_start(views(inputs@), durations@, checkpoint, r),
    {
        if self.clips.len() == 0 {
            return Err(CombineError::NoClips);
        }
        let transition = safe_transition(durations, self.transition);
        if !timeline_fits(durations, transition) {
            return Err(CombineError::TooLong);
        }
        let metadata = build_ffmetadata(
            self.playlist_title.as_str(),
            self.clips.as_slice(),
            durations,
            transition,
            self.chapters,
        );
        let chunk = clamp_chunk(self.chunk_size);
        let batch_chunk = clamp_chunk(self.batch_chunk_size);
        let passes = plan_passes(
            inputs,
            durations,
            transition,
            self.output.as_str(),
            chunk,
            batch_chunk,
        );
        proof {
            lemma_ladder_is_plan(
                first_level(views(inputs@), durations@),
                transition,
                self.output@,
                chunk as int,
                batch_chunk as int,
                0,
            );
        }
        let log = self.opening(transition, passes.len());
        let mut lengths: Vec<(String, u64)> = Vec::new();
        assert(lengths_by_name(lengths@) == clip_lengths(
            views(inputs@).take(0),
            durations@.take(0),
        ));
        for i in 0..inputs.len()
            invariant
                inputs@.len() == durations@.len(),
                lengths@.len() == i,
                lengths_by_name(lengths@) == clip_lengths(
                    views(inputs@).take(i as int),
                    durations@.take(i as int),
                ),
        {
            let ghost before = lengths@;
            lengths.push((inputs[i].clone(), durations[i]));
            proof {
                assert(lengths@.drop_last() =~= before);
                assert(views(inputs@).take(i + 1).drop_last() =~= views(inputs@).take(i as int));
                assert(durations@.take(i + 1).drop_last() =~= durations@.take(i as int));
            }
        }
        assert(views(inputs@).take(inputs@.len() as int) =~= views(inputs@));
        assert(durations@.take(inputs@.len() as int) =~= durations@);
        let none: Vec<String> = Vec::new();
        assert(names_in(none@) =~= Set::empty());
        let run = CombineRun {
            passes,
            transition,
            audio_bitrate_k: self.audio_bitrate_k,
            encoder: self.encoder,
            checkpoint,
            next: 0,
            lengths,
            intermediates: none,
            reused_any: false,
            announced: false,
        };
        Ok(CombineStart { run, metadata, log })
    }

    fn opening(&self, transition: u64, passes: usize) -> (r: Vec<String>)
        requires
            passes >= 1,
        ensures
            views(r@) == opening_lines(*self, transition, passes as nat),
    {
        let mut log: Vec<String> = Vec::new();
        assert(views(log@) =~= Seq::empty());
        if transition == 0 && self.transition >= MIN_TRANSITION {
            text::put(
                &mut log,
                "Transition shortened to a hard cut (a selected track is shorter than the requested transition)",
            );
        }
        let mut s = "Combining ".to_owned();
        s.append(text::dec(self.clips.len() as u64).as_str());
        s.append(" clip(s) into '");
        s.append(self.output.as_str());
        s.append("' (transition ");
        s.append(text::seconds_1(transition).as_str());
        s.append("s, chapters ");
        s.append(if self.chapters { "on)" } else { "off)" });
        text::put(&mut log, s.as_str());
        let mut e = "Encoding with: ".to_owned();
        e.append(self.encoder.kind.full_label().as_str());
        e.append(if self.encoder.hardware_decode { " + hardware decode" } else { "" });
        text::put(&mut log, e.as_str());
        if passes > 1 {
            let mut l = text::dec(self.clips.len() as u64);
            l.append(" clips combined in a two-tier ladder (up to ");
            l.append(text::dec(clamp_chunk(self.chunk_size) as u64).as_str());
            l.append(" clips per first-level batch, then up to ");
            l.append(text::dec(clamp_chunk(self.batch_chunk_size) as u64).as_str());
            l.append(" batches per combine) — ");
            l.append(text::dec(passes as u64).as_str());
            l.append(" passes (");
            l.append(text::dec((passes - 1) as u64).as_str());
            l.append(
                " batches + final). The small batch cap keeps only a few large intermediates open at once, bounding memory.",
            );
            text::put(&mut log, l.as_str());
        }
        assert(views(log@) =~= opening_lines(*self, transition, passes as nat));
        log
    }
}

/// The measured length of each clip, by name; the last of equal names counts.
pub open spec fn clip_lengths(names: Seq<Seq<char>>, lengths: Seq<u64>) -> Map<Seq<char>, u64>
    decreases names.len(),
{
    if names.len() == 0 {
        Map::empty()
    } else {
        clip_lengths(names.drop_last(), lengths.drop_last()).insert(names.last(), lengths.last())
    }
}

// ---------------------------------------------------------------------------
// Reusing a batch that an interrupted run left
// ---------------------------------------------------------------------------

/// What becomes of a batch file that is already there.
pub enum Reuse {
    /// It is taken as it is; its filter script is dead.
    Reused(String),
    /// It is deleted and made again.
    Rebuild(String),
    /// The timeline does not fit; see `CombineError::TooLong`.
    TooLong,
}

pub open spec fn reused_line(output: Seq<char>, actual: u64, recorded: bool) -> Seq<char> {
    "✓ Reusing "@ + output + " — already combined ("@ + seconds1(actual as nat) + "s)"@ + (
    if recorded {
        " [checkpoint]"@
    } else {
        ""@
    })
}

pub open spec fn stale_line(output: Seq<char>, actual: u64, predicted: int) -> Seq<char> {
    "✗ Rebuilding "@ + output + ": measured "@ + seconds1(actual as nat)
        + "s but this plan expects "@ + seconds1(predicted as nat)
        + "s — stale from a different run, regenerating."@
}

pub open spec fn corrupt_line(output: Seq<char>, error: Seq<char>) -> Seq<char> {
    "✗ Rebuilding corrupt "@ + output + " — ffprobe could not read it ("@ + error
        + "), regenerating."@
}

/// Whether a batch of this measured length is the one that the plan predicts.
pub open spec fn is_reusable(actual: u64, predicted: int) -> bool {
    -BATCH_REUSE_TOLERANCE <= actual - predicted <= BATCH_REUSE_TOLERANCE
}

/// The state after the next pass was skipped because its output, of the given
/// length, is already there.
pub open spec fn after_reuse(state: RunView, output: Seq<char>, actual: u64) -> RunView {
    RunView {
        next: state.next + 1,
        lengths: state.lengths.insert(output, actual),
        intermediates: state.intermediates.insert(output),
        reused_any: true,
        announced: state.announced,
        recorded: with_entry(state.recorded, output),
    }
}

impl CombineRun {
    /// The lengths that the next pass works with, where its timeline fits.
    fn lengths_now(&self) -> (r: Option<Vec<u64>>)
        requires
            self.well_formed(),
            self.unfinished(),
        ensures
            match r {
                Some(d) => d@ == self.current_lengths() && fits(d@, self.transition),
                None => !fits(self.current_lengths(), self.transition),
            },
    {
        assert(self.plan()[self.next as int] == self.passes@[self.next as int]@);
        let d = input_lengths_of(&self.passes[self.next], &self.lengths);
        if timeline_fits(d.as_slice(), self.transition) {
            Some(d)
        } else {
            None
        }
    }

    /// Whether a batch file that is already there counts as the next pass's output:
    /// it can be read, and is as long as the plan predicts.
    pub open spec fn takes(self, probe: Result<u64, String>) -> bool {
        &&& fits(self.current_lengths(), self.transition)
        &&& probe matches Ok(actual) && is_reusable(
            actual,
            joined_length(self.current_lengths(), self.transition),
        )
    }

    /// Whether `after` is this run once a batch file that is already there was considered,
    /// and `r` what becomes of the file.
    pub open spec fn reuse_considered(
        self,
        probe: Result<u64, String>,
        after: CombineRun,
        r: Reuse,
    ) -> bool {
        &&& after.well_formed()
        &&& after.same_job(self)
        &&& after.checkpoint.stage == self.checkpoint.stage
        &&& r is Reused <==> self.takes(probe)
        &&& ({
            let now = self;
            let output = now.current().output;
            let predicted = joined_length(now.current_lengths(), now.transition);
            if !fits(now.current_lengths(), now.transition) {
                r is TooLong && after@ == now@
            } else {
                match probe {
                    Ok(actual) => if is_reusable(actual, predicted) {
                        &&& r is Reused
                        &&& r->Reused_0@ == reused_line(
                            output,
                            actual,
                            now@.recorded.contains(output),
                        )
                        &&& after@ == after_reuse(now@, output, actual)
                    } else {
                        &&& r is Rebuild
                        &&& r->Rebuild_0@ == stale_line(output, actual, predicted)
                        &&& after@ == now@
                    },
                    Err(e) => {
                        &&& r is Rebuild
                        &&& r->Rebuild_0@ == corrupt_line(output, e@)
                        &&& after@ == now@
                    },
                }
            }
        })
    }

    /// Decides over a batch file that is already there when its pass comes up:
    /// `probe` is what ffprobe says of it. Validity is decided by the probe, not
    /// by mere existence, and the length is held against the plan, so neither a
    /// truncated batch nor one of other clips is ever taken.
    pub fn consider_reuse(&mut self, probe: &Result<u64, String>) -> (r: Reuse)
        requires
            old(self).well_formed(),
            old(self).unfinished(),
            !old(self).current().is_final,
        ensures
            old(self).reuse_considered(*probe, *final(self), r),
    {
        let lengths = match self.lengths_now() {
            Some(d) => d,
            None => {
                return Reuse::TooLong;
            },
        };
        assert(self.plan()[self.next as int] == self.passes@[self.next as int]@);
        let predicted: u64 = total_duration(lengths.as_slice(), self.transition);
        let output = self.passes[self.next].output.clone();
        match probe {
            Ok(actual) => {
                let actual: u64 = *actual;
                if distance(actual, predicted) <= BATCH_REUSE_TOLERANCE {
                    let mut s = "✓ Reusing ".to_owned();
                    s.append(output.as_str());
                    s.append(" — already combined (");
                    s.append(text::seconds_1(actual).as_str());
                    s.append("s)");
                    s.append(
                        if self.checkpoint.has_batch(output.as_str()) {
                            " [checkpoint]"
                        } else {
                            ""
                        },
                    );
                    self.complete(output, actual);
                    self.reused_any = true;
                    assert(self@ =~= after_reuse(old(self)@, old(self).current().output, actual));
                    Reuse::Reused(s)
                } else {
                    let mut s = "✗ Rebuilding ".to_owned();
                    s.append(output.as_str());
                    s.append(": measured ");
                    s.append(text::seconds_1(actual).as_str());
                    s.append("s but this plan expects ");
                    s.append(text::seconds_1(predicted).as_str());
                    s.append("s — stale from a different run, regenerating.");
                    Reuse::Rebuild(s)
                }
            },
            Err(e) => {
                let mut s = "✗ Rebuilding corrupt ".to_owned();
                s.append(output.as_str());
                s.append(" — ffprobe could not read it (");
                s.append(e.as_str());
                s.append("), regenerating.");
                Reuse::Rebuild(s)
            },
        }
    }

    /// Takes note that the batch of the next pass is there, with this length.
    fn complete(&mut self, output: String, actual: u64)
        requires
            old(self).well_formed(),
            old(self).unfinished(),
            !old(self).current().is_final,
            output@ == old(self).current().output,
        ensures
            final(self).well_formed(),
            final(self).same_job(*old(self)),
            final(self).checkpoint.stage == old(self).checkpoint.stage,
            final(self)@ == (RunView {
                next: old(self)@.next + 1,
                lengths: old(self)@.lengths.insert(output@, actual),
                intermediates: old(self)@.intermediates.insert(output@),
                reused_any: old(self)@.reused_any,
                announced: old(self)@.announced,
                recorded: with_entry(old(self)@.recorded, output@),
            }),
    {
        self.checkpoint.record_batch(output.as_str());
        keep_name(&mut self.intermediates, output.as_str());
        let ghost before = self.lengths@;
        self.lengths.push((output, actual));
        assert(self.lengths@.drop_last() =~= before);
        let ghost at = self.next as int;
        self.next = self.next + 1;
        proof {
            let plan = old(self).plan();
            assert(self.plan() == plan);
            assert forall|name: Seq<char>| #[trigger]
                self@.intermediates.contains(name) implies exists|i: int|
                0 <= i < self@.next && i < plan.len() && !(#[trigger] plan[i]).is_final
                    && plan[i].output == name by {
                if name == plan[at].output {
                    assert(!plan[at].is_final);
                } else {
                    assert(old(self)@.intermediates.contains(name));
                    let i = choose|i: int|
                        0 <= i < old(self)@.next && i < plan.len() && !(
                        #[trigger] plan[i]).is_final && plan[i].output == name;
                    assert(!plan[i].is_final && plan[i].output == name);
                }
            }
        }
    }
}

// ---------------------------------------------------------------------------
// Starting a pass
// ---------------------------------------------------------------------------

/// What a pass starts with.
pub struct PassStart {
    /// Lines for the log.
    pub log: Vec<String>,
    /// The filtergraph to write into the pass's script file, where it needs one.
    pub filter: Option<String>,
    /// The ffmpeg arguments, or the error where the command line would be over
    /// the limit.
    pub args: Result<Vec<String>, String>,
}

/// The metadata document that a pass takes in: only the final one does.
pub open spec fn pass_metadata(pass: PassView) -> Option<Seq<char>> {
    if pass.is_final {
        Some(metadata_file())
    } else {
        None
    }
}

/// The lines that announce a pass.
pub open spec fn start_lines(
    state: RunView,
    total: nat,
    pass: PassView,
    length: usize,
) -> Seq<Seq<char>> {
    let resumed = if state.reused_any && !state.announced {
        seq!["→ Continuing combine at "@ + pass.output]
    } else {
        Seq::empty()
    };
    resumed.push(
        "Combine pass "@ + decimal(state.next + 1) + "/"@ + decimal(total) + ": "@ + decimal(
            pass.inputs.len(),
        ) + " input(s) -> "@ + pass.output + " ("@ + decimal(length as nat)
            + " char command line)"@,
    )
}

/// The error for a command line that is over the limit.
pub open spec fn over_limit(pass: nat, length: usize) -> Seq<char> {
    "internal error: combine pass "@ + decimal(pass) + " would build a "@ + decimal(length as nat)
        + "-character command line, over the 32767-character Windows limit"@
}

/// A command line's length as a machine integer.
pub open spec fn machine_length(program: Seq<char>, args: Seq<Seq<char>>) -> usize {
    if cmdline_length(program, args) > usize::MAX {
        usize::MAX
    } else {
        cmdline_length(program, args) as usize
    }
}

/// What a pass does, for error messages.
pub open spec fn stage_text(pass: PassView, number: nat, total: nat) -> Seq<char> {
    if pass.is_final {
        "combining playlist video"@
    } else {
        "combining batch "@ + decimal(number) + "/"@ + decimal((total - 1) as nat)
    }
}

impl CombineRun {
    /// Whether this is what the next pass starts with.
    pub open spec fn is_pass_start(self, ffmpeg: Seq<char>, start: PassStart) -> bool {
        let pass = self.current();
        let args = pass_args(
            pass,
            pass_metadata(pass),
            self.audio_bitrate_k,
            self.encoder,
        );
        let length = machine_length(ffmpeg, args);
        &&& start.filter is Some <==> pass.inputs.len() > 1
        &&& start.filter is Some ==> start.filter->0@ == joined(
            filter_chains(self.current_lengths(), self.transition),
            ";"@,
        )
        &&& views(start.log@) == start_lines(
            self@,
            self.plan().len(),
            pass,
            length,
        )
        &&& match start.args {
            Ok(list) => length < WINDOWS_CMDLINE_LIMIT && views(list@) == args,
            Err(e) => length >= WINDOWS_CMDLINE_LIMIT && e@ == over_limit(
                self@.next + 1,
                length,
            ),
        }
    }

    /// Starts the next pass: says so in the log (and, once, where a resumed run
    /// picks up), and gives the filtergraph and the command line for it.
    pub fn start_pass(&mut self, ffmpeg: &str) -> (r: Result<PassStart, CombineError>)
        requires
            old(self).well_formed(),
            old(self).unfinished(),
        ensures
            final(self).well_formed(),
            final(self).same_job(*old(self)),
            final(self).checkpoint == old(self).checkpoint,
            r is Err <==> !fits(old(self).current_lengths(), old(self).transition),
            r is Err ==> r->Err_0 == CombineError::TooLong && final(self)@ == old(self)@,
            r is Ok ==> final(self)@ == (RunView {
                announced: old(self)@.announced || old(self)@.reused_any,
                ..old(self)@
            }),
            r is Ok ==> old(self).is_pass_start(ffmpeg@, r->Ok_0),
    {
        let lengths = match self.lengths_now() {
            Some(d) => d,
            None => {
                return Err(CombineError::TooLong);
            },
        };
        let n: usize = self.next;
        assert(self.plan()[n as int] == self.passes@[n as int]@);
        let ghost pass = self.current();
        let mut log: Vec<String> = Vec::new();
        assert(views(log@) =~= Seq::empty());
        if self.reused_any && !self.announced {
            let mut s = "→ Continuing combine at ".to_owned();
            s.append(self.passes[n].output.as_str());
            text::put(&mut log, s.as_str());
            self.announced = true;
        }
        let filter = if self.passes[n].inputs.len() > 1 {
            Some(build_combine_filter(lengths.as_slice(), self.transition))
        } else {
            None
        };
        let args = self.args_for(n, &self.encoder);
        let length = cmdline_len(ffmpeg, args.as_slice());
        assert(length == machine_length(
            ffmpeg@,
            pass_args(pass, pass_metadata(pass), self.audio_bitrate_k, self.encoder),
        ));
        let mut s = "Combine pass ".to_owned();
        s.append(text::dec(n as u64 + 1).as_str());
        s.append("/");
        s.append(text::dec(self.passes.len() as u64).as_str());
        s.append(": ");
        s.append(text::dec(self.passes[n].inputs.len() as u64).as_str());
        s.append(" input(s) -> ");
        s.append(self.passes[n].output.as_str());
        s.append(" (");
        s.append(text::dec(length as u64).as_str());
        s.append(" char command line)");
        text::put(&mut log, s.as_str());
        assert(views(log@) =~= start_lines(old(self)@, old(self).plan().len(), pass, length));
        let args = if length < WINDOWS_CMDLINE_LIMIT {
            Ok(args)
        } else {
            let mut e = "internal error: combine pass ".to_owned();
            e.append(text::dec(n as u64 + 1).as_str());
            e.append(" would build a ");
            e.append(text::dec(length as u64).as_str());
            e.append("-character command line, over the 32767-character Windows limit");
            Err(e)
        };
        Ok(PassStart { log, filter, args })
    }

    fn args_for(&self, n: usize, encoder: &ResolvedEncoder) -> (r: Vec<String>)
        requires
            n < self.passes@.len(),
        ensures
            views(r@) == pass_args(
                self.plan()[n as int],
                pass_metadata(self.plan()[n as int]),
                self.audio_bitrate_k,
                *encoder,
            ),
    {
        assert(self.plan()[n as int] == self.passes@[n as int]@);
        let meta: Option<&str> = if self.passes[n].is_final {
            Some("playlist_meta.txt")
        } else {
            None
        };
        assert(text_of(meta) == pass_metadata(self.plan()[n as int]));
        build_pass_args(&self.passes[n], meta, self.audio_bitrate_k, encoder)
    }

    fn stage(&self) -> (r: String)
        requires
            self.well_formed(),
            self.unfinished(),
        ensures
            r@ == stage_text(self.current(), self@.next + 1, self.plan().len()),
    {
        assert(self.plan()[self.next as int] == self.passes@[self.next as int]@);
        if self.passes[self.next].is_final {
            "combining playlist video".to_owned()
        } else {
            let mut s = "combining batch ".to_owned();
            s.append(text::dec(self.next as u64 + 1).as_str());
            s.append("/");
            s.append(text::dec((self.passes.len() - 1) as u64).as_str());
            s
        }
    }
}

// ---------------------------------------------------------------------------
// When a pass fails
// ---------------------------------------------------------------------------

/// What follows a failed pass.
pub enum FailureStep {
    /// The export fails with this error.
    Fail(String),
    /// The pass is tried once more with software decoding: what the log says,
    /// and the arguments.
    RetrySoftware(String, Vec<String>),
}

/// The first line of a text, trimmed, or a fixed word for a text without lines.
pub open spec fn headline(error: Seq<char>) -> Seq<char> {
    let lines = lines_of(error);
    if lines.len() == 0 {
        "error"@
    } else {
        trimmed(lines[0])
    }
}

/// Whether software decoding could make a failed pass succeed: hardware decoding
/// was in use, the error looks like it, and nobody cancelled.
pub open spec fn worth_software_retry(
    encoder: ResolvedEncoder,
    inputs: nat,
    cancelled: bool,
    lowered_error: Seq<char>,
) -> bool {
    encoder.hardware_decode && inputs > 1 && !cancelled && contains_any(
        lowered_error,
        hwdecode_signatures(),
    )
}

pub open spec fn retry_line(number: nat, total: nat, error: Seq<char>) -> Seq<char> {
    "Combine pass "@ + decimal(number) + "/"@ + decimal(total)
        + " failed with what looks like a hardware-decode error ("@ + headline(error)
        + "); retrying this pass with software decode."@
}

/// The error that keeps both failures of a pass.
pub open spec fn both_failures(
    stage: Seq<char>,
    hardware: Seq<char>,
    software: Seq<char>,
) -> Seq<char> {
    stage
        + ": failed with hardware decode, and the automatic software-decode fallback also failed.\n\n── Original failure (hardware decode) ──\n"@
        + hardware + "\n\n── Fallback attempt (software decode) also failed ──\n"@ + software
}

impl CombineRun {
    /// Whether this is what follows a failure of the next pass with this error.
    pub open spec fn is_failure_step(
        self,
        error: Seq<char>,
        cancelled: bool,
        r: FailureStep,
    ) -> bool {
        let pass = self.current();
        let number = self@.next + 1;
        let total = self.plan().len();
        let retry = worth_software_retry(
            self.encoder,
            pass.inputs.len(),
            cancelled,
            lowered(error),
        );
        match r {
            FailureStep::Fail(e) => !retry && e@ == stage_text(pass, number, total) + ": "@
                + error,
            FailureStep::RetrySoftware(line, args) => {
                &&& retry
                &&& line@ == retry_line(number, total, error)
                &&& views(args@) == pass_args(
                    pass,
                    pass_metadata(pass),
                    self.audio_bitrate_k,
                    ResolvedEncoder { kind: self.encoder.kind, hardware_decode: false },
                )
            },
        }
    }

    /// Decides what follows a failed pass. Hardware decoding is only an
    /// optimisation, so a failure that looks like it is tried again without;
    /// anything else would fail the same way again.
    pub fn after_failure(&self, error: &str, cancelled: bool) -> (r: FailureStep)
        requires
            self.well_formed(),
            self.unfinished(),
        ensures
            self.is_failure_step(error@, cancelled, r),
    {
        assert(self.plan()[self.next as int] == self.passes@[self.next as int]@);
        let hwdecode = is_hwdecode_failure(error);
        let worthwhile = self.encoder.hardware_decode && self.passes[self.next].inputs.len() > 1
            && !cancelled && hwdecode;
        if !worthwhile {
            let mut s = self.stage();
            s.append(": ");
            s.append(error);
            return FailureStep::Fail(s);
        }
        let lines = text::lines(error);
        let ghost all = views(lines@);
        let first = if lines.len() == 0 {
            "error".to_owned()
        } else {
            assert(all[0] == lines@[0]@);
            text::trim(lines[0].as_str())
        };
        let mut s = "Combine pass ".to_owned();
        s.append(text::dec(self.next as u64 + 1).as_str());
        s.append("/");
        s.append(text::dec(self.passes.len() as u64).as_str());
        s.append(" failed with what looks like a hardware-decode error (");
        s.append(first.as_str());
        s.append("); retrying this pass with software decode.");
        let software = ResolvedEncoder { kind: self.encoder.kind, hardware_decode: false };
        FailureStep::RetrySoftware(s, self.args_for(self.next, &software))
    }

    /// The error when the retry with software decoding failed too: both failures
    /// are kept.
    pub fn after_second_failure(&self, hardware: &str, software: &str) -> (r: String)
        requires
            self.well_formed(),
            self.unfinished(),
        ensures
            r@ == both_failures(
                stage_text(self.current(), self@.next + 1, self.plan().len()),
                hardware@,
                software@,
            ),
    {
        let mut s = self.stage();
        s.append(
            ": failed with hardware decode, and the automatic software-decode fallback also failed.\n\n── Original failure (hardware decode) ──\n",
        );
        s.append(hardware);
        s.append("\n\n── Fallback attempt (software decode) also failed ──\n");
        s.append(software);
        s
    }
}

// ---------------------------------------------------------------------------
// When a pass succeeds
// ---------------------------------------------------------------------------

/// What follows a pass that succeeded.
pub struct PassDone {
    /// Lines for the log.
    pub log: Vec<String>,
    /// Files of the work directory that are no longer needed: the intermediates
    /// that the pass consumed, then its filter script.
    pub delete: Vec<String>,
}

/// A difference of lengths in seconds with its sign and three decimals.
pub open spec fn signed_seconds3(us: int) -> Seq<char> {
    if us < 0 {
        "-"@ + seconds3((-us) as nat)
    } else {
        "+"@ + seconds3(us as nat)
    }
}

/// The length that a finished batch counts with: the measured one, else the
/// predicted one.
pub open spec fn settled_length(probe: Result<u64, String>, predicted: int) -> u64 {
    match probe {
        Ok(actual) => actual,
        Err(_) => predicted as u64,
    }
}

/// The lines that report the length of a finished batch.
pub open spec fn length_lines(
    output: Seq<char>,
    probe: Result<u64, String>,
    predicted: int,
) -> Seq<Seq<char>> {
    let actual = settled_length(probe, predicted);
    let unmeasured = match probe {
        Ok(_) => Seq::empty(),
        Err(e) => seq![
            "WARN: could not measure "@ + output + " ("@ + e@ + "); using the predicted "@
                + seconds3(predicted as nat) + "s"@,
        ],
    };
    if -LENGTH_NOTE_THRESHOLD <= actual - predicted <= LENGTH_NOTE_THRESHOLD {
        unmeasured
    } else {
        unmeasured.push(
            "Note: "@ + output + " came out "@ + seconds3(actual as nat) + "s, "@
                + signed_seconds3(actual - predicted) + "s from the predicted "@ + seconds3(
                predicted as nat,
            ) + "s — using the measured value."@,
        )
    }
}

/// The intermediates that are left when those that the pass consumed are gone.
pub open spec fn unconsumed(pass: PassView, held: Set<Seq<char>>) -> Set<Seq<char>> {
    held.difference(pass.inputs.to_set())
}

/// The state after the next pass has succeeded.
pub open spec fn after_success(
    state: RunView,
    pass: PassView,
    probe: Result<u64, String>,
    predicted: int,
) -> RunView {
    let left = unconsumed(pass, state.intermediates);
    if pass.is_final {
        RunView { next: state.next + 1, intermediates: left, ..state }
    } else {
        RunView {
            next: state.next + 1,
            lengths: state.lengths.insert(pass.output, settled_length(probe, predicted)),
            intermediates: left.insert(pass.output),
            recorded: with_entry(state.recorded, pass.output),
            ..state
        }
    }
}

/// Whether two runs differ in nothing but what their progress records list.
pub open spec fn but_for_the_record(a: CombineRun, b: CombineRun) -> bool {
    &&& a.plan() == b.plan()
    &&& a.transition == b.transition
    &&& a@ == (RunView { recorded: a@.recorded, ..b@ })
}

/// The progress record is advisory: two runs that differ in their records alone
/// take the same batches, come to the same state whether a batch is taken or made,
/// and so never differ in anything else.
pub proof fn law_the_record_decides_nothing(
    a: CombineRun,
    b: CombineRun,
    probe: Result<u64, String>,
    actual: u64,
    predicted: int,
)
    requires
        but_for_the_record(a, b),
    ensures
        a.current() == b.current(),
        a.current_lengths() == b.current_lengths(),
        a.takes(probe) == b.takes(probe),
        ({
            let output = a.current().output;
            let x = after_reuse(a@, output, actual);
            x == (RunView { recorded: x.recorded, ..after_reuse(b@, output, actual) })
        }),
        ({
            let x = after_success(a@, a.current(), probe, predicted);
            x == (RunView {
                recorded: x.recorded,
                ..after_success(b@, a.current(), probe, predicted)
            })
        }),
{
}

/// A file is freed exactly when the pass consumed it and it was an intermediate.
pub proof fn law_only_consumed_intermediates_are_freed(
    inputs: Seq<Seq<char>>,
    held: Set<Seq<char>>,
    n: nat,
)
    requires
        n <= inputs.len(),
    ensures
        forall|x: Seq<char>| #[trigger]
            freed(inputs, held, n).contains(x) <==> held.contains(x) && inputs.take(
                n as int,
            ).contains(x),
        freed(inputs, held, n).no_duplicates(),
    decreases n,
{
    if n > 0 {
        let before = freed(inputs, held, (n - 1) as nat);
        let now = freed(inputs, held, n);
        law_only_consumed_intermediates_are_freed(inputs, held, (n - 1) as nat);
        let name = inputs[n - 1];
        let front = inputs.take(n - 1);
        let whole = inputs.take(n as int);
        assert(whole[n - 1] == name);
        assert forall|x: Seq<char>| #[trigger] now.contains(x) <==> held.contains(x)
            && whole.contains(x) by {
            if front.contains(x) {
                let k = choose|k: int| 0 <= k < front.len() && front[k] == x;
                assert(whole[k] == x);
            }
            if whole.contains(x) && x != name {
                let k = choose|k: int| 0 <= k < whole.len() && whole[k] == x;
                assert(front[k] == x);
            }
            if held.contains(name) && !before.contains(name) {
                assert(now[before.len() as int] == name);
                if before.contains(x) {
                    let k = choose|k: int| 0 <= k < before.len() && before[k] == x;
                    assert(now[k] == x);
                }
                if now.contains(x) && x != name {
                    let k = choose|k: int| 0 <= k < now.len() && now[k] == x;
                    assert(before[k] == x);
                }
            }
        }
    }
}

impl CombineRun {
    /// Whether `after` is this run once the next pass succeeded, and `r` what follows.
    pub open spec fn pass_taken_in(
        self,
        probe: Result<u64, String>,
        after: CombineRun,
        r: PassDone,
    ) -> bool {
        &&& after.well_formed()
        &&& after.same_job(self)
        &&& after.checkpoint.stage == self.checkpoint.stage
        &&& ({
            let now = self;
            let pass = now.current();
            let predicted = joined_length(now.current_lengths(), now.transition);
            &&& after@ == after_success(now@, pass, probe, predicted)
            &&& views(r.log@) == (if pass.is_final {
                Seq::empty()
            } else {
                length_lines(pass.output, probe, predicted)
            })
            &&& views(r.delete@) == freed(
                pass.inputs,
                now@.intermediates,
                pass.inputs.len(),
            ).push(pass.filter_script)
        })
    }

    /// Takes the success of the next pass in. A batch counts with the length
    /// that was measured of it (`probe`), so that the next level builds on fact;
    /// only now is it recorded as finished. The intermediates that the pass
    /// consumed are no longer needed. (Of the final pass no probe is read.)
    pub fn pass_succeeded(&mut self, probe: &Result<u64, String>) -> (r: PassDone)
        requires
            old(self).well_formed(),
            old(self).unfinished(),
            fits(old(self).current_lengths(), old(self).transition),
        ensures
            old(self).pass_taken_in(*probe, *final(self), r),
    {
        let n: usize = self.next;
        assert(self.plan()[n as int] == self.passes@[n as int]@);
        let ghost now = *self;
        let ghost pass = self.current();
        let ghost predicted_length = joined_length(self.current_lengths(), self.transition);
        let is_final = self.passes[n].is_final;
        let script = self.passes[n].filter_script.clone();
        let output = self.passes[n].output.clone();
        let mut log: Vec<String> = Vec::new();
        assert(views(log@) =~= Seq::empty());
        let mut length: u64 = 0;
        if !is_final {
            let lengths = input_lengths_of(&self.passes[n], &self.lengths);
            let predicted: u64 = total_duration(lengths.as_slice(), self.transition);
            length = report_length(output.as_str(), probe, predicted, &mut log);
        }
        let mut delete = self.free_inputs();
        assert(self.current() == pass);
        text::put(&mut delete, script.as_str());
        if is_final {
            self.next = self.next + 1;
            proof {
                let plan = self.plan();
                assert forall|name: Seq<char>| #[trigger]
                    self@.intermediates.contains(name) implies exists|i: int|
                    0 <= i < self@.next && i < plan.len() && !(#[trigger] plan[i]).is_final
                        && plan[i].output == name by {
                    assert(now@.intermediates.contains(name));
                    let i = choose|i: int|
                        0 <= i < now@.next && i < plan.len() && !(#[trigger] plan[i]).is_final
                            && plan[i].output == name;
                    assert(!plan[i].is_final && plan[i].output == name);
                }
            }
        } else {
            self.complete(output, length);
        }
        assert(self@ =~= after_success(now@, pass, *probe, predicted_length));
        PassDone { log, delete }
    }

    /// Drops the inputs of the next pass from the intermediates, and names those
    /// that were there.
    fn free_inputs(&mut self) -> (r: Vec<String>)
        requires
            old(self).well_formed(),
            old(self).unfinished(),
        ensures
            final(self).well_formed(),
            final(self).same_job(*old(self)),
            final(self).checkpoint == old(self).checkpoint,
            final(self)@ == (RunView {
                intermediates: unconsumed(old(self).current(), old(self)@.intermediates),
                ..old(self)@
            }),
            views(r@) == freed(
                old(self).current().inputs,
                old(self)@.intermediates,
                old(self).current().inputs.len(),
            ),
    {
        let n: usize = self.next;
        let ghost held = self@.intermediates;
        assert(self.plan()[n as int] == self.passes@[n as int]@);
        let ghost inputs = self.current().inputs;
        let count: usize = self.passes[n].inputs.len();
        let mut out: Vec<String> = Vec::new();
        assert(views(out@) =~= freed(inputs, held, 0));
        assert(held =~= held.difference(inputs.take(0).to_set()));
        for k in 0..count
            invariant
                n == old(self).next,
                n < old(self).passes@.len(),
                inputs == views(old(self).passes@[n as int].inputs@),
                count == inputs.len(),
                held == old(self)@.intermediates,
                self.passes == old(self).passes,
                self.transition == old(self).transition,
                self.audio_bitrate_k == old(self).audio_bitrate_k,
                self.encoder == old(self).encoder,
                self.checkpoint == old(self).checkpoint,
                self.next == old(self).next,
                self.lengths == old(self).lengths,
                self.reused_any == old(self).reused_any,
                self.announced == old(self).announced,
                views(self.intermediates@).no_duplicates(),
                names_in(self.intermediates@) == held.difference(inputs.take(k as int).to_set()),
                views(out@) == freed(inputs, held, k as nat),
        {
            let name = self.passes[n].inputs[k].clone();
            proof {
                law_only_consumed_intermediates_are_freed(inputs, held, k as nat);
                let taken = inputs.take(k as int);
                let longer = inputs.take(k + 1);
                assert forall|x: Seq<char>| #[trigger] longer.contains(x) <==> taken.contains(x) || x
                    == name@ by {
                    if taken.contains(x) {
                        let j = choose|j: int| 0 <= j < taken.len() && taken[j] == x;
                        assert(longer[j] == x);
                    }
                    assert(longer[k as int] == name@);
                    if longer.contains(x) && x != name@ {
                        let j = choose|j: int| 0 <= j < longer.len() && longer[j] == x;
                        assert(taken[j] == x);
                    }
                }
                assert(held.difference(taken.to_set()).remove(name@) =~= held.difference(
                    longer.to_set(),
                ));
            }
            if take_name(&mut self.intermediates, name.as_str()) {
                text::put(&mut out, name.as_str());
            }
        }
        proof {
            assert(inputs.take(count as int) =~= inputs);
            let plan = old(self).plan();
            assert(self.plan() == plan);
            assert forall|name: Seq<char>| #[trigger]
                self@.intermediates.contains(name) implies exists|i: int|
                0 <= i < self@.next && i < plan.len() && !(#[trigger] plan[i]).is_final
                    && plan[i].output == name by {
                assert(old(self)@.intermediates.contains(name));
                let i = choose|i: int|
                    0 <= i < old(self)@.next && i < plan.len() && !(#[trigger] plan[i]).is_final
                        && plan[i].output == name;
                assert(!plan[i].is_final && plan[i].output == name);
            }
            assert(self@ =~= RunView {
                intermediates: unconsumed(old(self).current(), old(self)@.intermediates),
                ..old(self)@
            });
        }
        out
    }

    /// Marks the export as done, once every pass is.
    pub fn finish(&mut self)
        requires
            old(self).well_formed(),
            !old(self).unfinished(),
        ensures
            final(self).well_formed(),
            final(self).same_job(*old(self)),
            final(self)@ == old(self)@,
            final(self).checkpoint.stage@ == "done"@,
    {
        self.checkpoint.set_stage("done");
    }
}

fn report_length(
    output: &str,
    probe: &Result<u64, String>,
    predicted: u64,
    log: &mut Vec<String>,
) -> (r: u64)
    ensures
        r == settled_length(*probe, predicted as int),
        views(final(log)@) == views(old(log)@) + length_lines(output@, *probe, predicted as int),
{
    let actual: u64 = match probe {
        Ok(us) => *us,
        Err(e) => {
            let mut s = "WARN: could not measure ".to_owned();
            s.append(output);
            s.append(" (");
            s.append(e.as_str());
            s.append("); using the predicted ");
            s.append(text::seconds_3(predicted).as_str());
            s.append("s");
            text::put(log, s.as_str());
            predicted
        },
    };
    if distance(actual, predicted) > LENGTH_NOTE_THRESHOLD {
        let mut s = "Note: ".to_owned();
        s.append(output);
        s.append(" came out ");
        s.append(text::seconds_3(actual).as_str());
        s.append("s, ");
        let ghost so_far = s@;
        let mut difference = if actual < predicted { "-".to_owned() } else { "+".to_owned() };
        difference.append(text::seconds_3(distance(actual, predicted)).as_str());
        assert(difference@ == signed_seconds3(actual - predicted));
        s.append(difference.as_str());
        s.append("s from the predicted ");
        s.append(text::seconds_3(predicted).as_str());
        s.append("s — using the measured value.");
        text::put(log, s.as_str());
    }
    assert(views(log@) =~= views(old(log)@) + length_lines(output@, *probe, predicted as int));
    actual
}

} // verus!
