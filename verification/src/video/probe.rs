//! Measuring what ffmpeg actually produced, rather than trusting what it was
//! asked for: a video stream can only end on a frame boundary, and over a few
//! hundred clips that adds up to seconds.
use vstd::prelude::*;
use vstd::string::*;

use crate::number;
use crate::number::{decimal_of, units};
use crate::text;
use crate::text::{decimal, lines_of, number_of, occurs_at, seconds3, trimmed, views};

verus! {

// ---------------------------------------------------------------------------
// Finding ffprobe
// ---------------------------------------------------------------------------

/// The position behind the last path separator in `s` (zero without one).
pub open spec fn file_name_start(s: Seq<char>) -> int
    decreases s.len(),
{
    if s.len() == 0 || s.last() == '/' || s.last() == '\\' {
        s.len() as int
    } else {
        file_name_start(s.drop_last())
    }
}

/// The first position at or after `from` where `needle` stands in `hay`.
pub open spec fn first_occurrence(hay: Seq<char>, needle: Seq<char>, from: int) -> Option<int>
    decreases hay.len() - from + 1,
{
    if from + needle.len() > hay.len() {
        None
    } else if occurs_at(hay, needle, from) {
        Some(from)
    } else {
        first_occurrence(hay, needle, from + 1)
    }
}

/// The probe tool that belongs to an ffmpeg: the same path with the first
/// "ffmpeg" in the file name replaced, or a bare "ffprobe" where the file is
/// named otherwise.
pub open spec fn probe_tool(ffmpeg: Seq<char>) -> Seq<char> {
    let start = file_name_start(ffmpeg);
    let name = ffmpeg.skip(start);
    match first_occurrence(name, "ffmpeg"@, 0) {
        None => "ffprobe"@,
        Some(at) => ffmpeg.take(start + at) + "ffprobe"@ + name.skip(at + 6),
    }
}

/// The `ffprobe` that ships alongside the configured `ffmpeg`.
pub fn ffprobe_path(ffmpeg: &str) -> (r: String)
    ensures
        r@ == probe_tool(ffmpeg@),
{
    proof {
        reveal_strlit("ffmpeg");
    }
    let path = text::to_chars(ffmpeg);
    let mut start: usize = path.len();
    assert(path@.take(start as int) =~= path@);
    while start > 0 && path[start - 1] != '/' && path[start - 1] != '\\'
        invariant
            start <= path@.len(),
            file_name_start(path@) == file_name_start(path@.take(start as int)),
        decreases start,
    {
        assert(path@.take(start as int).drop_last() =~= path@.take(start - 1));
        start = start - 1;
    }
    let name = text::slice_of(path.as_slice(), start, path.len());
    assert(name@ =~= path@.skip(start as int));
    let needle = text::to_chars("ffmpeg");
    let mut at: usize = 0;
    while name.len() >= needle.len() && at <= name.len() - needle.len()
        invariant
            needle@ == "ffmpeg"@,
            needle@.len() == 6,
            path@ == ffmpeg@,
            start == file_name_start(path@),
            start <= path@.len(),
            name@ == path@.skip(start as int),
            at <= name@.len(),
            start + name.len() == path.len(),
            first_occurrence(name@, needle@, 0) == first_occurrence(name@, needle@, at as int),
        decreases name@.len() - at,
    {
        if text::matches_at(name.as_slice(), needle.as_slice(), at) {
            let mut out = text::from_chars(
                text::slice_of(path.as_slice(), 0, start + at).as_slice(),
            );
            assert(out@ =~= path@.take(start + at));
            out.append("ffprobe");
            let rest = text::slice_of(name.as_slice(), at + 6, name.len());
            assert(rest@ =~= name@.skip(at + 6));
            out.append(text::from_chars(rest.as_slice()).as_str());
            return out;
        }
        at = at + 1;
    }
    "ffprobe".to_owned()
}

// ---------------------------------------------------------------------------
// Reading a duration
// ---------------------------------------------------------------------------

/// The microseconds that a line stands for, where it is a length: a number above zero
/// that can be counted. One under half a microsecond counts as one.
pub open spec fn usable_length(line: Seq<char>) -> Option<int> {
    match decimal_of(line) {
        None => None,
        Some(d) => if d.negative || number_of(d.digits) == 0 || units(d, 6) > u64::MAX {
            None
        } else if units(d, 6) == 0 {
            Some(1)
        } else {
            Some(units(d, 6))
        },
    }
}

/// The first usable length among the lines, each trimmed.
pub open spec fn first_usable(lines: Seq<Seq<char>>) -> Option<int>
    decreases lines.len(),
{
    if lines.len() == 0 {
        None
    } else if usable_length(trimmed(lines[0])) is Some {
        usable_length(trimmed(lines[0]))
    } else {
        first_usable(lines.skip(1))
    }
}

/// The duration in ffprobe's output: the first usable answer.
pub open spec fn reported_duration(stdout: Seq<char>) -> Option<int> {
    first_usable(lines_of(stdout))
}

/// Pulls the first usable length out of ffprobe's output, in microseconds. Matroska
/// reports `N/A` for a stream's duration and carries the length at container
/// level only, so both are requested and the first usable line wins.
pub fn parse_duration(stdout: &str) -> (r: Option<u64>)
    ensures
        match r {
            Some(us) => reported_duration(stdout@) == Some(us as int),
            None => reported_duration(stdout@) is None,
        },
{
    let lines = text::lines(stdout);
    let ghost all = views(lines@);
    let mut i: usize = 0;
    assert(all.skip(0) =~= all);
    while i < lines.len()
        invariant
            i <= lines@.len(),
            all == views(lines@),
            all == lines_of(stdout@),
            first_usable(all) == first_usable(all.skip(i as int)),
        decreases lines@.len() - i,
    {
        assert(all.skip(i as int)[0] == lines@[i as int]@);
        assert(all.skip(i as int).skip(1) =~= all.skip(i + 1));
        let line = text::trim_chars(text::to_chars(lines[i].as_str()).as_slice());
        if let Some(d) = number::parse_decimal(line.as_slice()) {
            if !d.negative && !number::is_zero(&d) {
                if let Some(us) = number::exact_units(&d, 6) {
                    return Some(
                        if us == 0 {
                            1
                        } else {
                            us
                        },
                    );
                }
            }
        }
        i = i + 1;
    }
    None
}

/// The ffprobe arguments that ask for the length of a file: of the video stream
/// first (the timeline on which clips are placed), then of the container.
pub open spec fn length_request(path: Seq<char>) -> Seq<Seq<char>> {
    seq![
        "-v"@,
        "error"@,
        "-select_streams"@,
        "v:0"@,
        "-show_entries"@,
        "stream=duration"@,
        "-show_entries"@,
        "format=duration"@,
        "-of"@,
        "csv=p=0"@,
        path,
    ]
}

/// The ffprobe arguments that ask for the length of a file.
pub fn probe_args(path: &str) -> (r: Vec<String>)
    ensures
        views(r@) == length_request(path@),
{
    let r = text::list(
        vec![
            "-v",
            "error",
            "-select_streams",
            "v:0",
            "-show_entries",
            "stream=duration",
            "-show_entries",
            "format=duration",
            "-of",
            "csv=p=0",
            path,
        ],
    );
    assert(views(r@) =~= length_request(path@));
    r
}

/// Whether `r` is what a finished ffprobe run says of the length of `path`.
pub open spec fn is_probe_result(
    success: bool,
    stdout: Seq<char>,
    stderr: Seq<char>,
    path: Seq<char>,
    r: Result<u64, String>,
) -> bool {
    match r {
        Ok(us) => success && reported_duration(stdout) == Some(us as int),
        Err(e) => if success {
            reported_duration(stdout) is None && e@
                == "ffprobe reported no usable duration for "@ + path
        } else {
            e@ == "ffprobe failed for "@ + path + ": "@ + trimmed(stderr)
        },
    }
}

/// What a finished ffprobe run says of the length of `path`.
pub fn probe_duration(success: bool, stdout: &str, stderr: &str, path: &str) -> (r: Result<
    u64,
    String,
>)
    ensures
        is_probe_result(success, stdout@, stderr@, path@, r),
{
    if !success {
        let mut s = "ffprobe failed for ".to_owned();
        s.append(path);
        s.append(": ");
        s.append(text::trim(stderr).as_str());
        return Err(s);
    }
    match parse_duration(stdout) {
        Some(us) => Ok(us),
        None => {
            let mut s = "ffprobe reported no usable duration for ".to_owned();
            s.append(path);
            Err(s)
        },
    }
}

// ---------------------------------------------------------------------------
// Measuring all clips
// ---------------------------------------------------------------------------

/// What one clip's measurement came to, by the clip's index.
pub type Reading = (usize, Result<u64, String>);

/// Outcome of measuring a list of clips.
pub struct Measured {
    /// One duration per clip, in order: the measured value where there is one,
    /// else the requested value.
    pub durations: Vec<u64>,
    /// How many were measured.
    pub measured: usize,
    /// Largest single correction.
    pub max_drift: u64,
    /// First failure, so that the fallback can be explained once.
    pub error: Option<String>,
}

/// How far two lengths are apart.
pub open spec fn apart(a: u64, b: u64) -> u64 {
    if a < b {
        (b - a) as u64
    } else {
        (a - b) as u64
    }
}

/// The distance between two lengths.
pub fn distance(a: u64, b: u64) -> (r: u64)
    ensures
        r == apart(a, b),
{
    if a < b {
        b - a
    } else {
        a - b
    }
}

/// The lengths to use after the given readings: the last good reading of each
/// clip, else what was requested.
pub open spec fn lengths_after(requested: Seq<u64>, readings: Seq<Reading>) -> Seq<u64>
    decreases readings.len(),
{
    if readings.len() == 0 {
        requested
    } else {
        let before = lengths_after(requested, readings.drop_last());
        match readings.last().1 {
            Ok(us) => before.update(readings.last().0 as int, us),
            Err(_) => before,
        }
    }
}

/// How many readings are good.
pub open spec fn good_readings(readings: Seq<Reading>) -> nat
    decreases readings.len(),
{
    if readings.len() == 0 {
        0
    } else {
        good_readings(readings.drop_last()) + if readings.last().1 is Ok {
            1nat
        } else {
            0
        }
    }
}

/// The largest distance of a good reading from what was requested.
pub open spec fn largest_drift(requested: Seq<u64>, readings: Seq<Reading>) -> u64
    decreases readings.len(),
{
    if readings.len() == 0 {
        0
    } else {
        let before = largest_drift(requested, readings.drop_last());
        match readings.last().1 {
            Ok(us) => {
                let drift = apart(us, requested[readings.last().0 as int]);
                if drift > before {
                    drift
                } else {
                    before
                }
            },
            Err(_) => before,
        }
    }
}

/// The error of the first reading that failed.
pub open spec fn first_error(readings: Seq<Reading>) -> Option<Seq<char>>
    decreases readings.len(),
{
    if readings.len() == 0 {
        None
    } else {
        match first_error(readings.drop_last()) {
            Some(e) => Some(e),
            None => match readings.last().1 {
                Ok(_) => None,
                Err(e) => Some(e@),
            },
        }
    }
}

proof fn lemma_lengths_after_len(requested: Seq<u64>, readings: Seq<Reading>)
    requires
        forall|i: int| 0 <= i < readings.len() ==> (#[trigger] readings[i]).0 < requested.len(),
    ensures
        lengths_after(requested, readings).len() == requested.len(),
    decreases readings.len(),
{
    if readings.len() > 0 {
        let front = readings.drop_last();
        assert forall|i: int| 0 <= i < front.len() implies (#[trigger] front[i]).0
            < requested.len() by {
            assert(front[i] == readings[i]);
        }
        assert(readings.last() == readings[readings.len() - 1]);
        lemma_lengths_after_len(requested, front);
    }
}

/// The value behind an optional owned text.
pub open spec fn string_of(s: Option<String>) -> Option<Seq<char>> {
    match s {
        Some(x) => Some(x@),
        None => None,
    }
}

impl Measured {
    /// Whether every clip was measured.
    pub fn all_measured(&self) -> (r: bool)
        ensures
            r == (self.error is None && self.measured == self.durations@.len()),
    {
        self.error.is_none() && self.measured == self.durations.len()
    }
}

/// Gathers the readings of all clips, in the order in which they arrived. A clip
/// that could not be read keeps its requested length: measuring never fails an
/// export.
pub fn measure_all(requested: &[u64], readings: &[Reading]) -> (r: Measured)
    requires
        forall|i: int| 0 <= i < readings@.len() ==> (#[trigger] readings@[i]).0 < requested@.len(),
    ensures
        r.durations@ == lengths_after(requested@, readings@),
        r.measured == good_readings(readings@),
        r.max_drift == largest_drift(requested@, readings@),
        string_of(r.error) == first_error(readings@),
{
    let mut durations: Vec<u64> = Vec::new();
    for i in 0..requested.len()
        invariant
            durations@ =~= requested@.take(i as int),
    {
        durations.push(requested[i]);
    }
    assert(requested@.take(requested@.len() as int) =~= requested@);
    let mut measured: usize = 0;
    let mut max_drift: u64 = 0;
    let mut error: Option<String> = None;
    assert(readings@.take(0) =~= Seq::empty());
    for i in 0..readings.len()
        invariant
            forall|i: int|
                0 <= i < readings@.len() ==> (#[trigger] readings@[i]).0 < requested@.len(),
            durations@ == lengths_after(requested@, readings@.take(i as int)),
            measured == good_readings(readings@.take(i as int)),
            measured <= i,
            max_drift == largest_drift(requested@, readings@.take(i as int)),
            string_of(error) == first_error(readings@.take(i as int)),
    {
        proof {
            assert(readings@.take(i + 1).drop_last() =~= readings@.take(i as int));
            assert forall|k: int| 0 <= k < i implies (#[trigger] readings@.take(i as int)[k]).0
                < requested@.len() by {
                assert(readings@.take(i as int)[k] == readings@[k]);
            }
            lemma_lengths_after_len(requested@, readings@.take(i as int));
        }
        let index: usize = readings[i].0;
        match &readings[i].1 {
            Ok(us) => {
                let drift = distance(*us, requested[index]);
                if drift > max_drift {
                    max_drift = drift;
                }
                durations.set(index, *us);
                measured = measured + 1;
            },
            Err(e) => {
                if error.is_none() {
                    error = Some(e.clone());
                }
            },
        }
    }
    assert(readings@.take(readings@.len() as int) =~= readings@);
    Measured { durations, measured, max_drift, error }
}

/// A clip that no reading is about keeps its requested length, and a clip with
/// exactly one reading, a good one, has that length.
pub proof fn law_measured_lengths_replace_requested_ones(
    requested: Seq<u64>,
    readings: Seq<Reading>,
    clip: int,
    at: int,
)
    requires
        0 <= clip < requested.len(),
        forall|i: int| 0 <= i < readings.len() ==> (#[trigger] readings[i]).0 < requested.len(),
        forall|i: int| 0 <= i < readings.len() && i != at ==> (#[trigger] readings[i]).0 != clip,
        0 <= at < readings.len() ==> readings[at].0 == clip,
    ensures
        lengths_after(requested, readings).len() == requested.len(),
        lengths_after(requested, readings)[clip] == (if 0 <= at < readings.len()
            && readings[at].1 is Ok {
            readings[at].1->Ok_0
        } else {
            requested[clip]
        }),
    decreases readings.len(),
{
    lemma_lengths_after_len(requested, readings);
    if readings.len() > 0 {
        let front = readings.drop_last();
        assert forall|i: int| 0 <= i < front.len() implies (#[trigger] front[i]).0
            < requested.len() by {
            assert(front[i] == readings[i]);
        }
        lemma_lengths_after_len(requested, front);
        assert forall|i: int| 0 <= i < front.len() && i != at implies (#[trigger] front[i]).0
            != clip by {
            assert(front[i] == readings[i]);
        }
        assert(readings.last() == readings[readings.len() - 1]);
        law_measured_lengths_replace_requested_ones(requested, front, clip, at);
    }
}

/// The lines that report a measurement of `total` clips.
pub open spec fn measurement_report(
    measured: usize,
    total: usize,
    max_drift: u64,
    error: Option<Seq<char>>,
) -> Seq<Seq<char>> {
    let first = if measured > 0 {
        seq![
            "Measured "@ + decimal(measured as nat) + "/"@ + decimal(total as nat)
                + " clip(s) with ffprobe (largest correction "@ + seconds3(max_drift as nat)
                + "s)"@,
        ]
    } else {
        Seq::empty()
    };
    match error {
        None => first,
        Some(e) => first.push(
            "WARN: could not measure "@ + decimal((total - measured) as nat) + " clip(s) ("@ + e
                + "); falling back to their requested lengths, which may shift chapter marks slightly."@,
        ),
    }
}

/// Reports a measurement of `total` clips for the log.
pub fn report_measurement(m: &Measured, total: usize) -> (r: Vec<String>)
    requires
        m.measured <= total,
    ensures
        views(r@) == measurement_report(m.measured, total, m.max_drift, string_of(m.error)),
{
    let mut lines: Vec<String> = Vec::new();
    if m.measured > 0 {
        let mut s = "Measured ".to_owned();
        s.append(text::dec(m.measured as u64).as_str());
        s.append("/");
        s.append(text::dec(total as u64).as_str());
        s.append(" clip(s) with ffprobe (largest correction ");
        s.append(text::seconds_3(m.max_drift).as_str());
        s.append("s)");
        text::put(&mut lines, s.as_str());
    }
    if let Some(e) = &m.error {
        let mut s = "WARN: could not measure ".to_owned();
        s.append(text::dec((total - m.measured) as u64).as_str());
        s.append(" clip(s) (");
        s.append(e.as_str());
        s.append(
            "); falling back to their requested lengths, which may shift chapter marks slightly.",
        );
        text::put(&mut lines, s.as_str());
    }
    assert(views(lines@) =~= measurement_report(
        m.measured,
        total,
        m.max_drift,
        string_of(m.error),
    ));
    lines
}

} // verus!
