//! What a measurement says of the clips.
use vstd::prelude::*;

use crate::number::decimal_of;
use crate::number_laws::law_numbers_with_a_point_are_read;
use crate::reading::{gives, lemma_gives, power_of_ten};
use crate::text::{contains, decimal, lines_of, number_of, occurs_at, seconds6, starts, trimmed};
use crate::video::probe::{
    apart, file_name_start, first_error, first_occurrence, first_usable, good_readings,
    is_probe_result, largest_drift, length_request, measurement_report, probe_tool,
    reported_duration, usable_length, Reading,
};

verus! {

/// A length that ffprobe prints with six decimals is read to the microsecond.
pub proof fn law_printed_lengths_are_read(us: nat)
    requires
        0 < us <= u64::MAX,
    ensures
        usable_length(seconds6(us)) == Some(us as int),
{
    reveal_with_fuel(power_of_ten, 7);
    assert(power_of_ten(6) == 1_000_000);
    law_numbers_with_a_point_are_read(us, 6);
}

/// What is no number, and a number that is not above zero, is no length; and a length
/// is never nothing.
pub proof fn law_only_numbers_above_zero_are_lengths(line: Seq<char>)
    ensures
        decimal_of(line) is None ==> usable_length(line) is None,
        decimal_of(line) is Some && decimal_of(line)->0.negative ==> usable_length(line) is None,
        decimal_of(line) is Some && number_of(decimal_of(line)->0.digits) == 0 ==> usable_length(
            line,
        ) is None,
        usable_length(line) is Some ==> usable_length(line)->0 <= u64::MAX,
        usable_length(line) is Some ==> usable_length(line)->0 != 0,
{
}

/// Whether `i` is the first line with a usable length.
pub open spec fn answers_first(lines: Seq<Seq<char>>, i: int) -> bool {
    &&& 0 <= i < lines.len()
    &&& usable_length(trimmed(lines[i])) is Some
    &&& forall|k: int| 0 <= k < i ==> usable_length(trimmed(#[trigger] lines[k])) is None
}

/// The length of a file is the first usable answer: that of the stream where there is
/// one, else that of the container; and there is none where no line has one.
pub proof fn law_the_first_usable_answer_counts(stdout: Seq<char>, i: int)
    ensures
        answers_first(lines_of(stdout), i) ==> reported_duration(stdout) == usable_length(
            trimmed(lines_of(stdout)[i]),
        ),
        (forall|k: int|
            0 <= k < lines_of(stdout).len() ==> usable_length(
                trimmed(#[trigger] lines_of(stdout)[k]),
            ) is None) ==> reported_duration(stdout) is None,
{
    lemma_first_usable(lines_of(stdout), i);
}

proof fn lemma_first_usable(lines: Seq<Seq<char>>, i: int)
    ensures
        answers_first(lines, i) ==> first_usable(lines) == usable_length(trimmed(lines[i])),
        (forall|k: int|
            0 <= k < lines.len() ==> usable_length(trimmed(#[trigger] lines[k])) is None)
            ==> first_usable(lines) is None,
    decreases lines.len(),
{
    if lines.len() > 0 {
        let rest = lines.skip(1);
        lemma_first_usable(rest, i - 1);
        if answers_first(lines, i) && i > 0 {
            assert(usable_length(trimmed(lines[0])) is None);
            assert(rest[i - 1] == lines[i]);
            assert forall|k: int| 0 <= k < i - 1 implies usable_length(
                trimmed(#[trigger] rest[k]),
            ) is None by {
                assert(rest[k] == lines[k + 1]);
            }
        }
        if forall|k: int|
            0 <= k < lines.len() ==> usable_length(trimmed(#[trigger] lines[k])) is None {
            assert(usable_length(trimmed(lines[0])) is None);
            assert forall|k: int| 0 <= k < rest.len() implies usable_length(
                trimmed(#[trigger] rest[k]),
            ) is None by {
                assert(rest[k] == lines[k + 1]);
            }
        }
    }
}

/// A measurement asks for the length of the video stream, and for that of the
/// container, of the file that is meant.
pub proof fn law_both_lengths_are_asked_for(path: Seq<char>)
    ensures
        gives(length_request(path), "-select_streams"@, "v:0"@),
        gives(length_request(path), "-show_entries"@, "stream=duration"@),
        gives(length_request(path), "-show_entries"@, "format=duration"@),
        gives(length_request(path), "-of"@, "csv=p=0"@),
        length_request(path).last() == path,
{
    let args = length_request(path);
    lemma_gives(args, 2, "-select_streams"@, "v:0"@);
    lemma_gives(args, 4, "-show_entries"@, "stream=duration"@);
    lemma_gives(args, 6, "-show_entries"@, "format=duration"@);
    lemma_gives(args, 8, "-of"@, "csv=p=0"@);
}

// ---------------------------------------------------------------------------
// The tool
// ---------------------------------------------------------------------------

/// Whether a text is a directory's path up to a file name, or nothing.
pub open spec fn is_directory(s: Seq<char>) -> bool {
    s.len() == 0 || s.last() == '/' || s.last() == '\\'
}

/// Whether a text is a file name: one without a separator.
pub open spec fn is_file_name(s: Seq<char>) -> bool {
    forall|i: int| 0 <= i < s.len() ==> #[trigger] s[i] != '/' && s[i] != '\\'
}

proof fn lemma_file_name_start(directory: Seq<char>, name: Seq<char>)
    requires
        is_directory(directory),
        is_file_name(name),
    ensures
        file_name_start(directory + name) == directory.len(),
    decreases name.len(),
{
    let s = directory + name;
    if name.len() == 0 {
        assert(s =~= directory);
    } else {
        let front = name.drop_last();
        assert(name[name.len() - 1] != '/');
        assert(s.last() == name.last());
        assert(s.drop_last() =~= directory + front);
        assert forall|i: int| 0 <= i < front.len() implies #[trigger] front[i] != '/' && front[i]
            != '\\' by {
            assert(front[i] == name[i]);
        }
        lemma_file_name_start(directory, front);
    }
}

/// The probe tool stands in ffmpeg's directory and is named as ffmpeg is, with its own
/// name in the place of the other's, so that what comes behind it (`.exe`) stays.
pub proof fn law_the_probe_tool_is_next_to_ffmpeg(directory: Seq<char>, rest: Seq<char>)
    requires
        is_directory(directory),
        is_file_name(rest),
    ensures
        probe_tool(directory + "ffmpeg"@ + rest) == directory + "ffprobe"@ + rest,
{
    let name = "ffmpeg"@ + rest;
    let path = directory + "ffmpeg"@ + rest;
    reveal_strlit("ffmpeg");
    assert forall|i: int| 0 <= i < name.len() implies #[trigger] name[i] != '/' && name[i]
        != '\\' by {
        if i >= 6 {
            assert(name[i] == rest[i - 6]);
        }
    }
    assert(path =~= directory + name);
    lemma_file_name_start(directory, name);
    assert(path.skip(directory.len() as int) =~= name);
    assert(name.subrange(0, 6) =~= "ffmpeg"@);
    assert(occurs_at(name, "ffmpeg"@, 0));
    assert(name.skip(6) =~= rest);
    assert(path.take(directory.len() as int) =~= directory);
    assert(probe_tool(path) =~= directory + "ffprobe"@ + rest);
}

proof fn lemma_first_occurrence(hay: Seq<char>, needle: Seq<char>, from: int)
    requires
        0 <= from,
    ensures
        first_occurrence(hay, needle, from) matches Some(at) ==> occurs_at(hay, needle, at) && at
            >= from,
    decreases hay.len() - from + 1,
{
    if from + needle.len() <= hay.len() && !occurs_at(hay, needle, from) {
        lemma_first_occurrence(hay, needle, from + 1);
    }
}

/// Of an ffmpeg under another name, nothing is made up: the tool is looked for by its
/// own name.
pub proof fn law_another_name_means_the_plain_tool(directory: Seq<char>, name: Seq<char>)
    requires
        is_directory(directory),
        is_file_name(name),
        forall|at: int| !occurs_at(name, "ffmpeg"@, at),
    ensures
        probe_tool(directory + name) == "ffprobe"@,
{
    lemma_file_name_start(directory, name);
    assert((directory + name).skip(directory.len() as int) =~= name);
    lemma_first_occurrence(name, "ffmpeg"@, 0);
}

// ---------------------------------------------------------------------------
// Readings
// ---------------------------------------------------------------------------

/// The largest correction is one that was made, and no other was larger.
pub proof fn law_the_largest_correction_is_reported(requested: Seq<u64>, readings: Seq<Reading>)
    ensures
        forall|i: int|
            0 <= i < readings.len() && (#[trigger] readings[i]).1 is Ok ==> {
                let us = readings[i].1->Ok_0;
                let wish = requested[readings[i].0 as int];
                us <= wish + largest_drift(requested, readings) && wish <= us + largest_drift(
                    requested,
                    readings,
                )
            },
        largest_drift(requested, readings) > 0 ==> exists|i: int|
            0 <= i < readings.len() && (#[trigger] readings[i]).1 is Ok && apart(
                readings[i].1->Ok_0,
                requested[readings[i].0 as int],
            ) == largest_drift(requested, readings),
    decreases readings.len(),
{
    if readings.len() > 0 {
        let front = readings.drop_last();
        let n = front.len() as int;
        law_the_largest_correction_is_reported(requested, front);
        assert(readings[n] == readings.last());
        assert forall|i: int| 0 <= i < readings.len() && (#[trigger] readings[i]).1 is Ok implies ({
            let us = readings[i].1->Ok_0;
            let wish = requested[readings[i].0 as int];
            us <= wish + largest_drift(requested, readings) && wish <= us + largest_drift(
                requested,
                readings,
            )
        }) by {
            if i < n {
                assert(front[i] == readings[i]);
            }
        }
        if largest_drift(requested, readings) > 0 {
            if largest_drift(requested, readings) == largest_drift(requested, front) {
                let i = choose|i: int|
                    0 <= i < front.len() && (#[trigger] front[i]).1 is Ok && apart(
                        front[i].1->Ok_0,
                        requested[front[i].0 as int],
                    ) == largest_drift(requested, front);
                assert(readings[i] == front[i]);
            }
        }
    }
}

/// Good readings are counted one by one, and the error that is reported is that of the
/// first bad one.
pub proof fn law_readings_are_counted_and_the_first_error_kept(
    readings: Seq<Reading>,
    reading: Reading,
)
    ensures
        good_readings(Seq::empty()) == 0,
        first_error(Seq::empty()) is None,
        reading.1 is Ok ==> good_readings(readings.push(reading)) == good_readings(readings) + 1
            && first_error(readings.push(reading)) == first_error(readings),
        reading.1 is Err ==> good_readings(readings.push(reading)) == good_readings(readings),
        first_error(readings) is Some ==> first_error(readings.push(reading)) == first_error(
            readings,
        ),
        first_error(readings) is None && reading.1 is Err ==> first_error(readings.push(reading))
            == Some(reading.1->Err_0@),
{
    assert(readings.push(reading).drop_last() =~= readings);
}

/// A measurement is reported exactly where something was measured, and a warning given
/// exactly where something could not be.
pub proof fn law_a_measurement_is_reported(
    measured: usize,
    total: usize,
    max_drift: u64,
    error: Option<Seq<char>>,
)
    requires
        measured <= total,
    ensures
        ({
            let lines = measurement_report(measured, total, max_drift, error);
            &&& lines.len() == (if measured > 0 {
                1int
            } else {
                0
            }) + if error is Some {
                1int
            } else {
                0
            }
            &&& measured > 0 ==> starts(
                lines[0],
                "Measured "@ + decimal(measured as nat) + "/"@ + decimal(total as nat) + " clip"@,
            )
            &&& error is Some ==> starts(
                lines.last(),
                "WARN: could not measure "@ + decimal((total - measured) as nat) + " clip"@,
            )
        }),
{
    let lines = measurement_report(measured, total, max_drift, error);
    if measured > 0 {
        let head = "Measured "@ + decimal(measured as nat) + "/"@ + decimal(total as nat);
        assert(" clip(s) with ffprobe (largest correction "@ =~= " clip"@
            + "(s) with ffprobe (largest correction "@) by {
            reveal_strlit(" clip(s) with ffprobe (largest correction ");
            reveal_strlit(" clip");
            reveal_strlit("(s) with ffprobe (largest correction ");
        }
        let front = head + " clip"@;
        assert(lines[0].subrange(0, front.len() as int) =~= front);
    }
    if error is Some {
        let head = "WARN: could not measure "@ + decimal((total - measured) as nat);
        assert(" clip(s) ("@ =~= " clip"@ + "(s) ("@) by {
            reveal_strlit(" clip(s) (");
            reveal_strlit(" clip");
            reveal_strlit("(s) (");
        }
        let front = head + " clip"@;
        assert(lines.last().subrange(0, front.len() as int) =~= front);
    }
}

/// A length is known exactly when ffprobe succeeded and gave a usable one; an error names
/// the file.
pub proof fn law_a_length_is_known_when_ffprobe_gave_one(
    success: bool,
    stdout: Seq<char>,
    stderr: Seq<char>,
    path: Seq<char>,
    r: Result<u64, String>,
)
    requires
        is_probe_result(success, stdout, stderr, path, r),
    ensures
        r is Ok <==> success && reported_duration(stdout) is Some,
        r matches Ok(us) ==> reported_duration(stdout) == Some(us as int),
        r matches Err(e) ==> contains(e@, path),
{
    if let Err(e) = r {
        if success {
            let at = "ffprobe reported no usable duration for "@.len() as int;
            assert(e@.subrange(at, at + path.len()) =~= path);
            assert(occurs_at(e@, path, at));
        } else {
            let at = "ffprobe failed for "@.len() as int;
            assert(e@.subrange(at, at + path.len()) =~= path);
            assert(occurs_at(e@, path, at));
        }
    }
}

} // verus!
