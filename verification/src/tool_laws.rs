//! What is asked of the tools around the application, and what is made of their
//! answers.
use vstd::prelude::*;

use crate::pipeline::tools::{
    benchmark_request, encoder_line, frames_per_second, mebibytes, support_lines,
};
use crate::platform::Platform;
use crate::reading::{gives, law_rounding_is_to_the_nearest, lemma_gives, lemma_states, states};
use crate::setup::{
    filled, instructions, is_install_outcome, last_five, setup_errors, setup_message,
    setup_succeeded, winget_error, winget_request, InstallOutcome, Tool, ToolOutcome,
};
use crate::text::{
    contains, decimal, ends, fixed_point, joined, lines_of, lowered, nearest_even, occurs_at,
    signed_decimal, starts, trimmed,
};
use crate::utils::process::{
    exit_failure, finished_log, kept_tail, log_line, shown_command, start_error,
};
use crate::video::encoder::{Availability, EncoderSupport, QualityTier, ResolvedEncoder};
use crate::video::encoder_laws::{encodes, law_encoders_encode};

verus! {

// ---------------------------------------------------------------------------
// Commands and their output
// ---------------------------------------------------------------------------

/// An argument is shown as it is, in quotes exactly where it has a space in it.
pub proof fn law_arguments_with_spaces_are_quoted(program: Seq<char>, args: Seq<Seq<char>>, i: int)
    requires
        0 <= i < args.len(),
    ensures
        shown_command(program, args).len() == args.len() + 1,
        shown_command(program, args)[0] == program,
        !contains(args[i], " "@) ==> shown_command(program, args)[i + 1] == args[i],
        contains(args[i], " "@) ==> shown_command(program, args)[i + 1] == seq!['"'] + args[i]
            + seq!['"'],
{
    assert("\""@ =~= seq!['"']) by {
        reveal_strlit("\"");
    }
}

/// The last lines of a list, eight at most.
pub open spec fn last_eight(lines: Seq<Seq<char>>) -> Seq<Seq<char>> {
    if lines.len() <= 8 {
        lines
    } else {
        lines.skip(lines.len() - 8)
    }
}

/// An error quotes the last eight lines that are not blank, in order.
pub proof fn law_the_last_eight_lines_are_quoted(lines: Seq<Seq<char>>)
    ensures
        kept_tail(lines) == last_eight(filled(lines)),
    decreases lines.len(),
{
    if lines.len() > 0 {
        let front = lines.drop_last();
        law_the_last_eight_lines_are_quoted(front);
        let before = filled(front);
        let line = trimmed(lines.last());
        if line.len() > 0 {
            if before.len() < 8 {
                assert(kept_tail(lines) =~= last_eight(filled(lines)));
            } else {
                assert(last_eight(before).push(line).skip(1) =~= before.push(line).skip(
                    before.len() + 1 - 8,
                ));
            }
        }
    } else {
        assert(kept_tail(lines) =~= filled(lines));
    }
}

/// Blank lines are passed over, and any other one is kept without the white space
/// around it, in order.
pub proof fn law_only_blank_lines_are_passed_over(lines: Seq<Seq<char>>, line: Seq<char>)
    ensures
        filled(Seq::empty()) == Seq::<Seq<char>>::empty(),
        trimmed(line).len() == 0 ==> filled(lines.push(line)) == filled(lines),
        trimmed(line).len() > 0 ==> filled(lines.push(line)) == filled(lines).push(trimmed(line)),
{
    assert(lines.push(line).drop_last() =~= lines);
}

/// The error of a failed run names the program and its exit code, and ends with what
/// the program said last.
pub proof fn law_a_failed_run_is_told_by_code_and_last_words(
    program: Seq<char>,
    code: Option<i32>,
    tail: Seq<Seq<char>>,
)
    ensures
        starts(exit_failure(program, code, tail), program),
        ends(exit_failure(program, code, tail), joined(tail, "\n"@)),
        code matches Some(c) ==> contains(
            exit_failure(program, code, tail),
            "code "@ + signed_decimal(c as int) + "\n"@,
        ),
        code is None ==> contains(exit_failure(program, code, tail), "code signal\n"@),
{
    let e = exit_failure(program, code, tail);
    let said = joined(tail, "\n"@);
    let shown = match code {
        Some(c) => signed_decimal(c as int),
        None => "signal"@,
    };
    assert(e.subrange(0, program.len() as int) =~= program);
    assert(e.subrange(e.len() - said.len(), e.len() as int) =~= said);
    assert(" exited with code "@ =~= " exited with "@ + "code "@) by {
        reveal_strlit(" exited with code ");
        reveal_strlit(" exited with ");
        reveal_strlit("code ");
    }
    assert("\n\nstderr:\n"@ =~= "\n"@ + "\nstderr:\n"@) by {
        reveal_strlit("\n\nstderr:\n");
        reveal_strlit("\n");
        reveal_strlit("\nstderr:\n");
    }
    let key = "code "@ + shown + "\n"@;
    let at = (program.len() + " exited with "@.len()) as int;
    assert(e =~= program + " exited with "@ + key + "\nstderr:\n"@ + said);
    assert(e.subrange(at, at + key.len()) =~= key);
    assert(occurs_at(e, key, at));
    if code is None {
        assert("code signal\n"@ =~= key) by {
            reveal_strlit("code signal\n");
            reveal_strlit("code ");
            reveal_strlit("signal");
            reveal_strlit("\n");
        }
    }
}

/// A line of output is shown behind the name of its tool, and the log of a finished run
/// holds its stderr exactly where there is any.
pub proof fn law_output_is_shown_behind_its_tool(
    prefix: Seq<char>,
    line: Seq<char>,
    status: Seq<char>,
    out_bytes: nat,
    err_bytes: nat,
    stderr: Seq<char>,
)
    ensures
        ends(log_line(prefix, line), line),
        starts(log_line(prefix, line), seq!['['] + prefix + seq![']']),
        finished_log(status, out_bytes, err_bytes, stderr).len() == if trimmed(stderr).len() > 0 {
            2int
        } else {
            1
        },
        trimmed(stderr).len() > 0 ==> ends(
            finished_log(status, out_bytes, err_bytes, stderr)[1],
            trimmed(stderr),
        ),
{
    let s = log_line(prefix, line);
    assert("["@ =~= seq!['['] && "] "@ =~= seq![']', ' ']) by {
        reveal_strlit("[");
        reveal_strlit("] ");
    }
    assert(s.subrange(s.len() - line.len(), s.len() as int) =~= line);
    let head = seq!['['] + prefix + seq![']'];
    assert(s.subrange(0, head.len() as int) =~= head);
    if trimmed(stderr).len() > 0 {
        let t = finished_log(status, out_bytes, err_bytes, stderr)[1];
        assert(t.subrange(t.len() - trimmed(stderr).len(), t.len() as int) =~= trimmed(stderr));
    }
}

// ---------------------------------------------------------------------------
// Benchmark
// ---------------------------------------------------------------------------

/// A benchmark encodes thirty seconds at thirty frames a second, in the size and with
/// the encoder that are asked for, at final quality and without sound.
pub proof fn law_a_benchmark_encodes_nine_hundred_frames(
    width: nat,
    height: nat,
    encoder: ResolvedEncoder,
    out: Seq<char>,
)
    ensures
        ({
            let args = benchmark_request(width, height, encoder, out);
            &&& args.last() == out
            &&& exists|source: Seq<char>|
                {
                    &&& #[trigger] gives(args, "-i"@, source)
                    &&& starts(source, "testsrc2=s="@ + decimal(width) + "x"@ + decimal(height)
                        + ":"@)
                    &&& states(source, "r="@, "30"@)
                    &&& ends(source, ":d=30"@)
                }
            &&& exists|a: Seq<Seq<char>>, b: Seq<Seq<char>>, c: Seq<Seq<char>>| #[trigger]
                (a + b + c) == args && encodes(b, encoder.kind, QualityTier::Final)
        }),
{
    let args = benchmark_request(width, height, encoder, out);
    let size = "testsrc2=s="@ + decimal(width) + "x"@ + decimal(height);
    let source = size + ":r=30:d=30"@;
    let head = seq!["-y"@, "-f"@, "lavfi"@, "-i"@, source];
    let block = encoder.spec_video_args(QualityTier::Final);
    law_encoders_encode(encoder, QualityTier::Final);
    assert(args == head + block + seq!["-an"@, out]);
    assert(args[3] == "-i"@ && args[4] == source);
    lemma_gives(args, 3, "-i"@, source);
    assert(":r=30:d=30"@ =~= ":"@ + "r="@ + "30"@ + ":d=30"@) by {
        reveal_strlit(":r=30:d=30");
        reveal_strlit(":");
        reveal_strlit("r=");
        reveal_strlit("30");
        reveal_strlit(":d=30");
    }
    assert(":d=30"@.len() > 0 && ":d=30"@[0] == ':') by {
        reveal_strlit(":d=30");
    }
    assert(source =~= (size + ":"@) + "r="@ + "30"@ + ":d=30"@);
    lemma_states(source, size + ":"@, "r="@, "30"@, ":d=30"@);
    let front = size + ":"@;
    assert(source.subrange(0, front.len() as int) =~= front);
    assert(source.subrange(source.len() - ":d=30"@.len(), source.len() as int) =~= ":d=30"@);
}

/// The speed of a benchmark is its nine hundred frames over its time, to the nearest
/// frame, and a size is shown to the nearest tenth of a mebibyte.
pub proof fn law_benchmarks_are_rounded_to_the_nearest(elapsed_us: nat, bytes: nat)
    requires
        elapsed_us > 0,
    ensures
        ({
            let fps = frames_per_second(elapsed_us) as int;
            &&& 2 * (fps * elapsed_us - 900 * 1_000_000) <= elapsed_us
            &&& 2 * (900 * 1_000_000 - fps * elapsed_us) <= elapsed_us
        }),
        exists|tenths: nat|
            {
                &&& mebibytes(bytes) == #[trigger] fixed_point(tenths, 10, 1)
                &&& 2 * (tenths * 1_048_576 - bytes * 10) <= 1_048_576
                &&& 2 * (bytes * 10 - tenths * 1_048_576) <= 1_048_576
            },
{
    law_rounding_is_to_the_nearest(900_000_000, elapsed_us);
    law_rounding_is_to_the_nearest(bytes * 10, 1_048_576);
    let tenths = nearest_even(bytes * 10, 1_048_576);
    assert(mebibytes(bytes) == fixed_point(tenths, 10, 1));
}

/// The log names each encoder once, with whether it can be used.
pub proof fn law_every_encoder_is_reported(support: EncoderSupport)
    ensures
        ({
            let lines = support_lines(support);
            let n = lines.len() as int;
            &&& n == 3 + if support.gpus@.len() > 0 {
                1int
            } else {
                0
            }
            &&& lines[n - 3] == encoder_line("NVENC"@, support.nvenc)
            &&& lines[n - 2] == encoder_line("Quick Sync"@, support.qsv)
            &&& lines[n - 1] == encoder_line("AMF"@, support.amf)
        }),
        forall|name: Seq<char>, a: Availability|
            a is Available ==> ends(#[trigger] encoder_line(name, a), ": available"@),
        forall|name: Seq<char>, a: Availability|
            a is Unavailable ==> ends(
                #[trigger] encoder_line(name, a),
                "("@ + a->Unavailable_0@ + ")"@,
            ),
{
    assert forall|name: Seq<char>, a: Availability| a is Available implies ends(
        #[trigger] encoder_line(name, a),
        ": available"@,
    ) by {
        let s = encoder_line(name, a);
        assert(s.subrange(s.len() - ": available"@.len(), s.len() as int) =~= ": available"@);
    }
    assert forall|name: Seq<char>, a: Availability| a is Unavailable implies ends(
        #[trigger] encoder_line(name, a),
        "("@ + a->Unavailable_0@ + ")"@,
    ) by {
        let s = encoder_line(name, a);
        let tail = "("@ + a->Unavailable_0@ + ")"@;
        assert(": unavailable ("@ =~= ": unavailable "@ + "("@) by {
            reveal_strlit(": unavailable (");
            reveal_strlit(": unavailable ");
            reveal_strlit("(");
        }
        assert(s =~= ("Encoder "@ + name + ": unavailable "@) + tail);
        assert(s.subrange(s.len() - tail.len(), s.len() as int) =~= tail);
    }
}

// ---------------------------------------------------------------------------
// Setup
// ---------------------------------------------------------------------------

/// An installation asks winget for the tool's own package, without questions.
pub proof fn law_each_tool_is_installed_from_its_package(tool: Tool)
    ensures
        winget_request(tool)[0] == "install"@,
        tool == Tool::Ffmpeg ==> gives(winget_request(tool), "--id"@, "Gyan.FFmpeg"@),
        tool == Tool::YtDlp ==> gives(winget_request(tool), "--id"@, "yt-dlp.yt-dlp"@),
        gives(winget_request(tool), "--source"@, "winget"@),
        winget_request(tool).contains("--accept-source-agreements"@),
        winget_request(tool).contains("--accept-package-agreements"@),
        winget_request(tool).contains("--disable-interactivity"@),
{
    let args = winget_request(tool);
    lemma_gives(args, 1, "--id"@, tool.spec_id());
    lemma_gives(args, 4, "--source"@, "winget"@);
    assert(args[6] == "--accept-source-agreements"@ && args[7] == "--accept-package-agreements"@
        && args[8] == "--disable-interactivity"@);
}

/// An installation is a success exactly when winget ran and said so. A failure gives the
/// end of what was printed, and asks for administrator rights where the output does.
pub proof fn law_an_installation_is_what_winget_says(
    tool: Tool,
    run: Result<(bool, String, String), String>,
    r: InstallOutcome,
)
    requires
        is_install_outcome(tool, run, r),
    ensures
        r.result is Ok <==> run is Ok && (run->Ok_0).0,
        r.result is Err ==> r.progress@.len() == 0 && (r.result->Err_0).0@.len() > 0,
        r.result is Ok ==> r.progress@.len() > 0 && ends(
            r.progress@.last()@,
            tool.spec_label() + " installed."@,
        ),
        run is Ok && !(run->Ok_0).0 ==> ((r.result->Err_0).1 <==> ({
            let lower = lowered((run->Ok_0).1@ + "\n"@ + (run->Ok_0).2@);
            ||| contains(lower, "elevat"@)
            ||| contains(lower, "administrator"@)
            ||| contains(lower, "access is denied"@)
            ||| contains(lower, "0x80073cf9"@)
        })),
{
    assert("winget failed to install "@.len() > 0 && "could not run winget: "@.len() > 0) by {
        reveal_strlit("winget failed to install ");
        reveal_strlit("could not run winget: ");
    }
    if r.result is Ok {
        let shown = crate::text::views(r.progress@);
        assert(shown.len() == r.progress@.len());
        let last = shown.last();
        assert(last == r.progress@.last()@);
        let tail = tool.spec_label() + " installed."@;
        assert(last == tail);
        assert(last.subrange(0, last.len() as int) =~= tail);
    }
}

/// The end of a failed installation's output is its last five lines that are not blank.
pub proof fn law_the_last_five_lines_explain_a_failure(tool: Tool, output: Seq<char>)
    ensures
        ({
            let lines = filled(lines_of(output));
            let last = last_five(lines);
            &&& last.len() == if lines.len() < 5 {
                lines.len() as int
            } else {
                5
            }
            &&& forall|i: int|
                0 <= i < last.len() ==> #[trigger] last[i] == lines[lines.len() - last.len() + i]
            &&& joined(last, "\n"@).len() > 0 ==> winget_error(tool, output) == joined(last, "\n"@)
        }),
{
}

/// A setup that succeeds says so and no more. One that fails names every tool that
/// failed, ffmpeg first, and always ends with how to install by hand.
pub proof fn law_a_failed_setup_says_what_to_do(
    ffmpeg: ToolOutcome,
    ytdlp: ToolOutcome,
    platform: Platform,
)
    ensures
        !setup_succeeded(ffmpeg, ytdlp) ==> ends(
            setup_message(ffmpeg, ytdlp, platform),
            "\n\n"@ + instructions(platform),
        ),
        setup_succeeded(ffmpeg, ytdlp) ==> setup_message(ffmpeg, ytdlp, platform)
            == "Tools installed and detected successfully."@,
        setup_errors(ffmpeg, ytdlp).len() == (if ffmpeg.failed() {
            1int
        } else {
            0
        }) + if ytdlp.failed() {
            1int
        } else {
            0
        },
        ffmpeg.failed() ==> setup_errors(ffmpeg, ytdlp)[0] == "ffmpeg: "@ + (ffmpeg.error->0).0@,
        ytdlp.failed() ==> setup_errors(ffmpeg, ytdlp).last() == "yt-dlp: "@ + (ytdlp.error->0).0@,
{
    if !setup_succeeded(ffmpeg, ytdlp) {
        let m = setup_message(ffmpeg, ytdlp, platform);
        let tail = "\n\n"@ + instructions(platform);
        if setup_errors(ffmpeg, ytdlp).len() > 0 {
            assert(m =~= joined(setup_errors(ffmpeg, ytdlp), "\n\n"@) + tail);
        } else {
            let said = "Installation finished but the tools were still not detected."@;
            assert("Installation finished but the tools were still not detected.\n\n"@ =~= said
                + "\n\n"@) by {
                reveal_strlit("Installation finished but the tools were still not detected.\n\n");
                reveal_strlit("Installation finished but the tools were still not detected.");
                reveal_strlit("\n\n");
            }
            assert(m =~= said + tail);
        }
        assert(m.subrange(m.len() - tail.len(), m.len() as int) =~= tail);
    }
}

/// A tool that is not there is reported as missing, by its name and with what to do; any
/// other error of starting it is handed on.
pub proof fn law_a_missing_tool_is_told_from_a_broken_one(
    program: Seq<char>,
    not_found: bool,
    detail: Seq<char>,
)
    ensures
        contains(start_error(program, not_found, detail), seq!['\''] + program + seq!['\'']),
        !not_found ==> ends(start_error(program, not_found, detail), detail),
        not_found ==> ends(
            start_error(program, not_found, detail),
            " was not found. Install it and/or set its path in Settings."@,
        ),
{
    let e = start_error(program, not_found, detail);
    let key = seq!['\''] + program + seq!['\''];
    if not_found {
        let tail = " was not found. Install it and/or set its path in Settings."@;
        assert("' was not found. Install it and/or set its path in Settings."@ =~= seq!['\''] + tail
            && "'"@ =~= seq!['\'']) by {
            reveal_strlit("' was not found. Install it and/or set its path in Settings.");
            reveal_strlit(" was not found. Install it and/or set its path in Settings.");
            reveal_strlit("'");
        }
        assert(e =~= key + tail);
        assert(e.subrange(0, key.len() as int) =~= key);
        assert(occurs_at(e, key, 0));
        assert(e.subrange(e.len() - tail.len(), e.len() as int) =~= tail);
    } else {
        let head = "failed to start "@;
        assert("failed to start '"@ =~= head + seq!['\''] && "': "@ =~= seq!['\'', ':', ' ']) by {
            reveal_strlit("failed to start '");
            reveal_strlit("failed to start ");
            reveal_strlit("': ");
        }
        assert(e =~= head + key + seq![':', ' '] + detail);
        let at = head.len() as int;
        assert(e.subrange(at, at + key.len()) =~= key);
        assert(occurs_at(e, key, at));
        assert(e.subrange(e.len() - detail.len(), e.len() as int) =~= detail);
    }
}

} // verus!
