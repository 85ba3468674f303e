//! The text around external tools: how a command line reads in the log, what a
//! failed run is reported as, which part of its output is kept.
use vstd::prelude::*;
use vstd::string::*;

use crate::text;
use crate::text::{
    contains, decimal, joined, law_trimmed_has_no_outer_space, lines_of, signed_decimal, trimmed,
    views,
};

verus! {

/// An argument as the log shows it: in quotes where it holds a space.
pub open spec fn quoted(arg: Seq<char>) -> Seq<char> {
    if contains(arg, " "@) {
        "\""@ + arg + "\""@
    } else {
        arg
    }
}

/// The program and its arguments as the log shows them.
pub open spec fn shown_command(program: Seq<char>, args: Seq<Seq<char>>) -> Seq<Seq<char>> {
    seq![program] + Seq::new(args.len(), |i: int| quoted(args[i]))
}

/// Human-readable command line for logging.
pub fn describe(program: &str, args: &[String]) -> (r: String)
    ensures
        r@ == joined(shown_command(program@, views(args@)), " "@),
{
    let mut parts: Vec<String> = Vec::new();
    text::put(&mut parts, program);
    let ghost shown = Seq::new(args@.len(), |i: int| quoted(views(args@)[i]));
    assert(views(parts@) =~= seq![program@] + shown.take(0));
    for i in 0..args.len()
        invariant
            shown == Seq::new(args@.len(), |i: int| quoted(views(args@)[i])),
            views(parts@) == seq![program@] + shown.take(i as int),
    {
        if text::has(args[i].as_str(), " ") {
            let mut s = "\"".to_owned();
            s.append(args[i].as_str());
            s.append("\"");
            text::put(&mut parts, s.as_str());
        } else {
            text::put(&mut parts, args[i].as_str());
        }
        assert(views(parts@) =~= seq![program@] + shown.take(i + 1));
    }
    assert(shown.take(args@.len() as int) =~= shown);
    text::join(parts.as_slice(), " ")
}

/// The error for a tool that could not be started.
pub open spec fn start_error(program: Seq<char>, not_found: bool, detail: Seq<char>) -> Seq<char> {
    (if not_found {
        "'"@ + program + "' was not found. Install it and/or set its path in Settings."@
    } else {
        "failed to start '"@ + program + "': "@ + detail
    })
}

/// The error for a tool that could not be started.
pub fn spawn_err(program: &str, not_found: bool, detail: &str) -> (r: String)
    ensures
        r@ == start_error(program@, not_found, detail@),
{
    if not_found {
        let mut s = "'".to_owned();
        s.append(program);
        s.append("' was not found. Install it and/or set its path in Settings.");
        s
    } else {
        let mut s = "failed to start '".to_owned();
        s.append(program);
        s.append("': ");
        s.append(detail);
        s
    }
}

// ---------------------------------------------------------------------------
// Streaming output
// ---------------------------------------------------------------------------

/// How many lines of stderr an error quotes.
pub const TAIL_LINES: usize = 8;

/// A line of output as the log shows it, behind the tool's name.
pub open spec fn log_line(prefix: Seq<char>, line: Seq<char>) -> Seq<char> {
    "["@ + prefix + "] "@ + line
}

fn tagged(prefix: &str, line: &str) -> (r: String)
    ensures
        r@ == log_line(prefix@, line@),
{
    let mut s = "[".to_owned();
    s.append(prefix);
    s.append("] ");
    s.append(line);
    s
}

/// The log line for a line of stdout; blank lines are not logged.
pub fn stdout_line(prefix: &str, line: &str) -> (r: Option<String>)
    ensures
        match r {
            Some(s) => trimmed(line@).len() > 0 && s@ == log_line(prefix@, line@),
            None => trimmed(line@).len() == 0,
        },
{
    if text::trim(line).as_str().is_empty() {
        None
    } else {
        Some(tagged(prefix, line))
    }
}

/// The lines that are kept of a stream so far: the last ones, trimmed, blank
/// ones left out.
pub open spec fn kept_tail(lines: Seq<Seq<char>>) -> Seq<Seq<char>>
    decreases lines.len(),
{
    if lines.len() == 0 {
        Seq::empty()
    } else {
        let before = kept_tail(lines.drop_last());
        let line = trimmed(lines.last());
        if line.len() == 0 {
            before
        } else if before.len() < TAIL_LINES {
            before.push(line)
        } else {
            before.push(line).skip(1)
        }
    }
}

/// The end of a tool's stderr, for its error message.
pub struct StderrTail {
    lines: Vec<String>,
    seen: Ghost<Seq<Seq<char>>>,
}

impl StderrTail {
    /// The lines that were seen.
    pub closed spec fn seen(self) -> Seq<Seq<char>> {
        self.seen@
    }

    /// The lines that are kept are the tail of those that were seen.
    pub closed spec fn well_formed(self) -> bool {
        views(self.lines@) == kept_tail(self.seen@) && self.lines@.len() <= TAIL_LINES
    }

    /// Nothing has been seen yet.
    pub fn new() -> (r: Self)
        ensures
            r.well_formed(),
            r.seen() == Seq::<Seq<char>>::empty(),
    {
        let lines: Vec<String> = Vec::new();
        assert(views(lines@) =~= kept_tail(Seq::empty()));
        StderrTail { lines, seen: Ghost(Seq::empty()) }
    }

    /// Takes the next line in, and hands out what the log shows of it.
    pub fn push(&mut self, prefix: &str, line: &str) -> (r: Option<String>)
        requires
            old(self).well_formed(),
        ensures
            final(self).well_formed(),
            final(self).seen() == old(self).seen().push(line@),
            match r {
                Some(s) => trimmed(line@).len() > 0 && s@ == log_line(prefix@, trimmed(line@)),
                None => trimmed(line@).len() == 0,
            },
    {
        let t = text::trim(line);
        let ghost before = self.seen@;
        self.seen = Ghost(self.seen@.push(line@));
        assert(self.seen@.drop_last() =~= before);
        if t.as_str().is_empty() {
            return None;
        }
        text::put(&mut self.lines, t.as_str());
        if self.lines.len() > TAIL_LINES {
            let ghost full = self.lines@;
            let _first = self.lines.remove(0);
            assert(views(self.lines@) =~= views(full).skip(1));
        }
        Some(tagged(prefix, t.as_str()))
    }

    /// The error for a run that failed: the exit code (a run that a signal ended
    /// has none) and the end of its stderr.
    pub fn failure(&self, program: &str, code: Option<i32>) -> (r: String)
        requires
            self.well_formed(),
        ensures
            r@ == exit_failure(program@, code, kept_tail(self.seen())),
    {
        let mut s = program.to_owned();
        s.append(" exited with code ");
        match code {
            Some(c) => s.append(text::dec_signed(c as i64).as_str()),
            None => s.append("signal"),
        }
        s.append("\n\nstderr:\n");
        s.append(text::join(self.lines.as_slice(), "\n").as_str());
        s
    }
}

/// The exit code as messages show it.
pub open spec fn code_text(code: Option<i32>, missing: Seq<char>) -> Seq<char> {
    match code {
        Some(c) => signed_decimal(c as int),
        None => missing,
    }
}

/// The error text of a failed run.
pub open spec fn exit_failure(
    program: Seq<char>,
    code: Option<i32>,
    tail: Seq<Seq<char>>,
) -> Seq<char> {
    program + " exited with code "@ + code_text(code, "signal"@) + "\n\nstderr:\n"@ + joined(
        tail,
        "\n"@,
    )
}

/// Never more than the last lines of stderr are quoted, each one trimmed and none
/// blank. A blank line changes nothing of what is quoted; any other one is the last
/// that is, behind as many of the lines quoted before as there is room for.
pub proof fn law_tail_is_short_and_ends_with_the_newest_line(lines: Seq<Seq<char>>)
    ensures
        kept_tail(lines).len() <= TAIL_LINES,
        forall|i: int|
            0 <= i < kept_tail(lines).len() ==> (#[trigger] kept_tail(lines)[i]).len() > 0
                && trimmed(kept_tail(lines)[i]) == kept_tail(lines)[i],
        lines.len() > 0 ==> {
            let before = kept_tail(lines.drop_last());
            let line = trimmed(lines.last());
            if line.len() == 0 {
                kept_tail(lines) == before
            } else {
                &&& kept_tail(lines).last() == line
                &&& kept_tail(lines).len() == if before.len() < TAIL_LINES {
                    before.len() + 1
                } else {
                    TAIL_LINES as nat
                }
            }
        },
    decreases lines.len(),
{
    if lines.len() > 0 {
        law_tail_is_short_and_ends_with_the_newest_line(lines.drop_last());
        law_trimmed_has_no_outer_space(lines.last());
    }
}

// ---------------------------------------------------------------------------
// Captured output
// ---------------------------------------------------------------------------

/// The lines that the tool log gets for a finished run: its exit status and
/// sizes, and its stderr where that is not blank.
pub open spec fn finished_log(
    status: Seq<char>,
    stdout_bytes: nat,
    stderr_bytes: nat,
    stderr: Seq<char>,
) -> Seq<Seq<char>> {
    let first = seq![
        "=== exit: "@ + status + " | stdout: "@ + decimal(stdout_bytes) + " bytes | stderr: "@
            + decimal(stderr_bytes) + " bytes"@,
    ];
    if trimmed(stderr).len() > 0 {
        first.push("--- stderr ---\n"@ + trimmed(stderr))
    } else {
        first
    }
}

/// The tool-log lines of a finished run.
pub fn capture_log(status: &str, stdout: &str, stderr: &str) -> (r: Vec<String>)
    ensures
        views(r@) == finished_log(
            status@,
            stdout.spec_bytes().len(),
            stderr.spec_bytes().len(),
            stderr@,
        ),
{
    let mut lines: Vec<String> = Vec::new();
    let mut s = "=== exit: ".to_owned();
    s.append(status);
    s.append(" | stdout: ");
    s.append(text::dec(stdout.as_bytes().len() as u64).as_str());
    s.append(" bytes | stderr: ");
    s.append(text::dec(stderr.as_bytes().len() as u64).as_str());
    s.append(" bytes");
    text::put(&mut lines, s.as_str());
    let err = text::trim(stderr);
    if !err.as_str().is_empty() {
        let mut e = "--- stderr ---\n".to_owned();
        e.append(err.as_str());
        text::put(&mut lines, e.as_str());
    }
    assert(views(lines@) =~= finished_log(
        status@,
        stdout.spec_bytes().len(),
        stderr.spec_bytes().len(),
        stderr@,
    ));
    lines
}

/// The version that a tool printed: its first line, trimmed; none where it
/// could not run or failed (`None`), or printed nothing.
pub fn version_of(stdout: Option<&str>) -> (r: Option<String>)
    ensures
        match r {
            Some(v) => stdout is Some && lines_of(stdout->0@).len() > 0 && v@ == trimmed(
                lines_of(stdout->0@)[0],
            ),
            None => stdout is None || lines_of(stdout->0@).len() == 0,
        },
{
    match stdout {
        None => None,
        Some(out) => {
            let lines = text::lines(out);
            assert(views(lines@).len() == lines@.len());
            if lines.len() == 0 {
                None
            } else {
                assert(views(lines@)[0] == lines@[0]@);
                Some(text::trim(lines[0].as_str()))
            }
        },
    }
}

} // verus!
