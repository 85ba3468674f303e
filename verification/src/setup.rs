//! The setup assistant: what is asked of winget to get the tools onto a machine,
//! and what its answers amount to.
use vstd::prelude::*;
use vstd::string::*;

use crate::platform::Platform;
use crate::text;
use crate::text::{contains, joined, lines_of, lowered, trimmed, views};

verus! {

/// A tool that the assistant can install.
#[derive(Debug, Clone, Copy, PartialEq, Eq, Structural)]
pub enum Tool {
    Ffmpeg,
    YtDlp,
}

impl Tool {
    pub open spec fn spec_id(self) -> Seq<char> {
        match self {
            Tool::Ffmpeg => "Gyan.FFmpeg"@,
            Tool::YtDlp => "yt-dlp.yt-dlp"@,
        }
    }

    /// The winget package of the tool.
    pub fn id(self) -> (r: &'static str)
        ensures
            r@ == self.spec_id(),
    {
        match self {
            Tool::Ffmpeg => "Gyan.FFmpeg",
            Tool::YtDlp => "yt-dlp.yt-dlp",
        }
    }

    pub open spec fn spec_label(self) -> Seq<char> {
        match self {
            Tool::Ffmpeg => "ffmpeg"@,
            Tool::YtDlp => "yt-dlp"@,
        }
    }

    /// The name of the tool.
    pub fn label(self) -> (r: &'static str)
        ensures
            r@ == self.spec_label(),
    {
        match self {
            Tool::Ffmpeg => "ffmpeg",
            Tool::YtDlp => "yt-dlp",
        }
    }
}

/// How to install the tools by hand on a platform.
pub open spec fn instructions(platform: Platform) -> Seq<char> {
    match platform {
        Platform::Windows => "Install manually, then click \"recheck\":\n• ffmpeg:  winget install Gyan.FFmpeg   (or download from https://ffmpeg.org)\n• yt-dlp:  winget install yt-dlp.yt-dlp (or download from https://github.com/yt-dlp/yt-dlp)"@,
        Platform::MacOs => "Install manually with Homebrew, then click \"recheck\":\n• brew install ffmpeg\n• brew install yt-dlp"@,
        Platform::Other => "Install manually with your package manager, then click \"recheck\":\n• sudo apt install ffmpeg   (or your distro's equivalent)\n• sudo apt install yt-dlp   (or: pipx install yt-dlp)"@,
    }
}

/// Install instructions to copy, for a platform.
pub fn manual_instructions(platform: Platform) -> (r: String)
    ensures
        r@ == instructions(platform),
{
    match platform {
        Platform::Windows => "Install manually, then click \"recheck\":\n• ffmpeg:  winget install Gyan.FFmpeg   (or download from https://ffmpeg.org)\n• yt-dlp:  winget install yt-dlp.yt-dlp (or download from https://github.com/yt-dlp/yt-dlp)".to_owned(),
        Platform::MacOs => "Install manually with Homebrew, then click \"recheck\":\n• brew install ffmpeg\n• brew install yt-dlp".to_owned(),
        Platform::Other => "Install manually with your package manager, then click \"recheck\":\n• sudo apt install ffmpeg   (or your distro's equivalent)\n• sudo apt install yt-dlp   (or: pipx install yt-dlp)".to_owned(),
    }
}

/// What is said when an installation starts.
pub fn winget_start_line(tool: Tool) -> (r: String)
    ensures
        r@ == "Installing "@ + tool.spec_label() + "  (winget install "@ + tool.spec_id()
            + ") — this can take a minute..."@,
{
    let mut s = "Installing ".to_owned();
    s.append(tool.label());
    s.append("  (winget install ");
    s.append(tool.id());
    s.append(") — this can take a minute...");
    s
}

/// The winget arguments that install a tool.
pub open spec fn winget_request(tool: Tool) -> Seq<Seq<char>> {
    seq![
        "install"@,
        "--id"@,
        tool.spec_id(),
        "-e"@,
        "--source"@,
        "winget"@,
        "--accept-source-agreements"@,
        "--accept-package-agreements"@,
        "--disable-interactivity"@,
    ]
}

/// The winget arguments that install a tool.
pub fn winget_args(tool: Tool) -> (r: Vec<String>)
    ensures
        views(r@) == winget_request(tool),
{
    let r = text::list(
        vec![
            "install",
            "--id",
            tool.id(),
            "-e",
            "--source",
            "winget",
            "--accept-source-agreements",
            "--accept-package-agreements",
            "--disable-interactivity",
        ],
    );
    assert(views(r@) =~= winget_request(tool));
    r
}

/// The lines of a list that are not blank, trimmed.
pub open spec fn filled(lines: Seq<Seq<char>>) -> Seq<Seq<char>>
    decreases lines.len(),
{
    if lines.len() == 0 {
        Seq::empty()
    } else {
        let before = filled(lines.drop_last());
        let line = trimmed(lines.last());
        if line.len() > 0 {
            before.push(line)
        } else {
            before
        }
    }
}

fn filled_lines(lines: &Vec<String>) -> (r: Vec<String>)
    ensures
        views(r@) == filled(views(lines@)),
{
    let ghost all = views(lines@);
    let mut out: Vec<String> = Vec::new();
    assert(views(out@) =~= filled(all.take(0)));
    for i in 0..lines.len()
        invariant
            all == views(lines@),
            views(out@) == filled(all.take(i as int)),
    {
        assert(all.take(i + 1).drop_last() =~= all.take(i as int));
        assert(all.take(i + 1).last() == lines@[i as int]@);
        let t = text::trim(lines[i].as_str());
        if !t.as_str().is_empty() {
            text::put(&mut out, t.as_str());
        }
    }
    assert(all.take(lines@.len() as int) =~= all);
    out
}

/// What the assistant shows of an installation that succeeded: what was printed,
/// indented, and that it is done.
pub open spec fn progress_lines(tool: Tool, stdout: Seq<char>, stderr: Seq<char>) -> Seq<
    Seq<char>,
> {
    let shown = filled(lines_of(stdout) + lines_of(stderr));
    Seq::new(shown.len(), |i: int| "  "@ + shown[i]).push(tool.spec_label() + " installed."@)
}

/// Whether a failed installation, by its output in lower case, needs
/// administrator rights.
pub open spec fn wants_elevation(lower: Seq<char>) -> bool {
    contains(lower, "elevat"@) || contains(lower, "administrator"@) || contains(
        lower,
        "access is denied"@,
    ) || contains(lower, "0x80073cf9"@)
}

/// The last five entries of a list.
pub open spec fn last_five(lines: Seq<Seq<char>>) -> Seq<Seq<char>> {
    if lines.len() <= 5 {
        lines
    } else {
        lines.skip(lines.len() - 5)
    }
}

/// The error of a failed installation: the end of what was printed.
pub open spec fn winget_error(tool: Tool, combined: Seq<char>) -> Seq<char> {
    let tail = joined(last_five(filled(lines_of(combined))), "\n"@);
    if tail.len() == 0 {
        "winget failed to install "@ + tool.spec_label()
    } else {
        tail
    }
}

/// How an installation came out: what the assistant shows, and the error with
/// whether it needs administrator rights.
pub struct InstallOutcome {
    pub progress: Vec<String>,
    pub result: Result<(), (String, bool)>,
}

/// Whether a failed installation, by its output in lower case, needs
/// administrator rights.
pub fn lowered_wants_elevation(lower: &str) -> (r: bool)
    ensures
        r == wants_elevation(lower@),
{
    text::has(lower, "elevat") || text::has(lower, "administrator") || text::has(
        lower,
        "access is denied",
    ) || text::has(lower, "0x80073cf9")
}

fn error_tail(tool: Tool, combined: &str) -> (r: String)
    ensures
        r@ == winget_error(tool, combined@),
{
    let lines = filled_lines(&text::lines(combined));
    let ghost all = views(lines@);
    let from: usize = if lines.len() <= 5 { 0 } else { lines.len() - 5 };
    let mut kept: Vec<String> = Vec::new();
    assert(views(kept@) =~= all.subrange(from as int, from as int));
    for i in from..lines.len()
        invariant
            all == views(lines@),
            from <= lines@.len(),
            views(kept@) == all.subrange(from as int, i as int),
    {
        text::put(&mut kept, lines[i].as_str());
        assert(views(kept@) =~= all.subrange(from as int, i + 1));
    }
    assert(all.subrange(from as int, lines@.len() as int) =~= last_five(all));
    let tail = text::join(kept.as_slice(), "\n");
    if tail.as_str().is_empty() {
        let mut s = "winget failed to install ".to_owned();
        s.append(tool.label());
        s
    } else {
        tail
    }
}

/// Whether this is what a winget run amounts to.
pub open spec fn is_install_outcome(
    tool: Tool,
    run: Result<(bool, String, String), String>,
    r: InstallOutcome,
) -> bool {
    match run {
        Ok((true, stdout, stderr)) => {
            &&& r.result is Ok
            &&& views(r.progress@) == progress_lines(tool, stdout@, stderr@)
        },
        Ok((false, stdout, stderr)) => {
            let combined = stdout@ + "\n"@ + stderr@;
            &&& r.progress@.len() == 0
            &&& r.result is Err
            &&& (r.result->Err_0).0@ == winget_error(tool, combined)
            &&& (r.result->Err_0).1 == wants_elevation(lowered(combined))
        },
        Err(e) => {
            &&& r.progress@.len() == 0
            &&& r.result is Err
            &&& (r.result->Err_0).0@ == "could not run winget: "@ + e@
            &&& (r.result->Err_0).1 == contains(lowered(e@), "elevat"@)
        },
    }
}

/// What a winget run amounts to: `run` holds whether it succeeded and what it
/// printed, or why it could not be made.
pub fn run_winget(tool: Tool, run: &Result<(bool, String, String), String>) -> (r: InstallOutcome)
    ensures
        is_install_outcome(tool, *run, r),
{
    let mut progress: Vec<String> = Vec::new();
    match run {
        Ok((success, stdout, stderr)) => {
            if *success {
                let mut lines = text::lines(stdout.as_str());
                text::put_all(&mut lines, text::lines(stderr.as_str()).as_slice());
                let shown = filled_lines(&lines);
                let ghost all = Seq::new(
                    shown@.len(),
                    |i: int| "  "@ + views(shown@)[i],
                );
                assert(views(progress@) =~= all.take(0));
                for i in 0..shown.len()
                    invariant
                        all == Seq::new(shown@.len(), |i: int| "  "@ + views(shown@)[i]),
                        views(progress@) == all.take(i as int),
                {
                    let mut s = "  ".to_owned();
                    s.append(shown[i].as_str());
                    text::put(&mut progress, s.as_str());
                    assert(views(progress@) =~= all.take(i + 1));
                }
                assert(all.take(shown@.len() as int) =~= all);
                let mut done = tool.label().to_owned();
                done.append(" installed.");
                text::put(&mut progress, done.as_str());
                assert(views(progress@) =~= progress_lines(tool, stdout@, stderr@));
                InstallOutcome { progress, result: Ok(()) }
            } else {
                let mut combined = stdout.clone();
                combined.append("\n");
                combined.append(stderr.as_str());
                let lower = text::to_lowercase(combined.as_str());
                let elevation = lowered_wants_elevation(lower.as_str());
                InstallOutcome {
                    progress,
                    result: Err((error_tail(tool, combined.as_str()), elevation)),
                }
            }
        },
        Err(e) => {
            let mut s = "could not run winget: ".to_owned();
            s.append(e.as_str());
            let lower = text::to_lowercase(e.as_str());
            let elevation = text::has(lower.as_str(), "elevat");
            InstallOutcome { progress, result: Err((s, elevation)) }
        },
    }
}

/// The search path that a query printed, where it did: `None` where it failed or
/// printed nothing. And what the assistant says of it.
pub fn refreshed_path(stdout: Option<&str>) -> (r: (Option<String>, String))
    ensures
        if stdout is Some && trimmed(stdout->0@).len() > 0 {
            r.0 is Some && r.0->0@ == trimmed(stdout->0@) && r.1@ == "PATH refreshed."@
        } else {
            r.0 is None && r.1@
                == "Could not refresh PATH automatically (a restart may be needed)."@
        },
{
    if let Some(out) = stdout {
        let path = text::trim(out);
        if !path.as_str().is_empty() {
            return (Some(path), "PATH refreshed.".to_owned());
        }
    }
    (None, "Could not refresh PATH automatically (a restart may be needed).".to_owned())
}

/// How a setup came out as a whole.
pub struct SetupOutcome {
    pub success: bool,
    pub message: String,
    /// Installation failed because administrator rights are required.
    pub needs_elevation: bool,
}

/// How one tool came out: whether it was to be installed, the error where that
/// failed, and whether it was found afterwards.
pub struct ToolOutcome {
    pub wanted: bool,
    pub error: Option<(String, bool)>,
    pub found: bool,
}

impl ToolOutcome {
    /// Whether the tool was to be installed and that failed.
    pub open spec fn failed(self) -> bool {
        self.wanted && self.error is Some
    }

    /// Whether the tool was to be installed and is still not found.
    pub open spec fn absent(self) -> bool {
        self.wanted && !self.found
    }
}

/// The errors of a setup, each with the tool's name.
pub open spec fn setup_errors(ffmpeg: ToolOutcome, ytdlp: ToolOutcome) -> Seq<Seq<char>> {
    let first = if ffmpeg.failed() {
        seq!["ffmpeg: "@ + (ffmpeg.error->0).0@]
    } else {
        Seq::empty()
    };
    if ytdlp.failed() {
        first.push("yt-dlp: "@ + (ytdlp.error->0).0@)
    } else {
        first
    }
}

/// Whether everything that was wanted is installed and found.
pub open spec fn setup_succeeded(ffmpeg: ToolOutcome, ytdlp: ToolOutcome) -> bool {
    !ffmpeg.failed() && !ytdlp.failed() && !ffmpeg.absent() && !ytdlp.absent()
}

/// Whether a setup is reported as one that needs administrator rights.
pub open spec fn needs_rights(ffmpeg: ToolOutcome, ytdlp: ToolOutcome) -> bool {
    &&& !setup_succeeded(ffmpeg, ytdlp)
    &&& (ffmpeg.failed() && (ffmpeg.error->0).1) || (ytdlp.failed() && (ytdlp.error->0).1)
}

/// What a setup is reported as.
pub open spec fn setup_message(
    ffmpeg: ToolOutcome,
    ytdlp: ToolOutcome,
    platform: Platform,
) -> Seq<char> {
    if setup_succeeded(ffmpeg, ytdlp) {
        "Tools installed and detected successfully."@
    } else if setup_errors(ffmpeg, ytdlp).len() > 0 {
        joined(setup_errors(ffmpeg, ytdlp), "\n\n"@) + "\n\n"@ + instructions(platform)
    } else {
        "Installation finished but the tools were still not detected.\n\n"@ + instructions(platform)
    }
}

/// Sums a setup up.
pub fn install_missing(ffmpeg: &ToolOutcome, ytdlp: &ToolOutcome, platform: Platform) -> (r:
    SetupOutcome)
    ensures
        r.success == setup_succeeded(*ffmpeg, *ytdlp),
        r.message@ == setup_message(*ffmpeg, *ytdlp, platform),
        r.needs_elevation == needs_rights(*ffmpeg, *ytdlp),
{
    let mut errors: Vec<String> = Vec::new();
    let mut elevation = false;
    if ffmpeg.wanted {
        if let Some((message, elev)) = &ffmpeg.error {
            let mut s = "ffmpeg: ".to_owned();
            s.append(message.as_str());
            text::put(&mut errors, s.as_str());
            elevation = elevation || *elev;
        }
    }
    if ytdlp.wanted {
        if let Some((message, elev)) = &ytdlp.error {
            let mut s = "yt-dlp: ".to_owned();
            s.append(message.as_str());
            text::put(&mut errors, s.as_str());
            elevation = elevation || *elev;
        }
    }
    assert(views(errors@) =~= setup_errors(*ffmpeg, *ytdlp));
    let ffmpeg_ok = !ffmpeg.wanted || ffmpeg.found;
    let ytdlp_ok = !ytdlp.wanted || ytdlp.found;
    let success = ffmpeg_ok && ytdlp_ok && errors.len() == 0;
    assert(success == setup_succeeded(*ffmpeg, *ytdlp));
    let message = if success {
        "Tools installed and detected successfully.".to_owned()
    } else if errors.len() > 0 {
        let mut s = text::join(errors.as_slice(), "\n\n");
        s.append("\n\n");
        s.append(manual_instructions(platform).as_str());
        s
    } else {
        let mut s = "Installation finished but the tools were still not detected.\n\n".to_owned();
        s.append(manual_instructions(platform).as_str());
        s
    };
    SetupOutcome { success, message, needs_elevation: elevation && !success }
}

/// The version of yt-dlp as it is shown, where there is one.
pub fn ytdlp_label(version: &Option<String>) -> (r: Option<String>)
    ensures
        r is Some == (*version is Some),
        r is Some ==> r->0@ == "yt-dlp "@ + (*version)->0@,
{
    match version {
        Some(v) => {
            let mut s = "yt-dlp ".to_owned();
            s.append(v.as_str());
            Some(s)
        },
        None => None,
    }
}

/// A setup is a success exactly when nothing failed and everything that was wanted
/// is there, and it then never asks for administrator rights; it asks for them only
/// over an installation that failed for want of them.
pub proof fn law_success_needs_no_elevation(ffmpeg: ToolOutcome, ytdlp: ToolOutcome)
    ensures
        setup_succeeded(ffmpeg, ytdlp) <==> setup_errors(ffmpeg, ytdlp).len() == 0 && (
        ffmpeg.wanted ==> ffmpeg.found) && (ytdlp.wanted ==> ytdlp.found),
        setup_succeeded(ffmpeg, ytdlp) ==> !needs_rights(ffmpeg, ytdlp),
        needs_rights(ffmpeg, ytdlp) ==> setup_errors(ffmpeg, ytdlp).len() > 0,
{
}

} // verus!
