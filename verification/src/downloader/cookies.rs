//! SoundCloud authentication via browser cookies.
//!
//! Some tracks' plain streams are served only to a signed-in session. yt-dlp can
//! take the cookies straight from a browser; on Windows the Chromium-based ones
//! seal their cookie database with app-bound encryption, which it cannot read,
//! and closing the browser does not help.
use vstd::prelude::*;
use vstd::string::*;

use crate::config::settings::CookieBrowser;
use crate::downloader::verdict_laws::{is_status, law_a_probe_is_judged_by_what_was_printed};
use crate::text;
use crate::text::{
    contains, decimal, first_index, lines_of, lowered, starts, trimmed,
    unsigned_of, views,
};

verus! {

/// Where yt-dlp gets cookies from for one invocation.
#[derive(Debug, PartialEq, Eq)]
pub enum CookieSource {
    /// Run logged out.
    Anonymous,
    /// `--cookies-from-browser <name>`.
    Browser(CookieBrowser),
    /// `--cookies <file>`.
    File(String),
}

impl Clone for CookieSource {
    fn clone(&self) -> (r: Self)
        ensures
            r == *self,
    {
        match self {
            CookieSource::Anonymous => CookieSource::Anonymous,
            CookieSource::Browser(b) => CookieSource::Browser(*b),
            CookieSource::File(path) => CookieSource::File(path.clone()),
        }
    }
}

/// The yt-dlp arguments that a cookie source stands for.
pub open spec fn cookie_args(source: CookieSource) -> Seq<Seq<char>> {
    match source {
        CookieSource::Anonymous => Seq::empty(),
        CookieSource::Browser(b) => match b.spec_ytdlp_name() {
            Some(name) => seq!["--cookies-from-browser"@, name],
            None => Seq::empty(),
        },
        CookieSource::File(path) => seq!["--cookies"@, path@],
    }
}

impl CookieSource {
    /// Adds the right flag to the arguments of a yt-dlp command. Only ever a
    /// browser name or a path is passed.
    pub fn apply(&self, args: &mut Vec<String>)
        ensures
            views(final(args)@) == views(old(args)@) + cookie_args(*self),
    {
        match self {
            CookieSource::Anonymous => {},
            CookieSource::Browser(b) => {
                if let Some(name) = b.ytdlp_name() {
                    text::put(args, "--cookies-from-browser");
                    text::put(args, name);
                }
            },
            CookieSource::File(path) => {
                text::put(args, "--cookies");
                text::put(args, path.as_str());
            },
        }
        assert(views(args@) =~= views(old(args)@) + cookie_args(*self));
    }

    pub open spec fn spec_describe(self) -> Seq<char> {
        match self {
            CookieSource::Anonymous => "no cookies (anonymous)"@,
            CookieSource::Browser(b) => "--cookies-from-browser "@ + (match b.spec_ytdlp_name() {
                Some(name) => name,
                None => "none"@,
            }),
            CookieSource::File(path) => "--cookies "@ + path@,
        }
    }

    /// How this source reads in a log line.
    pub fn describe(&self) -> (r: String)
        ensures
            r@ == self.spec_describe(),
    {
        match self {
            CookieSource::Anonymous => "no cookies (anonymous)".to_owned(),
            CookieSource::Browser(b) => {
                let mut s = "--cookies-from-browser ".to_owned();
                match b.ytdlp_name() {
                    Some(name) => s.append(name),
                    None => s.append("none"),
                }
                s
            },
            CookieSource::File(path) => {
                let mut s = "--cookies ".to_owned();
                s.append(path.as_str());
                s
            },
        }
    }

    /// Whether this source is logged out.
    pub fn is_none(&self) -> (r: bool)
        ensures
            r == (*self is Anonymous),
    {
        match self {
            CookieSource::Anonymous => true,
            _ => false,
        }
    }
}

/// What a cookie probe found.
#[derive(Debug, Clone, PartialEq, Eq)]
pub enum CookieStatus {
    /// No browser selected.
    Disabled,
    /// Cookies were read.
    Available { count: usize, source: String },
    /// The browser is not installed.
    BrowserNotFound { browser: String },
    /// The database is there but could not be decrypted or opened.
    DecryptFailed { browser: String, app_bound: bool },
    /// Something else went wrong; carries yt-dlp's own wording.
    ProbeFailed { detail: String },
}

/// What a cookie probe found, as values.
pub enum StatusView {
    Disabled,
    Available { count: int, source: Seq<char> },
    BrowserNotFound { browser: Seq<char> },
    DecryptFailed { browser: Seq<char>, app_bound: bool },
    ProbeFailed { detail: Seq<char> },
}

impl View for CookieStatus {
    type V = StatusView;

    open spec fn view(&self) -> StatusView {
        match *self {
            CookieStatus::Disabled => StatusView::Disabled,
            CookieStatus::Available { count, source } => StatusView::Available {
                count: count as int,
                source: source@,
            },
            CookieStatus::BrowserNotFound { browser } => StatusView::BrowserNotFound {
                browser: browser@,
            },
            CookieStatus::DecryptFailed { browser, app_bound } => StatusView::DecryptFailed {
                browser: browser@,
                app_bound,
            },
            CookieStatus::ProbeFailed { detail } => StatusView::ProbeFailed { detail: detail@ },
        }
    }
}

impl StatusView {
    /// The one-line status.
    pub open spec fn headline(self) -> Seq<char> {
        match self {
            StatusView::Disabled => "Not using cookies"@,
            StatusView::Available { count, .. } => "✓ Cookies available ("@ + decimal(count as nat)
                + " cookies)"@,
            StatusView::BrowserNotFound { browser } => "✗ "@ + browser
                + " cookies unavailable. Browser not found."@,
            StatusView::DecryptFailed { .. } => "✗ Cannot access cookies"@,
            StatusView::ProbeFailed { .. } => "✗ Cannot access cookies"@,
        }
    }

    /// What to do about a status that is no success.
    pub open spec fn detail(self) -> Option<Seq<char>> {
        match self {
            StatusView::Disabled => None,
            StatusView::Available { .. } => None,
            StatusView::BrowserNotFound { browser } => Some(
                "yt-dlp found no "@ + browser
                    + " profile on this machine. Pick a browser you actually use, or select None to stay logged out."@,
            ),
            StatusView::DecryptFailed { browser, app_bound } => if app_bound {
                Some(
                    browser
                        + " seals its cookie database with app-bound encryption (Windows DPAPI), which yt-dlp cannot read — closing the browser will not help. Firefox is not affected and is the reliable choice here. Otherwise export cookies manually to a Netscape-format cookies.txt and set it below."@,
                )
            } else {
                Some(
                    "Unable to access "@ + browser
                        + " cookies. Close the browser and try again, or export cookies manually to a Netscape-format cookies.txt and set it below."@,
                )
            },
            StatusView::ProbeFailed { detail } => Some(
                "Unable to access browser cookies. Close the browser and try again, or export cookies manually.\n\nyt-dlp said: "@
                    + detail,
            ),
        }
    }
}

impl CookieStatus {
    /// Whether cookies were read.
    pub fn ok(&self) -> (r: bool)
        ensures
            r == (self@ is Available),
    {
        match self {
            CookieStatus::Available { .. } => true,
            _ => false,
        }
    }

    /// One-line status for the settings panel.
    pub fn headline(&self) -> (r: String)
        ensures
            r@ == self@.headline(),
    {
        match self {
            CookieStatus::Disabled => "Not using cookies".to_owned(),
            CookieStatus::Available { count, source: _ } => {
                let mut s = "✓ Cookies available (".to_owned();
                s.append(text::dec(*count as u64).as_str());
                s.append(" cookies)");
                s
            },
            CookieStatus::BrowserNotFound { browser } => {
                let mut s = "✗ ".to_owned();
                s.append(browser.as_str());
                s.append(" cookies unavailable. Browser not found.");
                s
            },
            CookieStatus::DecryptFailed { browser: _, app_bound: _ } => {
                "✗ Cannot access cookies".to_owned()
            },
            CookieStatus::ProbeFailed { detail: _ } => "✗ Cannot access cookies".to_owned(),
        }
    }

    /// The explanation shown under the status line. It never advises to close the
    /// browser where that changes nothing.
    pub fn detail(&self) -> (r: Option<String>)
        ensures
            r is Some == self@.detail() is Some,
            r is Some ==> r->0@ == self@.detail()->0,
    {
        match self {
            CookieStatus::Disabled => None,
            CookieStatus::Available { count: _, source: _ } => None,
            CookieStatus::BrowserNotFound { browser } => {
                let mut s = "yt-dlp found no ".to_owned();
                s.append(browser.as_str());
                s.append(
                    " profile on this machine. Pick a browser you actually use, or select None to stay logged out.",
                );
                Some(s)
            },
            CookieStatus::DecryptFailed { browser, app_bound } => {
                if *app_bound {
                    let mut s = browser.clone();
                    s.append(
                        " seals its cookie database with app-bound encryption (Windows DPAPI), which yt-dlp cannot read — closing the browser will not help. Firefox is not affected and is the reliable choice here. Otherwise export cookies manually to a Netscape-format cookies.txt and set it below.",
                    );
                    Some(s)
                } else {
                    let mut s = "Unable to access ".to_owned();
                    s.append(browser.as_str());
                    s.append(
                        " cookies. Close the browser and try again, or export cookies manually to a Netscape-format cookies.txt and set it below.",
                    );
                    Some(s)
                }
            },
            CookieStatus::ProbeFailed { detail } => {
                let mut s =
                    "Unable to access browser cookies. Close the browser and try again, or export cookies manually.\n\nyt-dlp said: ".to_owned();
                s.append(detail.as_str());
                Some(s)
            },
        }
    }
}

/// The yt-dlp arguments that read a browser's cookie jar and then stop: the URL
/// resolves locally and fails at once, so nothing touches the network. `None`
/// where no browser is selected.
pub fn probe_args(browser: CookieBrowser) -> (r: Option<Vec<String>>)
    ensures
        r is Some == browser.spec_ytdlp_name() is Some,
        r is Some ==> views(r->0@) == seq![
            "--cookies-from-browser"@,
            browser.spec_ytdlp_name()->0,
            "--simulate"@,
            "file:///soundcloud2mp4-cookie-probe"@,
        ],
{
    match browser.ytdlp_name() {
        None => None,
        Some(name) => {
            let args = text::list(
                vec![
                    "--cookies-from-browser",
                    name,
                    "--simulate",
                    "file:///soundcloud2mp4-cookie-probe",
                ],
            );
            assert(views(args@) =~= seq![
                "--cookies-from-browser"@,
                browser.spec_ytdlp_name()->0,
                "--simulate"@,
                "file:///soundcloud2mp4-cookie-probe"@,
            ]);
            Some(args)
        },
    }
}

/// The number of cookies that a line reports as extracted.
pub open spec fn count_in_line(line: Seq<char>) -> Option<int> {
    let l = trimmed(line);
    if !starts(l, "Extracted "@) {
        None
    } else {
        let rest = l.skip("Extracted "@.len() as int);
        let k = first_index(rest, ' ');
        if k == rest.len() || !starts(rest.skip(k + 1), "cookies"@) {
            None
        } else if unsigned_of(rest.take(k)) is Some && unsigned_of(rest.take(k))->0 <= usize::MAX {
            unsigned_of(rest.take(k))
        } else {
            None
        }
    }
}

/// The first number of cookies that is reported.
pub open spec fn first_count(lines: Seq<Seq<char>>) -> Option<int>
    decreases lines.len(),
{
    if lines.len() == 0 {
        None
    } else if count_in_line(lines[0]) is Some {
        count_in_line(lines[0])
    } else {
        first_count(lines.skip(1))
    }
}

/// The first line, trimmed, that is an error message.
pub open spec fn first_error_line(lines: Seq<Seq<char>>) -> Option<Seq<char>>
    decreases lines.len(),
{
    if lines.len() == 0 {
        None
    } else if starts(lowered(trimmed(lines[0])), "error:"@) {
        Some(trimmed(lines[0]))
    } else {
        first_error_line(lines.skip(1))
    }
}

/// What yt-dlp's output says of a browser's cookies; `lower` is the output in
/// lower case.
pub open spec fn probe_verdict(
    output: Seq<char>,
    lower: Seq<char>,
    browser: Seq<char>,
) -> StatusView {
    match first_count(lines_of(output)) {
        Some(count) => StatusView::Available { count, source: browser },
        None => if contains(lower, "could not find"@) && contains(lower, "cookies database"@) {
            StatusView::BrowserNotFound { browser }
        } else if contains(lower, "failed to decrypt"@) || contains(lower, "dpapi"@) {
            StatusView::DecryptFailed {
                browser,
                app_bound: contains(lower, "dpapi"@) || contains(lower, "10927"@),
            }
        } else if contains(lower, "permission denied"@) || contains(lower, "database is locked"@) {
            StatusView::DecryptFailed { browser, app_bound: false }
        } else {
            StatusView::ProbeFailed {
                detail: match first_error_line(lines_of(output)) {
                    Some(line) => line,
                    None => "no cookies were extracted"@,
                },
            }
        },
    }
}

fn read_count(line: &str) -> (r: Option<usize>)
    ensures
        match r {
            Some(n) => count_in_line(line@) == Some(n as int),
            None => count_in_line(line@) is None,
        },
{
    let l = text::trim(line);
    if !text::has_prefix(l.as_str(), "Extracted ") {
        return None;
    }
    let chars = text::to_chars(l.as_str());
    let skip: usize = text::to_chars("Extracted ").len();
    let ghost rest = chars@.skip(skip as int);
    let k = text::index_from(chars.as_slice(), skip, ' ');
    if k == chars.len() {
        return None;
    }
    let tail = text::slice_of(chars.as_slice(), k + 1, chars.len());
    assert(tail@ =~= rest.skip(k - skip + 1));
    if !text::has_prefix(text::from_chars(tail.as_slice()).as_str(), "cookies") {
        return None;
    }
    let n = text::slice_of(chars.as_slice(), skip, k);
    assert(n@ =~= rest.take(k - skip));
    match text::parse_unsigned(text::from_chars(n.as_slice()).as_str(), usize::MAX as u64) {
        Some(count) => Some(count as usize),
        None => None,
    }
}

/// Pulls the number out of "Extracted N cookies from <browser>".
pub fn extract_count(output: &str) -> (r: Option<usize>)
    ensures
        match r {
            Some(n) => first_count(lines_of(output@)) == Some(n as int),
            None => first_count(lines_of(output@)) is None,
        },
{
    let lines = text::lines(output);
    let ghost all = views(lines@);
    let mut i: usize = 0;
    assert(all.skip(0) =~= all);
    while i < lines.len()
        invariant
            i <= lines@.len(),
            all == views(lines@),
            all == lines_of(output@),
            first_count(all) == first_count(all.skip(i as int)),
        decreases lines@.len() - i,
    {
        assert(all.skip(i as int)[0] == lines@[i as int]@);
        assert(all.skip(i as int).skip(1) =~= all.skip(i + 1));
        let n = read_count(lines[i].as_str());
        if n.is_some() {
            return n;
        }
        i = i + 1;
    }
    None
}

fn error_line(output: &str) -> (r: Option<String>)
    ensures
        match r {
            Some(line) => first_error_line(lines_of(output@)) == Some(line@),
            None => first_error_line(lines_of(output@)) is None,
        },
{
    let lines = text::lines(output);
    let ghost all = views(lines@);
    let mut i: usize = 0;
    assert(all.skip(0) =~= all);
    while i < lines.len()
        invariant
            i <= lines@.len(),
            all == views(lines@),
            all == lines_of(output@),
            first_error_line(all) == first_error_line(all.skip(i as int)),
        decreases lines@.len() - i,
    {
        assert(all.skip(i as int)[0] == lines@[i as int]@);
        assert(all.skip(i as int).skip(1) =~= all.skip(i + 1));
        let line = text::trim(lines[i].as_str());
        let lower = text::to_lowercase(line.as_str());
        if text::has_prefix(lower.as_str(), "error:") {
            return Some(line);
        }
        i = i + 1;
    }
    None
}

/// Classifies yt-dlp's cookie chatter, given in lower case too.
pub fn parse_probe_lowered(output: &str, lower: &str, browser: &str) -> (r: CookieStatus)
    ensures
        r@ == probe_verdict(output@, lower@, browser@),
        is_status(output@, lower@, browser@, r@),
{
    proof {
        law_a_probe_is_judged_by_what_was_printed(output@, lower@, browser@);
    }
    if let Some(count) = extract_count(output) {
        return CookieStatus::Available { count, source: browser.to_owned() };
    }
    if text::has(lower, "could not find") && text::has(lower, "cookies database") {
        return CookieStatus::BrowserNotFound { browser: browser.to_owned() };
    }
    if text::has(lower, "failed to decrypt") || text::has(lower, "dpapi") {
        let app_bound = text::has(lower, "dpapi") || text::has(lower, "10927");
        return CookieStatus::DecryptFailed { browser: browser.to_owned(), app_bound };
    }
    if text::has(lower, "permission denied") || text::has(lower, "database is locked") {
        return CookieStatus::DecryptFailed { browser: browser.to_owned(), app_bound: false };
    }
    match error_line(output) {
        Some(line) => CookieStatus::ProbeFailed { detail: line },
        None => CookieStatus::ProbeFailed { detail: "no cookies were extracted".to_owned() },
    }
}

/// Classifies yt-dlp's cookie chatter.
pub fn parse_probe(output: &str, browser: &str) -> (r: CookieStatus)
    ensures
        r@ == probe_verdict(output@, lowered(output@), browser@),
{
    let lower = text::to_lowercase(output);
    parse_probe_lowered(output, lower.as_str(), browser)
}

/// Whether this is what a finished probe of a browser says.
pub open spec fn is_probe_status(
    browser: CookieBrowser,
    run: Result<(String, String), String>,
    r: StatusView,
) -> bool {
    if browser.spec_ytdlp_name() is None {
        r is Disabled
    } else {
        match run {
            Err(e) => r == (StatusView::ProbeFailed { detail: e@ }),
            Ok((stdout, stderr)) => {
                let output = stdout@ + "\n"@ + stderr@;
                r == probe_verdict(output, lowered(output), browser.spec_label())
            },
        }
    }
}

/// What a finished probe of a browser says: the probe always fails as a whole,
/// so the verdict comes from what was printed. An error means that yt-dlp could
/// not run.
pub fn probe(browser: CookieBrowser, run: Result<(String, String), String>) -> (r: CookieStatus)
    ensures
        is_probe_status(browser, run, r@),
{
    if browser.ytdlp_name().is_none() {
        return CookieStatus::Disabled;
    }
    match run {
        Err(e) => CookieStatus::ProbeFailed { detail: e },
        Ok((stdout, stderr)) => {
            let mut output = stdout;
            output.append("\n");
            output.append(stderr.as_str());
            parse_probe(output.as_str(), browser.label())
        },
    }
}

} // verus!
