//! User settings: their defaults, and what is read from them. Every number that
//! drives a pass or a request is clamped when it is read, so that a settings
//! file edited by hand cannot drive the tools outside their limits.
use vstd::prelude::*;
use vstd::string::*;

use crate::config::setting_laws::{is_held, is_ladder, lemma_rungs_are_a_ladder};
use crate::downloader::cookies::CookieSource;
use crate::text;
use crate::text::{
    contains, count_of, lines_of, lowered, starts, trimmed, trimmed_end,
    trimmed_start, unsigned_of, views,
};
use crate::video::encoder::EncoderChoice;

verus! {

/// How the selected tracks are exported.
#[derive(Debug, Clone, Copy, PartialEq, Eq, Structural)]
pub enum ExportMode {
    /// One video per track.
    Separate,
    /// A single video with every selected track in playlist order.
    Combined,
}

impl Default for ExportMode {
    fn default() -> (r: Self)
        ensures
            r == ExportMode::Separate,
    {
        ExportMode::Separate
    }
}

impl ExportMode {
    /// The name shown for this mode.
    pub fn label(&self) -> (r: &'static str)
        ensures
            r@ == (match *self {
                ExportMode::Separate => "Separate videos"@,
                ExportMode::Combined => "One long playlist video"@,
            }),
    {
        match self {
            ExportMode::Separate => "Separate videos",
            ExportMode::Combined => "One long playlist video",
        }
    }
}

/// The browser that yt-dlp takes SoundCloud cookies from.
#[derive(Debug, Clone, Copy, PartialEq, Eq, Structural)]
pub enum CookieBrowser {
    /// Stay logged out.
    NoBrowser,
    Chrome,
    Edge,
    Firefox,
}

impl Default for CookieBrowser {
    fn default() -> (r: Self)
        ensures
            r == CookieBrowser::NoBrowser,
    {
        CookieBrowser::NoBrowser
    }
}

impl CookieBrowser {
    /// Every browser, in the order in which they are offered.
    pub fn all() -> (r: Vec<CookieBrowser>)
        ensures
            r@ == seq![
                CookieBrowser::NoBrowser,
                CookieBrowser::Chrome,
                CookieBrowser::Edge,
                CookieBrowser::Firefox,
            ],
    {
        let r = vec![
            CookieBrowser::NoBrowser,
            CookieBrowser::Chrome,
            CookieBrowser::Edge,
            CookieBrowser::Firefox,
        ];
        assert(r@ =~= seq![
            CookieBrowser::NoBrowser,
            CookieBrowser::Chrome,
            CookieBrowser::Edge,
            CookieBrowser::Firefox,
        ]);
        r
    }

    pub open spec fn spec_ytdlp_name(self) -> Option<Seq<char>> {
        match self {
            CookieBrowser::NoBrowser => None,
            CookieBrowser::Chrome => Some("chrome"@),
            CookieBrowser::Edge => Some("edge"@),
            CookieBrowser::Firefox => Some("firefox"@),
        }
    }

    /// The name that `--cookies-from-browser` expects, or `None` for logged out.
    pub fn ytdlp_name(self) -> (r: Option<&'static str>)
        ensures
            r is Some == self.spec_ytdlp_name() is Some,
            r is Some ==> r->0@ == self.spec_ytdlp_name()->0,
    {
        match self {
            CookieBrowser::NoBrowser => None,
            CookieBrowser::Chrome => Some("chrome"),
            CookieBrowser::Edge => Some("edge"),
            CookieBrowser::Firefox => Some("firefox"),
        }
    }

    pub open spec fn spec_label(self) -> Seq<char> {
        match self {
            CookieBrowser::NoBrowser => "None"@,
            CookieBrowser::Chrome => "Chrome"@,
            CookieBrowser::Edge => "Edge"@,
            CookieBrowser::Firefox => "Firefox"@,
        }
    }

    /// The name shown for this browser.
    pub fn label(self) -> (r: &'static str)
        ensures
            r@ == self.spec_label(),
    {
        match self {
            CookieBrowser::NoBrowser => "None",
            CookieBrowser::Chrome => "Chrome",
            CookieBrowser::Edge => "Edge",
            CookieBrowser::Firefox => "Firefox",
        }
    }
}

// ---------------------------------------------------------------------------
// Limits and defaults
// ---------------------------------------------------------------------------

/// Default attempts per track: six rungs of back-off span about three minutes.
pub const DEFAULT_METADATA_RETRY_MAX_ATTEMPTS: u32 = 6;

pub const MIN_METADATA_RETRY_ATTEMPTS: u32 = 1;

pub const MAX_METADATA_RETRY_ATTEMPTS: u32 = 10;

/// First and longest rung of the back-off by default, in seconds.
pub const DEFAULT_RETRY_INITIAL_DELAY_SECS: u64 = 5;

pub const DEFAULT_RETRY_MAX_DELAY_SECS: u64 = 60;

pub const MIN_RETRY_INITIAL_DELAY: u64 = 1;

pub const MAX_RETRY_INITIAL_DELAY: u64 = 120;

pub const MIN_RETRY_MAX_DELAY: u64 = 5;

pub const MAX_RETRY_MAX_DELAY: u64 = 600;

/// Bounds of the pause before each request of a retry pass, in milliseconds.
pub const MIN_RETRY_DELAY_MS: u64 = 250;

pub const MAX_RETRY_DELAY_MS: u64 = 5_000;

/// Bounds of the number of workers of a retry pass.
pub const MIN_RETRY_CONCURRENCY: usize = 1;

pub const MAX_RETRY_CONCURRENCY: usize = 4;

/// Clips per first-level combine pass by default.
pub const DEFAULT_COMBINE_CHUNK_SIZE: usize = 40;

/// Batch files per upper-level combine pass by default. Small on purpose: a
/// batch is a full video, and only a few may be open at once.
pub const DEFAULT_BATCH_COMBINE_CHUNK_SIZE: usize = 4;

/// Bounds of both batch sizes: a crossfade joins two inputs at least, and the
/// command line holds so many at most.
pub const MIN_COMBINE_CHUNK_SIZE: usize = 2;

pub const MAX_COMBINE_CHUNK_SIZE: usize = 64;

/// The audio bitrates that are offered.
pub fn qualities() -> (r: Vec<String>)
    ensures
        views(r@) == seq!["64"@, "128"@, "192"@, "256"@, "320"@],
{
    let r = text::list(vec!["64", "128", "192", "256", "320"]);
    assert(views(r@) =~= seq!["64"@, "128"@, "192"@, "256"@, "320"@]);
    r
}

/// The video resolutions that are offered.
pub fn resolutions() -> (r: Vec<String>)
    ensures
        views(r@) == seq!["1280x720"@, "1920x1080"@, "2560x1440"@, "3840x2160"@],
{
    let r = text::list(vec!["1280x720", "1920x1080", "2560x1440", "3840x2160"]);
    assert(views(r@) =~= seq!["1280x720"@, "1920x1080"@, "2560x1440"@, "3840x2160"@]);
    r
}

/// The first-level batch sizes that are offered.
pub fn combine_chunk_presets() -> (r: Vec<usize>)
    ensures
        r@ == seq![16usize, 24, 32, 40, 64],
{
    let r: Vec<usize> = vec![16, 24, 32, 40, 64];
    assert(r@ =~= seq![16usize, 24, 32, 40, 64]);
    r
}

/// The upper-level batch sizes that are offered.
pub fn batch_combine_chunk_presets() -> (r: Vec<usize>)
    ensures
        r@ == seq![2usize, 4, 8, 16],
{
    let r: Vec<usize> = vec![2, 4, 8, 16];
    assert(r@ =~= seq![2usize, 4, 8, 16]);
    r
}

/// `n` held between `low` and `high`.
pub open spec fn clamped(n: int, low: int, high: int) -> int {
    if n < low {
        low
    } else if n > high {
        high
    } else {
        n
    }
}

fn clamp(n: u64, low: u64, high: u64) -> (r: u64)
    requires
        low <= high,
    ensures
        r == clamped(n as int, low as int, high as int),
{
    if n < low {
        low
    } else if n > high {
        high
    } else {
        n
    }
}

// ---------------------------------------------------------------------------
// Back-off
// ---------------------------------------------------------------------------

/// The longest rung of a ladder: the given one, but not below the first.
pub open spec fn ladder_top(initial: int, max: int) -> int {
    let first = if initial < 1 {
        1
    } else {
        initial
    };
    if max < first {
        first
    } else {
        max
    }
}

/// Rung `i` of a back-off ladder: the first rung (a second at least) doubled `i`
/// times, but never more than the longest.
pub open spec fn rung(initial: int, max: int, i: nat) -> int
    decreases i,
{
    if i == 0 {
        if initial < 1 {
            1
        } else {
            initial
        }
    } else {
        let doubled = 2 * rung(initial, max, (i - 1) as nat);
        if doubled < ladder_top(initial, max) {
            doubled
        } else {
            ladder_top(initial, max)
        }
    }
}

/// Builds an exponential back-off ladder in seconds: `initial`, twice that, four
/// times that and so on, capped at `max`, with one rung per attempt.
pub fn exponential_backoff(initial: u64, max: u64, rungs: usize) -> (r: Vec<u64>)
    ensures
        r@.len() == rungs,
        forall|i: int|
            0 <= i < rungs ==> #[trigger] r@[i] == rung(initial as int, max as int, i as nat),
        is_ladder(initial as int, max as int, r@),
{
    let mut step: u64 = if initial < 1 { 1 } else { initial };
    let top: u64 = if max < step { step } else { max };
    let mut out: Vec<u64> = Vec::new();
    for i in 0..rungs
        invariant
            out@.len() == i,
            top == ladder_top(initial as int, max as int),
            step == rung(initial as int, max as int, i as nat),
            step <= top,
            forall|j: int|
                0 <= j < i ==> #[trigger] out@[j] == rung(initial as int, max as int, j as nat),
    {
        out.push(step);
        step = if step > top - step { top } else { 2 * step };
    }
    proof {
        lemma_rungs_are_a_ladder(initial as int, max as int, out@);
    }
    out
}

/// A ladder starts at the initial delay, never falls, never passes its top, and
/// doubles until it is there.
pub proof fn law_backoff_never_falls_and_is_capped(initial: int, max: int, i: nat)
    requires
        initial >= 1,
    ensures
        rung(initial, max, 0) == initial,
        initial <= rung(initial, max, i) <= ladder_top(initial, max),
        rung(initial, max, i) <= rung(initial, max, i + 1),
        rung(initial, max, i + 1) == 2 * rung(initial, max, i) || rung(initial, max, i + 1)
            == ladder_top(initial, max),
    decreases i,
{
    if i > 0 {
        law_backoff_never_falls_and_is_capped(initial, max, (i - 1) as nat);
    }
}

// ---------------------------------------------------------------------------
// Cookies file format
// ---------------------------------------------------------------------------

/// Whether a line is a data line of the cookie format: seven tab-separated
/// fields, no comment.
pub open spec fn is_cookie_line(line: Seq<char>) -> bool {
    let l = trimmed_end(line);
    l.len() > 0 && !starts(l, "#"@) && count_of(l, '\t') == 6
}

/// Whether some line is a data line of the cookie format.
pub open spec fn has_cookie_line(lines: Seq<Seq<char>>) -> bool {
    exists|i: int| 0 <= i < lines.len() && is_cookie_line(#[trigger] lines[i])
}

/// The first line of a text without the white space before it.
pub open spec fn first_text_line(content: Seq<char>) -> Option<Seq<char>> {
    let lines = lines_of(trimmed_start(content));
    if lines.len() == 0 {
        None
    } else {
        Some(lines[0])
    }
}

/// Whether a text is a Netscape cookie file, given its first line in lower case:
/// it does not begin like JSON, and either it says so in its first line or it has
/// a data line.
pub open spec fn is_netscape(content: Seq<char>, first_lowered: Option<Seq<char>>) -> bool {
    let t = trimmed_start(content);
    &&& !starts(t, "["@)
    &&& !starts(t, "{"@)
    &&& (first_lowered is Some && contains(first_lowered->0, "netscape http cookie file"@))
        || has_cookie_line(lines_of(t))
}

/// The first line of a text in lower case.
pub open spec fn lowered_first_line(content: Seq<char>) -> Option<Seq<char>> {
    match first_text_line(content) {
        Some(line) => Some(lowered(line)),
        None => None,
    }
}

/// Judges a text by itself and by its first line in lower case.
pub fn netscape_by_first_line(content: &str, first_lowered: Option<&str>) -> (r: bool)
    ensures
        r == is_netscape(
            content@,
            match first_lowered {
                Some(l) => Some(l@),
                None => None,
            },
        ),
{
    let t = text::trim_start(content);
    if text::has_prefix(t.as_str(), "[") || text::has_prefix(t.as_str(), "{") {
        return false;
    }
    if let Some(first) = first_lowered {
        if text::has(first, "netscape http cookie file") {
            return true;
        }
    }
    let lines = text::lines(t.as_str());
    let ghost all = views(lines@);
    for i in 0..lines.len()
        invariant
            all == views(lines@),
            all == lines_of(trimmed_start(content@)),
            !starts(trimmed_start(content@), "["@),
            !starts(trimmed_start(content@), "{"@),
            forall|j: int| 0 <= j < i ==> !is_cookie_line(#[trigger] all[j]),
    {
        let l = text::trim_end(lines[i].as_str());
        if !l.as_str().is_empty() && !text::has_prefix(l.as_str(), "#") && text::count_char(
            l.as_str(),
            '\t',
        ) == 6 {
            assert(is_cookie_line(all[i as int]));
            return true;
        }
    }
    false
}

/// Whether a text looks like the Netscape cookie file that yt-dlp expects. A
/// JSON export, which most browser extensions produce, begins with a bracket and
/// has no tabs at all.
pub fn looks_like_netscape_cookies(content: &str) -> (r: bool)
    ensures
        r == is_netscape(content@, lowered_first_line(content@)),
{
    let t = text::trim_start(content);
    let lines = text::lines(t.as_str());
    assert(views(lines@).len() == lines@.len());
    if lines.len() == 0 {
        netscape_by_first_line(content, None)
    } else {
        assert(views(lines@)[0] == lines@[0]@);
        let first = text::to_lowercase(lines[0].as_str());
        netscape_by_first_line(content, Some(first.as_str()))
    }
}

// ---------------------------------------------------------------------------
// Settings
// ---------------------------------------------------------------------------

/// The user's settings.
#[derive(Debug, Clone)]
pub struct Settings {
    /// Audio bitrate in kbit/s, such as "320".
    pub default_quality: String,
    /// Video resolution "WIDTHxHEIGHT".
    pub default_resolution: String,
    pub output_folder: String,
    /// Most microseconds a song may play in its video. 0 = unlimited.
    pub max_track_us: u64,
    /// Slow zoom on the cover.
    pub effect_zoom: bool,
    /// Fade in and out for both video and audio.
    pub effect_fade: bool,
    /// Executable names or full paths.
    pub ytdlp_path: String,
    pub ffmpeg_path: String,
    /// Browser to read SoundCloud cookies from: the normal way to sign in.
    pub cookie_browser: CookieBrowser,
    /// Netscape-format cookies file, for when a browser cannot be read.
    pub cookies_path: String,
    /// Write the log files.
    pub debug_mode: bool,
    /// Which H.264 encoder to use.
    pub encoder: EncoderChoice,
    /// Ask for hardware decoding in the combine stage.
    pub hardware_decode: bool,
    /// Most clips per first-level combine pass.
    pub combine_chunk_size: usize,
    /// Most batch files per upper-level combine pass.
    pub batch_combine_chunk_size: usize,
    /// Separate per-track videos, or one combined playlist video.
    pub export_mode: ExportMode,
    /// Output file name (without extension) of the combined video; empty for the
    /// playlist title.
    pub playlist_video_name: String,
    /// Crossfade between tracks in the combined video, in microseconds.
    pub transition_us: u64,
    /// Embed one chapter marker per track in the combined video.
    pub enable_chapters: bool,
    /// When a track fails, go on with the export.
    pub continue_on_fail: bool,
    /// Keep fetching metadata that is missing, in the background.
    pub auto_recover_metadata: bool,
    /// Retry transient metadata failures, in a load as well as in a retry pass. When
    /// off, each track is fetched exactly once.
    pub auto_metadata_retry: bool,
    /// Most fetch attempts per track, the first included.
    pub metadata_retry_max_attempts: u32,
    /// First rung of the back-off, in seconds.
    pub retry_initial_delay_secs: u64,
    /// Longest rung of the back-off, in seconds.
    pub retry_max_delay_secs: u64,
    /// Refresh the browser's cookies and try once more when access is refused.
    pub auto_cookie_refresh: bool,
    /// Pause before each request of a retry pass, in milliseconds.
    pub retry_delay_ms: u64,
    /// Parallel workers of a retry pass.
    pub retry_concurrency: usize,
}

impl Default for Settings {
    /// The defaults, with the videos below the current directory.
    fn default() -> (r: Self)
        ensures
            r.is_default_with("./SoundCloud Videos"@),
    {
        Settings::defaults_with("./SoundCloud Videos")
    }
}

/// The parts of a resolution: the texts around its first two separators.
pub open spec fn resolution_part(s: Seq<char>, which: int) -> Option<Seq<char>> {
    let a = text::first_index(s, 'x');
    if which == 0 {
        Some(s.take(a))
    } else if a == s.len() {
        None
    } else {
        let rest = s.skip(a + 1);
        Some(rest.take(text::first_index(rest, 'x')))
    }
}

/// A 32-bit number that an optional text spells, or a fallback.
pub open spec fn number_or(s: Option<Seq<char>>, fallback: u32) -> u32 {
    if s is Some && unsigned_of(s->0) is Some && unsigned_of(s->0)->0 <= u32::MAX {
        unsigned_of(s->0)->0 as u32
    } else {
        fallback
    }
}

fn read_number(s: &str, fallback: u32) -> (r: u32)
    ensures
        r == number_or(Some(s@), fallback),
{
    match text::parse_unsigned(s, u32::MAX as u64) {
        Some(n) => n as u32,
        None => fallback,
    }
}

impl Settings {
    /// Whether these are the defaults, with the videos in this folder.
    pub open spec fn is_default_with(self, folder: Seq<char>) -> bool {
        &&& self.default_quality@ == "320"@
        &&& self.default_resolution@ == "1920x1080"@
        &&& self.output_folder@ == folder
        &&& self.max_track_us == 0
        &&& !self.effect_zoom
        &&& self.effect_fade
        &&& self.ytdlp_path@ == "yt-dlp"@
        &&& self.ffmpeg_path@ == "ffmpeg"@
        &&& self.cookie_browser == CookieBrowser::NoBrowser
        &&& self.cookies_path@.len() == 0
        &&& !self.debug_mode
        &&& self.encoder == EncoderChoice::Auto
        &&& !self.hardware_decode
        &&& self.combine_chunk_size == DEFAULT_COMBINE_CHUNK_SIZE
        &&& self.batch_combine_chunk_size == DEFAULT_BATCH_COMBINE_CHUNK_SIZE
        &&& self.export_mode == ExportMode::Separate
        &&& self.playlist_video_name@.len() == 0
        &&& self.transition_us == 2_000_000
        &&& self.enable_chapters
        &&& self.continue_on_fail
        &&& self.auto_recover_metadata
        &&& self.auto_metadata_retry
        &&& self.metadata_retry_max_attempts == DEFAULT_METADATA_RETRY_MAX_ATTEMPTS
        &&& self.retry_initial_delay_secs == DEFAULT_RETRY_INITIAL_DELAY_SECS
        &&& self.retry_max_delay_secs == DEFAULT_RETRY_MAX_DELAY_SECS
        &&& self.auto_cookie_refresh
        &&& self.retry_delay_ms == 500
        &&& self.retry_concurrency == 2
    }

    /// The defaults, with the videos in this folder.
    pub fn defaults_with(folder: &str) -> (r: Self)
        ensures
            r.is_default_with(folder@),
    {
        Settings {
            default_quality: "320".to_owned(),
            default_resolution: "1920x1080".to_owned(),
            output_folder: folder.to_owned(),
            max_track_us: 0,
            effect_zoom: false,
            effect_fade: true,
            ytdlp_path: "yt-dlp".to_owned(),
            ffmpeg_path: "ffmpeg".to_owned(),
            cookie_browser: CookieBrowser::NoBrowser,
            cookies_path: String::new(),
            debug_mode: false,
            encoder: EncoderChoice::Auto,
            hardware_decode: false,
            combine_chunk_size: DEFAULT_COMBINE_CHUNK_SIZE,
            batch_combine_chunk_size: DEFAULT_BATCH_COMBINE_CHUNK_SIZE,
            export_mode: ExportMode::Separate,
            playlist_video_name: String::new(),
            transition_us: 2_000_000,
            enable_chapters: true,
            continue_on_fail: true,
            auto_recover_metadata: true,
            auto_metadata_retry: true,
            metadata_retry_max_attempts: DEFAULT_METADATA_RETRY_MAX_ATTEMPTS,
            retry_initial_delay_secs: DEFAULT_RETRY_INITIAL_DELAY_SECS,
            retry_max_delay_secs: DEFAULT_RETRY_MAX_DELAY_SECS,
            auto_cookie_refresh: true,
            retry_delay_ms: 500,
            retry_concurrency: 2,
        }
    }

    /// Width and height of the videos; a part that is missing or no number
    /// counts as that of 1920x1080.
    pub fn resolution(&self) -> (r: (u32, u32))
        ensures
            r.0 == number_or(resolution_part(self.default_resolution@, 0), 1920),
            r.1 == number_or(resolution_part(self.default_resolution@, 1), 1080),
    {
        let chars = text::to_chars(self.default_resolution.as_str());
        let a = text::index_from(chars.as_slice(), 0, 'x');
        assert(chars@.skip(0) =~= chars@);
        let first = text::slice_of(chars.as_slice(), 0, a);
        assert(first@ =~= chars@.take(a as int));
        let w = read_number(text::from_chars(first.as_slice()).as_str(), 1920);
        if a == chars.len() {
            return (w, 1080);
        }
        let b = text::index_from(chars.as_slice(), a + 1, 'x');
        let second = text::slice_of(chars.as_slice(), a + 1, b);
        assert(second@ =~= chars@.skip(a + 1).take(b - (a + 1)));
        let h = read_number(text::from_chars(second.as_slice()).as_str(), 1080);
        (w, h)
    }

    /// The audio bitrate in kbit/s; 320 where the setting is no number.
    pub fn bitrate_k(&self) -> (r: u32)
        ensures
            r == number_or(Some(self.default_quality@), 320),
    {
        read_number(self.default_quality.as_str(), 320)
    }

    /// Clips per first-level combine pass, within the limits.
    pub fn combine_chunk(&self) -> (r: usize)
        ensures
            r == clamped(
                self.combine_chunk_size as int,
                MIN_COMBINE_CHUNK_SIZE as int,
                MAX_COMBINE_CHUNK_SIZE as int,
            ),
            is_held(self.combine_chunk_size as int, 2, 64, r as int),
    {
        if self.combine_chunk_size < MIN_COMBINE_CHUNK_SIZE {
            MIN_COMBINE_CHUNK_SIZE
        } else if self.combine_chunk_size > MAX_COMBINE_CHUNK_SIZE {
            MAX_COMBINE_CHUNK_SIZE
        } else {
            self.combine_chunk_size
        }
    }

    /// Batch files per upper-level combine pass, within the limits.
    pub fn batch_combine_chunk(&self) -> (r: usize)
        ensures
            r == clamped(
                self.batch_combine_chunk_size as int,
                MIN_COMBINE_CHUNK_SIZE as int,
                MAX_COMBINE_CHUNK_SIZE as int,
            ),
            is_held(self.batch_combine_chunk_size as int, 2, 64, r as int),
    {
        if self.batch_combine_chunk_size < MIN_COMBINE_CHUNK_SIZE {
            MIN_COMBINE_CHUNK_SIZE
        } else if self.batch_combine_chunk_size > MAX_COMBINE_CHUNK_SIZE {
            MAX_COMBINE_CHUNK_SIZE
        } else {
            self.batch_combine_chunk_size
        }
    }

    /// Pause before each request of a retry pass in milliseconds, within the
    /// limits.
    pub fn retry_delay(&self) -> (r: u64)
        ensures
            r == clamped(
                self.retry_delay_ms as int,
                MIN_RETRY_DELAY_MS as int,
                MAX_RETRY_DELAY_MS as int,
            ),
            is_held(self.retry_delay_ms as int, 250, 5_000, r as int),
    {
        clamp(self.retry_delay_ms, MIN_RETRY_DELAY_MS, MAX_RETRY_DELAY_MS)
    }

    pub open spec fn attempts(self) -> int {
        clamped(
            self.metadata_retry_max_attempts as int,
            MIN_METADATA_RETRY_ATTEMPTS as int,
            MAX_METADATA_RETRY_ATTEMPTS as int,
        )
    }

    /// Most fetch attempts per track, within the limits.
    pub fn metadata_retry_attempts(&self) -> (r: u32)
        ensures
            r == self.attempts(),
            is_held(self.metadata_retry_max_attempts as int, 1, 10, r as int),
    {
        clamp(
            self.metadata_retry_max_attempts as u64,
            MIN_METADATA_RETRY_ATTEMPTS as u64,
            MAX_METADATA_RETRY_ATTEMPTS as u64,
        ) as u32
    }

    pub open spec fn initial_delay(self) -> int {
        clamped(
            self.retry_initial_delay_secs as int,
            MIN_RETRY_INITIAL_DELAY as int,
            MAX_RETRY_INITIAL_DELAY as int,
        )
    }

    /// First rung of the back-off in seconds, within the limits.
    pub fn retry_initial_delay(&self) -> (r: u64)
        ensures
            r == self.initial_delay(),
            is_held(self.retry_initial_delay_secs as int, 1, 120, r as int),
    {
        clamp(self.retry_initial_delay_secs, MIN_RETRY_INITIAL_DELAY, MAX_RETRY_INITIAL_DELAY)
    }

    pub open spec fn max_delay(self) -> int {
        let max = clamped(
            self.retry_max_delay_secs as int,
            MIN_RETRY_MAX_DELAY as int,
            MAX_RETRY_MAX_DELAY as int,
        );
        if max < self.initial_delay() {
            self.initial_delay()
        } else {
            max
        }
    }

    /// Longest rung of the back-off in seconds, within the limits and never below
    /// the first.
    pub fn retry_max_delay(&self) -> (r: u64)
        ensures
            r == self.max_delay(),
    {
        let max = clamp(self.retry_max_delay_secs, MIN_RETRY_MAX_DELAY, MAX_RETRY_MAX_DELAY);
        let initial = self.retry_initial_delay();
        if max < initial {
            initial
        } else {
            max
        }
    }

    /// The back-off ladder in seconds.
    pub open spec fn ladder(self) -> Seq<u64> {
        Seq::new(
            self.attempts() as nat,
            |i: int| rung(self.initial_delay(), self.max_delay(), i as nat) as u64,
        )
    }

    /// The back-off ladder in seconds: from the initial delay, doubling to the
    /// maximum, one rung per attempt.
    pub fn retry_backoff(&self) -> (r: Vec<u64>)
        ensures
            r@.len() == self.attempts(),
            forall|i: int|
                0 <= i < r@.len() ==> #[trigger] r@[i] == rung(
                    self.initial_delay(),
                    self.max_delay(),
                    i as nat,
                ),
            is_ladder(self.initial_delay(), self.max_delay(), r@),
    {
        exponential_backoff(
            self.retry_initial_delay(),
            self.retry_max_delay(),
            self.metadata_retry_attempts() as usize,
        )
    }

    /// Workers of a retry pass, within the limits.
    pub fn retry_workers(&self) -> (r: usize)
        ensures
            r == clamped(
                self.retry_concurrency as int,
                MIN_RETRY_CONCURRENCY as int,
                MAX_RETRY_CONCURRENCY as int,
            ),
            is_held(self.retry_concurrency as int, 1, 4, r as int),
    {
        if self.retry_concurrency < MIN_RETRY_CONCURRENCY {
            MIN_RETRY_CONCURRENCY
        } else if self.retry_concurrency > MAX_RETRY_CONCURRENCY {
            MAX_RETRY_CONCURRENCY
        } else {
            self.retry_concurrency
        }
    }

    /// The cookies file to use, given what it holds (`None` where it cannot be
    /// read): only where one is set, it is there, and it is in the format that
    /// yt-dlp takes. yt-dlp aborts on any other, so it is better ignored.
    pub open spec fn usable_cookies_file(self, content: Option<&str>) -> Option<Seq<char>> {
        let path = trimmed(self.cookies_path@);
        if path.len() > 0 && content is Some && is_netscape(
            content->0@,
            lowered_first_line(content->0@),
        ) {
            Some(path)
        } else {
            None
        }
    }

    /// The cookies file to use, given what it holds (`None` where it cannot be
    /// read).
    pub fn cookies_file(&self, content: Option<&str>) -> (r: Option<String>)
        ensures
            match r {
                Some(path) => self.usable_cookies_file(content) == Some(path@),
                None => self.usable_cookies_file(content) is None,
            },
    {
        let path = text::trim(self.cookies_path.as_str());
        if path.as_str().is_empty() {
            return None;
        }
        match content {
            None => None,
            Some(c) => if looks_like_netscape_cookies(c) {
                Some(path)
            } else {
                None
            },
        }
    }

    /// Whether this is where yt-dlp gets its cookies: the selected browser, or else the
    /// file that can be used.
    pub open spec fn is_cookie_source(self, content: Option<&str>, source: CookieSource) -> bool {
        if self.cookie_browser != CookieBrowser::NoBrowser {
            source == CookieSource::Browser(self.cookie_browser)
        } else {
            match self.usable_cookies_file(content) {
                Some(path) => source is File && source->File_0@ == path,
                None => source is Anonymous,
            }
        }
    }

    /// Where yt-dlp gets cookies for every request. A browser that is selected
    /// wins; the file counts only without one, so that a path left over from an
    /// earlier attempt never overrides a deliberate choice.
    pub fn cookie_source(&self, content: Option<&str>) -> (r: CookieSource)
        ensures
            self.is_cookie_source(content, r),
    {
        if self.cookie_browser != CookieBrowser::NoBrowser {
            return CookieSource::Browser(self.cookie_browser);
        }
        match self.cookies_file(content) {
            Some(path) => CookieSource::File(path),
            None => CookieSource::Anonymous,
        }
    }

    /// Whether a cookies file is set that is not there.
    pub fn cookies_missing(&self, is_file: bool) -> (r: bool)
        ensures
            r == (trimmed(self.cookies_path@).len() > 0 && !is_file),
    {
        !text::trim(self.cookies_path.as_str()).as_str().is_empty() && !is_file
    }

    /// Whether a cookies file is there but in another format, given what it holds
    /// (`None` where it cannot be read).
    pub fn cookies_wrong_format(&self, content: Option<&str>) -> (r: bool)
        ensures
            r == (trimmed(self.cookies_path@).len() > 0 && content is Some && !is_netscape(
                content->0@,
                lowered_first_line(content->0@),
            )),
    {
        if text::trim(self.cookies_path.as_str()).as_str().is_empty() {
            return false;
        }
        match content {
            Some(c) => !looks_like_netscape_cookies(c),
            None => false,
        }
    }

    /// The folder of the videos, from the user's videos directory on.
    pub fn videos_dir() -> (r: Vec<String>)
        ensures
            views(r@) == seq!["SoundCloud Videos"@],
    {
        let r = text::list(vec!["SoundCloud Videos"]);
        assert(views(r@) =~= seq!["SoundCloud Videos"@]);
        r
    }

    /// The way to the application's directory.
    pub open spec fn app_names() -> Seq<Seq<char>> {
        seq!["soundcloud2mp4"@]
    }

    /// The directory of the application, from the user's configuration directory on.
    /// This path and the next ones are the names on the way: each is joined to the one
    /// before it as the platform joins them.
    pub fn app_dir() -> (r: Vec<String>)
        ensures
            views(r@) == Settings::app_names(),
    {
        let r = text::list(vec!["soundcloud2mp4"]);
        assert(views(r@) =~= Settings::app_names());
        r
    }

    /// Where raw answers of yt-dlp are kept.
    pub fn debug_dir() -> (r: Vec<String>)
        ensures
            views(r@) == Settings::app_names().push("debug"@),
    {
        let mut r = Settings::app_dir();
        text::put(&mut r, "debug");
        r
    }

    /// Where the metadata caches are kept, one per playlist. Not in the work
    /// directory, which goes when a conversion is done.
    pub fn metadata_cache_dir() -> (r: Vec<String>)
        ensures
            views(r@) == Settings::app_names().push("metadata"@),
    {
        let mut r = Settings::app_dir();
        text::put(&mut r, "metadata");
        r
    }

    /// Where the log files are kept.
    pub fn logs_dir() -> (r: Vec<String>)
        ensures
            views(r@) == Settings::app_names().push("logs"@),
    {
        let mut r = Settings::app_dir();
        text::put(&mut r, "logs");
        r
    }

    /// Where the settings are kept.
    pub fn config_path() -> (r: Vec<String>)
        ensures
            views(r@) == Settings::app_names().push("config.json"@),
    {
        let mut r = Settings::app_dir();
        text::put(&mut r, "config.json");
        r
    }

    /// Path of a tool's log file, where the logs are written.
    pub fn tool_log(&self, name: &str) -> (r: Option<Vec<String>>)
        ensures
            r is Some == self.debug_mode,
            r is Some ==> views(r->0@) == Settings::app_names().push("logs"@).push(name@),
    {
        if self.debug_mode {
            let mut r = Settings::logs_dir();
            text::put(&mut r, name);
            Some(r)
        } else {
            None
        }
    }
}

/// Whatever the settings file says, what is read from it stays within the
/// limits, and the longest rung of the back-off is never below the first.
pub proof fn law_settings_are_read_within_their_limits(s: Settings)
    ensures
        1 <= s.attempts() <= 10,
        1 <= s.initial_delay() <= 120,
        s.initial_delay() <= s.max_delay() <= 600,
        5 <= s.max_delay(),
        2 <= clamped(s.combine_chunk_size as int, 2, 64) <= 64,
        2 <= clamped(s.batch_combine_chunk_size as int, 2, 64) <= 64,
        ladder_top(s.initial_delay(), s.max_delay()) == s.max_delay(),
        250 <= clamped(
            s.retry_delay_ms as int,
            MIN_RETRY_DELAY_MS as int,
            MAX_RETRY_DELAY_MS as int,
        ) <= 5_000,
        1 <= clamped(
            s.retry_concurrency as int,
            MIN_RETRY_CONCURRENCY as int,
            MAX_RETRY_CONCURRENCY as int,
        ) <= 4,
{
}

} // verus!
