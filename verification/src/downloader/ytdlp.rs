//! What is asked of yt-dlp, and how what it prints is read.
use serde_json::Value;
use vstd::prelude::*;
use vstd::string::*;

pub use crate::downloader::failure::{
    annotate_download_failure, classify_failure, is_transient_failure, permanent_failure_reason,
    retry_decision, FailureKind, RetryDecision, EXPIRED_COOKIES_REASON, NO_DATA_REASON,
    RESTRICTED_REASON,
};

use crate::downloader::cookies::{cookie_args, CookieSource};
use crate::downloader::failure::{decision_for, judged, reason_text};
use crate::downloader::json;
use crate::downloader::json::{all_contents, contents, member_of, parsed, JsonView};
use crate::downloader::metadata::{resolve_metadata, resolved};
use crate::downloader::request_laws::{
    asks_for_download, asks_for_playlist, asks_for_track, is_playlist,
    law_a_download_request_asks_for_all_three_files, law_a_playlist_is_what_its_value_tells,
    law_a_playlist_request_asks_for_its_entries, law_a_track_request_asks_for_metadata_alone,
};
use crate::models::track::{opt, MetadataView, TrackMetadata};
use crate::text;
use crate::text::{contains, decimal, joined, lines_of, lowered, starts, trimmed, views};
use crate::utils::process::code_text;

verus! {

/// One entry of a flat playlist. For SoundCloud these carry only an id and an
/// address, which is why there is a second metadata pass per track.
#[derive(Debug, Clone)]
pub struct FlatEntry {
    pub id: String,
    pub url: String,
    pub title: Option<String>,
}

/// A playlist entry, as values.
pub struct EntryView {
    pub id: Seq<char>,
    pub url: Seq<char>,
    pub title: Option<Seq<char>>,
}

impl View for FlatEntry {
    type V = EntryView;

    open spec fn view(&self) -> EntryView {
        EntryView { id: self.id@, url: self.url@, title: opt(self.title) }
    }
}

/// The entries of a list, as values.
pub open spec fn entry_views(list: Seq<FlatEntry>) -> Seq<EntryView> {
    Seq::new(list.len(), |i: int| list[i]@)
}

/// Whether an address in lower case is one of SoundCloud.
pub open spec fn is_soundcloud(u: Seq<char>) -> bool {
    (starts(u, "http://"@) || starts(u, "https://"@)) && contains(u, "soundcloud.com"@)
}

/// Whether an address in lower case is one of SoundCloud.
pub fn lowered_is_soundcloud(u: &str) -> (r: bool)
    ensures
        r == is_soundcloud(u@),
{
    (text::has_prefix(u, "http://") || text::has_prefix(u, "https://")) && text::has(
        u,
        "soundcloud.com",
    )
}

/// Whether a text looks like a SoundCloud address.
pub fn looks_like_soundcloud_url(url: &str) -> (r: bool)
    ensures
        r == is_soundcloud(lowered(trimmed(url@))),
{
    lowered_is_soundcloud(text::to_lowercase(text::trim(url).as_str()).as_str())
}

// ---------------------------------------------------------------------------
// Flat playlists
// ---------------------------------------------------------------------------

/// The text of a member: that of a string that is not empty, or of a number.
pub open spec fn field(v: JsonView, key: Seq<char>) -> Option<Seq<char>> {
    match member_of(v, key) {
        JsonView::Text(s) => if s.len() > 0 {
            Some(s)
        } else {
            None
        },
        JsonView::Number(n) => Some(n),
        _ => None,
    }
}

fn str_field(v: &Value, key: &str) -> (r: Option<String>)
    ensures
        opt(r) == field(contents(*v), key@),
{
    let m = json::member(v, key);
    match json::as_text(m) {
        Some(s) => if s.is_empty() {
            None
        } else {
            Some(s.to_owned())
        },
        None => json::number_text(m),
    }
}

/// One of two texts, the first where it is there.
pub open spec fn either(a: Option<Seq<char>>, b: Option<Seq<char>>) -> Option<Seq<char>> {
    if a is Some {
        a
    } else {
        b
    }
}

/// The entry with this address that a value describes: its id is the address
/// where it has none.
pub open spec fn entry_with(v: JsonView, url: Seq<char>) -> EntryView {
    EntryView {
        id: match field(v, "id"@) {
            Some(id) => id,
            None => url,
        },
        url,
        title: field(v, "title"@),
    }
}

/// The entries that the values of a list describe; one without an address is
/// passed over.
pub open spec fn listed_entries(list: Seq<JsonView>) -> Seq<EntryView>
    decreases list.len(),
{
    if list.len() == 0 {
        Seq::empty()
    } else {
        let before = listed_entries(list.drop_last());
        match either(field(list.last(), "url"@), field(list.last(), "webpage_url"@)) {
            Some(url) => before.push(entry_with(list.last(), url)),
            None => before,
        }
    }
}

/// What a playlist value holds: a title and entries, or an error. A value without
/// a list of entries is that of a single track.
pub open spec fn playlist_of(v: JsonView) -> Result<(Seq<char>, Seq<EntryView>), Seq<char>> {
    let title = match field(v, "title"@) {
        Some(t) => t,
        None => "Playlist"@,
    };
    match member_of(v, "entries"@) {
        JsonView::List(list) => if listed_entries(list).len() == 0 {
            Err("no tracks found in this playlist"@)
        } else {
            Ok((title, listed_entries(list)))
        },
        _ => match either(field(v, "webpage_url"@), field(v, "original_url"@)) {
            None => Err("single track JSON has no webpage_url"@),
            Some(url) => Ok((title, seq![entry_with(v, url)])),
        },
    }
}

/// What a text that yt-dlp printed for a playlist holds.
pub open spec fn playlist_in(s: Seq<char>) -> Result<(Seq<char>, Seq<EntryView>), Seq<char>> {
    match parsed(s) {
        Err(e) => Err("parsing yt-dlp playlist JSON: "@ + e),
        Ok(v) => playlist_of(v),
    }
}

/// A playlist result, as values.
pub open spec fn playlist_view(r: Result<(String, Vec<FlatEntry>), String>) -> Result<
    (Seq<char>, Seq<EntryView>),
    Seq<char>,
> {
    match r {
        Ok((title, entries)) => Ok((title@, entry_views(entries@))),
        Err(e) => Err(e@),
    }
}

fn make_entry(v: &Value, url: String) -> (r: FlatEntry)
    ensures
        r@ == entry_with(contents(*v), url@),
{
    let id = match str_field(v, "id") {
        Some(id) => id,
        None => url.clone(),
    };
    FlatEntry { id, url, title: str_field(v, "title") }
}

/// Reads the parsed JSON of `yt-dlp --flat-playlist -J`.
pub fn read_flat_playlist(v: &Value) -> (r: Result<(String, Vec<FlatEntry>), String>)
    ensures
        playlist_view(r) == playlist_of(contents(*v)),
        is_playlist(contents(*v), playlist_view(r)),
{
    proof {
        law_a_playlist_is_what_its_value_tells(contents(*v));
    }
    let title = match str_field(v, "title") {
        Some(t) => t,
        None => "Playlist".to_owned(),
    };
    let mut entries: Vec<FlatEntry> = Vec::new();
    match json::as_list(json::member(v, "entries")) {
        Some(list) => {
            let ghost all = all_contents(list@);
            assert(entry_views(entries@) =~= listed_entries(all.take(0)));
            for i in 0..list.len()
                invariant
                    all == all_contents(list@),
                    entry_views(entries@) == listed_entries(all.take(i as int)),
            {
                assert(all.take(i + 1).drop_last() =~= all.take(i as int));
                assert(all.take(i + 1).last() == contents(list@[i as int]));
                let ghost before = entries@;
                let own = str_field(&list[i], "url");
                let url = match own {
                    Some(u) => Some(u),
                    None => str_field(&list[i], "webpage_url"),
                };
                if let Some(u) = url {
                    let entry = make_entry(&list[i], u);
                    entries.push(entry);
                    assert(entry_views(entries@) =~= entry_views(before).push(
                        entries@.last()@,
                    ));
                }
            }
            assert(all.take(list@.len() as int) =~= all);
            if entries.len() == 0 {
                return Err("no tracks found in this playlist".to_owned());
            }
        },
        None => {
            let own = str_field(v, "webpage_url");
            let url = match own {
                Some(u) => Some(u),
                None => str_field(v, "original_url"),
            };
            match url {
                None => {
                    return Err("single track JSON has no webpage_url".to_owned());
                },
                Some(u) => {
                    entries.push(make_entry(v, u));
                    assert(entry_views(entries@) =~= seq![entries@[0]@]);
                },
            }
        },
    }
    Ok((title, entries))
}

/// Reads what `yt-dlp --flat-playlist -J` printed.
pub fn parse_flat_playlist(s: &str) -> (r: Result<(String, Vec<FlatEntry>), String>)
    ensures
        playlist_view(r) == playlist_in(s@),
{
    match json::parse(s) {
        Err(e) => {
            let mut m = "parsing yt-dlp playlist JSON: ".to_owned();
            m.append(e.as_str());
            Err(m)
        },
        Ok(v) => read_flat_playlist(&v),
    }
}

/// The arguments that make yt-dlp list a playlist.
pub open spec fn playlist_request(cookies: CookieSource, url: Seq<char>) -> Seq<Seq<char>> {
    seq!["--flat-playlist"@, "--no-warnings"@, "-J"@] + cookie_args(cookies) + seq![trimmed(url)]
}

/// The arguments that make yt-dlp list a playlist.
pub fn playlist_args(cookies: &CookieSource, url: &str) -> (r: Vec<String>)
    ensures
        views(r@) == playlist_request(*cookies, url@),
        asks_for_playlist(views(r@), *cookies, url@),
{
    proof {
        law_a_playlist_request_asks_for_its_entries(*cookies, url@);
    }
    let mut args: Vec<String> = Vec::new();
    text::put(&mut args, "--flat-playlist");
    text::put(&mut args, "--no-warnings");
    text::put(&mut args, "-J");
    assert(views(args@) =~= seq!["--flat-playlist"@, "--no-warnings"@, "-J"@]);
    cookies.apply(&mut args);
    text::put(&mut args, text::trim(url).as_str());
    assert(views(args@) =~= seq!["--flat-playlist"@, "--no-warnings"@, "-J"@] + cookie_args(
        *cookies,
    ) + seq![trimmed(url@)]);
    args
}

/// The last `n` lines of a text.
pub open spec fn last_lines(s: Seq<char>, n: int) -> Seq<Seq<char>> {
    let lines = lines_of(s);
    if lines.len() <= n {
        lines
    } else {
        lines.skip(lines.len() - n)
    }
}

/// The last `n` lines of a text, one per line.
pub fn tail_text(s: &str, n: usize) -> (r: String)
    ensures
        r@ == joined(last_lines(s@, n as int), "\n"@),
{
    let lines = text::lines(s);
    let ghost all = views(lines@);
    let from: usize = if lines.len() <= n { 0 } else { lines.len() - n };
    let mut kept: Vec<String> = Vec::new();
    assert(views(kept@) =~= all.subrange(from as int, from as int));
    for i in from..lines.len()
        invariant
            all == views(lines@),
            from <= lines@.len(),
            views(kept@) == all.subrange(from as int, i as int),
    {
        text::put(&mut kept, lines[i].as_str());
        assert(views(kept@) =~= all.subrange(from as int, i + 1));
    }
    assert(all.subrange(from as int, lines@.len() as int) =~= last_lines(s@, n as int));
    text::join(kept.as_slice(), "\n")
}

/// The log line for a finished playlist run.
pub fn playlist_run_line(success: bool, stdout: &str, stderr: &str) -> (r: String)
    ensures
        r@ == "yt-dlp exit="@ + (if success {
            "0"@
        } else {
            "1"@
        }) + ", stdout="@ + decimal(stdout.spec_bytes().len()) + " bytes, stderr="@ + decimal(
            stderr.spec_bytes().len(),
        ) + " bytes"@,
{
    let mut s = "yt-dlp exit=".to_owned();
    s.append(if success { "0" } else { "1" });
    s.append(", stdout=");
    s.append(text::dec(stdout.as_bytes().len() as u64).as_str());
    s.append(" bytes, stderr=");
    s.append(text::dec(stderr.as_bytes().len() as u64).as_str());
    s.append(" bytes");
    s
}

/// What a finished playlist run amounts to.
pub open spec fn playlist_outcome(success: bool, stdout: Seq<char>, stderr: Seq<char>) -> Result<
    (Seq<char>, Seq<EntryView>),
    Seq<char>,
> {
    if success {
        playlist_in(stdout)
    } else {
        Err("yt-dlp could not read this playlist:\n"@ + joined(last_lines(stderr, 5), "\n"@))
    }
}

/// What a finished playlist run amounts to.
pub fn fetch_playlist(success: bool, stdout: &str, stderr: &str) -> (r: Result<
    (String, Vec<FlatEntry>),
    String,
>)
    ensures
        playlist_view(r) == playlist_outcome(success, stdout@, stderr@),
{
    if !success {
        let mut s = "yt-dlp could not read this playlist:\n".to_owned();
        s.append(tail_text(stderr, 5).as_str());
        return Err(s);
    }
    parse_flat_playlist(stdout)
}

// ---------------------------------------------------------------------------
// Track metadata
// ---------------------------------------------------------------------------

/// A failed metadata fetch, with what the retry pass and the log need.
#[derive(Debug, Clone)]
pub struct MetaError {
    /// What the row shows.
    pub message: String,
    /// yt-dlp's exit code, when it ran to completion.
    pub exit_code: Option<i32>,
    /// How this failure is treated.
    pub kind: FailureKind,
    /// Short reason for the row, when there is one to give.
    pub reason: Option<&'static str>,
    /// The fetch was cancelled, it did not fail.
    pub cancelled: bool,
}

/// A failed metadata fetch, as values.
pub struct MetaErrorView {
    pub message: Seq<char>,
    pub exit_code: Option<i32>,
    pub kind: FailureKind,
    pub reason: Option<Seq<char>>,
    pub cancelled: bool,
}

impl View for MetaError {
    type V = MetaErrorView;

    open spec fn view(&self) -> MetaErrorView {
        MetaErrorView {
            message: self.message@,
            exit_code: self.exit_code,
            kind: self.kind,
            reason: reason_text(self.reason),
            cancelled: self.cancelled,
        }
    }
}

impl MetaError {
    /// How the exit code reads in a log line.
    pub fn code_str(&self) -> (r: String)
        ensures
            r@ == code_text(self.exit_code, "n/a"@),
    {
        match self.exit_code {
            Some(c) => text::dec_signed(c as i64),
            None => "n/a".to_owned(),
        }
    }

    /// Whether this may pass: it was neither cancelled nor is it known to be pointless
    /// to try again.
    pub open spec fn is_passing(self) -> bool {
        !self.cancelled && self.kind is Retryable
    }

    /// The reason, where the track is gone for good.
    pub open spec fn final_reason(self) -> Option<&'static str> {
        if self.kind is Permanent {
            self.reason
        } else {
            None
        }
    }

    /// Worth retrying after a back-off: neither cancelled nor known to be
    /// pointless.
    pub fn transient(&self) -> (r: bool)
        ensures
            r == self.is_passing(),
    {
        !self.cancelled && self.kind.is_retryable()
    }

    /// The reason, where the track is gone for good.
    pub fn permanent_reason(&self) -> (r: Option<&'static str>)
        ensures
            r == self.final_reason(),
    {
        if self.kind.is_permanent() {
            self.reason
        } else {
            None
        }
    }

    /// What the retry engine does about this failure.
    pub fn decision(&self) -> (r: RetryDecision)
        ensures
            r == decision_for(self.kind),
    {
        RetryDecision::from_failure_kind(self.kind)
    }
}

/// The arguments that make yt-dlp print the metadata of a track, also of one
/// whose streams it cannot resolve.
pub open spec fn track_request(cookies: CookieSource, url: Seq<char>) -> Seq<Seq<char>> {
    seq![
        "--dump-single-json"@,
        "--no-download"@,
        "--no-playlist"@,
        "--no-warnings"@,
        "--ignore-no-formats-error"@,
    ] + cookie_args(cookies) + seq![url]
}

/// The arguments that make yt-dlp print the metadata of a track.
pub fn track_info_args(cookies: &CookieSource, url: &str) -> (r: Vec<String>)
    ensures
        views(r@) == track_request(*cookies, url@),
        asks_for_track(views(r@), *cookies, url@),
{
    proof {
        law_a_track_request_asks_for_metadata_alone(*cookies, url@);
    }
    let mut args = text::list(
        vec![
            "--dump-single-json",
            "--no-download",
            "--no-playlist",
            "--no-warnings",
            "--ignore-no-formats-error",
        ],
    );
    let ghost head = seq![
        "--dump-single-json"@,
        "--no-download"@,
        "--no-playlist"@,
        "--no-warnings"@,
        "--ignore-no-formats-error"@,
    ];
    assert(views(args@) =~= head);
    cookies.apply(&mut args);
    text::put(&mut args, url);
    assert(views(args@) =~= head + cookie_args(*cookies) + seq![url@]);
    args
}

/// A yt-dlp run that came to an end.
pub struct FinishedRun {
    pub success: bool,
    pub code: Option<i32>,
    pub stdout: String,
    pub stderr: String,
}

/// The failure of a run that could not be made or was cut short.
pub open spec fn broken_run(message: Seq<char>, cancelled: bool) -> MetaErrorView {
    MetaErrorView {
        message,
        exit_code: None,
        kind: FailureKind::Retryable,
        reason: None,
        cancelled: cancelled || contains(message, "cancelled"@),
    }
}

/// The failure that a run reports by its exit code.
pub open spec fn failed_run(code: Option<i32>, stderr: Seq<char>) -> MetaErrorView {
    MetaErrorView {
        message: "yt-dlp failed (metadata fetch):\n"@ + joined(last_lines(stderr, 4), "\n"@),
        exit_code: code,
        kind: judged(lowered(stderr)).0,
        reason: judged(lowered(stderr)).1,
        cancelled: false,
    }
}

/// What the parsed output of a run that succeeded amounts to. A malformed answer,
/// one that is no JSON or lacks required fields, is final.
pub open spec fn answer_outcome(code: Option<i32>, answer: Result<JsonView, Seq<char>>) -> Result<
    MetadataView,
    MetaErrorView,
> {
    match answer {
        Err(e) => Err(
            MetaErrorView {
                message: "invalid yt-dlp JSON: "@ + e,
                exit_code: code,
                kind: FailureKind::Permanent,
                reason: Some(NO_DATA_REASON@),
                cancelled: false,
            },
        ),
        Ok(v) => match resolved(v) {
            Err(e) => Err(
                MetaErrorView {
                    message: e,
                    exit_code: code,
                    kind: FailureKind::Permanent,
                    reason: Some(NO_DATA_REASON@),
                    cancelled: false,
                },
            ),
            Ok(m) => Ok(m),
        },
    }
}

/// What a metadata run amounts to.
pub open spec fn run_outcome(run: Result<FinishedRun, String>, cancelled: bool) -> Result<
    MetadataView,
    MetaErrorView,
> {
    match run {
        Err(e) => Err(broken_run(e@, cancelled)),
        Ok(run) => if run.success {
            answer_outcome(run.code, parsed(run.stdout@))
        } else {
            Err(failed_run(run.code, run.stderr@))
        },
    }
}

/// A metadata result, as values.
pub open spec fn fetch_view(r: Result<TrackMetadata, MetaError>) -> Result<
    MetadataView,
    MetaErrorView,
> {
    match r {
        Ok(m) => Ok(m@),
        Err(e) => Err(e@),
    }
}

/// What was parsed, as values.
pub open spec fn answer_view(answer: Result<Value, String>) -> Result<JsonView, Seq<char>> {
    match answer {
        Ok(v) => Ok(contents(v)),
        Err(e) => Err(e@),
    }
}

/// Reads the parsed output of a metadata run that succeeded.
pub fn read_answer(code: Option<i32>, answer: Result<Value, String>) -> (r: Result<
    TrackMetadata,
    MetaError,
>)
    ensures
        fetch_view(r) == answer_outcome(code, answer_view(answer)),
{
    match answer {
        Err(e) => {
            let mut message = "invalid yt-dlp JSON: ".to_owned();
            message.append(e.as_str());
            Err(
                MetaError {
                    message,
                    exit_code: code,
                    kind: FailureKind::Permanent,
                    reason: Some(NO_DATA_REASON),
                    cancelled: false,
                },
            )
        },
        Ok(v) => match resolve_metadata(&v) {
            Err(message) => Err(
                MetaError {
                    message,
                    exit_code: code,
                    kind: FailureKind::Permanent,
                    reason: Some(NO_DATA_REASON),
                    cancelled: false,
                },
            ),
            Ok(m) => Ok(m),
        },
    }
}

/// What a metadata run amounts to: `run` is the run, or why there was none;
/// `cancelled` whether the fetch was being cancelled.
pub fn fetch_track_info_detailed(run: Result<FinishedRun, String>, cancelled: bool) -> (r: Result<
    TrackMetadata,
    MetaError,
>)
    ensures
        fetch_view(r) == run_outcome(run, cancelled),
{
    match run {
        Err(message) => {
            let cancelled = cancelled || text::has(message.as_str(), "cancelled");
            Err(
                MetaError {
                    message,
                    exit_code: None,
                    kind: FailureKind::Retryable,
                    reason: None,
                    cancelled,
                },
            )
        },
        Ok(run) => {
            if !run.success {
                let (kind, reason) = classify_failure(run.stderr.as_str());
                let mut message = "yt-dlp failed (metadata fetch):\n".to_owned();
                message.append(tail_text(run.stderr.as_str(), 4).as_str());
                return Err(
                    MetaError { message, exit_code: run.code, kind, reason, cancelled: false },
                );
            }
            read_answer(run.code, json::parse(run.stdout.as_str()))
        },
    }
}

/// What a metadata run amounts to, with only the message of a failure.
pub fn fetch_track_info(run: Result<FinishedRun, String>, cancelled: bool) -> (r: Result<
    TrackMetadata,
    String,
>)
    ensures
        match (r, run_outcome(run, cancelled)) {
            (Ok(m), Ok(v)) => m@ == v,
            (Err(e), Err(v)) => e@ == v.message,
            _ => false,
        },
{
    match fetch_track_info_detailed(run, cancelled) {
        Ok(m) => Ok(m),
        Err(e) => Err(e.message),
    }
}

/// The log line for metadata that was fetched.
pub fn fetched_line(meta: &TrackMetadata) -> (r: String)
    ensures
        r@ == "yt-dlp returned: title: "@ + meta.title@ + " | uploader: "@ + meta.uploader@
            + " | duration: "@ + decimal(meta.duration as nat) + "s | thumbnail: "@ + (
        match meta.thumbnail {
            Some(t) => t@,
            None => "(none)"@,
        }),
{
    let mut s = "yt-dlp returned: title: ".to_owned();
    s.append(meta.title.as_str());
    s.append(" | uploader: ");
    s.append(meta.uploader.as_str());
    s.append(" | duration: ");
    s.append(text::dec(meta.duration).as_str());
    s.append("s | thumbnail: ");
    match &meta.thumbnail {
        Some(t) => s.append(t.as_str()),
        None => s.append("(none)"),
    }
    s
}

/// The arguments that make yt-dlp download a track's audio, artwork and metadata
/// to files that follow the output template.
pub open spec fn download_request(
    quality_kbps: u32,
    cookies: CookieSource,
    template: Seq<char>,
    url: Seq<char>,
) -> Seq<Seq<char>> {
    seq![
        "--extract-audio"@,
        "--audio-format"@,
        "mp3"@,
        "--audio-quality"@,
        decimal(quality_kbps as nat) + "K"@,
        "--write-thumbnail"@,
        "--write-info-json"@,
        "--no-playlist"@,
        "--no-part"@,
        "--newline"@,
        "--no-warnings"@,
    ] + cookie_args(cookies) + seq!["-o"@, template, url]
}

/// The arguments that make yt-dlp download a track's audio, artwork and metadata.
pub fn download_args(
    quality_kbps: u32,
    cookies: &CookieSource,
    template: &str,
    url: &str,
) -> (r: Vec<String>)
    ensures
        views(r@) == download_request(quality_kbps, *cookies, template@, url@),
        asks_for_download(views(r@), quality_kbps, *cookies, template@, url@),
{
    proof {
        law_a_download_request_asks_for_all_three_files(quality_kbps, *cookies, template@, url@);
    }
    let mut quality = text::dec(quality_kbps as u64);
    quality.append("K");
    let mut args = text::list(
        vec![
            "--extract-audio",
            "--audio-format",
            "mp3",
            "--audio-quality",
            quality.as_str(),
            "--write-thumbnail",
            "--write-info-json",
            "--no-playlist",
            "--no-part",
            "--newline",
            "--no-warnings",
        ],
    );
    let ghost head = seq![
        "--extract-audio"@,
        "--audio-format"@,
        "mp3"@,
        "--audio-quality"@,
        decimal(quality_kbps as nat) + "K"@,
        "--write-thumbnail"@,
        "--write-info-json"@,
        "--no-playlist"@,
        "--no-part"@,
        "--newline"@,
        "--no-warnings"@,
    ];
    assert(views(args@) =~= head);
    cookies.apply(&mut args);
    text::put(&mut args, "-o");
    text::put(&mut args, template);
    text::put(&mut args, url);
    assert(views(args@) =~= head + cookie_args(*cookies) + seq!["-o"@, template@, url@]);
    args
}

/// A malformed answer is given up for good: output that is no JSON as well as
/// metadata without its required fields. Metadata with all of them is taken.
pub proof fn law_malformed_answers_are_final(
    code: Option<i32>,
    answer: Result<JsonView, Seq<char>>,
)
    ensures
        answer_outcome(code, answer) is Ok <==> answer is Ok && resolved(answer->Ok_0) is Ok,
        answer_outcome(code, answer) matches Err(e) ==> {
            &&& e.kind == FailureKind::Permanent
            &&& decision_for(e.kind) == RetryDecision::PermanentFailure
            &&& e.reason == Some(NO_DATA_REASON@)
            &&& !e.cancelled
        },
{
}

} // verus!
