//! Loading a playlist and retrying what failed: what is decided around the
//! fetches of the single tracks.
use vstd::prelude::*;
use vstd::string::*;

use crate::config::settings::{
    clamped, is_netscape, lowered_first_line, CookieBrowser, Settings, MAX_RETRY_CONCURRENCY,
    MAX_RETRY_DELAY_MS, MIN_RETRY_CONCURRENCY, MIN_RETRY_DELAY_MS,
};
use crate::downloader::cookies::CookieSource;
use crate::downloader::ytdlp::{
    is_soundcloud, looks_like_soundcloud_url, FailureKind, FlatEntry,
};
use crate::models::cache::{
    carried, resolved_count, with_failure, with_meta, CachedMeta, CachedTrack, PlaylistCache,
};
use crate::models::track::{opt, MetaFailure, Track, TrackMetadata};
use crate::pipeline::fetch::{
    is_history, law_requests_per_track_are_bounded, MetaFetch, TrackFetch,
};
use crate::text;
use crate::text::{decimal, joined, lowered, trimmed, views};

verus! {

/// How many metadata fetches run at once while loading.
pub const META_CONCURRENCY: usize = 4;

// ---------------------------------------------------------------------------
// Before the playlist is fetched
// ---------------------------------------------------------------------------

/// How the cookie source that the settings make reads in the log.
pub open spec fn authentication_text(settings: Settings, content: Option<&str>) -> Seq<char> {
    if settings.cookie_browser != CookieBrowser::NoBrowser {
        CookieSource::Browser(settings.cookie_browser).spec_describe()
    } else {
        match settings.usable_cookies_file(content) {
            Some(path) => "--cookies "@ + path,
            None => "no cookies (anonymous)"@,
        }
    }
}

/// The warning about a cookies file that is not used, where there is one.
pub open spec fn cookies_warning(
    settings: Settings,
    is_file: bool,
    content: Option<&str>,
) -> Seq<Seq<char>> {
    let path = trimmed(settings.cookies_path@);
    if path.len() > 0 && !is_file {
        seq!["WARN: cookies file '"@ + path + "' does not exist — ignoring it."@]
    } else if path.len() > 0 && content is Some && !is_netscape(
        content->0@,
        lowered_first_line(content->0@),
    ) {
        seq![
            "WARN: cookies file '"@ + path
                + "' is not in Netscape format (most browser export extensions save JSON, which yt-dlp cannot read) — ignoring it."@,
        ]
    } else {
        Seq::empty()
    }
}

/// Whether `r` is what the load of a playlist opens with.
pub open spec fn is_opening(
    settings: Settings,
    url: Seq<char>,
    is_file: bool,
    content: Option<&str>,
    r: Result<Vec<String>, String>,
) -> bool {
    match r {
        Ok(lines) => {
            &&& is_soundcloud(lowered(trimmed(url)))
            &&& views(lines@) == seq![
                "SoundCloud authentication: "@ + authentication_text(settings, content),
            ] + cookies_warning(settings, is_file, content) + seq![
                "Loading playlist: "@ + url,
            ]
        },
        Err(e) => {
            &&& !is_soundcloud(lowered(trimmed(url)))
            &&& e@
                == "That does not look like a SoundCloud URL. Expected something like https://soundcloud.com/artist/sets/playlist-name"@
        },
    }
}

/// Opens the load of a playlist: the lines for the log, or the error for an
/// address that is none of SoundCloud's. `is_file` says whether the cookies file
/// is there, `content` is what it holds where it can be read.
pub fn begin_load(settings: &Settings, url: &str, is_file: bool, content: Option<&str>) -> (r:
    Result<Vec<String>, String>)
    ensures
        is_opening(*settings, url@, is_file, content, r),
{
    if !looks_like_soundcloud_url(url) {
        return Err(
            "That does not look like a SoundCloud URL. Expected something like https://soundcloud.com/artist/sets/playlist-name".to_owned(),
        );
    }
    let mut lines: Vec<String> = Vec::new();
    let mut s = "SoundCloud authentication: ".to_owned();
    s.append(settings.cookie_source(content).describe().as_str());
    text::put(&mut lines, s.as_str());
    let path = text::trim(settings.cookies_path.as_str());
    if settings.cookies_missing(is_file) {
        let mut w = "WARN: cookies file '".to_owned();
        w.append(path.as_str());
        w.append("' does not exist — ignoring it.");
        text::put(&mut lines, w.as_str());
    } else if settings.cookies_wrong_format(content) {
        let mut w = "WARN: cookies file '".to_owned();
        w.append(path.as_str());
        w.append(
            "' is not in Netscape format (most browser export extensions save JSON, which yt-dlp cannot read) — ignoring it.",
        );
        text::put(&mut lines, w.as_str());
    }
    let mut l = "Loading playlist: ".to_owned();
    l.append(url);
    text::put(&mut lines, l.as_str());
    assert(views(lines@) =~= seq![
        "SoundCloud authentication: "@ + authentication_text(*settings, content),
    ] + cookies_warning(*settings, is_file, content) + seq!["Loading playlist: "@ + url@]);
    Ok(lines)
}

// ---------------------------------------------------------------------------
// Which tracks the playlist has
// ---------------------------------------------------------------------------

/// The tracks of a playlist.
pub struct Membership {
    pub title: String,
    pub entries: Vec<FlatEntry>,
    /// What the log says where these are the tracks of an earlier load.
    pub log: Option<String>,
}

/// Whether an entry is the one that a cached track stands for.
pub open spec fn entry_of_track(e: FlatEntry, t: CachedTrack) -> bool {
    e.id@ == t.id@ && e.url@ == t.url@ && opt(e.title) == Some(t.title@)
}

/// Whether `r` is what the playlist has: what was just fetched, else what is cached for
/// it, and without either the error of the fetch.
pub open spec fn is_membership(
    fetched: Result<(String, Vec<FlatEntry>), String>,
    cached: Option<&PlaylistCache>,
    r: Result<Membership, String>,
) -> bool {
    match fetched {
        Ok((title, entries)) => {
            &&& r is Ok
            &&& r->Ok_0.title == title
            &&& r->Ok_0.entries == entries
            &&& r->Ok_0.log is None
        },
        Err(e) => if cached is Some && cached->0.tracks@.len() > 0 {
            let tracks = cached->0.tracks@;
            &&& r is Ok
            &&& r->Ok_0.title@ == cached->0.playlist_title@
            &&& r->Ok_0.entries@.len() == tracks.len()
            &&& forall|i: int|
                0 <= i < tracks.len() ==> entry_of_track(
                    #[trigger] r->Ok_0.entries@[i],
                    tracks[i],
                )
            &&& opt(r->Ok_0.log) == Some(
                "Could not reach SoundCloud ("@ + e@
                    + "); using the cached copy of this playlist ("@ + decimal(tracks.len())
                    + " track(s))."@,
            )
        } else {
            r == Err::<Membership, String>(e)
        },
    }
}

/// Which tracks the playlist has: those that were just fetched, else those that
/// are cached for it, so that a list stays usable while SoundCloud cannot be
/// reached. Without either, the error of the fetch.
pub fn choose_membership(
    fetched: Result<(String, Vec<FlatEntry>), String>,
    cached: Option<&PlaylistCache>,
) -> (r: Result<Membership, String>)
    ensures
        is_membership(fetched, cached, r),
{
    match fetched {
        Ok((title, entries)) => Ok(Membership { title, entries, log: None }),
        Err(e) => {
            let cache = match cached {
                None => {
                    return Err(e);
                },
                Some(c) => c,
            };
            if cache.tracks.len() == 0 {
                return Err(e);
            }
            let mut s = "Could not reach SoundCloud (".to_owned();
            s.append(e.as_str());
            s.append("); using the cached copy of this playlist (");
            s.append(text::dec(cache.tracks.len() as u64).as_str());
            s.append(" track(s)).");
            let mut entries: Vec<FlatEntry> = Vec::new();
            for i in 0..cache.tracks.len()
                invariant
                    entries@.len() == i,
                    forall|j: int|
                        0 <= j < i ==> entry_of_track(#[trigger] entries@[j], cache.tracks@[j]),
            {
                let t = &cache.tracks[i];
                entries.push(
                    FlatEntry {
                        id: t.id.clone(),
                        url: t.url.clone(),
                        title: Some(t.title.clone()),
                    },
                );
            }
            Ok(Membership { title: cache.playlist_title.clone(), entries, log: Some(s) })
        },
    }
}

// ---------------------------------------------------------------------------
// What has to be fetched
// ---------------------------------------------------------------------------

/// Whether a track has to be fetched: it is not resolved, and not known to be
/// gone for good.
pub open spec fn wanted(t: CachedTrack) -> bool {
    match t.meta {
        CachedMeta::Loaded => false,
        CachedMeta::Missing => true,
        CachedMeta::Failed { permanent, .. } => !permanent,
    }
}

/// The places of the wanted tracks among the first `n`, in order.
pub open spec fn wanted_places(tracks: Seq<CachedTrack>, n: nat) -> Seq<usize>
    decreases n,
{
    if n == 0 {
        Seq::empty()
    } else {
        let before = wanted_places(tracks, (n - 1) as nat);
        if wanted(tracks[n - 1]) {
            before.push((n - 1) as usize)
        } else {
            before
        }
    }
}

fn is_wanted(t: &CachedTrack) -> (r: bool)
    ensures
        r == wanted(*t),
{
    match &t.meta {
        CachedMeta::Loaded => false,
        CachedMeta::Missing => true,
        CachedMeta::Failed { permanent, restricted: _, reason: _ } => !*permanent,
    }
}

/// A playlist whose cached metadata is in place.
pub struct PreparedLoad {
    /// The cache, reconciled with the playlist.
    pub cache: PlaylistCache,
    /// The rows to show.
    pub tracks: Vec<Track>,
    /// The places of the tracks that have to be fetched.
    pub to_fetch: Vec<usize>,
    /// What the log says of the cache, where it held something.
    pub log: Option<String>,
}

/// Whether `r` is the playlist with its cached metadata in place.
pub open spec fn is_prepared(
    cache: PlaylistCache,
    title: Seq<char>,
    entries: Seq<FlatEntry>,
    max_us: u64,
    r: PreparedLoad,
) -> bool {
    &&& r.cache.version == cache.version
    &&& r.cache.playlist_url == cache.playlist_url
    &&& r.cache.playlist_title@ == title
    &&& r.cache.tracks@.len() == entries.len()
    &&& forall|i: int|
        0 <= i < entries.len() ==> carried(
            cache.tracks@,
            entries,
            i,
            #[trigger] r.cache.tracks@[i],
        )
    &&& r.tracks@.len() == entries.len()
    &&& forall|i: int|
        0 <= i < entries.len() ==> r.cache.tracks@[i].shown_by(
            #[trigger] r.tracks@[i],
            max_us,
        )
    &&& r.to_fetch@ == wanted_places(r.cache.tracks@, r.cache.tracks@.len())
    &&& opt(r.log) == (if resolved_count(r.cache.tracks@) > 0 {
        Some(
            "✓ Loaded metadata cache ("@ + decimal(resolved_count(r.cache.tracks@)) + " of "@
                + decimal(entries.len()) + " track(s) already known)"@,
        )
    } else {
        None
    })
}

/// Reconciles the cache with the playlist, makes the rows out of it, and finds
/// what is left to fetch.
pub fn prepare_load(cache: PlaylistCache, title: &str, entries: &[FlatEntry], max_us: u64) -> (r:
    PreparedLoad)
    ensures
        is_prepared(cache, title@, entries@, max_us, r),
{
    let mut cache = cache;
    cache.sync_entries(title, entries);
    let complete = cache.complete_count();
    let mut tracks: Vec<Track> = Vec::new();
    let mut to_fetch: Vec<usize> = Vec::new();
    for i in 0..cache.tracks.len()
        invariant
            tracks@.len() == i,
            forall|j: int|
                0 <= j < i ==> cache.tracks@[j].shown_by(#[trigger] tracks@[j], max_us),
            to_fetch@ == wanted_places(cache.tracks@, i as nat),
    {
        tracks.push(cache.tracks[i].to_track(max_us));
        if is_wanted(&cache.tracks[i]) {
            to_fetch.push(i);
        }
    }
    let log = if complete > 0 {
        let mut s = "✓ Loaded metadata cache (".to_owned();
        s.append(text::dec(complete as u64).as_str());
        s.append(" of ");
        s.append(text::dec(tracks.len() as u64).as_str());
        s.append(" track(s) already known)");
        Some(s)
    } else {
        None
    };
    PreparedLoad { cache, tracks, to_fetch, log }
}

/// A track is fetched exactly when its metadata is not there and it may yet be
/// had, and no track is fetched twice.
pub proof fn law_only_missing_tracks_are_fetched(tracks: Seq<CachedTrack>, n: nat)
    requires
        n <= tracks.len() <= usize::MAX,
    ensures
        forall|p: usize| #[trigger]
            wanted_places(tracks, n).contains(p) <==> p < n && wanted(tracks[p as int]),
        forall|i: int, j: int|
            0 <= i < j < wanted_places(tracks, n).len() ==> (#[trigger] wanted_places(tracks, n)[i])
                < (#[trigger] wanted_places(tracks, n)[j]),
    decreases n,
{
    if n > 0 {
        let before = wanted_places(tracks, (n - 1) as nat);
        let now = wanted_places(tracks, n);
        law_only_missing_tracks_are_fetched(tracks, (n - 1) as nat);
        assert forall|p: usize| #[trigger] now.contains(p) <==> p < n && wanted(
            tracks[p as int],
        ) by {
            if wanted(tracks[n - 1]) {
                assert(now[before.len() as int] == n - 1);
                if before.contains(p) {
                    let k = choose|k: int| 0 <= k < before.len() && before[k] == p;
                    assert(now[k] == p);
                }
                if now.contains(p) && p != n - 1 {
                    let k = choose|k: int| 0 <= k < now.len() && now[k] == p;
                    assert(before[k] == p);
                }
            }
            if before.contains(p) {
                assert(p < n - 1);
            }
        }
        assert forall|i: int, j: int| 0 <= i < j < now.len() implies (#[trigger] now[i])
            < (#[trigger] now[j]) by {
            assert(now[i] == before[i]);
            assert(before.contains(before[i]));
            if j < before.len() {
                assert(now[j] == before[j]);
            }
        }
    }
}

/// A back-off ladder as the log shows it.
pub open spec fn ladder_text(steps: Seq<u64>) -> Seq<char> {
    joined(Seq::new(steps.len(), |i: int| decimal(steps[i] as nat) + "s"@), " → "@)
}

/// Human-readable back-off ladder.
pub fn describe_backoff(steps: &[u64]) -> (r: String)
    ensures
        r@ == ladder_text(steps@),
{
    let ghost all = Seq::new(steps@.len(), |i: int| decimal(steps@[i] as nat) + "s"@);
    let mut parts: Vec<String> = Vec::new();
    assert(views(parts@) =~= all.take(0));
    for i in 0..steps.len()
        invariant
            all == Seq::new(steps@.len(), |i: int| decimal(steps@[i] as nat) + "s"@),
            views(parts@) == all.take(i as int),
    {
        let mut s = text::dec(steps[i]);
        s.append("s");
        text::put(&mut parts, s.as_str());
        assert(views(parts@) =~= all.take(i + 1));
    }
    assert(all.take(steps@.len() as int) =~= all);
    text::join(parts.as_slice(), " → ")
}

/// How often a track is tried: as often as the settings allow where transient
/// failures are retried, else exactly once.
pub open spec fn planned_attempts(settings: Settings) -> int {
    if settings.auto_metadata_retry {
        settings.attempts()
    } else {
        1
    }
}

/// How often a track is tried while loading.
pub fn load_attempts(settings: &Settings) -> (r: u32)
    ensures
        r == planned_attempts(*settings),
{
    if settings.auto_metadata_retry {
        settings.metadata_retry_attempts()
    } else {
        1
    }
}

/// How often a track is tried in a retry pass.
pub fn retry_attempts(settings: &Settings) -> (r: u32)
    ensures
        r == planned_attempts(*settings),
{
    load_attempts(settings)
}

/// With the retry of transient failures off, a track is requested exactly once, in a
/// load as well as in a retry pass; only refused access can be followed by one more
/// request, with fresh cookies.
pub proof fn law_a_track_is_fetched_once_where_retry_is_off(
    settings: Settings,
    m: MetaFetch,
    requests: Seq<TrackFetch>,
)
    requires
        !settings.auto_metadata_retry,
        m.max_attempts == planned_attempts(settings),
        is_history(m, requests),
    ensures
        requests.len() == if requests.last().cookies_refreshed {
            2int
        } else {
            1
        },
        !(m.auto_cookie_refresh && m.browser is Some) ==> requests.len() == 1,
{
    law_requests_per_track_are_bounded(m, requests);
}

/// The log line before the fetches of a load.
pub fn load_plan_line(count: usize, attempts: u32, retrying: bool, steps: &[u64]) -> (r: String)
    ensures
        r@ == (if count == 0 {
            "All track metadata served from cache — no SoundCloud requests needed."@
        } else {
            "Fetching metadata for "@ + decimal(count as nat) + " track(s) not in cache ("@
                + decimal(META_CONCURRENCY as nat) + " at a time, up to "@ + decimal(
                attempts as nat,
            ) + " attempt(s) each"@ + (if retrying {
                ", rate-limit back-off "@ + ladder_text(steps@)
            } else {
                ""@
            }) + ")."@
        }),
{
    if count == 0 {
        return "All track metadata served from cache — no SoundCloud requests needed.".to_owned();
    }
    let mut s = "Fetching metadata for ".to_owned();
    s.append(text::dec(count as u64).as_str());
    s.append(" track(s) not in cache (");
    s.append(text::dec(META_CONCURRENCY as u64).as_str());
    s.append(" at a time, up to ");
    s.append(text::dec(attempts as u64).as_str());
    s.append(" attempt(s) each");
    let tail = if retrying {
        let mut t = ", rate-limit back-off ".to_owned();
        t.append(describe_backoff(steps).as_str());
        t
    } else {
        "".to_owned()
    };
    s.append(tail.as_str());
    s.append(").");
    s
}

// ---------------------------------------------------------------------------
// Outcomes
// ---------------------------------------------------------------------------

/// Records the outcome of a fetch in the cache.
pub fn update_cache_meta(
    cache: &mut PlaylistCache,
    index: usize,
    result: &Result<TrackMetadata, MetaFailure>,
)
    ensures
        final(cache).same_but_entry(*old(cache), index as int),
        index < old(cache).tracks@.len() ==> match *result {
            Ok(meta) => with_meta(
                old(cache).tracks@[index as int],
                meta,
                final(cache).tracks@[index as int],
            ),
            Err(f) => final(cache).tracks@[index as int] == with_failure(
                old(cache).tracks@[index as int],
                f,
            ),
        },
{
    match result {
        Ok(meta) => cache.record_meta(index, meta),
        Err(f) => cache.record_meta_failure(index, f),
    }
}

/// How many of the outcomes (`None` for a success) are failures of this kind.
pub open spec fn count_kind(outcomes: Seq<Option<FailureKind>>, kind: FailureKind) -> nat
    decreases outcomes.len(),
{
    if outcomes.len() == 0 {
        0
    } else {
        count_kind(outcomes.drop_last(), kind) + if outcomes.last() == Some(kind) {
            1nat
        } else {
            0
        }
    }
}

/// How many of the outcomes are successes.
pub open spec fn count_ok(outcomes: Seq<Option<FailureKind>>) -> nat
    decreases outcomes.len(),
{
    if outcomes.len() == 0 {
        0
    } else {
        count_ok(outcomes.drop_last()) + if outcomes.last() is None {
            1nat
        } else {
            0
        }
    }
}

/// How many fetches came out which way.
#[derive(Debug, Clone, Copy, PartialEq, Eq, Structural)]
pub struct Tally {
    pub succeeded: usize,
    pub failed: usize,
    pub rate_limited: usize,
    pub permanent: usize,
    pub restricted: usize,
}

/// Counts the outcomes of a batch (`None` for a success).
pub fn tally(outcomes: &[Option<FailureKind>]) -> (r: Tally)
    ensures
        r.succeeded == count_ok(outcomes@),
        r.rate_limited == count_kind(outcomes@, FailureKind::Retryable),
        r.permanent == count_kind(outcomes@, FailureKind::Permanent),
        r.restricted == count_kind(outcomes@, FailureKind::Restricted),
        r.failed == r.rate_limited + r.permanent + r.restricted,
        r.succeeded + r.failed == outcomes@.len(),
{
    let mut t = Tally { succeeded: 0, failed: 0, rate_limited: 0, permanent: 0, restricted: 0 };
    assert(outcomes@.take(0) =~= Seq::empty());
    for i in 0..outcomes.len()
        invariant
            t.succeeded == count_ok(outcomes@.take(i as int)),
            t.rate_limited == count_kind(outcomes@.take(i as int), FailureKind::Retryable),
            t.permanent == count_kind(outcomes@.take(i as int), FailureKind::Permanent),
            t.restricted == count_kind(outcomes@.take(i as int), FailureKind::Restricted),
            t.failed == t.rate_limited + t.permanent + t.restricted,
            t.succeeded + t.failed == i,
    {
        assert(outcomes@.take(i + 1).drop_last() =~= outcomes@.take(i as int));
        match outcomes[i] {
            None => {
                t.succeeded = t.succeeded + 1;
            },
            Some(kind) => {
                t.failed = t.failed + 1;
                match kind {
                    FailureKind::Retryable => {
                        t.rate_limited = t.rate_limited + 1;
                    },
                    FailureKind::Permanent => {
                        t.permanent = t.permanent + 1;
                    },
                    FailureKind::Restricted => {
                        t.restricted = t.restricted + 1;
                    },
                }
            },
        }
    }
    assert(outcomes@.take(outcomes@.len() as int) =~= outcomes@);
    t
}

/// The kind of failure that an outcome counts as.
pub fn outcome_kind(result: &Result<TrackMetadata, MetaFailure>) -> (r: Option<FailureKind>)
    ensures
        r == (match *result {
            Ok(_) => None,
            Err(f) => Some(f.kind),
        }),
{
    match result {
        Ok(_) => None,
        Err(f) => Some(f.kind),
    }
}

/// The log line after the fetches of a load.
pub fn load_finished_line(t: &Tally) -> (r: String)
    ensures
        r@ == "Playlist metadata loading finished: "@ + decimal(t.failed as nat)
            + " still failed ("@ + decimal(t.rate_limited as nat) + " transient/rate-limited, "@
            + decimal(t.restricted as nat) + " access-restricted, "@ + decimal(t.permanent as nat)
            + " permanently unavailable)."@,
{
    let mut s = "Playlist metadata loading finished: ".to_owned();
    s.append(text::dec(t.failed as u64).as_str());
    s.append(" still failed (");
    s.append(text::dec(t.rate_limited as u64).as_str());
    s.append(" transient/rate-limited, ");
    s.append(text::dec(t.restricted as u64).as_str());
    s.append(" access-restricted, ");
    s.append(text::dec(t.permanent as u64).as_str());
    s.append(" permanently unavailable).");
    s
}

// ---------------------------------------------------------------------------
// Retrying
// ---------------------------------------------------------------------------

/// How many workers a retry pass has: never more than a load.
pub open spec fn retry_worker_count(settings: Settings) -> int {
    clamped(
        settings.retry_concurrency as int,
        MIN_RETRY_CONCURRENCY as int,
        MAX_RETRY_CONCURRENCY as int,
    )
}

/// How many workers a retry pass has.
pub fn retry_pass_workers(settings: &Settings) -> (r: usize)
    ensures
        r == retry_worker_count(*settings),
        r <= META_CONCURRENCY,
{
    let workers = settings.retry_workers();
    if workers > META_CONCURRENCY {
        META_CONCURRENCY
    } else {
        workers
    }
}

/// Whatever the settings say, a retry pass is no harder on the server than a load:
/// it has a worker, but never more of them than a load has, and it always pauses
/// before a request.
pub proof fn law_a_retry_pass_is_gentler_than_a_load(settings: Settings)
    ensures
        1 <= retry_worker_count(settings) <= META_CONCURRENCY,
        clamped(
            settings.retry_delay_ms as int,
            MIN_RETRY_DELAY_MS as int,
            MAX_RETRY_DELAY_MS as int,
        ) > 0,
{
}

/// The log line before a retry pass over `total` tracks.
pub fn retry_plan_line(settings: &Settings, total: usize, steps: &[u64]) -> (r: String)
    ensures
        r@ == "Retrying metadata for "@ + decimal(total as nat) + " failed track(s): "@ + decimal(
            retry_worker_count(*settings) as nat,
        ) + " worker(s), "@ + decimal(
            clamped(
                settings.retry_delay_ms as int,
                MIN_RETRY_DELAY_MS as int,
                MAX_RETRY_DELAY_MS as int,
            ) as nat,
        ) + "ms between requests, up to "@ + decimal(planned_attempts(*settings) as nat)
            + " attempts each, rate-limit back-off "@ + ladder_text(steps@) + "."@,
{
    let mut s = "Retrying metadata for ".to_owned();
    s.append(text::dec(total as u64).as_str());
    s.append(" failed track(s): ");
    s.append(text::dec(retry_pass_workers(settings) as u64).as_str());
    s.append(" worker(s), ");
    s.append(text::dec(settings.retry_delay()).as_str());
    s.append("ms between requests, up to ");
    s.append(text::dec(retry_attempts(settings) as u64).as_str());
    s.append(" attempts each, rate-limit back-off ");
    s.append(describe_backoff(steps).as_str());
    s.append(".");
    s
}

/// How many tracks of a retry pass are left after some are done.
pub fn retry_remaining(total: usize, finished: usize) -> (r: usize)
    ensures
        r == (if finished > total {
            0
        } else {
            total - finished
        }),
        finished <= total ==> r + finished == total,
{
    if finished > total {
        0
    } else {
        total - finished
    }
}

/// How a retry pass came out.
pub struct RetryOutcome {
    pub recovered: usize,
    pub still_failed: usize,
    pub permanent: usize,
    pub restricted: usize,
    pub log: String,
}

/// Whether `r` sums up a retry pass over `total` tracks with these outcomes.
pub open spec fn is_retry_outcome(
    total: usize,
    outcomes: Seq<Option<FailureKind>>,
    cancelled: bool,
    gave_up: bool,
    r: RetryOutcome,
) -> bool {
    &&& r.recovered == count_ok(outcomes)
    &&& r.still_failed == total - count_ok(outcomes)
    &&& r.recovered + r.still_failed == total
    &&& r.permanent == count_kind(outcomes, FailureKind::Permanent)
    &&& r.restricted == count_kind(outcomes, FailureKind::Restricted)
    &&& r.log@ == "Metadata retry "@ + (if cancelled {
        "cancelled"@
    } else if gave_up {
        "stopped early (still rate limited)"@
    } else {
        "complete"@
    }) + ": "@ + decimal(count_ok(outcomes)) + " recovered, "@ + decimal(
        (total - count_ok(outcomes)) as nat,
    ) + " still failed ("@ + decimal(count_kind(outcomes, FailureKind::Restricted))
        + " access-restricted, "@ + decimal(count_kind(outcomes, FailureKind::Permanent))
        + " permanently unavailable) (of "@ + decimal(total as nat) + ")."@
}

/// Sums up a retry pass over `total` tracks from the outcomes of those that were
/// tried (`None` for a success). What was not recovered is still failed, also
/// what was never tried because the pass was cancelled or given up.
pub fn retry_outcome(
    total: usize,
    outcomes: &[Option<FailureKind>],
    cancelled: bool,
    gave_up: bool,
) -> (r: RetryOutcome)
    requires
        outcomes@.len() <= total,
    ensures
        is_retry_outcome(total, outcomes@, cancelled, gave_up, r),
{
    let t = tally(outcomes);
    let still_failed: usize = total - t.succeeded;
    let mut s = "Metadata retry ".to_owned();
    s.append(
        if cancelled {
            "cancelled"
        } else if gave_up {
            "stopped early (still rate limited)"
        } else {
            "complete"
        },
    );
    s.append(": ");
    s.append(text::dec(t.succeeded as u64).as_str());
    s.append(" recovered, ");
    s.append(text::dec(still_failed as u64).as_str());
    s.append(" still failed (");
    s.append(text::dec(t.restricted as u64).as_str());
    s.append(" access-restricted, ");
    s.append(text::dec(t.permanent as u64).as_str());
    s.append(" permanently unavailable) (of ");
    s.append(text::dec(total as u64).as_str());
    s.append(").");
    RetryOutcome {
        recovered: t.succeeded,
        still_failed,
        permanent: t.permanent,
        restricted: t.restricted,
        log: s,
    }
}

} // verus!
