//! Per-playlist metadata cache: everything already known about a playlist's
//! tracks, so that nothing is ever fetched twice.
use vstd::prelude::*;
use vstd::string::*;
use vstd::utf8::{encode_utf8, is_ascii_chars};

use crate::config::settings::Settings;
use crate::downloader::ytdlp::FlatEntry;
use crate::models::track::{
    copy_text, opt, play_time, FailureKind, MetaFailure, MetaState, Track, TrackMetadata,
};
use crate::text;
use crate::text::{ascii_small, hexadecimal, lowered, trimmed, views};

verus! {

/// The version of the stored form; a file of another version is ignored.
pub const CACHE_VERSION: u32 = 1;

/// What is stored of the state of a track's metadata.
#[derive(Debug, PartialEq)]
pub enum CachedMeta {
    /// Fully resolved: never fetched again.
    Loaded,
    /// Never fetched with success yet.
    Missing,
    /// Fetched and failed; the verdicts say whether a retry could help.
    Failed { permanent: bool, restricted: bool, reason: Option<String> },
}

impl Clone for CachedMeta {
    fn clone(&self) -> (r: Self)
        ensures
            r == *self,
    {
        match self {
            CachedMeta::Loaded => CachedMeta::Loaded,
            CachedMeta::Missing => CachedMeta::Missing,
            CachedMeta::Failed { permanent, restricted, reason } => CachedMeta::Failed {
                permanent: *permanent,
                restricted: *restricted,
                reason: copy_text(reason),
            },
        }
    }
}

/// What is stored of the render outcome.
#[derive(Debug, PartialEq)]
pub enum CachedRender {
    Pending,
    Done,
    Failed { reason: String },
}

impl Clone for CachedRender {
    fn clone(&self) -> (r: Self)
        ensures
            r == *self,
    {
        match self {
            CachedRender::Pending => CachedRender::Pending,
            CachedRender::Done => CachedRender::Done,
            CachedRender::Failed { reason } => CachedRender::Failed { reason: reason.clone() },
        }
    }
}

/// Everything known about one track.
#[derive(Debug)]
pub struct CachedTrack {
    pub index: usize,
    pub id: String,
    pub url: String,
    pub title: String,
    pub uploader: String,
    pub duration: u64,
    pub thumbnail: Option<String>,
    /// Chapter title exactly as the combined export uses it, so that a resumed
    /// export names its chapters the same.
    pub chapter_title: Option<String>,
    /// Clip file name once rendered.
    pub clip_file: Option<String>,
    pub meta: CachedMeta,
    pub render: CachedRender,
}

impl Clone for CachedTrack {
    fn clone(&self) -> (r: Self)
        ensures
            r == *self,
    {
        CachedTrack {
            index: self.index,
            id: self.id.clone(),
            url: self.url.clone(),
            title: self.title.clone(),
            uploader: self.uploader.clone(),
            duration: self.duration,
            thumbnail: copy_text(&self.thumbnail),
            chapter_title: copy_text(&self.chapter_title),
            clip_file: copy_text(&self.clip_file),
            meta: self.meta.clone(),
            render: self.render.clone(),
        }
    }
}

/// The failure that a stored verdict stands for, as message, kind and reason.
pub open spec fn stored_failure(
    permanent: bool,
    restricted: bool,
    reason: Option<Seq<char>>,
) -> (Seq<char>, FailureKind, Option<Seq<char>>) {
    let message = match reason {
        Some(s) => s,
        None => "previously failed to load"@,
    };
    if permanent {
        (message, FailureKind::Permanent, Some(message))
    } else if restricted {
        (message, FailureKind::Restricted, Some(message))
    } else {
        (message, FailureKind::Retryable, None)
    }
}

/// The failure that a stored verdict stands for.
pub fn cached_failure(permanent: bool, restricted: bool, reason: &Option<String>) -> (r:
    MetaFailure)
    ensures
        (r.message@, r.kind, opt(r.reason)) == stored_failure(permanent, restricted, opt(*reason)),
{
    let message = match reason {
        Some(s) => s.clone(),
        None => "previously failed to load".to_owned(),
    };
    if permanent {
        MetaFailure::permanent(message.clone(), message)
    } else if restricted {
        MetaFailure::restricted(message.clone(), message)
    } else {
        MetaFailure::transient(message)
    }
}

impl CachedTrack {
    /// Whether this is an entry of which nothing is known yet.
    pub open spec fn is_new(
        self,
        index: int,
        id: Seq<char>,
        url: Seq<char>,
        title: Seq<char>,
    ) -> bool {
        &&& self.index == index
        &&& self.id@ == id
        &&& self.url@ == url
        &&& self.title@ == title
        &&& self.uploader@.len() == 0
        &&& self.duration == 0
        &&& self.thumbnail is None
        &&& self.chapter_title is None
        &&& self.clip_file is None
        &&& self.meta is Missing
        &&& self.render is Pending
    }

    fn placeholder(index: usize, id: String, url: String, title: String) -> (r: Self)
        ensures
            r.is_new(index as int, id@, url@, title@),
    {
        CachedTrack {
            index,
            id,
            url,
            title,
            uploader: String::new(),
            duration: 0,
            thumbnail: None,
            chapter_title: None,
            clip_file: None,
            meta: CachedMeta::Missing,
            render: CachedRender::Pending,
        }
    }

    /// Fully resolved: needs no fetch.
    pub fn is_complete(&self) -> (r: bool)
        ensures
            r == (self.meta is Loaded),
    {
        match self.meta {
            CachedMeta::Loaded => true,
            _ => false,
        }
    }

    /// Whether the metadata is missing and no verdict stands against fetching it.
    pub open spec fn recoverable(self) -> bool {
        match self.meta {
            CachedMeta::Loaded => false,
            CachedMeta::Missing => true,
            CachedMeta::Failed { permanent, restricted, .. } => !permanent && !restricted,
        }
    }

    /// Whether the recovery loop tries to fetch this track by itself. Refused and
    /// lost tracks are left out: the identical request would fail the same way.
    pub fn needs_recovery(&self) -> (r: bool)
        ensures
            r == self.recoverable(),
    {
        match &self.meta {
            CachedMeta::Loaded => false,
            CachedMeta::Missing => true,
            CachedMeta::Failed { permanent, restricted, reason: _ } => !*permanent && !*restricted,
        }
    }

    /// Whether a row shows this entry: its metadata where it is resolved, a row
    /// that is still loading where it is to be recovered, else the failure; a
    /// lost track is not selected.
    pub open spec fn shown_by(self, t: Track, global_max_us: u64) -> bool {
        &&& t.id@ == self.id@
        &&& t.url@ == self.url@
        &&& t.title@ == self.title@
        &&& t.status is Pending
        &&& match self.meta {
            CachedMeta::Loaded => {
                &&& t.uploader@ == self.uploader@
                &&& t.duration == self.duration
                &&& opt(t.thumbnail) == opt(self.thumbnail)
                &&& t.play_us == play_time(self.duration, global_max_us)
                &&& t.selected
                &&& t.meta is Loaded
            },
            CachedMeta::Missing => t.is_placeholder(self.id@, self.url@, Some(self.title@)),
            CachedMeta::Failed { permanent, restricted, reason } => if !permanent && !restricted {
                t.is_placeholder(self.id@, self.url@, Some(self.title@))
            } else {
                &&& t.uploader@.len() == 0
                &&& t.duration == 0
                &&& t.thumbnail is None
                &&& t.selected == !permanent
                &&& t.play_us == crate::models::track::DEFAULT_PLAY_US
                &&& t.meta is Failed
                &&& (
                    t.meta->Failed_0.message@,
                    t.meta->Failed_0.kind,
                    opt(t.meta->Failed_0.reason),
                ) == stored_failure(permanent, restricted, opt(reason))
            },
        }
    }

    /// The row that this entry stands for.
    pub fn to_track(&self, global_max_us: u64) -> (r: Track)
        ensures
            self.shown_by(r, global_max_us),
    {
        let mut t = Track::placeholder(
            self.id.clone(),
            self.url.clone(),
            Some(self.title.clone()),
        );
        match &self.meta {
            CachedMeta::Loaded => {
                let meta = TrackMetadata {
                    id: self.id.clone(),
                    title: self.title.clone(),
                    uploader: self.uploader.clone(),
                    duration: self.duration,
                    thumbnail: copy_text(&self.thumbnail),
                    url: self.url.clone(),
                };
                t.apply_metadata(&meta, global_max_us);
            },
            CachedMeta::Missing => {},
            CachedMeta::Failed { permanent, restricted, reason } => {
                if *permanent || *restricted {
                    let failure = cached_failure(*permanent, *restricted, reason);
                    if failure.is_permanent() {
                        t.selected = false;
                    }
                    t.meta = MetaState::Failed(failure);
                }
            },
        }
        t
    }
}

/// One playlist's cache.
#[derive(Debug, Clone)]
pub struct PlaylistCache {
    pub version: u32,
    /// The normalised address of the playlist: it keeps one playlist's cache from
    /// ever standing in for another's.
    pub playlist_url: String,
    pub playlist_title: String,
    pub tracks: Vec<CachedTrack>,
}

// ---------------------------------------------------------------------------
// Identity
// ---------------------------------------------------------------------------

/// `s` without the slashes it ends with.
pub open spec fn unslashed(s: Seq<char>) -> Seq<char>
    decreases s.len(),
{
    if s.len() > 0 && s.last() == '/' {
        unslashed(s.drop_last())
    } else {
        s
    }
}

/// The form of an address that identifies a playlist: trimmed, without a
/// trailing slash, in lower case.
pub open spec fn normalized(url: Seq<char>) -> Seq<char> {
    lowered(unslashed(trimmed(url)))
}

/// The 64-bit FNV-1a hash of a row of bytes.
pub open spec fn fnv1a(bytes: Seq<u8>) -> u64
    decreases bytes.len(),
{
    if bytes.len() == 0 {
        0xcbf2_9ce4_8422_2325
    } else {
        (fnv1a(bytes.drop_last()) ^ (bytes.last() as u64)).wrapping_mul(0x0000_0100_0000_01b3)
    }
}

/// The name that a normalised address is stored under.
pub open spec fn cache_key(norm: Seq<char>) -> Seq<char> {
    hexadecimal(fnv1a(encode_utf8(norm)) as nat, 16)
}

/// The row with this id that is followed by exactly `n` others with it.
pub open spec fn nth_last_with_id(tracks: Seq<CachedTrack>, id: Seq<char>, n: nat) -> Option<int>
    decreases tracks.len(),
{
    if tracks.len() == 0 {
        None
    } else if tracks.last().id@ != id {
        nth_last_with_id(tracks.drop_last(), id, n)
    } else if n == 0 {
        Some(tracks.len() - 1)
    } else {
        nth_last_with_id(tracks.drop_last(), id, (n - 1) as nat)
    }
}

/// The last row with this id whose metadata is resolved.
pub open spec fn last_resolved(tracks: Seq<CachedTrack>, id: Seq<char>) -> Option<int>
    decreases tracks.len(),
{
    if tracks.len() == 0 {
        None
    } else if tracks.last().id@ == id && tracks.last().meta is Loaded {
        Some(tracks.len() - 1)
    } else {
        last_resolved(tracks.drop_last(), id)
    }
}

/// How many of the entries from `from` up to `to` have this id.
pub open spec fn listed_between(
    entries: Seq<FlatEntry>,
    id: Seq<char>,
    from: int,
    to: int,
) -> nat
    decreases to - from,
{
    if to <= from {
        0
    } else {
        listed_between(entries, id, from, to - 1) + if entries[to - 1].id@ == id {
            1nat
        } else {
            0
        }
    }
}

/// The row that stands for entry `i` of the playlist. A playlist may list a track
/// more than once: its entries then go with its rows in order, the last with the
/// last. Where an entry's own row is not resolved but another row of the track is,
/// that one stands for it, so that nothing that is known has to be fetched again.
pub open spec fn row_for(before: Seq<CachedTrack>, entries: Seq<FlatEntry>, i: int) -> Option<int> {
    let id = entries[i].id@;
    let own = nth_last_with_id(
        before,
        id,
        listed_between(entries, id, i + 1, entries.len() as int),
    );
    if own is Some && before[own->0].meta is Loaded {
        own
    } else if last_resolved(before, id) is Some {
        last_resolved(before, id)
    } else if own is Some {
        own
    } else {
        nth_last_with_id(before, id, 0)
    }
}

/// Whether `now` is this row at place `i` of the playlist, with the address that
/// the playlist gives it, if it gives one.
pub open spec fn moved_to(row: CachedTrack, i: int, e: FlatEntry, now: CachedTrack) -> bool {
    now == (CachedTrack {
        index: i as usize,
        url: if e.url@.len() > 0 {
            e.url
        } else {
            row.url
        },
        ..row
    })
}

/// Whether `now` is what the cache holds for entry `i` after it was reconciled
/// with the playlist: everything that was known of the track with that id, at its
/// new place and with its new address, or a new entry where there was no such
/// track.
pub open spec fn carried(
    before: Seq<CachedTrack>,
    entries: Seq<FlatEntry>,
    i: int,
    now: CachedTrack,
) -> bool {
    let e = entries[i];
    match row_for(before, entries, i) {
        Some(k) => moved_to(before[k], i, e, now),
        None => now.is_new(
            i,
            e.id@,
            e.url@,
            match e.title {
                Some(t) => t@,
                None => "Track "@ + e.id@,
            },
        ),
    }
}

/// Whether `now`, at place `i` of the playlist, holds what was known of the track: it
/// is one of the track's rows where there was any, and a resolved one where there was
/// any of these.
pub open spec fn keeps_known(
    before: Seq<CachedTrack>,
    entries: Seq<FlatEntry>,
    i: int,
    now: CachedTrack,
) -> bool {
    &&& (exists|k: int| 0 <= k < before.len() && (#[trigger] before[k]).id@ == entries[i].id@)
        ==> exists|k: int|
        0 <= k < before.len() && (#[trigger] before[k]).id@ == entries[i].id@ && moved_to(
            before[k],
            i,
            entries[i],
            now,
        )
    &&& forall|k: int|
        0 <= k < before.len() && (#[trigger] before[k]).id@ == entries[i].id@
            && before[k].meta is Loaded ==> now.meta is Loaded
}

/// How many tracks are fully resolved.
pub open spec fn resolved_count(tracks: Seq<CachedTrack>) -> nat
    decreases tracks.len(),
{
    if tracks.len() == 0 {
        0
    } else {
        resolved_count(tracks.drop_last()) + if tracks.last().meta is Loaded {
            1nat
        } else {
            0
        }
    }
}

/// Whether `now` is `before` with this metadata recorded.
pub open spec fn with_meta(before: CachedTrack, meta: TrackMetadata, now: CachedTrack) -> bool {
    &&& now.index == before.index
    &&& now.id == meta.id
    &&& now.title == meta.title
    &&& now.uploader == meta.uploader
    &&& now.duration == meta.duration
    &&& now.thumbnail == meta.thumbnail
    &&& now.url == (if meta.url@.len() > 0 {
        meta.url
    } else {
        before.url
    })
    &&& opt(now.chapter_title) == Some(meta.uploader@ + " - "@ + meta.title@)
    &&& now.clip_file == before.clip_file
    &&& now.meta is Loaded
    &&& now.render == before.render
}

/// The entry after this failure was recorded: a resolved one stays as it is.
pub open spec fn with_failure(before: CachedTrack, failure: MetaFailure) -> CachedTrack {
    if before.meta is Loaded {
        before
    } else {
        CachedTrack {
            meta: CachedMeta::Failed {
                permanent: failure.kind is Permanent,
                restricted: failure.kind is Restricted,
                reason: failure.reason,
            },
            ..before
        }
    }
}

impl PlaylistCache {
    /// The form of an address that identifies a playlist, from the address
    /// trimmed and without trailing slashes.
    pub fn normalize_url(url: &str) -> (r: String)
        ensures
            r@ == normalized(url@),
    {
        let chars = text::to_chars(text::trim(url).as_str());
        let mut to: usize = chars.len();
        assert(chars@.take(to as int) =~= chars@);
        while to > 0 && chars[to - 1] == '/'
            invariant
                to <= chars@.len(),
                unslashed(chars@) == unslashed(chars@.take(to as int)),
            decreases to,
        {
            assert(chars@.take(to as int).drop_last() =~= chars@.take(to - 1));
            to = to - 1;
        }
        let kept = text::slice_of(chars.as_slice(), 0, to);
        assert(kept@ =~= chars@.take(to as int));
        text::to_lowercase(text::from_chars(kept.as_slice()).as_str())
    }

    /// The name that a normalised address is stored under. The hash is fixed, so
    /// file names stay valid from one build to the next.
    pub fn hash_normalized(norm: &str) -> (r: String)
        ensures
            r@ == cache_key(norm@),
    {
        let bytes = norm.as_bytes();
        let mut h: u64 = 0xcbf2_9ce4_8422_2325;
        assert(bytes@.take(0) =~= Seq::empty());
        for i in 0..bytes.len()
            invariant
                h == fnv1a(bytes@.take(i as int)),
        {
            assert(bytes@.take(i + 1).drop_last() =~= bytes@.take(i as int));
            h = h ^ (bytes[i] as u64);
            h = h.wrapping_mul(0x0000_0100_0000_01b3);
        }
        assert(bytes@.take(bytes@.len() as int) =~= bytes@);
        text::hex_padded(h, 16)
    }

    /// The name that a playlist is stored under.
    pub fn hash_url(url: &str) -> (r: String)
        ensures
            r@ == cache_key(normalized(url@)),
    {
        let norm = Self::normalize_url(url);
        Self::hash_normalized(norm.as_str())
    }

    /// Where a playlist is stored: the names from the user's configuration directory
    /// on.
    pub fn path_for(url: &str) -> (r: Vec<String>)
        ensures
            views(r@) == Settings::app_names().push("metadata"@).push(
                cache_key(normalized(url@)) + ".json"@,
            ),
    {
        let mut name = Self::hash_url(url);
        name.append(".json");
        let mut r = Settings::metadata_cache_dir();
        text::put(&mut r, name.as_str());
        r
    }

    /// Whether this is a cache of the playlist that an address means, in the form
    /// that this version writes.
    pub open spec fn is_for(self, url: Seq<char>) -> bool {
        self.version == CACHE_VERSION && self.playlist_url@ == normalized(url)
    }

    /// Whether `r` is the cache that was found for an address, where it is one for it.
    pub open spec fn is_loaded(
        found: Option<PlaylistCache>,
        url: Seq<char>,
        r: Option<Self>,
    ) -> bool {
        match found {
            Some(c) if c.is_for(url) => r == found,
            _ => r is None,
        }
    }

    /// The cache that was found for an address, where it is one for it: of this
    /// version, and not another playlist's.
    pub fn load(found: Option<PlaylistCache>, url: &str) -> (r: Option<Self>)
        ensures
            Self::is_loaded(found, url@, r),
    {
        match found {
            None => None,
            Some(cache) => {
                if cache.version != CACHE_VERSION {
                    return None;
                }
                let norm = Self::normalize_url(url);
                if !text::same(cache.playlist_url.as_str(), norm.as_str()) {
                    return None;
                }
                Some(cache)
            },
        }
    }

    /// Whether this is the cache of a playlist of which nothing is known yet.
    pub open spec fn is_fresh(self, url: Seq<char>, title: Seq<char>) -> bool {
        &&& self.version == CACHE_VERSION
        &&& self.playlist_url@ == normalized(url)
        &&& self.playlist_title@ == title
        &&& self.tracks@.len() == 0
    }

    /// A fresh, empty cache.
    pub fn new(url: &str, title: &str) -> (r: Self)
        ensures
            r.is_fresh(url@, title@),
    {
        PlaylistCache {
            version: CACHE_VERSION,
            playlist_url: Self::normalize_url(url),
            playlist_title: title.to_owned(),
            tracks: Vec::new(),
        }
    }

    /// The cache that was found for an address, else a fresh one.
    pub fn load_or_new(found: Option<PlaylistCache>, url: &str, title: &str) -> (r: Self)
        ensures
            match found {
                Some(c) if c.is_for(url@) => r == c,
                _ => r.is_fresh(url@, title@),
            },
    {
        match Self::load(found, url) {
            Some(c) => c,
            None => Self::new(url, title),
        }
    }

    /// Reconciles the cache with the playlist's current entries: carries over
    /// everything known of tracks that are still there (matched by id), and adds
    /// and drops tracks as the playlist changed.
    pub fn sync_entries(&mut self, title: &str, entries: &[FlatEntry])
        ensures
            final(self).version == old(self).version,
            final(self).playlist_url == old(self).playlist_url,
            final(self).playlist_title@ == title@,
            final(self).tracks@.len() == entries@.len(),
            forall|i: int|
                0 <= i < entries@.len() ==> carried(
                    old(self).tracks@,
                    entries@,
                    i,
                    #[trigger] final(self).tracks@[i],
                ) && keeps_known(old(self).tracks@, entries@, i, final(self).tracks@[i]),
    {
        self.playlist_title = title.to_owned();
        let ghost before = self.tracks@;
        let mut tracks: Vec<CachedTrack> = Vec::new();
        for i in 0..entries.len()
            invariant
                self.tracks@ == before,
                before == old(self).tracks@,
                tracks@.len() == i,
                forall|j: int|
                    0 <= j < i ==> carried(before, entries@, j, #[trigger] tracks@[j]),
        {
            let track = match self.find_row(entries, i) {
                Some(k) => {
                    let mut t = self.tracks[k].clone();
                    t.index = i;
                    if !entries[i].url.as_str().is_empty() {
                        t.url = entries[i].url.clone();
                    }
                    t
                },
                None => {
                    let title = match &entries[i].title {
                        Some(t) => t.clone(),
                        None => {
                            let mut s = "Track ".to_owned();
                            s.append(entries[i].id.as_str());
                            s
                        },
                    };
                    CachedTrack::placeholder(
                        i,
                        entries[i].id.clone(),
                        entries[i].url.clone(),
                        title,
                    )
                },
            };
            assert(carried(before, entries@, i as int, track));
            tracks.push(track);
        }
        assert forall|i: int| 0 <= i < entries@.len() implies carried(
            before,
            entries@,
            i,
            #[trigger] tracks@[i],
        ) && keeps_known(before, entries@, i, tracks@[i]) by {
            law_sync_keeps_what_is_known(before, entries@, i, tracks@[i]);
        }
        self.tracks = tracks;
    }

    /// The row that stands for entry `i` of the playlist.
    fn find_row(&self, entries: &[FlatEntry], i: usize) -> (r: Option<usize>)
        requires
            i < entries@.len(),
        ensures
            match r {
                Some(k) => row_for(self.tracks@, entries@, i as int) == Some(k as int) && k
                    < self.tracks@.len(),
                None => row_for(self.tracks@, entries@, i as int) is None,
            },
    {
        let id = entries[i].id.as_str();
        let own = self.find_nth_last(id, count_later(entries, i));
        if let Some(k) = own {
            if self.tracks[k].is_complete() {
                return own;
            }
        }
        let resolved = self.find_last_resolved(id);
        if resolved.is_some() {
            resolved
        } else if own.is_some() {
            own
        } else {
            self.find_nth_last(id, 0)
        }
    }

    fn find_nth_last(&self, id: &str, skip: usize) -> (r: Option<usize>)
        ensures
            match r {
                Some(k) => nth_last_with_id(self.tracks@, id@, skip as nat) == Some(k as int) && k
                    < self.tracks@.len(),
                None => nth_last_with_id(self.tracks@, id@, skip as nat) is None,
            },
    {
        let mut n: usize = self.tracks.len();
        let mut left: usize = skip;
        assert(self.tracks@.take(n as int) =~= self.tracks@);
        while n > 0
            invariant
                n <= self.tracks@.len(),
                nth_last_with_id(self.tracks@, id@, skip as nat) == nth_last_with_id(
                    self.tracks@.take(n as int),
                    id@,
                    left as nat,
                ),
            decreases n,
        {
            assert(self.tracks@.take(n as int).drop_last() =~= self.tracks@.take(n - 1));
            if text::same(self.tracks[n - 1].id.as_str(), id) {
                if left == 0 {
                    return Some(n - 1);
                }
                left = left - 1;
            }
            n = n - 1;
        }
        None
    }

    fn find_last_resolved(&self, id: &str) -> (r: Option<usize>)
        ensures
            match r {
                Some(k) => last_resolved(self.tracks@, id@) == Some(k as int) && k
                    < self.tracks@.len(),
                None => last_resolved(self.tracks@, id@) is None,
            },
    {
        let mut n: usize = self.tracks.len();
        assert(self.tracks@.take(n as int) =~= self.tracks@);
        while n > 0
            invariant
                n <= self.tracks@.len(),
                last_resolved(self.tracks@, id@) == last_resolved(
                    self.tracks@.take(n as int),
                    id@,
                ),
            decreases n,
        {
            assert(self.tracks@.take(n as int).drop_last() =~= self.tracks@.take(n - 1));
            if self.tracks[n - 1].is_complete() && text::same(self.tracks[n - 1].id.as_str(), id) {
                return Some(n - 1);
            }
            n = n - 1;
        }
        None
    }

    /// Number of tracks whose metadata is fully resolved.
    pub fn complete_count(&self) -> (r: usize)
        ensures
            r == resolved_count(self.tracks@),
    {
        let mut n: usize = 0;
        assert(self.tracks@.take(0) =~= Seq::empty());
        for i in 0..self.tracks.len()
            invariant
                n <= i,
                n == resolved_count(self.tracks@.take(i as int)),
        {
            assert(self.tracks@.take(i + 1).drop_last() =~= self.tracks@.take(i as int));
            if self.tracks[i].is_complete() {
                n = n + 1;
            }
        }
        assert(self.tracks@.take(self.tracks@.len() as int) =~= self.tracks@);
        n
    }

    /// What stays the same of a cache when one entry changes.
    pub open spec fn same_but_entry(self, before: PlaylistCache, index: int) -> bool {
        &&& self.version == before.version
        &&& self.playlist_url == before.playlist_url
        &&& self.playlist_title == before.playlist_title
        &&& self.tracks@.len() == before.tracks@.len()
        &&& forall|i: int|
            0 <= i < before.tracks@.len() && i != index ==> #[trigger] self.tracks@[i]
                == before.tracks@[i]
    }

    /// Records resolved metadata for an entry (none where there is no such
    /// entry).
    pub fn record_meta(&mut self, index: usize, meta: &TrackMetadata)
        ensures
            final(self).same_but_entry(*old(self), index as int),
            index < old(self).tracks@.len() ==> with_meta(
                old(self).tracks@[index as int],
                *meta,
                final(self).tracks@[index as int],
            ),
    {
        if index < self.tracks.len() {
            let mut t = self.tracks[index].clone();
            t.id = meta.id.clone();
            t.title = meta.title.clone();
            t.uploader = meta.uploader.clone();
            t.duration = meta.duration;
            t.thumbnail = copy_text(&meta.thumbnail);
            if !meta.url.as_str().is_empty() {
                t.url = meta.url.clone();
            }
            let mut chapter = meta.uploader.clone();
            chapter.append(" - ");
            chapter.append(meta.title.as_str());
            t.chapter_title = Some(chapter);
            t.meta = CachedMeta::Loaded;
            self.tracks.set(index, t);
        }
    }

    /// Records a failure for an entry, unless its metadata is already there: a
    /// later failure never takes good metadata away.
    pub fn record_meta_failure(&mut self, index: usize, failure: &MetaFailure)
        ensures
            final(self).same_but_entry(*old(self), index as int),
            index < old(self).tracks@.len() ==> final(self).tracks@[index as int] == with_failure(
                old(self).tracks@[index as int],
                *failure,
            ),
    {
        if index < self.tracks.len() {
            if self.tracks[index].is_complete() {
                return;
            }
            let mut t = self.tracks[index].clone();
            t.meta = CachedMeta::Failed {
                permanent: failure.is_permanent(),
                restricted: failure.is_restricted(),
                reason: copy_text(&failure.reason),
            };
            self.tracks.set(index, t);
        }
    }

    /// Whether `after` is this cache with the render outcome of an entry recorded.
    pub open spec fn render_recorded(
        self,
        index: usize,
        render: CachedRender,
        clip_file: Option<String>,
        after: PlaylistCache,
    ) -> bool {
        &&& after.same_but_entry(self, index as int)
        &&& index < self.tracks@.len() ==> after.tracks@[index as int] == (CachedTrack {
            render,
            clip_file: if clip_file is Some {
                clip_file
            } else {
                self.tracks@[index as int].clip_file
            },
            ..self.tracks@[index as int]
        })
    }

    /// Records the render outcome of an entry, and its clip file where one is
    /// given.
    pub fn record_render(&mut self, index: usize, render: CachedRender, clip_file: Option<String>)
        ensures
            old(self).render_recorded(index, render, clip_file, *final(self)),
    {
        if index < self.tracks.len() {
            let mut t = self.tracks[index].clone();
            t.render = render;
            if clip_file.is_some() {
                t.clip_file = clip_file;
            }
            self.tracks.set(index, t);
        }
    }
}

/// How many entries after `i` list the same track.
fn count_later(entries: &[FlatEntry], i: usize) -> (r: usize)
    requires
        i < entries@.len(),
    ensures
        r == listed_between(
            entries@,
            entries@[i as int].id@,
            i + 1,
            entries@.len() as int,
        ),
{
    let mut n: usize = 0;
    for j in i + 1..entries.len()
        invariant
            i < entries@.len(),
            n <= j - (i + 1),
            n == listed_between(entries@, entries@[i as int].id@, i + 1, j as int),
    {
        if text::same(entries[j].id.as_str(), entries[i].id.as_str()) {
            n = n + 1;
        }
    }
    n
}

// ---------------------------------------------------------------------------
// Laws
// ---------------------------------------------------------------------------

/// Recording a failure never takes resolved metadata away, nor ever what is known
/// of the track's clip; a recorded failure is retried by itself exactly when it is
/// neither a refusal nor a loss.
pub proof fn law_a_resolved_track_is_never_demoted(before: CachedTrack, failure: MetaFailure)
    ensures
        before.meta is Loaded ==> with_failure(before, failure) == before,
        !(before.meta is Loaded) ==> with_failure(before, failure).recoverable() == (
        failure.kind is Retryable),
        with_failure(before, failure).id == before.id,
        with_failure(before, failure).chapter_title == before.chapter_title,
        with_failure(before, failure).clip_file == before.clip_file,
{
}

/// What was recorded of a track is what a row shows when the playlist is opened
/// again, and such a track is not fetched again.
pub proof fn law_recorded_metadata_reads_back(
    before: CachedTrack,
    meta: TrackMetadata,
    now: CachedTrack,
    global_max_us: u64,
    row: Track,
)
    requires
        with_meta(before, meta, now),
        now.shown_by(row, global_max_us),
    ensures
        row.id@ == meta.id@,
        row.title@ == meta.title@,
        row.uploader@ == meta.uploader@,
        row.duration == meta.duration,
        opt(row.thumbnail) == opt(meta.thumbnail),
        row.url@ == (if meta.url@.len() > 0 {
            meta.url@
        } else {
            before.url@
        }),
        row.play_us == play_time(meta.duration, global_max_us),
        row.meta is Loaded && row.selected,
        !now.recoverable(),
{
}

/// A failure that was recorded of a track without metadata is shown again with its
/// verdict and its reason, a lost track deselected; one that a plain repeat may mend
/// is a row that is loading, and is fetched again.
pub proof fn law_recorded_failures_read_back(
    before: CachedTrack,
    failure: MetaFailure,
    global_max_us: u64,
    row: Track,
)
    requires
        !(before.meta is Loaded),
        with_failure(before, failure).shown_by(row, global_max_us),
    ensures
        failure.kind is Retryable <==> row.meta is Loading,
        failure.kind is Retryable <==> with_failure(before, failure).recoverable(),
        !(failure.kind is Retryable) ==> row.meta is Failed && row.meta->Failed_0.kind
            == failure.kind,
        !(failure.kind is Retryable) && failure.reason is Some ==> opt(row.meta->Failed_0.reason)
            == Some(failure.reason->0@),
        row.selected == !(failure.kind is Permanent),
{
}

proof fn lemma_nth_last(tracks: Seq<CachedTrack>, id: Seq<char>, n: nat)
    ensures
        match nth_last_with_id(tracks, id, n) {
            Some(k) => 0 <= k < tracks.len() && tracks[k].id@ == id,
            None => n == 0 ==> forall|i: int|
                0 <= i < tracks.len() ==> (#[trigger] tracks[i]).id@ != id,
        },
    decreases tracks.len(),
{
    if tracks.len() > 0 {
        let front = tracks.drop_last();
        if tracks.last().id@ != id {
            lemma_nth_last(front, id, n);
            if n == 0 && nth_last_with_id(tracks, id, 0) is None {
                assert forall|i: int| 0 <= i < tracks.len() implies (#[trigger] tracks[i]).id@
                    != id by {
                    if i < front.len() {
                        assert(front[i] == tracks[i]);
                    }
                }
            }
        } else if n > 0 {
            lemma_nth_last(front, id, (n - 1) as nat);
        }
    }
}

proof fn lemma_last_resolved(tracks: Seq<CachedTrack>, id: Seq<char>)
    ensures
        match last_resolved(tracks, id) {
            Some(k) => 0 <= k < tracks.len() && tracks[k].id@ == id && tracks[k].meta is Loaded,
            None => forall|i: int|
                0 <= i < tracks.len() && (#[trigger] tracks[i]).id@ == id ==> !(
                tracks[i].meta is Loaded),
        },
    decreases tracks.len(),
{
    if tracks.len() > 0 && !(tracks.last().id@ == id && tracks.last().meta is Loaded) {
        let front = tracks.drop_last();
        lemma_last_resolved(front, id);
        if last_resolved(tracks, id) is None {
            assert forall|i: int|
                0 <= i < tracks.len() && (#[trigger] tracks[i]).id@ == id implies !(
            tracks[i].meta is Loaded) by {
                if i < front.len() {
                    assert(front[i] == tracks[i]);
                }
            }
        }
    }
}

/// The row that stands for an entry is one of that track, there is one wherever the
/// track has a row, and it is resolved wherever one of them is.
proof fn lemma_row_for(before: Seq<CachedTrack>, entries: Seq<FlatEntry>, i: int)
    requires
        0 <= i < entries.len(),
    ensures
        match row_for(before, entries, i) {
            Some(k) => {
                &&& 0 <= k < before.len() && before[k].id@ == entries[i].id@
                &&& before[k].meta is Loaded || forall|j: int|
                    0 <= j < before.len() && (#[trigger] before[j]).id@ == entries[i].id@ ==> !(
                    before[j].meta is Loaded)
            },
            None => forall|j: int|
                0 <= j < before.len() ==> (#[trigger] before[j]).id@ != entries[i].id@,
        },
{
    let id = entries[i].id@;
    lemma_nth_last(before, id, listed_between(entries, id, i + 1, entries.len() as int));
    lemma_nth_last(before, id, 0);
    lemma_last_resolved(before, id);
}

/// After reconciling, the entry at each place is the one of the playlist at that
/// place. Of a track that has rows everything that one of them knows is carried
/// over, wherever and however often the playlist lists it, and its metadata is there
/// if any of them had it. Of a track that is new nothing is known.
pub proof fn law_sync_keeps_what_is_known(
    before: Seq<CachedTrack>,
    entries: Seq<FlatEntry>,
    i: int,
    now: CachedTrack,
)
    requires
        0 <= i < entries.len() <= usize::MAX,
        carried(before, entries, i, now),
    ensures
        now.index == i,
        now.id@ == entries[i].id@,
        entries[i].url@.len() > 0 ==> now.url@ == entries[i].url@,
        keeps_known(before, entries, i, now),
        now.meta is Loaded ==> !now.recoverable(),
        (forall|k: int| 0 <= k < before.len() ==> (#[trigger] before[k]).id@ != entries[i].id@)
            ==> now.meta is Missing && now.render is Pending && now.clip_file is None,
{
    lemma_row_for(before, entries, i);
    if let Some(k) = row_for(before, entries, i) {
        assert(before[k].id@ == entries[i].id@ && moved_to(before[k], i, entries[i], now));
    }
}

/// In a list that goes with the entries, the row of an entry is the one at its place.
proof fn lemma_own_row(rows: Seq<CachedTrack>, entries: Seq<FlatEntry>, i: int, to: int)
    requires
        rows.len() == entries.len(),
        forall|j: int| 0 <= j < rows.len() ==> (#[trigger] rows[j]).id@ == entries[j].id@,
        0 <= i < to <= rows.len(),
    ensures
        nth_last_with_id(
            rows.take(to),
            entries[i].id@,
            listed_between(entries, entries[i].id@, i + 1, to),
        ) == Some(i),
    decreases to,
{
    let part = rows.take(to);
    assert(part.last() == rows[to - 1]);
    assert(part.drop_last() =~= rows.take(to - 1));
    assert(rows[to - 1].id@ == entries[to - 1].id@);
    if to > i + 1 {
        lemma_own_row(rows, entries, i, to - 1);
    }
}

/// Reconciling a list with a playlist that it goes with already leaves every row that
/// is resolved as it is, also where the playlist lists a track more than once; so does
/// it any row of a track of which no row is resolved.
pub proof fn law_sync_leaves_known_rows_in_place(
    rows: Seq<CachedTrack>,
    entries: Seq<FlatEntry>,
    i: int,
    now: CachedTrack,
)
    requires
        rows.len() == entries.len(),
        forall|j: int| 0 <= j < rows.len() ==> (#[trigger] rows[j]).id@ == entries[j].id@,
        0 <= i < entries.len(),
        rows[i].meta is Loaded || forall|k: int|
            0 <= k < rows.len() && (#[trigger] rows[k]).id@ == rows[i].id@ ==> !(
            rows[k].meta is Loaded),
        carried(rows, entries, i, now),
    ensures
        moved_to(rows[i], i, entries[i], now),
{
    assert(rows.take(rows.len() as int) =~= rows);
    lemma_own_row(rows, entries, i, rows.len() as int);
    lemma_last_resolved(rows, entries[i].id@);
    assert(rows[i].id@ == entries[i].id@);
}

/// Reconciling twice with the same playlist changes nothing the second time.
pub proof fn law_sync_is_idempotent(
    before: Seq<CachedTrack>,
    entries: Seq<FlatEntry>,
    once: Seq<CachedTrack>,
    i: int,
    twice: CachedTrack,
)
    requires
        entries.len() <= usize::MAX,
        once.len() == entries.len(),
        forall|j: int|
            0 <= j < entries.len() ==> carried(before, entries, j, #[trigger] once[j]),
        0 <= i < entries.len(),
        carried(once, entries, i, twice),
    ensures
        twice.index == once[i].index,
        twice.id == once[i].id,
        twice.url@ == once[i].url@,
        twice.title == once[i].title,
        twice.uploader == once[i].uploader,
        twice.duration == once[i].duration,
        twice.thumbnail == once[i].thumbnail,
        twice.meta == once[i].meta,
        twice.chapter_title == once[i].chapter_title,
        twice.clip_file == once[i].clip_file,
        twice.render == once[i].render,
{
    assert forall|j: int| 0 <= j < entries.len() implies (#[trigger] once[j]).id@
        == entries[j].id@ by {
        law_sync_keeps_what_is_known(before, entries, j, once[j]);
    }
    if !(once[i].meta is Loaded) {
        assert forall|k: int| 0 <= k < once.len() && (#[trigger] once[k]).id@ == once[i].id@ implies !(
        once[k].meta is Loaded) by {
            assert(once[k].id@ == entries[k].id@);
            lemma_row_for(before, entries, k);
            lemma_row_for(before, entries, i);
            if once[k].meta is Loaded {
                let row = row_for(before, entries, k);
                assert(row is Some);
                assert(before[row->0].meta is Loaded);
            }
        }
    }
    law_sync_leaves_known_rows_in_place(once, entries, i, twice);
    law_sync_keeps_what_is_known(before, entries, i, once[i]);
}

proof fn lemma_unslashed_part(s: Seq<char>) -> (to: int)
    ensures
        0 <= to <= s.len(),
        unslashed(s) == s.take(to),
        forall|i: int| to <= i < s.len() ==> s[i] == '/',
        to > 0 ==> s[to - 1] != '/',
    decreases s.len(),
{
    if s.len() > 0 && s.last() == '/' {
        let front = s.drop_last();
        let k = lemma_unslashed_part(front);
        assert(front.take(k) =~= s.take(k));
        assert forall|i: int| k <= i < s.len() implies s[i] == '/' by {
            if i < front.len() {
                assert(front[i] == s[i]);
            }
        }
        k
    } else {
        assert(s.take(s.len() as int) =~= s);
        s.len() as int
    }
}

proof fn lemma_unslashed_at(s: Seq<char>, to: int)
    requires
        0 <= to <= s.len(),
        forall|i: int| to <= i < s.len() ==> s[i] == '/',
        to > 0 ==> s[to - 1] != '/',
    ensures
        unslashed(s) == s.take(to),
    decreases s.len(),
{
    if s.len() > to {
        lemma_unslashed_at(s.drop_last(), to);
        assert(s.drop_last().take(to) =~= s.take(to));
    } else {
        assert(s.take(to) =~= s);
    }
}

/// What was recorded for one playlist is taken up again for an address exactly
/// when that address means the same playlist, however often its tracks were
/// reconciled and recorded since: nothing that happens to a cache but its making
/// sets the address that it is found by.
pub proof fn law_a_cache_is_taken_up_for_its_own_playlist_only(
    made: PlaylistCache,
    now: PlaylistCache,
    url: Seq<char>,
    title: Seq<char>,
    asked: Seq<char>,
)
    requires
        made.is_fresh(url, title),
        now.version == made.version,
        now.playlist_url == made.playlist_url,
    ensures
        now.is_for(asked) <==> normalized(asked) == normalized(url),
{
}

/// A trailing slash does not change which playlist an address means.
pub proof fn law_a_trailing_slash_does_not_matter(url: Seq<char>)
    requires
        trimmed(url) == url,
    ensures
        normalized(url.push('/')) == normalized(url),
        cache_key(normalized(url.push('/'))) == cache_key(normalized(url)),
{
    let longer = url.push('/');
    assert(longer.drop_last() =~= url);
    lemma_trimmed_push(url);
    assert(unslashed(longer) == unslashed(url));
}

proof fn lemma_trimmed_push(url: Seq<char>)
    requires
        trimmed(url) == url,
    ensures
        trimmed(url.push('/')) == url.push('/'),
{
    let longer = url.push('/');
    assert(!text::whitespace('/'));
    if url.len() > 0 {
        text::law_trimmed_has_no_outer_space(url);
        assert(longer[0] == url[0]);
    }
}

/// The case of letters does not change which playlist an (ASCII) address means.
pub proof fn law_letter_case_does_not_matter(a: Seq<char>, b: Seq<char>)
    requires
        is_ascii_chars(a),
        is_ascii_chars(b),
        trimmed(a) == a,
        trimmed(b) == b,
        ascii_small(a) == ascii_small(b),
    ensures
        normalized(a) == normalized(b),
        cache_key(normalized(a)) == cache_key(normalized(b)),
{
    let to = lemma_unslashed_part(a);
    assert(a.len() == ascii_small(a).len() && b.len() == ascii_small(b).len());
    assert forall|i: int| 0 <= i < a.len() implies text::small(a[i]) == text::small(b[i]) by {
        assert(ascii_small(a)[i] == text::small(a[i]));
        assert(ascii_small(b)[i] == text::small(b[i]));
    }
    assert forall|i: int| 0 <= i < a.len() implies (a[i] == '/' <==> b[i] == '/') by {
        assert(text::small(a[i]) == text::small(b[i]));
    }
    lemma_unslashed_at(b, to);
    let x = a.take(to);
    let y = b.take(to);
    assert forall|i: int| 0 <= i < x.len() implies #[trigger] ascii_small(x)[i] == ascii_small(
        y,
    )[i] by {
        assert(text::small(a[i]) == text::small(b[i]));
        assert(x[i] == a[i] && y[i] == b[i]);
    }
    assert(ascii_small(x) =~= ascii_small(y));
    assert(is_ascii_chars(x));
    assert(is_ascii_chars(y));
}

} // verus!
