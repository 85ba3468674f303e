//! How playlists are told apart, and where each is stored.
use vstd::prelude::*;
use vstd::utf8::{encode_utf8, is_ascii_chars};

use crate::downloader::failure::FailureKind;
use crate::models::cache::{
    cache_key, fnv1a, normalized, stored_failure, unslashed, CachedMeta, CachedRender,
    CachedTrack, PlaylistCache, CACHE_VERSION,
};
use crate::models::track::{Track, TrackMetadata};
use crate::text::{ascii_small, hex_digit, hexadecimal, small, trimmed};

verus! {

/// The value of a hexadecimal digit.
pub open spec fn hex_value(c: char) -> int {
    if '0' <= c <= '9' {
        c as int - '0' as int
    } else {
        c as int - 'a' as int + 10
    }
}

/// The number that a row of hexadecimal digits stands for.
pub open spec fn hex_number(s: Seq<char>) -> int
    decreases s.len(),
{
    if s.len() == 0 {
        0
    } else {
        hex_number(s.drop_last()) * 16 + hex_value(s.last())
    }
}

/// Sixteen to the power of `n`.
pub open spec fn power_of_sixteen(n: nat) -> nat
    decreases n,
{
    if n == 0 {
        1
    } else {
        16 * power_of_sixteen((n - 1) as nat)
    }
}

/// A number written in as many hexadecimal digits as it needs reads back as itself.
pub proof fn law_hexadecimal_reads_back(n: nat, width: nat)
    requires
        n < power_of_sixteen(width),
    ensures
        hexadecimal(n, width).len() == width,
        hex_number(hexadecimal(n, width)) == n,
        forall|i: int|
            0 <= i < width ==> '0' <= #[trigger] hexadecimal(n, width)[i] <= '9' || 'a'
                <= hexadecimal(n, width)[i] <= 'f',
    decreases width,
{
    if width > 0 {
        let front = hexadecimal(n / 16, (width - 1) as nat);
        let all = hexadecimal(n, width);
        law_hexadecimal_reads_back(n / 16, (width - 1) as nat);
        assert(all.drop_last() =~= front);
        let d = (n % 16) as int;
        assert(hex_value(hex_digit(d)) == d);
        assert forall|i: int| 0 <= i < width implies '0' <= #[trigger] all[i] <= '9' || 'a' <= all[i]
            <= 'f' by {
            if i < width - 1 {
                assert(all[i] == front[i]);
            }
        }
    }
}

/// A playlist is stored under sixteen hexadecimal digits, and two playlists share a
/// name only where they share a hash.
pub proof fn law_names_differ_where_hashes_do(a: Seq<char>, b: Seq<char>)
    ensures
        cache_key(a).len() == 16,
        cache_key(a) == cache_key(b) <==> fnv1a(encode_utf8(a)) == fnv1a(
            encode_utf8(b),
        ),
{
    reveal_with_fuel(power_of_sixteen, 17);
    law_hexadecimal_reads_back(fnv1a(encode_utf8(a)) as nat, 16);
    law_hexadecimal_reads_back(fnv1a(encode_utf8(b)) as nat, 16);
}

proof fn lemma_unslashed(s: Seq<char>)
    ensures
        unslashed(s).len() <= s.len(),
        unslashed(s).len() > 0 ==> unslashed(s).last() != '/',
        forall|i: int| 0 <= i < unslashed(s).len() ==> unslashed(s)[i] == s[i],
        forall|i: int| unslashed(s).len() <= i < s.len() ==> s[i] == '/',
    decreases s.len(),
{
    if s.len() > 0 && s.last() == '/' {
        let front = s.drop_last();
        lemma_unslashed(front);
        assert forall|i: int| 0 <= i < unslashed(s).len() implies unslashed(s)[i] == s[i] by {
            assert(unslashed(front)[i] == front[i]);
        }
        assert forall|i: int| unslashed(s).len() <= i < s.len() implies s[i] == '/' by {
            if i < front.len() {
                assert(front[i] == s[i]);
            }
        }
    }
}

/// An address of ASCII characters is told apart by all of its characters but for the
/// white space around it, the slashes at its end and the case of its letters.
pub proof fn law_addresses_are_told_apart_by_their_characters(url: Seq<char>)
    requires
        is_ascii_chars(trimmed(url)),
    ensures
        ({
            let t = trimmed(url);
            let n = normalized(url);
            &&& n.len() <= t.len()
            &&& forall|i: int| 0 <= i < n.len() ==> #[trigger] n[i] == small(t[i])
            &&& forall|i: int| n.len() <= i < t.len() ==> #[trigger] t[i] == '/'
            &&& n.len() > 0 ==> n.last() != '/'
        }),
{
    let t = trimmed(url);
    let kept = unslashed(t);
    lemma_unslashed(t);
    assert(is_ascii_chars(kept)) by {
        assert forall|i: int| 0 <= i < kept.len() implies kept[i] == t[i] by {}
        assert(kept =~= t.take(kept.len() as int));
    }
    assert(normalized(url) == ascii_small(kept));
    assert forall|i: int| 0 <= i < kept.len() implies #[trigger] ascii_small(kept)[i] == small(
        t[i],
    ) by {
        assert(kept[i] == t[i]);
    }
    if kept.len() > 0 {
        let c = kept.last();
        assert(small(c) == '/' ==> c == '/');
    }
}

/// A stored verdict stands for the failure that it was made of: lost and refused tracks
/// keep their reason, and everything else is to be tried again.
pub proof fn law_stored_verdicts_stand_for_their_failures(
    permanent: bool,
    restricted: bool,
    reason: Option<Seq<char>>,
)
    ensures
        ({
            let f = stored_failure(permanent, restricted, reason);
            &&& f.1 == FailureKind::Permanent <==> permanent
            &&& f.1 == FailureKind::Restricted <==> restricted && !permanent
            &&& reason is Some ==> f.0 == reason->0
            &&& f.2 is Some <==> f.1 != FailureKind::Retryable
            &&& f.2 is Some ==> f.2->0 == f.0
        }),
{
}

/// What is missing or failed for a passing reason is fetched by itself; what is there,
/// refused or lost is not.
pub proof fn law_only_passing_failures_are_recovered(t: CachedTrack)
    ensures
        t.meta is Missing ==> t.recoverable(),
        t.meta is Loaded ==> !t.recoverable(),
        t.meta matches CachedMeta::Failed { permanent, restricted, reason } ==> (t.recoverable()
            <==> !permanent && !restricted),
{
}

/// A cache that was found is used exactly when it is of this version and of the playlist
/// that the address means.
pub proof fn law_only_the_right_cache_is_used(
    found: Option<PlaylistCache>,
    url: Seq<char>,
    r: Option<PlaylistCache>,
)
    requires
        PlaylistCache::is_loaded(found, url, r),
    ensures
        r is Some <==> found is Some && found->0.version == CACHE_VERSION
            && found->0.playlist_url@ == normalized(url),
        r is Some ==> r == found,
{
}

/// A render that is recorded changes what is known of that clip, and nothing else of the
/// cache; a clip file stays known until another takes its place.
pub proof fn law_a_render_is_recorded_for_its_entry(
    before: PlaylistCache,
    index: usize,
    render: CachedRender,
    clip_file: Option<String>,
    after: PlaylistCache,
    i: int,
)
    requires
        before.render_recorded(index, render, clip_file, after),
        0 <= i < before.tracks@.len(),
    ensures
        after.tracks@.len() == before.tracks@.len(),
        i != index ==> after.tracks@[i] == before.tracks@[i],
        i == index ==> {
            &&& after.tracks@[i].render == render
            &&& clip_file is Some ==> after.tracks@[i].clip_file == clip_file
            &&& clip_file is None ==> after.tracks@[i].clip_file == before.tracks@[i].clip_file
            &&& after.tracks@[i].meta == before.tracks@[i].meta
            &&& after.tracks@[i].id == before.tracks@[i].id
            &&& after.tracks@[i].title == before.tracks@[i].title
        },
        after.playlist_url == before.playlist_url && after.version == before.version,
{
}

/// A row that is filled in shows the metadata, plays as long as the song and the limit
/// allow, and keeps its place, its selection and its progress.
pub proof fn law_a_row_is_filled_in_from_its_metadata(
    before: Track,
    meta: TrackMetadata,
    max_us: u64,
    after: Track,
)
    requires
        before.filled_in(meta, max_us, after),
    ensures
        after.title == meta.title && after.uploader == meta.uploader,
        after.duration == meta.duration && after.thumbnail == meta.thumbnail,
        after.meta is Loaded,
        meta.url@.len() > 0 ==> after.url == meta.url,
        meta.url@.len() == 0 ==> after.url == before.url,
        after.id == before.id && after.selected == before.selected && after.status
            == before.status,
        max_us > 0 ==> after.play_us <= max_us,
        meta.duration > 0 ==> after.play_us <= meta.duration * 1_000_000,
        max_us == 0 && 0 < meta.duration <= 18_446_744_073_709 ==> after.play_us == meta.duration
            * 1_000_000,
        max_us == 0 && meta.duration == 0 ==> after.play_us == 60_000_000,
{
}

} // verus!
