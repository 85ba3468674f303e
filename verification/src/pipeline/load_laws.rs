//! What a load and a retry pass are made of.
use vstd::prelude::*;

use crate::config::settings::{is_netscape, lowered_first_line, Settings};
use crate::downloader::cookies::{cookie_args, CookieSource};
use crate::downloader::failure::FailureKind;
use crate::downloader::ytdlp::{is_soundcloud, FlatEntry};
use crate::models::cache::{
    carried, law_sync_keeps_what_is_known, CachedMeta, CachedTrack, PlaylistCache,
};
use crate::pipeline::load::{
    authentication_text, cookies_warning, count_kind, count_ok, is_membership, is_opening,
    is_prepared, is_retry_outcome, ladder_text, law_only_missing_tracks_are_fetched,
    planned_attempts,
    retry_worker_count, wanted, Membership, PreparedLoad, RetryOutcome,
};
use crate::text::{contains, decimal, ends, joined, lowered, occurs_at, starts, trimmed, views};

verus! {

/// The log names the very source that the requests are signed in with.
pub proof fn law_the_log_names_the_cookies_that_are_used(
    settings: Settings,
    content: Option<&str>,
    source: CookieSource,
)
    requires
        settings.is_cookie_source(content, source),
    ensures
        authentication_text(settings, content) == source.spec_describe(),
        cookie_args(source).len() > 0 ==> authentication_text(settings, content) == joined(
            cookie_args(source),
            " "@,
        ),
{
    reveal_with_fuel(joined, 3);
    let args = cookie_args(source);
    if args.len() > 0 {
        assert(args.len() == 2);
        assert(args.drop_last() =~= seq![args[0]]);
        assert(joined(args, " "@) =~= args[0] + " "@ + args[1]);
        assert("--cookies-from-browser "@ =~= "--cookies-from-browser"@ + " "@) by {
            reveal_strlit("--cookies-from-browser ");
            reveal_strlit("--cookies-from-browser");
            reveal_strlit(" ");
        }
        assert("--cookies "@ =~= "--cookies"@ + " "@) by {
            reveal_strlit("--cookies ");
            reveal_strlit("--cookies");
            reveal_strlit(" ");
        }
        assert(source.spec_describe() =~= args[0] + " "@ + args[1]);
    }
}

/// There is a warning exactly where a cookies file is set that is not there or is in
/// another format, and it names the file.
pub proof fn law_a_useless_cookies_file_is_warned_of(
    settings: Settings,
    is_file: bool,
    content: Option<&str>,
)
    ensures
        ({
            let path = trimmed(settings.cookies_path@);
            let warning = cookies_warning(settings, is_file, content);
            &&& warning.len() <= 1
            &&& warning.len() == 1 <==> path.len() > 0 && (!is_file || (content is Some
                && !is_netscape(content->0@, lowered_first_line(content->0@))))
            &&& warning.len() == 1 ==> contains(warning[0], "'"@ + path + "'"@)
        }),
{
    let path = trimmed(settings.cookies_path@);
    let warning = cookies_warning(settings, is_file, content);
    if warning.len() == 1 {
        let w = warning[0];
        let key = "'"@ + path + "'"@;
        let head = "WARN: cookies file "@;
        assert("WARN: cookies file '"@ =~= head + "'"@) by {
            reveal_strlit("WARN: cookies file '");
            reveal_strlit("WARN: cookies file ");
            reveal_strlit("'");
        }
        if !is_file {
            let tail = " does not exist — ignoring it."@;
            assert("' does not exist — ignoring it."@ =~= "'"@ + tail) by {
                reveal_strlit("' does not exist — ignoring it.");
                reveal_strlit("'");
                reveal_strlit(" does not exist — ignoring it.");
            }
            assert(w =~= head + key + tail);
        } else {
            let tail =
                " is not in Netscape format (most browser export extensions save JSON, which yt-dlp cannot read) — ignoring it."@;
            assert("' is not in Netscape format (most browser export extensions save JSON, which yt-dlp cannot read) — ignoring it."@
                =~= "'"@ + tail) by {
                reveal_strlit(
                    "' is not in Netscape format (most browser export extensions save JSON, which yt-dlp cannot read) — ignoring it.",
                );
                reveal_strlit("'");
                reveal_strlit(
                    " is not in Netscape format (most browser export extensions save JSON, which yt-dlp cannot read) — ignoring it.",
                );
            }
            assert(w =~= head + key + tail);
        }
        assert(w.subrange(head.len() as int, (head.len() + key.len()) as int) =~= key);
        assert(occurs_at(w, key, head.len() as int));
    }
}

/// What was just fetched is what the playlist has, whatever the cache says. The cache
/// stands in only where the fetch failed and it holds tracks: all of them, in order. An
/// error is handed on as it is.
pub proof fn law_the_cache_only_stands_in_for_a_failed_fetch(
    fetched: Result<(String, Vec<FlatEntry>), String>,
    cached: Option<&PlaylistCache>,
    r: Result<Membership, String>,
)
    requires
        is_membership(fetched, cached, r),
    ensures
        fetched is Ok ==> r is Ok && r->Ok_0.title == (fetched->Ok_0).0 && r->Ok_0.entries == (
        fetched->Ok_0).1 && r->Ok_0.log is None,
        fetched is Err && r is Ok ==> {
            &&& cached is Some
            &&& r->Ok_0.title@ == cached->0.playlist_title@
            &&& r->Ok_0.entries@.len() == cached->0.tracks@.len() > 0
            &&& r->Ok_0.log is Some
            &&& forall|i: int|
                0 <= i < cached->0.tracks@.len() ==> (#[trigger] r->Ok_0.entries@[i]).id@
                    == cached->0.tracks@[i].id@ && r->Ok_0.entries@[i].url@
                    == cached->0.tracks@[i].url@
        },
        r is Err ==> fetched is Err && r->Err_0 == fetched->Err_0 && (cached is None
            || cached->0.tracks@.len() == 0),
{
}

/// Where transient failures are retried, a track is tried as often as the settings
/// allow, and else once.
pub proof fn law_retries_follow_the_switch(settings: Settings)
    ensures
        settings.auto_metadata_retry ==> planned_attempts(settings) == settings.attempts(),
        !settings.auto_metadata_retry ==> planned_attempts(settings) == 1,
        1 <= settings.retry_concurrency <= 4 ==> retry_worker_count(settings)
            == settings.retry_concurrency,
        settings.retry_concurrency < 1 ==> retry_worker_count(settings) == 1,
        settings.retry_concurrency > 4 ==> retry_worker_count(settings) == 4,
{
}

/// Every outcome is counted once, under what it is.
pub proof fn law_each_outcome_is_counted_as_what_it_is(
    outcomes: Seq<Option<FailureKind>>,
    outcome: Option<FailureKind>,
    kind: FailureKind,
)
    ensures
        count_ok(Seq::empty()) == 0,
        count_kind(Seq::empty(), kind) == 0,
        outcome is None ==> count_ok(outcomes.push(outcome)) == count_ok(outcomes) + 1
            && count_kind(outcomes.push(outcome), kind) == count_kind(outcomes, kind),
        outcome == Some(kind) ==> count_ok(outcomes.push(outcome)) == count_ok(outcomes)
            && count_kind(outcomes.push(outcome), kind) == count_kind(outcomes, kind) + 1,
        outcome is Some && outcome != Some(kind) ==> count_kind(outcomes.push(outcome), kind)
            == count_kind(outcomes, kind),
{
    assert(outcomes.push(outcome).drop_last() =~= outcomes);
}

/// A load fetches a track exactly when nothing is known of it, or when it failed and is
/// not lost: a refused one may have become accessible.
pub proof fn law_a_load_fetches_what_may_be_had(t: CachedTrack)
    ensures
        t.meta is Loaded ==> !wanted(t),
        t.meta is Missing ==> wanted(t),
        t.meta matches CachedMeta::Failed { permanent, restricted, reason } ==> (wanted(t)
            <==> !permanent),
        t.recoverable() ==> wanted(t),
{
}

/// A load opens exactly for an address of SoundCloud; the log names the cookies first
/// and the address last.
pub proof fn law_only_soundcloud_is_loaded(
    settings: Settings,
    url: Seq<char>,
    is_file: bool,
    content: Option<&str>,
    r: Result<Vec<String>, String>,
)
    requires
        is_opening(settings, url, is_file, content, r),
    ensures
        r is Ok <==> is_soundcloud(lowered(trimmed(url))),
        r matches Ok(lines) ==> {
            &&& lines@.len() == 2 + cookies_warning(settings, is_file, content).len()
            &&& ends(lines@[0]@, authentication_text(settings, content))
            &&& ends(lines@.last()@, url)
        },
{
    if let Ok(lines) = r {
        let all = views(lines@);
        assert(all.len() == lines@.len());
        assert(all[0] == lines@[0]@ && all.last() == lines@.last()@);
        let a = lines@[0]@;
        let said = authentication_text(settings, content);
        assert(a == "SoundCloud authentication: "@ + said);
        assert(a.subrange(a.len() - said.len(), a.len() as int) =~= said);
        let b = lines@.last()@;
        assert(b == "Loading playlist: "@ + url);
        assert(b.subrange(b.len() - url.len(), b.len() as int) =~= url);
    }
}

/// A retry pass adds up: what was recovered and what still failed are all of its tracks,
/// and of those that failed no more are lost or refused than were tried.
pub proof fn law_a_retry_pass_adds_up(
    total: usize,
    outcomes: Seq<Option<FailureKind>>,
    cancelled: bool,
    gave_up: bool,
    r: RetryOutcome,
)
    requires
        is_retry_outcome(total, outcomes, cancelled, gave_up, r),
        outcomes.len() <= total,
    ensures
        r.recovered + r.still_failed == total,
        r.recovered == count_ok(outcomes),
        r.permanent == count_kind(outcomes, FailureKind::Permanent),
        r.restricted == count_kind(outcomes, FailureKind::Restricted),
        r.permanent + r.restricted <= r.still_failed,
        cancelled ==> starts(r.log@, "Metadata retry cancelled: "@),
        !cancelled && !gave_up ==> starts(r.log@, "Metadata retry complete: "@),
{
    lemma_counts_add_up(outcomes);
    let head = "Metadata retry "@ + (if cancelled {
        "cancelled"@
    } else if gave_up {
        "stopped early (still rate limited)"@
    } else {
        "complete"@
    }) + ": "@;
    assert(r.log@.subrange(0, head.len() as int) =~= head);
    assert("Metadata retry cancelled: "@ =~= "Metadata retry "@ + "cancelled"@ + ": "@) by {
        reveal_strlit("Metadata retry cancelled: ");
        reveal_strlit("Metadata retry ");
        reveal_strlit("cancelled");
        reveal_strlit(": ");
    }
    assert("Metadata retry complete: "@ =~= "Metadata retry "@ + "complete"@ + ": "@) by {
        reveal_strlit("Metadata retry complete: ");
        reveal_strlit("Metadata retry ");
        reveal_strlit("complete");
        reveal_strlit(": ");
    }
}

proof fn lemma_counts_add_up(outcomes: Seq<Option<FailureKind>>)
    ensures
        count_ok(outcomes) + count_kind(outcomes, FailureKind::Retryable) + count_kind(
            outcomes,
            FailureKind::Restricted,
        ) + count_kind(outcomes, FailureKind::Permanent) == outcomes.len(),
    decreases outcomes.len(),
{
    if outcomes.len() > 0 {
        lemma_counts_add_up(outcomes.drop_last());
        match outcomes.last() {
            None => {},
            Some(kind) => match kind {
                FailureKind::Retryable => {},
                FailureKind::Restricted => {},
                FailureKind::Permanent => {},
            },
        }
    }
}

/// A prepared playlist has a row for each of its entries, under the entry's id and in its
/// place, and fetches exactly the tracks whose metadata may be had and is not there.
pub proof fn law_a_prepared_playlist_has_a_row_for_each_entry(
    cache: PlaylistCache,
    title: Seq<char>,
    entries: Seq<FlatEntry>,
    max_us: u64,
    r: PreparedLoad,
    i: int,
)
    requires
        is_prepared(cache, title, entries, max_us, r),
        entries.len() <= usize::MAX,
        0 <= i < entries.len(),
    ensures
        r.tracks@.len() == entries.len(),
        r.tracks@[i].id@ == entries[i].id@,
        entries[i].url@.len() > 0 ==> r.tracks@[i].url@ == entries[i].url@,
        r.cache.playlist_title@ == title && r.cache.playlist_url == cache.playlist_url,
        r.to_fetch@.contains(i as usize) <==> wanted(r.cache.tracks@[i]),
        r.tracks@[i].meta is Loaded <==> r.cache.tracks@[i].meta is Loaded,
{
    let now = r.cache.tracks@[i];
    assert(carried(cache.tracks@, entries, i, r.cache.tracks@[i]));
    law_sync_keeps_what_is_known(cache.tracks@, entries, i, now);
    assert(r.cache.tracks@[i].shown_by(r.tracks@[i], max_us));
    law_only_missing_tracks_are_fetched(r.cache.tracks@, r.cache.tracks@.len());
}

/// A ladder is shown rung by rung, in seconds and in order.
pub proof fn law_a_ladder_is_shown_rung_by_rung(steps: Seq<u64>, step: u64)
    ensures
        ladder_text(seq![step]) == decimal(step as nat) + "s"@,
        steps.len() > 0 ==> ladder_text(steps.push(step)) == ladder_text(steps) + " → "@ + decimal(
            step as nat,
        ) + "s"@,
{
    let one = Seq::new(1, |i: int| decimal(seq![step][i] as nat) + "s"@);
    assert(one[0] == decimal(step as nat) + "s"@);
    if steps.len() > 0 {
        let all = steps.push(step);
        let before = Seq::new(steps.len(), |i: int| decimal(steps[i] as nat) + "s"@);
        let after = Seq::new(all.len(), |i: int| decimal(all[i] as nat) + "s"@);
        assert(after.drop_last() =~= before);
        assert(after.last() == decimal(step as nat) + "s"@);
        assert(ladder_text(all) =~= ladder_text(steps) + " → "@ + decimal(step as nat) + "s"@);
    }
}

} // verus!
