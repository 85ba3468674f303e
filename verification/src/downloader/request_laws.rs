//! What is asked of yt-dlp, read back from its arguments, and what a playlist listing
//! says.
use vstd::prelude::*;

use crate::config::settings::CookieBrowser;
use crate::downloader::cookies::{cookie_args, CookieSource};
use crate::downloader::json::{member_of, parsed, JsonView};
use crate::downloader::ytdlp::{
    download_request, either, entry_with, field, is_soundcloud, last_lines, listed_entries,
    playlist_of, playlist_outcome, playlist_request, track_request, EntryView,
};
use crate::reading::{gives, lemma_gives, lists};
use crate::text::{contains, decimal, ends, joined, lines_of, starts, trimmed};

verus! {

// ---------------------------------------------------------------------------
// Requests
// ---------------------------------------------------------------------------

/// How many arguments a cookie source takes.
pub open spec fn cookie_words(source: CookieSource) -> int {
    match source {
        CookieSource::Anonymous => 0,
        CookieSource::Browser(b) => if b == CookieBrowser::NoBrowser {
            0
        } else {
            2
        },
        CookieSource::File(_) => 2,
    }
}

/// Whether a request is signed in as the cookie source says.
pub open spec fn signs_in(args: Seq<Seq<char>>, source: CookieSource) -> bool {
    match source {
        CookieSource::Anonymous => true,
        CookieSource::Browser(b) => {
            &&& b == CookieBrowser::Chrome ==> gives(args, "--cookies-from-browser"@, "chrome"@)
            &&& b == CookieBrowser::Edge ==> gives(args, "--cookies-from-browser"@, "edge"@)
            &&& b == CookieBrowser::Firefox ==> gives(args, "--cookies-from-browser"@, "firefox"@)
        },
        CookieSource::File(path) => gives(args, "--cookies"@, path@),
    }
}

/// Whether arguments ask for the entries of a playlist, as JSON, and nothing more.
pub open spec fn asks_for_playlist(
    args: Seq<Seq<char>>,
    source: CookieSource,
    url: Seq<char>,
) -> bool {
    &&& args.len() == 4 + cookie_words(source)
    &&& lists(args, "--flat-playlist"@) && lists(args, "-J"@) && lists(args, "--no-warnings"@)
    &&& signs_in(args, source)
    &&& args.last() == trimmed(url)
}

/// Whether arguments ask for the metadata of one track, as JSON, without a download.
pub open spec fn asks_for_track(
    args: Seq<Seq<char>>,
    source: CookieSource,
    url: Seq<char>,
) -> bool {
    &&& args.len() == 6 + cookie_words(source)
    &&& lists(args, "--dump-single-json"@) && lists(args, "--no-download"@)
    &&& lists(args, "--no-playlist"@) && lists(args, "--no-warnings"@)
    &&& lists(args, "--ignore-no-formats-error"@)
    &&& signs_in(args, source)
    &&& args.last() == url
}

/// Whether arguments ask for the music of one track, its artwork and its metadata, in
/// files that follow the template.
pub open spec fn asks_for_download(
    args: Seq<Seq<char>>,
    quality_kbps: u32,
    source: CookieSource,
    template: Seq<char>,
    url: Seq<char>,
) -> bool {
    &&& args.len() == 14 + cookie_words(source)
    &&& lists(args, "--extract-audio"@) && gives(args, "--audio-format"@, "mp3"@)
    &&& gives(args, "--audio-quality"@, decimal(quality_kbps as nat) + "K"@)
    &&& lists(args, "--write-thumbnail"@) && lists(args, "--write-info-json"@)
    &&& lists(args, "--no-playlist"@) && lists(args, "--no-part"@) && lists(args, "--newline"@)
    &&& lists(args, "--no-warnings"@)
    &&& signs_in(args, source)
    &&& gives(args, "-o"@, template)
    &&& args.last() == url
}

proof fn lemma_signs_in(a: Seq<Seq<char>>, source: CookieSource, c: Seq<Seq<char>>)
    ensures
        signs_in(a + cookie_args(source) + c, source),
        cookie_args(source).len() == cookie_words(source),
{
    let b = cookie_args(source);
    let args = a + b + c;
    if b.len() == 2 {
        let n = a.len() as int;
        assert(args[n] == b[0] && args[n + 1] == b[1]);
        lemma_gives(args, n, b[0], b[1]);
    }
}

proof fn lemma_head_is_listed(head: Seq<Seq<char>>, rest: Seq<Seq<char>>)
    ensures
        forall|i: int| 0 <= i < head.len() ==> lists(head + rest, #[trigger] head[i]),
{
    assert forall|i: int| 0 <= i < head.len() implies lists(head + rest, #[trigger] head[i]) by {
        assert((head + rest)[i] == head[i]);
    }
}

/// A playlist is listed by its address, without the white space around it.
pub proof fn law_a_playlist_request_asks_for_its_entries(source: CookieSource, url: Seq<char>)
    ensures
        asks_for_playlist(playlist_request(source, url), source, url),
{
    let head = seq!["--flat-playlist"@, "--no-warnings"@, "-J"@];
    let tail = seq![trimmed(url)];
    let args = playlist_request(source, url);
    lemma_signs_in(head, source, tail);
    lemma_head_is_listed(head, cookie_args(source) + tail);
    assert(args =~= head + (cookie_args(source) + tail));
    assert(head[0] == "--flat-playlist"@ && head[1] == "--no-warnings"@ && head[2] == "-J"@);
}

/// A track's metadata is asked for without downloading anything, also of a track whose
/// streams cannot be resolved.
pub proof fn law_a_track_request_asks_for_metadata_alone(source: CookieSource, url: Seq<char>)
    ensures
        asks_for_track(track_request(source, url), source, url),
{
    let head = seq![
        "--dump-single-json"@,
        "--no-download"@,
        "--no-playlist"@,
        "--no-warnings"@,
        "--ignore-no-formats-error"@,
    ];
    let tail = seq![url];
    let args = track_request(source, url);
    lemma_signs_in(head, source, tail);
    lemma_head_is_listed(head, cookie_args(source) + tail);
    assert(args =~= head + (cookie_args(source) + tail));
    assert(head[0] == "--dump-single-json"@ && head[1] == "--no-download"@ && head[2]
        == "--no-playlist"@ && head[3] == "--no-warnings"@ && head[4]
        == "--ignore-no-formats-error"@);
}

/// A download asks for the music at the bit rate that is set, for the artwork and for
/// the metadata, in files of the template.
pub proof fn law_a_download_request_asks_for_all_three_files(
    quality_kbps: u32,
    source: CookieSource,
    template: Seq<char>,
    url: Seq<char>,
)
    ensures
        asks_for_download(
            download_request(quality_kbps, source, template, url),
            quality_kbps,
            source,
            template,
            url,
        ),
{
    let quality = decimal(quality_kbps as nat) + "K"@;
    let head = seq![
        "--extract-audio"@,
        "--audio-format"@,
        "mp3"@,
        "--audio-quality"@,
        quality,
        "--write-thumbnail"@,
        "--write-info-json"@,
        "--no-playlist"@,
        "--no-part"@,
        "--newline"@,
        "--no-warnings"@,
    ];
    let tail = seq!["-o"@, template, url];
    let args = download_request(quality_kbps, source, template, url);
    lemma_signs_in(head, source, tail);
    lemma_head_is_listed(head, cookie_args(source) + tail);
    assert(args =~= head + (cookie_args(source) + tail));
    assert(head[0] == "--extract-audio"@ && head[5] == "--write-thumbnail"@ && head[6]
        == "--write-info-json"@ && head[7] == "--no-playlist"@ && head[8] == "--no-part"@ && head[9]
        == "--newline"@ && head[10] == "--no-warnings"@);
    lemma_gives(args, 1, "--audio-format"@, "mp3"@);
    lemma_gives(args, 3, "--audio-quality"@, quality);
    let o = (head.len() + cookie_args(source).len()) as int;
    assert(args[o] == "-o"@ && args[o + 1] == template);
    lemma_gives(args, o, "-o"@, template);
}

/// An address is taken for one of SoundCloud exactly when it is a web address, with or
/// without encryption, that names the site.
pub proof fn law_soundcloud_addresses_name_the_site(url: Seq<char>)
    ensures
        is_soundcloud(url) ==> contains(url, "soundcloud.com"@),
        is_soundcloud(url) ==> starts(url, "http://"@) || starts(url, "https://"@),
        starts(url, "https://"@) && contains(url, "soundcloud.com"@) ==> is_soundcloud(url),
        starts(url, "http://"@) && contains(url, "soundcloud.com"@) ==> is_soundcloud(url),
{
}

// ---------------------------------------------------------------------------
// Playlists
// ---------------------------------------------------------------------------

/// What a value tells under a key: a text that is not empty, or a number as it is
/// printed.
pub open spec fn tells(v: JsonView, key: Seq<char>, what: Seq<char>) -> bool {
    match member_of(v, key) {
        JsonView::Text(s) => what == s && s.len() > 0,
        JsonView::Number(n) => what == n,
        _ => false,
    }
}

/// Whether a value tells nothing under a key.
pub open spec fn is_mute(v: JsonView, key: Seq<char>) -> bool {
    forall|what: Seq<char>| !tells(v, key, what)
}

/// Whether a value tells an address under one of two keys, the first before the second.
pub open spec fn addressed(
    v: JsonView,
    first: Seq<char>,
    second: Seq<char>,
    url: Seq<char>,
) -> bool {
    tells(v, first, url) || (is_mute(v, first) && tells(v, second, url))
}

/// Whether an entry is what a value with its address tells: an id, or else the address
/// in its place, and a title where there is one.
pub open spec fn is_entry(v: JsonView, url: Seq<char>, e: EntryView) -> bool {
    &&& e.url == url
    &&& tells(v, "id"@, e.id) || (is_mute(v, "id"@) && e.id == url)
    &&& match e.title {
        Some(t) => tells(v, "title"@, t),
        None => is_mute(v, "title"@),
    }
}

/// Whether a value of a listing tells this entry.
pub open spec fn tells_entry(v: JsonView, e: EntryView) -> bool {
    addressed(v, "url"@, "webpage_url"@, e.url) && is_entry(v, e.url, e)
}

/// Whether a value of a listing has no address.
pub open spec fn unaddressed(v: JsonView) -> bool {
    is_mute(v, "url"@) && is_mute(v, "webpage_url"@)
}

/// Whether places in a listing follow each other.
pub open spec fn rising(at: Seq<int>, n: int) -> bool {
    &&& forall|k: int| 0 <= k < at.len() ==> 0 <= #[trigger] at[k] < n
    &&& forall|k: int, l: int| 0 <= k < l < at.len() ==> #[trigger] at[k] < #[trigger] at[l]
}

/// Whether entries are those of a listing, in its order: one for each value with an
/// address, and none for the others.
pub open spec fn are_entries(list: Seq<JsonView>, entries: Seq<EntryView>) -> bool {
    exists|at: Seq<int>|
        {
            &&& #[trigger] rising(at, list.len() as int)
            &&& at.len() == entries.len()
            &&& forall|k: int|
                0 <= k < at.len() ==> tells_entry(list[#[trigger] at[k]], entries[k])
            &&& forall|i: int|
                0 <= i < list.len() && !unaddressed(#[trigger] list[i]) ==> at.contains(i)
        }
}

/// Whether a result is the playlist that a value holds. A value without a list of
/// entries is that of a single track.
pub open spec fn is_playlist(
    v: JsonView,
    r: Result<(Seq<char>, Seq<EntryView>), Seq<char>>,
) -> bool {
    &&& r is Ok ==> tells(v, "title"@, (r->Ok_0).0) || (is_mute(v, "title"@) && (r->Ok_0).0
        == "Playlist"@)
    &&& match member_of(v, "entries"@) {
        JsonView::List(list) => match r {
            Ok(p) => p.1.len() > 0 && are_entries(list, p.1),
            Err(e) => e == "no tracks found in this playlist"@ && forall|i: int|
                0 <= i < list.len() ==> unaddressed(#[trigger] list[i]),
        },
        _ => match r {
            Ok(p) => {
                &&& p.1.len() == 1
                &&& addressed(v, "webpage_url"@, "original_url"@, p.1[0].url)
                &&& is_entry(v, p.1[0].url, p.1[0])
            },
            Err(e) => e == "single track JSON has no webpage_url"@ && is_mute(v, "webpage_url"@)
                && is_mute(v, "original_url"@),
        },
    }
}

proof fn lemma_field(v: JsonView, key: Seq<char>)
    ensures
        field(v, key) is Some ==> tells(v, key, field(v, key)->0),
        field(v, key) is None ==> is_mute(v, key),
        field(v, key) is Some ==> !is_mute(v, key),
{
    if field(v, key) is Some {
        assert(tells(v, key, field(v, key)->0));
    }
}

proof fn lemma_entry(v: JsonView, url: Seq<char>)
    ensures
        is_entry(v, url, entry_with(v, url)),
{
    lemma_field(v, "id"@);
    lemma_field(v, "title"@);
}

proof fn lemma_address(v: JsonView, first: Seq<char>, second: Seq<char>)
    ensures
        match either(field(v, first), field(v, second)) {
            Some(url) => addressed(v, first, second, url),
            None => is_mute(v, first) && is_mute(v, second),
        },
        either(field(v, first), field(v, second)) is Some ==> !(is_mute(v, first) && is_mute(
            v,
            second,
        )),
{
    lemma_field(v, first);
    lemma_field(v, second);
}

proof fn lemma_entries(list: Seq<JsonView>) -> (at: Seq<int>)
    ensures
        rising(at, list.len() as int),
        at.len() == listed_entries(list).len(),
        forall|k: int|
            0 <= k < at.len() ==> tells_entry(list[#[trigger] at[k]], listed_entries(list)[k]),
        forall|i: int| 0 <= i < list.len() && !unaddressed(#[trigger] list[i]) ==> at.contains(i),
    decreases list.len(),
{
    if list.len() == 0 {
        Seq::empty()
    } else {
        let front = list.drop_last();
        let n = front.len() as int;
        let before = lemma_entries(front);
        let v = list.last();
        lemma_address(v, "url"@, "webpage_url"@);
        let address = either(field(v, "url"@), field(v, "webpage_url"@));
        let at = if address is Some {
            before.push(n)
        } else {
            before
        };
        if address is Some {
            lemma_entry(v, address->0);
            assert(at[before.len() as int] == n);
        }
        assert forall|k: int| 0 <= k < at.len() implies tells_entry(
            list[#[trigger] at[k]],
            listed_entries(list)[k],
        ) by {
            if k < before.len() {
                assert(at[k] == before[k]);
                assert(list[at[k]] == front[before[k]]);
            }
        }
        assert forall|k: int| 0 <= k < at.len() implies 0 <= #[trigger] at[k] < list.len() by {
            if k < before.len() {
                assert(at[k] == before[k]);
            }
        }
        assert forall|k: int, l: int| 0 <= k < l < at.len() implies #[trigger] at[k]
            < #[trigger] at[l] by {
            assert(at[k] == before[k]);
            if l < before.len() {
                assert(at[l] == before[l]);
            }
        }
        assert forall|i: int| 0 <= i < list.len() && !unaddressed(#[trigger] list[i]) implies at.contains(
            i,
        ) by {
            if i < n {
                assert(front[i] == list[i]);
                let k = choose|k: int| 0 <= k < before.len() && before[k] == i;
                assert(at[k] == i);
            } else {
                assert(at[before.len() as int] == n);
            }
        }
        at
    }
}

proof fn lemma_no_entries(list: Seq<JsonView>)
    requires
        listed_entries(list).len() == 0,
    ensures
        forall|i: int| 0 <= i < list.len() ==> unaddressed(#[trigger] list[i]),
{
    let at = lemma_entries(list);
    assert forall|i: int| 0 <= i < list.len() implies unaddressed(#[trigger] list[i]) by {
        if !unaddressed(list[i]) {
            assert(at.contains(i));
        }
    }
}

/// A playlist is what its value tells: every entry with an address, in order, and no
/// other.
pub proof fn law_a_playlist_is_what_its_value_tells(v: JsonView)
    ensures
        is_playlist(v, playlist_of(v)),
{
    lemma_field(v, "title"@);
    match member_of(v, "entries"@) {
        JsonView::List(list) => {
            let at = lemma_entries(list);
            if listed_entries(list).len() == 0 {
                lemma_no_entries(list);
            } else {
                assert(are_entries(list, listed_entries(list)));
            }
        },
        _ => {
            lemma_address(v, "webpage_url"@, "original_url"@);
            if let Some(url) = either(field(v, "webpage_url"@), field(v, "original_url"@)) {
                lemma_entry(v, url);
            }
        },
    }
}

/// The tail of a text is its last lines, as many as are asked for or as there are.
pub proof fn law_the_tail_is_the_last_lines(s: Seq<char>, n: int)
    requires
        n >= 0,
    ensures
        last_lines(s, n).len() == if lines_of(s).len() <= n {
            lines_of(s).len() as int
        } else {
            n
        },
        exists|front: Seq<Seq<char>>| lines_of(s) == #[trigger] (front + last_lines(s, n)),
{
    let lines = lines_of(s);
    let front = lines.take(lines.len() - last_lines(s, n).len());
    assert(lines =~= front + last_lines(s, n));
}

/// A playlist run that succeeded is read from what it printed; one that failed is an
/// error that ends with the last five lines that it complained in; and output that is no
/// JSON is an error of its own.
pub proof fn law_a_playlist_run_is_read_or_reported(
    success: bool,
    stdout: Seq<char>,
    stderr: Seq<char>,
)
    ensures
        !success ==> (playlist_outcome(success, stdout, stderr) matches Err(e) && ends(
            e,
            joined(last_lines(stderr, 5), "\n"@),
        )),
        success && parsed(stdout) is Ok ==> is_playlist(
            parsed(stdout)->Ok_0,
            playlist_outcome(success, stdout, stderr),
        ),
        success && parsed(stdout) is Err ==> (playlist_outcome(success, stdout, stderr) matches Err(
            e,
        ) && ends(e, parsed(stdout)->Err_0)),
{
    if let Err(e) = playlist_outcome(success, stdout, stderr) {
        if !success {
            let tail = joined(last_lines(stderr, 5), "\n"@);
            assert(e.subrange(e.len() - tail.len(), e.len() as int) =~= tail);
        } else if let Err(why) = parsed(stdout) {
            assert(e.subrange(e.len() - why.len(), e.len() as int) =~= why);
        }
    }
    if let Ok(v) = parsed(stdout) {
        law_a_playlist_is_what_its_value_tells(v);
    }
}

} // verus!
