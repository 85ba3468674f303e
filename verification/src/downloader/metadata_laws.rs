//! What the metadata of a track is, in terms of the JSON value that it comes from.
use vstd::prelude::*;

use crate::downloader::json::{member_of, JsonView};
use crate::downloader::metadata::{
    audio_extensions, files_verdict, first_text, first_with, id_of, image_extensions, last_url,
    missing_fields, resolved, title_of, uploader_of, url_of, value_text, whole_units,
};
use crate::models::track::MetadataView;
use crate::number::{decimal_of, units};
use crate::number_laws::law_units_are_the_nearest;
use crate::reading::power_of_ten;
use crate::text::{all_digits, ascii_small, contains, joined, number_of, occurs_at, trimmed};
use crate::utils::filesystem::{extension, has_extension, last_dot};

verus! {

/// What a value says under a key: a text that is not blank, without the white space
/// around it, or a number as it is printed. Anything else says nothing.
pub open spec fn says(v: JsonView, key: Seq<char>, what: Seq<char>) -> bool {
    match member_of(v, key) {
        JsonView::Text(s) => what == trimmed(s) && what.len() > 0,
        JsonView::Number(n) => what == n,
        _ => false,
    }
}

/// Whether a value says nothing under a key.
pub open spec fn is_silent(v: JsonView, key: Seq<char>) -> bool {
    forall|what: Seq<char>| !says(v, key, what)
}

/// Whether a value says this under the first key of a chain under which it says
/// anything: under every key before that one it is silent.
pub open spec fn first_says(v: JsonView, chain: Seq<Seq<char>>, what: Seq<char>) -> bool {
    exists|k: int|
        0 <= k < chain.len() && says(v, #[trigger] chain[k], what) && forall|j: int|
            0 <= j < k ==> is_silent(v, #[trigger] chain[j])
}

/// Whether a value is silent under every key of a chain.
pub open spec fn all_silent(v: JsonView, chain: Seq<Seq<char>>) -> bool {
    forall|k: int| 0 <= k < chain.len() ==> is_silent(v, #[trigger] chain[k])
}

/// Where the artist of a track stands, the best place first: a name before the number
/// of an account.
pub open spec fn uploader_chain() -> Seq<Seq<char>> {
    seq!["uploader"@, "artist"@, "creator"@, "channel"@, "uploader_id"@]
}

pub open spec fn id_chain() -> Seq<Seq<char>> {
    seq!["id"@, "display_id"@]
}

pub open spec fn title_chain() -> Seq<Seq<char>> {
    seq!["title"@, "track"@, "id"@, "display_id"@]
}

pub open spec fn url_chain() -> Seq<Seq<char>> {
    seq!["webpage_url"@, "original_url"@, "url"@]
}

proof fn lemma_text_says(v: JsonView, key: Seq<char>)
    ensures
        match value_text(member_of(v, key)) {
            Some(t) => says(v, key, t),
            None => is_silent(v, key),
        },
{
}

proof fn lemma_first_text_says(v: JsonView, chain: Seq<Seq<char>>)
    ensures
        match first_text(v, chain) {
            Some(t) => first_says(v, chain, t),
            None => all_silent(v, chain),
        },
    decreases chain.len(),
{
    if chain.len() > 0 {
        lemma_text_says(v, chain[0]);
        let rest = chain.skip(1);
        if value_text(member_of(v, chain[0])) is Some {
            assert(says(v, chain[0], first_text(v, chain)->0));
        } else {
            lemma_first_text_says(v, rest);
            match first_text(v, rest) {
                Some(t) => {
                    let k = choose|k: int|
                        0 <= k < rest.len() && says(v, #[trigger] rest[k], t) && forall|j: int|
                            0 <= j < k ==> is_silent(v, #[trigger] rest[j]);
                    assert(says(v, chain[k + 1], t));
                    assert forall|j: int| 0 <= j < k + 1 implies is_silent(
                        v,
                        #[trigger] chain[j],
                    ) by {
                        if j > 0 {
                            assert(is_silent(v, rest[j - 1]));
                        }
                    }
                },
                None => {
                    assert forall|j: int| 0 <= j < chain.len() implies is_silent(
                        v,
                        #[trigger] chain[j],
                    ) by {
                        if j > 0 {
                            assert(is_silent(v, rest[j - 1]));
                        }
                    }
                },
            }
        }
    }
}

proof fn lemma_first_says_later(
    v: JsonView,
    a: Seq<Seq<char>>,
    b: Seq<Seq<char>>,
    what: Seq<char>,
)
    ensures
        first_says(v, a, what) ==> first_says(v, a + b, what),
        all_silent(v, a) && first_says(v, b, what) ==> first_says(v, a + b, what),
        all_silent(v, a) && all_silent(v, b) ==> all_silent(v, a + b),
{
    let both = a + b;
    if first_says(v, a, what) {
        let k = choose|k: int|
            0 <= k < a.len() && says(v, #[trigger] a[k], what) && forall|j: int|
                0 <= j < k ==> is_silent(v, #[trigger] a[j]);
        assert(says(v, both[k], what));
        assert forall|j: int| 0 <= j < k implies is_silent(v, #[trigger] both[j]) by {
            assert(is_silent(v, a[j]));
        }
    }
    if all_silent(v, a) && first_says(v, b, what) {
        let k = choose|k: int|
            0 <= k < b.len() && says(v, #[trigger] b[k], what) && forall|j: int|
                0 <= j < k ==> is_silent(v, #[trigger] b[j]);
        let n = a.len() as int;
        assert(says(v, both[n + k], what));
        assert forall|j: int| 0 <= j < n + k implies is_silent(v, #[trigger] both[j]) by {
            if j < n {
                assert(is_silent(v, a[j]));
            } else {
                assert(is_silent(v, b[j - n]));
            }
        }
    }
    if all_silent(v, a) && all_silent(v, b) {
        assert forall|j: int| 0 <= j < both.len() implies is_silent(v, #[trigger] both[j]) by {
            if j < a.len() {
                assert(is_silent(v, a[j]));
            } else {
                assert(is_silent(v, b[j - a.len()]));
            }
        }
    }
}

/// Whether a printed number is this many seconds to the nearest one, where one of its
/// units is ten to the power of `-scale` seconds; nothing below zero counts.
pub open spec fn is_seconds(n: Seq<char>, scale: int, seconds: u64) -> bool {
    match decimal_of(n) {
        None => seconds == 0,
        Some(d) => if d.negative {
            seconds == 0
        } else if d.places + scale <= 0 {
            let whole = number_of(d.digits) * power_of_ten((-d.places - scale) as nat);
            seconds == whole || (whole > u64::MAX && seconds == u64::MAX)
        } else {
            let unit = power_of_ten((d.places + scale) as nat);
            (-unit < 2 * (seconds * unit - number_of(d.digits)) <= unit) || (seconds == u64::MAX
                && 2 * (seconds * unit - number_of(d.digits)) < unit)
        },
    }
}

proof fn lemma_digits_of_number(s: Seq<char>)
    requires
        decimal_of(s) is Some,
    ensures
        all_digits(decimal_of(s)->0.digits),
{
    let body = crate::number::unsigned_part(s);
    let whole = crate::number::leading_digits(body);
    lemma_leading_are_digits(body);
    let rest = body.skip(whole);
    let digits = crate::number::number_digits(body);
    if rest.len() > 0 && rest[0] == '.' {
        let tail = rest.skip(1);
        lemma_leading_are_digits(tail);
        assert forall|i: int| 0 <= i < digits.len() implies '0' <= #[trigger] digits[i] <= '9' by {
            if i < whole {
                assert(digits[i] == body[i]);
            } else {
                assert(digits[i] == tail[i - whole]);
            }
        }
    } else {
        assert forall|i: int| 0 <= i < digits.len() implies '0' <= #[trigger] digits[i] <= '9' by {
            assert(digits[i] == body[i]);
        }
    }
}

proof fn lemma_leading_are_digits(s: Seq<char>)
    ensures
        0 <= crate::number::leading_digits(s) <= s.len(),
        forall|i: int|
            0 <= i < crate::number::leading_digits(s) ==> '0' <= #[trigger] s[i] <= '9',
    decreases s.len(),
{
    if s.len() > 0 && '0' <= s[0] <= '9' {
        let t = s.skip(1);
        lemma_leading_are_digits(t);
        assert forall|i: int|
            0 <= i < crate::number::leading_digits(s) implies '0' <= #[trigger] s[i] <= '9' by {
            if i > 0 {
                assert('0' <= t[i - 1] <= '9');
            }
        }
    }
}

proof fn lemma_whole_units_are_seconds(n: Seq<char>, scale: int)
    ensures
        is_seconds(n, -scale, whole_units(n, scale)),
{
    if decimal_of(n) is Some {
        let d = decimal_of(n)->0;
        lemma_digits_of_number(n);
        law_units_are_the_nearest(d, scale);
        let total = units(d, scale);
        if !d.negative && total > u64::MAX && d.places > scale {
            let unit = power_of_ten((d.places - scale) as nat);
            let s = u64::MAX as int;
            assert(s * unit <= total * unit - unit) by (nonlinear_arith)
                requires
                    s + 1 <= total,
                    unit >= 0,
            ;
        }
        if !d.negative && total < 0 {
            crate::text::lemma_number_grows(d.digits, 0);
            if d.places <= scale {
                let p = power_of_ten((scale - d.places) as nat);
                assert(number_of(d.digits) * p >= 0) by (nonlinear_arith)
                    requires
                        number_of(d.digits) >= 0,
                        p >= 0,
                ;
            } else {
                let unit = power_of_ten((d.places - scale) as nat);
                assert(total * unit <= -unit) by (nonlinear_arith)
                    requires
                        total <= -1,
                        unit >= 0,
                ;
            }
        }
    }
}

/// Whether this is the artwork of a track: what stands under `thumbnail`, else the
/// address of the last entry of `thumbnails` that has one.
pub open spec fn is_artwork(v: JsonView, art: Option<Seq<char>>) -> bool {
    if !is_silent(v, "thumbnail"@) {
        art is Some && says(v, "thumbnail"@, art->0)
    } else {
        match member_of(v, "thumbnails"@) {
            JsonView::List(list) => match art {
                Some(t) => exists|k: int|
                    0 <= k < list.len() && says(#[trigger] list[k], "url"@, t) && forall|j: int|
                        k < j < list.len() ==> is_silent(#[trigger] list[j], "url"@),
                None => forall|j: int| 0 <= j < list.len() ==> is_silent(#[trigger] list[j], "url"@),
            },
            _ => art is None,
        }
    }
}

proof fn lemma_last_url(list: Seq<JsonView>)
    ensures
        match last_url(list) {
            Some(t) => exists|k: int|
                0 <= k < list.len() && says(#[trigger] list[k], "url"@, t) && forall|j: int|
                    k < j < list.len() ==> is_silent(#[trigger] list[j], "url"@),
            None => forall|j: int| 0 <= j < list.len() ==> is_silent(#[trigger] list[j], "url"@),
        },
    decreases list.len(),
{
    if list.len() > 0 {
        let n = list.len() - 1;
        lemma_text_says(list.last(), "url"@);
        assert(list[n] == list.last());
        if value_text(member_of(list.last(), "url"@)) is Some {
            assert(says(list[n], "url"@, last_url(list)->0));
        } else {
            let front = list.drop_last();
            lemma_last_url(front);
            match last_url(front) {
                Some(t) => {
                    let k = choose|k: int|
                        0 <= k < front.len() && says(#[trigger] front[k], "url"@, t) && forall|j: int|
                            k < j < front.len() ==> is_silent(#[trigger] front[j], "url"@);
                    assert(says(list[k], "url"@, t));
                    assert forall|j: int| k < j < list.len() implies is_silent(
                        #[trigger] list[j],
                        "url"@,
                    ) by {
                        if j < n {
                            assert(is_silent(front[j], "url"@));
                        }
                    }
                },
                None => {
                    assert forall|j: int| 0 <= j < list.len() implies is_silent(
                        #[trigger] list[j],
                        "url"@,
                    ) by {
                        if j < n {
                            assert(is_silent(front[j], "url"@));
                        }
                    }
                },
            }
        }
    }
}

/// Whether the length of a track is what the value gives: its seconds, else its
/// milliseconds, else none.
pub open spec fn is_length(v: JsonView, seconds: u64) -> bool {
    match member_of(v, "duration"@) {
        JsonView::Number(n) => is_seconds(n, 0, seconds),
        _ => match member_of(v, "duration_ms"@) {
            JsonView::Number(n) => is_seconds(n, 3, seconds),
            _ => seconds == 0,
        },
    }
}

/// Whether metadata is what a value says of a track.
pub open spec fn is_told(v: JsonView, m: MetadataView) -> bool {
    &&& first_says(v, id_chain(), m.id)
    &&& first_says(v, title_chain(), m.title)
    &&& first_says(v, uploader_chain(), m.uploader)
    &&& first_says(v, url_chain(), m.url)
    &&& is_artwork(v, m.thumbnail)
    &&& is_length(v, m.duration)
}

/// Whether a value lacks something that is required.
pub open spec fn lacks_something(v: JsonView) -> bool {
    all_silent(v, id_chain()) || all_silent(v, uploader_chain()) || all_silent(v, url_chain())
}

/// Whether an error names everything that a value lacks.
pub open spec fn names_what_lacks(v: JsonView, e: Seq<char>) -> bool {
    &&& all_silent(v, id_chain()) ==> contains(e, "id"@)
    &&& all_silent(v, title_chain()) ==> contains(e, "title/track"@)
    &&& all_silent(v, uploader_chain()) ==> contains(e, "uploader/artist/creator/channel"@)
    &&& all_silent(v, url_chain()) ==> contains(e, "webpage_url/original_url/url"@)
}

proof fn lemma_joined_contains(list: Seq<Seq<char>>, sep: Seq<char>, i: int)
    requires
        0 <= i < list.len(),
    ensures
        contains(joined(list, sep), list[i]),
    decreases list.len(),
{
    let s = joined(list, sep);
    if list.len() == 1 {
        assert(s.subrange(0, s.len() as int) =~= list[0]);
        assert(occurs_at(s, list[0], 0));
    } else if i == list.len() - 1 {
        let at = s.len() - list.last().len();
        assert(s.subrange(at, s.len() as int) =~= list[i]);
        assert(occurs_at(s, list[i], at));
    } else {
        let front = list.drop_last();
        lemma_joined_contains(front, sep, i);
        let f = joined(front, sep);
        let at = choose|at: int| occurs_at(f, front[i], at);
        assert(s.subrange(at, at + list[i].len()) =~= f.subrange(at, at + list[i].len()));
        assert(occurs_at(s, list[i], at));
    }
}

proof fn lemma_contains_behind(a: Seq<char>, b: Seq<char>, c: Seq<char>)
    requires
        contains(b, c),
    ensures
        contains(a + b, c),
{
    let at = choose|at: int| occurs_at(b, c, at);
    assert((a + b).subrange(a.len() + at, a.len() + at + c.len()) =~= b.subrange(
        at,
        at + c.len(),
    ));
    assert(occurs_at(a + b, c, a.len() + at));
}

/// Metadata is exactly what the value says: every field comes from the first key of
/// its chain that says anything, and a value that lacks a required field is refused
/// with an error that names it. So the artist is a name wherever there is one, and the
/// number of an account only where there is nothing else.
pub proof fn law_metadata_is_what_the_value_says(v: JsonView)
    ensures
        match resolved(v) {
            Ok(m) => is_told(v, m) && !lacks_something(v),
            Err(e) => lacks_something(v) && names_what_lacks(v, e),
        },
{
    lemma_first_text_says(v, id_chain());
    lemma_first_text_says(v, uploader_chain());
    lemma_first_text_says(v, url_chain());
    let own = seq!["title"@, "track"@];
    lemma_first_text_says(v, own);
    assert(own + id_chain() =~= title_chain());
    assert(id_of(v) == first_text(v, id_chain()));
    assert(uploader_of(v) == first_text(v, uploader_chain()));
    assert(url_of(v) == first_text(v, url_chain()));
    if title_of(v) is Some {
        lemma_first_says_later(v, own, id_chain(), title_of(v)->0);
    } else {
        lemma_first_says_later(v, own, id_chain(), Seq::empty());
    }
    lemma_first_says_excludes(v, id_chain());
    lemma_first_says_excludes(v, uploader_chain());
    lemma_first_says_excludes(v, url_chain());
    lemma_first_says_excludes(v, title_chain());
    match member_of(v, "duration"@) {
        JsonView::Number(n) => lemma_whole_units_are_seconds(n, 0),
        _ => match member_of(v, "duration_ms"@) {
            JsonView::Number(n) => lemma_whole_units_are_seconds(n, -3),
            _ => {},
        },
    }
    lemma_text_says(v, "thumbnail"@);
    match member_of(v, "thumbnails"@) {
        JsonView::List(list) => lemma_last_url(list),
        _ => {},
    }
    let missing = missing_fields(v);
    if missing.len() > 0 {
        let head = "yt-dlp JSON is missing required field(s): "@;
        let all = joined(missing, ", "@);
        assert forall|i: int| 0 <= i < missing.len() implies contains(
            head + all,
            #[trigger] missing[i],
        ) by {
            lemma_joined_contains(missing, ", "@, i);
            lemma_contains_behind(head, all, missing[i]);
        }
        if id_of(v) is None {
            assert(missing[0] == "id"@);
        }
        if title_of(v) is None {
            assert(missing[1] == "title/track"@);
        }
        if uploader_of(v) is None {
            let k = if id_of(v) is Some {
                0int
            } else if title_of(v) is Some {
                1
            } else {
                2
            };
            assert(missing[k] == "uploader/artist/creator/channel"@);
        }
        if url_of(v) is None {
            assert(missing.last() == "webpage_url/original_url/url"@);
            assert(missing[missing.len() - 1] == "webpage_url/original_url/url"@);
        }
    }
}

proof fn lemma_first_says_excludes(v: JsonView, chain: Seq<Seq<char>>)
    ensures
        (exists|what: Seq<char>| first_says(v, chain, what)) ==> !all_silent(v, chain),
{
    if exists|what: Seq<char>| first_says(v, chain, what) {
        let what = choose|what: Seq<char>| first_says(v, chain, what);
        let k = choose|k: int|
            0 <= k < chain.len() && says(v, #[trigger] chain[k], what) && forall|j: int|
                0 <= j < k ==> is_silent(v, #[trigger] chain[j]);
        assert(!is_silent(v, chain[k]));
    }
}

// ---------------------------------------------------------------------------
// A finished download
// ---------------------------------------------------------------------------

/// Whether a file name ends in a dot and this extension, in any case, behind at least
/// one character.
pub open spec fn is_file_of(name: Seq<char>, ext: Seq<char>) -> bool {
    exists|at: int|
        0 < at < name.len() && #[trigger] name[at] == '.' && ascii_small(name.skip(at + 1))
            == ascii_small(ext) && crate::reading::free_of(name.skip(at + 1), '.')
}

/// Whether a file name is one of music.
pub open spec fn is_music(name: Seq<char>) -> bool {
    is_file_of(name, "mp3"@) || is_file_of(name, "m4a"@) || is_file_of(name, "opus"@)
        || is_file_of(name, "ogg"@) || is_file_of(name, "wav"@)
}

/// Whether a file name is one of a picture.
pub open spec fn is_picture(name: Seq<char>) -> bool {
    is_file_of(name, "jpg"@) || is_file_of(name, "jpeg"@) || is_file_of(name, "png"@)
        || is_file_of(name, "webp"@)
}

proof fn lemma_last_dot(s: Seq<char>)
    ensures
        -1 <= last_dot(s) < s.len(),
        last_dot(s) >= 0 ==> s[last_dot(s)] == '.',
        forall|j: int| last_dot(s) < j < s.len() ==> s[j] != '.',
    decreases s.len(),
{
    if s.len() > 0 && s.last() != '.' {
        let front = s.drop_last();
        lemma_last_dot(front);
        assert forall|j: int| last_dot(s) < j < s.len() implies s[j] != '.' by {
            if j < front.len() {
                assert(s[j] == front[j]);
            }
        }
    }
}

proof fn lemma_is_file_of(name: Seq<char>, ext: Seq<char>)
    ensures
        is_file_of(name, ext) <==> extension(name) is Some && ascii_small(ext) == ascii_small(
            extension(name)->0,
        ),
{
    lemma_last_dot(name);
    let at = last_dot(name);
    if at > 0 {
        let tail = name.skip(at + 1);
        assert forall|i: int| 0 <= i < tail.len() implies #[trigger] tail[i] != '.' by {
            assert(tail[i] == name[at + 1 + i]);
        }
    }
    if is_file_of(name, ext) {
        let k = choose|k: int|
            0 < k < name.len() && #[trigger] name[k] == '.' && ascii_small(name.skip(k + 1))
                == ascii_small(ext) && crate::reading::free_of(name.skip(k + 1), '.');
        if k < at {
            assert(name.skip(k + 1)[at - k - 1] == name[at]);
        }
    }
}

proof fn lemma_kinds(name: Seq<char>)
    ensures
        has_extension(name, audio_extensions()) <==> is_music(name),
        has_extension(name, image_extensions()) <==> is_picture(name),
{
    lemma_is_file_of(name, "mp3"@);
    lemma_is_file_of(name, "m4a"@);
    lemma_is_file_of(name, "opus"@);
    lemma_is_file_of(name, "ogg"@);
    lemma_is_file_of(name, "wav"@);
    lemma_is_file_of(name, "jpg"@);
    lemma_is_file_of(name, "jpeg"@);
    lemma_is_file_of(name, "png"@);
    lemma_is_file_of(name, "webp"@);
    let a = audio_extensions();
    assert(a[0] == "mp3"@ && a[1] == "m4a"@ && a[2] == "opus"@ && a[3] == "ogg"@ && a[4]
        == "wav"@);
    let p = image_extensions();
    assert(p[0] == "jpg"@ && p[1] == "jpeg"@ && p[2] == "png"@ && p[3] == "webp"@);
}

proof fn lemma_first_with_is_one(names: Seq<Seq<char>>, exts: Seq<Seq<char>>)
    ensures
        match first_with(names, exts) {
            Some(name) => exists|i: int|
                0 <= i < names.len() && #[trigger] names[i] == name && has_extension(name, exts),
            None => forall|i: int|
                0 <= i < names.len() ==> !has_extension(#[trigger] names[i], exts),
        },
    decreases names.len(),
{
    if names.len() > 0 {
        let rest = names.skip(1);
        if !has_extension(names[0], exts) {
            lemma_first_with_is_one(rest, exts);
            match first_with(rest, exts) {
                Some(name) => {
                    let i = choose|i: int|
                        0 <= i < rest.len() && #[trigger] rest[i] == name && has_extension(
                            name,
                            exts,
                        );
                    assert(names[i + 1] == name);
                },
                None => {
                    assert forall|i: int| 0 <= i < names.len() implies !has_extension(
                        #[trigger] names[i],
                        exts,
                    ) by {
                        if i > 0 {
                            assert(!has_extension(rest[i - 1], exts));
                        }
                    }
                },
            }
        } else {
            assert(names[0] == first_with(names, exts)->0);
        }
    }
}

/// A download is complete exactly when there is music in it and, for a track that has
/// artwork, a picture; what is taken for them are such files.
pub proof fn law_a_download_needs_its_music_and_its_artwork(
    meta: MetadataView,
    names: Seq<Seq<char>>,
)
    ensures
        files_verdict(meta, names) is Ok <==> (exists|i: int|
            0 <= i < names.len() && is_music(#[trigger] names[i])) && (meta.thumbnail is None || (
        exists|i: int| 0 <= i < names.len() && is_picture(#[trigger] names[i]))),
        files_verdict(meta, names) matches Ok((m, audio, cover)) ==> {
            &&& m == meta
            &&& names.contains(audio) && is_music(audio)
            &&& cover matches Some(c) ==> names.contains(c) && is_picture(c)
            &&& cover is None ==> forall|i: int|
                0 <= i < names.len() ==> !is_picture(#[trigger] names[i])
        },
{
    lemma_first_with_is_one(names, audio_extensions());
    lemma_first_with_is_one(names, image_extensions());
    assert forall|i: int| 0 <= i < names.len() implies {
        &&& has_extension(#[trigger] names[i], audio_extensions()) <==> is_music(names[i])
        &&& has_extension(names[i], image_extensions()) <==> is_picture(names[i])
    } by {
        lemma_kinds(names[i]);
    }
}

} // verus!
