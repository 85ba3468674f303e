//! Metadata out of what yt-dlp prints, and the check of a finished download.
use serde_json::Value;
use vstd::prelude::*;
use vstd::string::*;

use crate::downloader::json;
use crate::downloader::json::{all_contents, contents, member_of, parsed, JsonView};
use crate::downloader::metadata_laws::{
    is_told, lacks_something, law_metadata_is_what_the_value_says, names_what_lacks,
};
use crate::models::track::{opt, MetadataView, TrackMetadata};
use crate::number;
use crate::number::{capped_units, decimal_of};
use crate::text;
use crate::text::{joined, trimmed, views};
use crate::utils::filesystem::{find_file_with_ext, has_extension};

verus! {

/// The text that a value stands for: that of a string, trimmed, where it is not
/// blank, or that of a number.
pub open spec fn value_text(v: JsonView) -> Option<Seq<char>> {
    match v {
        JsonView::Text(s) => if trimmed(s).len() > 0 {
            Some(trimmed(s))
        } else {
            None
        },
        JsonView::Number(n) => Some(n),
        _ => None,
    }
}

fn value_as_string(v: &Value) -> (r: Option<String>)
    ensures
        opt(r) == value_text(contents(*v)),
{
    match json::as_text(v) {
        Some(s) => {
            let t = text::trim(s);
            if t.as_str().is_empty() {
                None
            } else {
                Some(t)
            }
        },
        None => json::number_text(v),
    }
}

/// The first text among the members under the given keys.
pub open spec fn first_text(v: JsonView, keys: Seq<Seq<char>>) -> Option<Seq<char>>
    decreases keys.len(),
{
    if keys.len() == 0 {
        None
    } else if value_text(member_of(v, keys[0])) is Some {
        value_text(member_of(v, keys[0]))
    } else {
        first_text(v, keys.skip(1))
    }
}

fn first_string(v: &Value, keys: &Vec<String>) -> (r: Option<String>)
    ensures
        opt(r) == first_text(contents(*v), views(keys@)),
{
    let ghost all = views(keys@);
    let mut i: usize = 0;
    assert(all.skip(0) =~= all);
    while i < keys.len()
        invariant
            i <= keys@.len(),
            all == views(keys@),
            first_text(contents(*v), all) == first_text(contents(*v), all.skip(i as int)),
        decreases keys@.len() - i,
    {
        assert(all.skip(i as int).skip(1) =~= all.skip(i + 1));
        let s = value_as_string(json::member(v, keys[i].as_str()));
        if s.is_some() {
            return s;
        }
        i = i + 1;
    }
    None
}

/// A printed number in units of ten to the power of `-scale`, to the nearest
/// unit; nothing below zero.
pub open spec fn whole_units(n: Seq<char>, scale: int) -> u64 {
    match decimal_of(n) {
        Some(d) => if d.negative {
            0
        } else {
            capped_units(d, scale) as u64
        },
        None => 0,
    }
}

fn read_units(n: &str, scale: i64) -> (r: u64)
    ensures
        r == whole_units(n@, scale as int),
{
    match number::parse_decimal(text::to_chars(n).as_slice()) {
        Some(d) => if d.negative {
            0
        } else {
            number::to_units(&d, scale)
        },
        None => 0,
    }
}

/// The length of a track in whole seconds: its `duration`, else its
/// `duration_ms` by a thousand, else zero.
pub open spec fn duration_of(v: JsonView) -> u64 {
    match member_of(v, "duration"@) {
        JsonView::Number(n) => whole_units(n, 0),
        _ => match member_of(v, "duration_ms"@) {
            JsonView::Number(n) => whole_units(n, -3),
            _ => 0,
        },
    }
}

/// The `url` of the last value of a list that has one.
pub open spec fn last_url(list: Seq<JsonView>) -> Option<Seq<char>>
    decreases list.len(),
{
    if list.len() == 0 {
        None
    } else if value_text(member_of(list.last(), "url"@)) is Some {
        value_text(member_of(list.last(), "url"@))
    } else {
        last_url(list.drop_last())
    }
}

/// The artwork of a track: its `thumbnail`, else the last one of `thumbnails`.
pub open spec fn thumbnail_of(v: JsonView) -> Option<Seq<char>> {
    if value_text(member_of(v, "thumbnail"@)) is Some {
        value_text(member_of(v, "thumbnail"@))
    } else {
        match member_of(v, "thumbnails"@) {
            JsonView::List(list) => last_url(list),
            _ => None,
        }
    }
}

fn read_thumbnail(v: &Value) -> (r: Option<String>)
    ensures
        opt(r) == thumbnail_of(contents(*v)),
{
    let own = value_as_string(json::member(v, "thumbnail"));
    if own.is_some() {
        return own;
    }
    match json::as_list(json::member(v, "thumbnails")) {
        None => None,
        Some(list) => {
            let ghost all = all_contents(list@);
            let mut n: usize = list.len();
            assert(all.take(n as int) =~= all);
            while n > 0
                invariant
                    n <= list@.len(),
                    all == all_contents(list@),
                    last_url(all) == last_url(all.take(n as int)),
                    thumbnail_of(contents(*v)) == last_url(all),
                decreases n,
            {
                assert(all.take(n as int).last() == contents(list@[n - 1]));
                assert(all.take(n as int).drop_last() =~= all.take(n - 1));
                let url = value_as_string(json::member(&list[n - 1], "url"));
                if url.is_some() {
                    return url;
                }
                n = n - 1;
            }
            None
        },
    }
}

fn read_duration(v: &Value) -> (r: u64)
    ensures
        r == duration_of(contents(*v)),
{
    match json::number_text(json::member(v, "duration")) {
        Some(n) => read_units(n.as_str(), 0),
        None => match json::number_text(json::member(v, "duration_ms")) {
            Some(n) => read_units(n.as_str(), -3),
            None => 0,
        },
    }
}

pub open spec fn id_of(v: JsonView) -> Option<Seq<char>> {
    first_text(v, seq!["id"@, "display_id"@])
}

/// The title of a track: `title`, else `track`, else its id.
pub open spec fn title_of(v: JsonView) -> Option<Seq<char>> {
    if first_text(v, seq!["title"@, "track"@]) is Some {
        first_text(v, seq!["title"@, "track"@])
    } else {
        id_of(v)
    }
}

pub open spec fn uploader_of(v: JsonView) -> Option<Seq<char>> {
    first_text(v, seq!["uploader"@, "artist"@, "creator"@, "channel"@, "uploader_id"@])
}

pub open spec fn url_of(v: JsonView) -> Option<Seq<char>> {
    first_text(v, seq!["webpage_url"@, "original_url"@, "url"@])
}

/// The names of the required fields that are missing.
pub open spec fn missing_fields(v: JsonView) -> Seq<Seq<char>> {
    let a = if id_of(v) is None {
        seq!["id"@]
    } else {
        Seq::empty()
    };
    let b = if title_of(v) is None {
        a.push("title/track"@)
    } else {
        a
    };
    let c = if uploader_of(v) is None {
        b.push("uploader/artist/creator/channel"@)
    } else {
        b
    };
    if url_of(v) is None {
        c.push("webpage_url/original_url/url"@)
    } else {
        c
    }
}

/// The metadata that a value holds, or the error that names what is missing.
pub open spec fn resolved(v: JsonView) -> Result<MetadataView, Seq<char>> {
    if missing_fields(v).len() > 0 {
        Err("yt-dlp JSON is missing required field(s): "@ + joined(missing_fields(v), ", "@))
    } else {
        Ok(
            MetadataView {
                id: id_of(v)->0,
                title: title_of(v)->0,
                uploader: uploader_of(v)->0,
                duration: duration_of(v),
                thumbnail: thumbnail_of(v),
                url: url_of(v)->0,
            },
        )
    }
}

/// What a metadata result says, as values.
pub open spec fn resolution_view(r: Result<TrackMetadata, String>) -> Result<
    MetadataView,
    Seq<char>,
> {
    match r {
        Ok(m) => Ok(m@),
        Err(e) => Err(e@),
    }
}

/// Resolves yt-dlp's JSON for a track into complete metadata. Fields that cannot
/// be resolved make an error that names them; nothing is made up.
pub fn resolve_metadata(v: &Value) -> (r: Result<TrackMetadata, String>)
    ensures
        resolution_view(r) == resolved(contents(*v)),
        match r {
            Ok(m) => is_told(contents(*v), m@),
            Err(e) => lacks_something(contents(*v)) && names_what_lacks(contents(*v), e@),
        },
{
    let ghost view = contents(*v);
    proof {
        law_metadata_is_what_the_value_says(view);
    }
    let keys = text::list(vec!["id", "display_id"]);
    assert(views(keys@) =~= seq!["id"@, "display_id"@]);
    let id = first_string(v, &keys);
    let keys = text::list(vec!["title", "track"]);
    assert(views(keys@) =~= seq!["title"@, "track"@]);
    let own_title = first_string(v, &keys);
    let title = match own_title {
        Some(t) => Some(t),
        None => match &id {
            Some(i) => Some(i.clone()),
            None => None,
        },
    };
    assert(opt(title) == title_of(view));
    let keys = text::list(vec!["uploader", "artist", "creator", "channel", "uploader_id"]);
    assert(views(keys@) =~= seq!["uploader"@, "artist"@, "creator"@, "channel"@, "uploader_id"@]);
    let uploader = first_string(v, &keys);
    let keys = text::list(vec!["webpage_url", "original_url", "url"]);
    assert(views(keys@) =~= seq!["webpage_url"@, "original_url"@, "url"@]);
    let url = first_string(v, &keys);
    let duration = read_duration(v);
    let thumbnail = read_thumbnail(v);
    let mut missing: Vec<String> = Vec::new();
    assert(views(missing@) =~= Seq::empty());
    if id.is_none() {
        text::put(&mut missing, "id");
    }
    if title.is_none() {
        text::put(&mut missing, "title/track");
    }
    if uploader.is_none() {
        text::put(&mut missing, "uploader/artist/creator/channel");
    }
    if url.is_none() {
        text::put(&mut missing, "webpage_url/original_url/url");
    }
    assert(views(missing@) =~= missing_fields(view));
    match (id, title, uploader, url) {
        (Some(id), Some(title), Some(uploader), Some(url)) => Ok(
            TrackMetadata { id, title, uploader, duration, thumbnail, url },
        ),
        _ => {
            let mut s = "yt-dlp JSON is missing required field(s): ".to_owned();
            s.append(text::join(missing.as_slice(), ", ").as_str());
            Err(s)
        },
    }
}

/// Metadata resolves exactly when an id (which also serves as the title), an
/// uploader and an address are there; no field of it is ever made up.
pub proof fn law_metadata_resolves_exactly_when_nothing_is_missing(v: JsonView)
    ensures
        resolved(v) is Ok <==> id_of(v) is Some && uploader_of(v) is Some && url_of(v) is Some,
        resolved(v) matches Ok(m) ==> id_of(v) == Some(m.id) && title_of(v) == Some(m.title)
            && uploader_of(v) == Some(m.uploader) && url_of(v) == Some(m.url),
{
}

// ---------------------------------------------------------------------------
// A finished download
// ---------------------------------------------------------------------------

/// Everything the renderer needs about a downloaded track.
#[derive(Debug)]
pub struct DownloadedTrack {
    pub meta: TrackMetadata,
    /// File name of the audio.
    pub audio: String,
    /// File name of the cover image, if one was saved.
    pub cover: Option<String>,
}

pub open spec fn audio_extensions() -> Seq<Seq<char>> {
    seq!["mp3"@, "m4a"@, "opus"@, "ogg"@, "wav"@]
}

pub open spec fn image_extensions() -> Seq<Seq<char>> {
    seq!["jpg"@, "jpeg"@, "png"@, "webp"@]
}

/// The first file name with one of the extensions.
pub open spec fn first_with(names: Seq<Seq<char>>, exts: Seq<Seq<char>>) -> Option<Seq<char>>
    decreases names.len(),
{
    if names.len() == 0 {
        None
    } else if has_extension(names[0], exts) {
        Some(names[0])
    } else {
        first_with(names.skip(1), exts)
    }
}

proof fn lemma_first_with(names: Seq<Seq<char>>, exts: Seq<Seq<char>>, at: int)
    requires
        0 <= at <= names.len(),
        forall|j: int| 0 <= j < at ==> !has_extension(#[trigger] names[j], exts),
        at < names.len() ==> has_extension(names[at], exts),
    ensures
        first_with(names, exts) == (if at < names.len() {
            Some(names[at])
        } else {
            None
        }),
    decreases names.len(),
{
    if at > 0 {
        let rest = names.skip(1);
        assert(!has_extension(names[0], exts));
        assert forall|j: int| 0 <= j < at - 1 implies !has_extension(#[trigger] rest[j], exts) by {
            assert(rest[j] == names[j + 1]);
        }
        lemma_first_with(rest, exts, at - 1);
    }
}

fn find_first(names: &[String], exts: &Vec<String>) -> (r: Option<String>)
    ensures
        opt(r) == first_with(views(names@), views(exts@)),
{
    let ghost all = views(names@);
    match find_file_with_ext(names, exts.as_slice()) {
        Some(i) => {
            proof {
                assert forall|j: int| 0 <= j < i implies !has_extension(
                    #[trigger] all[j],
                    views(exts@),
                ) by {
                    assert(all[j] == names@[j]@);
                }
                lemma_first_with(all, views(exts@), i as int);
            }
            Some(names[i].clone())
        },
        None => {
            proof {
                assert forall|j: int| 0 <= j < all.len() implies !has_extension(
                    #[trigger] all[j],
                    views(exts@),
                ) by {
                    assert(all[j] == names@[j]@);
                }
                lemma_first_with(all, views(exts@), all.len() as int);
            }
            None
        },
    }
}

/// A finished download, as values: its metadata, its audio file and its cover.
pub type DownloadView = (MetadataView, Seq<char>, Option<Seq<char>>);

/// What a download with this metadata amounts to, or what is wrong with it, from
/// the names of the files that it left. A cover may be missing only where the
/// metadata lists none.
pub open spec fn files_verdict(meta: MetadataView, names: Seq<Seq<char>>) -> Result<
    DownloadView,
    Seq<char>,
> {
    let audio = first_with(names, audio_extensions());
    let cover = first_with(names, image_extensions());
    if audio is None {
        Err("Download incomplete: missing audio file (no mp3/m4a in work dir)"@)
    } else if cover is None && meta.thumbnail is Some {
        Err(
            "Download incomplete: missing thumbnail (metadata lists one, no image file was saved)"@,
        )
    } else {
        Ok((meta, audio->0, cover))
    }
}

/// What a finished download amounts to, from the parsed metadata file.
pub open spec fn value_verdict(v: JsonView, names: Seq<Seq<char>>) -> Result<
    DownloadView,
    Seq<char>,
> {
    match resolved(v) {
        Err(e) => Err("parsing track.info.json: "@ + e),
        Ok(meta) => files_verdict(meta, names),
    }
}

/// What a finished download amounts to, from the content of its metadata file
/// (`None` where there is no file) and the names of the files that it left.
pub open spec fn download_verdict(info: Option<Seq<char>>, names: Seq<Seq<char>>) -> Result<
    DownloadView,
    Seq<char>,
> {
    match info {
        None => Err("Download incomplete: missing metadata file track.info.json"@),
        Some(content) => match parsed(content) {
            Err(e) => Err("parsing track.info.json: "@ + e),
            Ok(v) => value_verdict(v, names),
        },
    }
}

/// A download result, as values.
pub open spec fn download_view(r: Result<DownloadedTrack, String>) -> Result<
    DownloadView,
    Seq<char>,
> {
    match r {
        Ok(d) => Ok((d.meta@, d.audio@, opt(d.cover))),
        Err(e) => Err(e@),
    }
}

/// Checks that a download with this metadata left every file that is needed.
pub fn check_files(meta: TrackMetadata, names: &[String]) -> (r: Result<DownloadedTrack, String>)
    ensures
        download_view(r) == files_verdict(meta@, views(names@)),
{
    let exts = text::list(vec!["mp3", "m4a", "opus", "ogg", "wav"]);
    assert(views(exts@) =~= audio_extensions());
    let audio = match find_first(names, &exts) {
        None => {
            return Err(
                "Download incomplete: missing audio file (no mp3/m4a in work dir)".to_owned(),
            );
        },
        Some(a) => a,
    };
    let exts = text::list(vec!["jpg", "jpeg", "png", "webp"]);
    assert(views(exts@) =~= image_extensions());
    let cover = find_first(names, &exts);
    if cover.is_none() && meta.thumbnail.is_some() {
        return Err(
            "Download incomplete: missing thumbnail (metadata lists one, no image file was saved)".to_owned(),
        );
    }
    Ok(DownloadedTrack { meta, audio, cover })
}

/// Checks a finished download whose metadata file has been parsed.
pub fn check_download(value: &Value, names: &[String]) -> (r: Result<DownloadedTrack, String>)
    ensures
        download_view(r) == value_verdict(contents(*value), views(names@)),
{
    match resolve_metadata(value) {
        Err(e) => {
            let mut s = "parsing track.info.json: ".to_owned();
            s.append(e.as_str());
            Err(s)
        },
        Ok(meta) => check_files(meta, names),
    }
}

/// Checks that a finished download left everything that is needed, and resolves
/// its metadata.
pub fn read_downloaded(info: Option<&str>, names: &[String]) -> (r: Result<
    DownloadedTrack,
    String,
>)
    ensures
        download_view(r) == download_verdict(
            match info {
                Some(s) => Some(s@),
                None => None,
            },
            views(names@),
        ),
{
    match info {
        None => Err("Download incomplete: missing metadata file track.info.json".to_owned()),
        Some(content) => match json::parse(content) {
            Err(e) => {
                let mut s = "parsing track.info.json: ".to_owned();
                s.append(e.as_str());
                Err(s)
            },
            Ok(value) => check_download(&value, names),
        },
    }
}

} // verus!
