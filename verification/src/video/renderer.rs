//! One track's render: how long it plays and what it is rendered with.
use vstd::prelude::*;
use vstd::string::*;

use crate::config::settings::{number_or, resolution_part, Settings};
use crate::downloader::metadata::DownloadedTrack;
use crate::models::track::{capped_us, to_us, TrackMetadata};
use crate::utils::filesystem::{safe_name, sanitize_filename};
use crate::utils::name_laws::{is_safe_form, law_safe_names_keep_what_they_can};
use crate::video::encoder::ResolvedEncoder;
use crate::video::ffmpeg::RenderJob;

verus! {

/// How long a track's video is: what was asked for, but not longer than the
/// track (where its length is known) nor than the limit (where there is one),
/// and a second at least.
pub open spec fn render_length(duration: u64, play_us: u64, max_us: u64) -> u64 {
    let a = if duration > 0 && capped_us(duration) < play_us {
        capped_us(duration)
    } else {
        play_us
    };
    let b = if max_us > 0 && max_us < a {
        max_us
    } else {
        a
    };
    if b < 1_000_000 {
        1_000_000
    } else {
        b
    }
}

/// How long a track's video is, in microseconds.
pub fn effective_seconds(meta: &TrackMetadata, play_us: u64, max_us: u64) -> (r: u64)
    ensures
        r == render_length(meta.duration, play_us, max_us),
        is_longest_allowed(meta.duration, play_us, max_us, r),
{
    proof {
        law_a_render_is_as_long_as_allowed(meta.duration, play_us, max_us);
    }
    let mut d: u64 = play_us;
    if meta.duration > 0 {
        let all = to_us(meta.duration);
        if all < d {
            d = all;
        }
    }
    if max_us > 0 && max_us < d {
        d = max_us;
    }
    if d < 1_000_000 {
        1_000_000
    } else {
        d
    }
}

/// A render never outlasts the song or the limit, unless these are under a
/// second.
pub proof fn law_render_length_respects_song_and_limit(duration: u64, play_us: u64, max_us: u64)
    ensures
        render_length(duration, play_us, max_us) >= 1_000_000,
        duration > 0 ==> render_length(duration, play_us, max_us) <= duration * 1_000_000,
        max_us >= 1_000_000 ==> render_length(duration, play_us, max_us) <= max_us,
        play_us >= 1_000_000 ==> render_length(duration, play_us, max_us) <= play_us,
{
}

/// Whether a length is the longest that the wish, the song and the limit allow, and a
/// second at least: whatever else would do is no longer.
pub open spec fn is_longest_allowed(duration: u64, play_us: u64, max_us: u64, length: u64) -> bool {
    &&& length >= 1_000_000
    &&& forall|other: u64|
        other > 1_000_000 ==> (#[trigger] allows(duration, play_us, max_us, other) <==> other
            <= length)
}

/// Whether a video of this length outlasts neither the wish nor the song (where its
/// length is known) nor the limit (where there is one).
pub open spec fn allows(duration: u64, play_us: u64, max_us: u64, length: u64) -> bool {
    &&& length <= play_us
    &&& duration > 0 ==> length <= duration * 1_000_000
    &&& max_us > 0 ==> length <= max_us
}

/// A track is rendered for as long as the wish, the song and the limit allow.
pub proof fn law_a_render_is_as_long_as_allowed(duration: u64, play_us: u64, max_us: u64)
    ensures
        is_longest_allowed(
            duration,
            play_us,
            max_us,
            render_length(duration, play_us, max_us),
        ),
{
}

/// A track's own video carries its fades, where these are on, and ends with the music; a
/// clip for a combined video is plain and of exact length. Either shows the cover, the
/// title and the artist of its track, and plays its audio.
pub proof fn law_a_render_is_of_its_track(
    job: RenderJob,
    settings: Settings,
    downloaded: DownloadedTrack,
    cover: Seq<char>,
    audio: Seq<char>,
    play_us: u64,
    output: Seq<char>,
    intermediate: bool,
    encoder: ResolvedEncoder,
)
    requires
        is_render_of(
            job,
            settings,
            downloaded,
            cover,
            audio,
            play_us,
            output,
            intermediate,
            encoder,
        ),
    ensures
        job.cover@ == cover && job.audio@ == audio && job.output@ == output,
        job.title@ == downloaded.meta.title@ && job.uploader@ == downloaded.meta.uploader@,
        intermediate ==> !job.fade && job.pad_audio,
        !intermediate ==> !job.pad_audio && (job.fade <==> settings.effect_fade),
        job.zoom <==> settings.effect_zoom,
        job.encoder == encoder,
        is_longest_allowed(
            downloaded.meta.duration,
            play_us,
            settings.max_track_us,
            job.duration,
        ),
{
    law_a_render_is_as_long_as_allowed(downloaded.meta.duration, play_us, settings.max_track_us);
}

/// Whether `job` is the render of a downloaded track to `output`. A clip of a
/// combined video (`intermediate`) has no fades of its own, the combine stage
/// supplies transitions, and its audio is padded to the exact length.
pub open spec fn is_render_of(
    job: RenderJob,
    settings: Settings,
    downloaded: DownloadedTrack,
    cover: Seq<char>,
    audio: Seq<char>,
    play_us: u64,
    output: Seq<char>,
    intermediate: bool,
    encoder: ResolvedEncoder,
) -> bool {
    &&& job.cover@ == cover
    &&& job.audio@ == audio
    &&& job.output@ == output
    &&& job.title@ == downloaded.meta.title@
    &&& job.uploader@ == downloaded.meta.uploader@
    &&& job.width == number_or(resolution_part(settings.default_resolution@, 0), 1920)
    &&& job.height == number_or(resolution_part(settings.default_resolution@, 1), 1080)
    &&& job.audio_bitrate_k == number_or(Some(settings.default_quality@), 320)
    &&& job.duration == render_length(downloaded.meta.duration, play_us, settings.max_track_us)
    &&& job.fade == (!intermediate && settings.effect_fade)
    &&& job.zoom == settings.effect_zoom
    &&& job.encoder == encoder
    &&& job.pad_audio == intermediate
}

/// The render of a downloaded track to `output`: `cover` and `audio` are the
/// files to use.
pub fn render_track_to(
    settings: &Settings,
    downloaded: &DownloadedTrack,
    cover: &str,
    audio: &str,
    play_us: u64,
    output: &str,
    intermediate: bool,
    encoder: ResolvedEncoder,
) -> (r: RenderJob)
    ensures
        is_render_of(
            r,
            *settings,
            *downloaded,
            cover@,
            audio@,
            play_us,
            output@,
            intermediate,
            encoder,
        ),
{
    let (width, height) = settings.resolution();
    RenderJob {
        cover: cover.to_owned(),
        audio: audio.to_owned(),
        output: output.to_owned(),
        title: downloaded.meta.title.clone(),
        uploader: downloaded.meta.uploader.clone(),
        width,
        height,
        audio_bitrate_k: settings.bitrate_k(),
        duration: effective_seconds(&downloaded.meta, play_us, settings.max_track_us),
        fade: if intermediate {
            false
        } else {
            settings.effect_fade
        },
        zoom: settings.effect_zoom,
        encoder,
        pad_audio: intermediate,
    }
}

/// The file name (without extension) of a track's own video.
pub open spec fn own_name(uploader: Seq<char>, title: Seq<char>) -> Seq<char> {
    safe_name(uploader + " - "@ + title)
}

/// A track's own video is called after its artist and then its title, as far as a file
/// can carry that.
pub proof fn law_a_video_is_called_after_artist_and_title(uploader: Seq<char>, title: Seq<char>)
    ensures
        is_safe_form(uploader + seq![' ', '-', ' '] + title, own_name(uploader, title)),
{
    assert(" - "@ =~= seq![' ', '-', ' ']) by {
        reveal_strlit(" - ");
    }
    law_safe_names_keep_what_they_can(uploader + " - "@ + title);
}

/// The file name (without extension) of a track's own video.
pub fn video_stem(meta: &TrackMetadata) -> (r: String)
    ensures
        r@ == own_name(meta.uploader@, meta.title@),
{
    let mut s = meta.uploader.clone();
    s.append(" - ");
    s.append(meta.title.as_str());
    sanitize_filename(s.as_str())
}

} // verus!
