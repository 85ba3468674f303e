//! One track's video: the filtergraph and the command line that render it.
use vstd::prelude::*;
use vstd::string::*;

use crate::platform::Platform;
use crate::text;
use crate::text::{decimal, fixed_point, joined, nearest_even, seconds3, trimmed, views};
use crate::utils::filesystem::answered;
use crate::video::encoder::{QualityTier, ResolvedEncoder};
use crate::video::render_laws::{
    is_on_one_line, law_a_render_does_what_is_asked, law_a_video_looks_as_asked,
    law_an_overlay_is_one_line, looks_right, renders,
};

verus! {

/// One video render request.
#[derive(Debug)]
pub struct RenderJob {
    pub cover: String,
    pub audio: String,
    pub output: String,
    pub title: String,
    pub uploader: String,
    pub width: u32,
    pub height: u32,
    pub audio_bitrate_k: u32,
    /// Microseconds of the song that the video plays.
    pub duration: u64,
    pub fade: bool,
    pub zoom: bool,
    /// Which encoder produces the video; the filters always run on the CPU.
    pub encoder: ResolvedEncoder,
    /// Pad the audio with silence to exactly the duration, so that the clip has
    /// a fixed length. For clips of a combined video.
    pub pad_audio: bool,
}

/// Frames per second of a rendered video.
pub const FPS: u64 = 30;

/// The fonts to look for on a platform, best first.
pub open spec fn font_paths(platform: Platform) -> Seq<Seq<char>> {
    match platform {
        Platform::Windows => seq![
            "C:\\Windows\\Fonts\\segoeui.ttf"@,
            "C:\\Windows\\Fonts\\arial.ttf"@,
            "C:\\Windows\\Fonts\\calibri.ttf"@,
        ],
        Platform::MacOs => seq![
            "/System/Library/Fonts/Supplemental/Arial.ttf"@,
            "/System/Library/Fonts/Helvetica.ttc"@,
            "/Library/Fonts/Arial.ttf"@,
        ],
        Platform::Other => seq![
            "/usr/share/fonts/truetype/dejavu/DejaVuSans.ttf"@,
            "/usr/share/fonts/TTF/DejaVuSans.ttf"@,
            "/usr/share/fonts/truetype/liberation/LiberationSans-Regular.ttf"@,
            "/usr/share/fonts/noto/NotoSans-Regular.ttf"@,
        ],
    }
}

/// The fonts to look for on a platform, best first.
pub fn font_candidates(platform: Platform) -> (r: Vec<String>)
    ensures
        views(r@) == font_paths(platform),
{
    let r = match platform {
        Platform::Windows => text::list(
            vec![
                "C:\\Windows\\Fonts\\segoeui.ttf",
                "C:\\Windows\\Fonts\\arial.ttf",
                "C:\\Windows\\Fonts\\calibri.ttf",
            ],
        ),
        Platform::MacOs => text::list(
            vec![
                "/System/Library/Fonts/Supplemental/Arial.ttf",
                "/System/Library/Fonts/Helvetica.ttc",
                "/Library/Fonts/Arial.ttf",
            ],
        ),
        Platform::Other => text::list(
            vec![
                "/usr/share/fonts/truetype/dejavu/DejaVuSans.ttf",
                "/usr/share/fonts/TTF/DejaVuSans.ttf",
                "/usr/share/fonts/truetype/liberation/LiberationSans-Regular.ttf",
                "/usr/share/fonts/noto/NotoSans-Regular.ttf",
            ],
        ),
    };
    assert(views(r@) =~= font_paths(platform));
    r
}

/// Whether `r` is the first font of a platform that is reported to be there.
pub open spec fn is_first_font<F: Fn(&str) -> bool>(
    platform: Platform,
    present: F,
    r: Option<String>,
) -> bool {
    match r {
        Some(path) => exists|i: int|
            #![trigger font_paths(platform)[i]]
            {
                &&& 0 <= i < font_paths(platform).len()
                &&& path@ == font_paths(platform)[i]
                &&& answered(present, path@, true)
                &&& forall|k: int|
                    0 <= k < i ==> answered(present, #[trigger] font_paths(platform)[k], false)
            },
        None => forall|k: int|
            0 <= k < font_paths(platform).len() ==> answered(
                present,
                #[trigger] font_paths(platform)[k],
                false,
            ),
    }
}

/// The first font of a platform that `present` reports to be there.
pub fn find_font<F: Fn(&str) -> bool>(platform: Platform, present: F) -> (r: Option<String>)
    requires
        forall|s: &str| #[trigger] call_requires(present, (s,)),
    ensures
        is_first_font(platform, present, r),
{
    let fonts = font_candidates(platform);
    let ghost all = font_paths(platform);
    for i in 0..fonts.len()
        invariant
            forall|s: &str| #[trigger] call_requires(present, (s,)),
            all == views(fonts@),
            all == font_paths(platform),
            forall|k: int| 0 <= k < i ==> answered(present, #[trigger] all[k], false),
    {
        let there = present(fonts[i].as_str());
        assert(answered(present, all[i as int], there));
        if there {
            let path = fonts[i].clone();
            assert(path@ == font_paths(platform)[i as int]);
            return Some(path);
        }
    }
    None
}

// ---------------------------------------------------------------------------
// Filtergraph
// ---------------------------------------------------------------------------

/// A video lasts a second at least.
pub open spec fn clip_length(duration: u64) -> u64 {
    if duration < 1_000_000 {
        1_000_000
    } else {
        duration
    }
}

/// Where the fade-out starts: 1.2 s before the end, and not before the start.
pub open spec fn fade_out_start(duration: u64) -> nat {
    let d = clip_length(duration);
    if d < 1_200_000 {
        0
    } else {
        (d - 1_200_000) as nat
    }
}

/// Microseconds as seconds with two decimals.
pub open spec fn seconds2(us: nat) -> Seq<char> {
    fixed_point(nearest_even(us, 10_000), 100, 2)
}

/// The files that ffmpeg reads from the directory it runs in. The filtergraph
/// names them relatively: an absolute path would need its drive colon escaped
/// twice.
pub const FONT_FILE: &'static str = "font.ttf";

pub const TITLE_FILE: &'static str = "title.txt";

pub const ARTIST_FILE: &'static str = "artist.txt";

/// The number of frames that cover a length.
pub open spec fn frames_for(us: nat) -> nat {
    (us * 30 + 999_999) / 1_000_000
}

/// The drawtext option that names the font file, where there is one.
pub open spec fn font_option(has_font: bool) -> Seq<char> {
    if has_font {
        "fontfile="@ + FONT_FILE@ + ":"@
    } else {
        ""@
    }
}

/// The filters that bring the cover to the video's size.
pub open spec fn sizing_filter(job: RenderJob) -> Seq<char> {
    let w = decimal(job.width as nat);
    let h = decimal(job.height as nat);
    "scale="@ + w + ":"@ + h + ":force_original_aspect_ratio=decrease,pad="@ + w + ":"@ + h
        + ":(ow-iw)/2:(oh-ih)/2:color=0x101014"@
}

/// The filters that move the cover, or keep it still at the frame rate.
pub open spec fn motion_filter(job: RenderJob) -> Seq<char> {
    if job.zoom {
        ",zoompan=z='min(zoom+0.0004,1.25)':x='iw/2-(iw/zoom/2)':y='ih/2-(ih/zoom/2)':d="@
            + decimal(frames_for(clip_length(job.duration) as nat)) + ":s="@ + decimal(
            job.width as nat,
        ) + "x"@ + decimal(job.height as nat) + ":fps=30"@
    } else {
        ",fps=30"@
    }
}

/// The filters that write title and artist over the bottom of the video. They
/// read files by relative names, so no path is ever part of the graph.
pub open spec fn caption_filter(has_font: bool) -> Seq<char> {
    ",drawtext="@ + font_option(has_font) + "textfile="@ + TITLE_FILE@
        + ":fontsize=h/16:fontcolor=white:borderw=3:bordercolor=black@0.65:x=(w-text_w)/2:y=h-h/4.8,drawtext="@
        + font_option(has_font) + "textfile="@ + ARTIST_FILE@
        + ":fontsize=h/26:fontcolor=0xdddddd:borderw=2:bordercolor=black@0.65:x=(w-text_w)/2:y=h-h/4.8+h/11"@
}

/// The filters that fade the video in and out, where that is wanted.
pub open spec fn fade_filter(job: RenderJob) -> Seq<char> {
    if job.fade {
        ",fade=t=in:st=0:d=1,fade=t=out:st="@ + seconds2(fade_out_start(job.duration)) + ":d=1.2"@
    } else {
        ""@
    }
}

/// The whole video filtergraph.
pub open spec fn video_filter(job: RenderJob, has_font: bool) -> Seq<char> {
    sizing_filter(job) + motion_filter(job) + caption_filter(has_font) + fade_filter(job)
        + ",format=yuv420p"@
}

fn fade_start(duration: u64) -> (r: u64)
    ensures
        r == fade_out_start(duration),
{
    let d: u64 = if duration < 1_000_000 { 1_000_000 } else { duration };
    if d < 1_200_000 {
        0
    } else {
        d - 1_200_000
    }
}

fn sizing(job: &RenderJob) -> (r: String)
    ensures
        r@ == sizing_filter(*job),
{
    let w = text::dec(job.width as u64);
    let h = text::dec(job.height as u64);
    let mut s = "scale=".to_owned();
    s.append(w.as_str());
    s.append(":");
    s.append(h.as_str());
    s.append(":force_original_aspect_ratio=decrease,pad=");
    s.append(w.as_str());
    s.append(":");
    s.append(h.as_str());
    s.append(":(ow-iw)/2:(oh-ih)/2:color=0x101014");
    s
}

fn motion(job: &RenderJob) -> (r: String)
    ensures
        r@ == motion_filter(*job),
{
    if job.zoom {
        let d: u64 = if job.duration < 1_000_000 { 1_000_000 } else { job.duration };
        let frames: u128 = (d as u128 * 30 + 999_999) / 1_000_000;
        assert(frames <= u64::MAX);
        let mut s =
            ",zoompan=z='min(zoom+0.0004,1.25)':x='iw/2-(iw/zoom/2)':y='ih/2-(ih/zoom/2)':d=".to_owned();
        s.append(text::dec(frames as u64).as_str());
        s.append(":s=");
        s.append(text::dec(job.width as u64).as_str());
        s.append("x");
        s.append(text::dec(job.height as u64).as_str());
        s.append(":fps=30");
        s
    } else {
        ",fps=30".to_owned()
    }
}

fn captions(has_font: bool) -> (r: String)
    ensures
        r@ == caption_filter(has_font),
{
    let mut font = String::new();
    if has_font {
        font.append("fontfile=");
        font.append(FONT_FILE);
        font.append(":");
    }
    proof {
        reveal_strlit("");
        reveal_strlit("fontfile=");
        assert(font@ =~= font_option(has_font));
    }
    let mut s = ",drawtext=".to_owned();
    s.append(font.as_str());
    s.append("textfile=");
    s.append(TITLE_FILE);
    s.append(
        ":fontsize=h/16:fontcolor=white:borderw=3:bordercolor=black@0.65:x=(w-text_w)/2:y=h-h/4.8,drawtext=",
    );
    s.append(font.as_str());
    s.append("textfile=");
    s.append(ARTIST_FILE);
    s.append(
        ":fontsize=h/26:fontcolor=0xdddddd:borderw=2:bordercolor=black@0.65:x=(w-text_w)/2:y=h-h/4.8+h/11",
    );
    s
}

fn fades(job: &RenderJob) -> (r: String)
    ensures
        r@ == fade_filter(*job),
{
    if job.fade {
        let mut s = ",fade=t=in:st=0:d=1,fade=t=out:st=".to_owned();
        s.append(text::seconds_2(fade_start(job.duration)).as_str());
        s.append(":d=1.2");
        s
    } else {
        "".to_owned()
    }
}

/// Builds the video filtergraph.
pub fn build_filter(job: &RenderJob, has_font: bool) -> (r: String)
    ensures
        r@ == video_filter(*job, has_font),
        looks_right(r@, *job, has_font),
{
    proof {
        law_a_video_looks_as_asked(*job, has_font);
    }
    let mut filter = sizing(job);
    filter.append(motion(job).as_str());
    filter.append(captions(has_font).as_str());
    filter.append(fades(job).as_str());
    filter.append(",format=yuv420p");
    filter
}

// ---------------------------------------------------------------------------
// Command line
// ---------------------------------------------------------------------------

/// The audio filters: fades where they are wanted, silence up to the full length
/// for a clip of fixed length.
pub open spec fn audio_filters(job: RenderJob) -> Seq<Seq<char>> {
    let fade = if job.fade {
        seq![
            "afade=t=in:st=0:d=0.8,afade=t=out:st="@ + seconds2(fade_out_start(job.duration))
                + ":d=1.2"@,
        ]
    } else {
        Seq::empty()
    };
    if job.pad_audio {
        fade.push("apad"@)
    } else {
        fade
    }
}

fn audio_chain(job: &RenderJob) -> (r: Vec<String>)
    ensures
        views(r@) == audio_filters(*job),
{
    let mut filters: Vec<String> = Vec::new();
    if job.fade {
        let mut s = "afade=t=in:st=0:d=0.8,afade=t=out:st=".to_owned();
        s.append(text::seconds_2(fade_start(job.duration)).as_str());
        s.append(":d=1.2");
        text::put(&mut filters, s.as_str());
    }
    if job.pad_audio {
        text::put(&mut filters, "apad");
    }
    assert(views(filters@) =~= audio_filters(*job));
    filters
}

/// The arguments that open the inputs of a render and filter its video.
pub open spec fn open_args(job: RenderJob, has_font: bool) -> Seq<Seq<char>> {
    (if job.zoom {
        seq!["-y"@]
    } else {
        seq!["-y"@, "-loop"@, "1"@]
    }) + seq!["-i"@, job.cover@, "-i"@, job.audio@, "-vf"@, video_filter(job, has_font)]
}

/// The arguments that filter the audio of a render and set its length.
pub open spec fn audio_args(job: RenderJob) -> Seq<Seq<char>> {
    (if audio_filters(job).len() > 0 {
        seq!["-af"@, joined(audio_filters(job), ","@)]
    } else {
        Seq::empty()
    }) + seq!["-t"@, seconds3(clip_length(job.duration) as nat)]
}

/// The arguments that encode the audio of a render and write its file.
pub open spec fn output_args(job: RenderJob) -> Seq<Seq<char>> {
    seq!["-c:a"@, "aac"@, "-b:a"@, decimal(job.audio_bitrate_k as nat) + "k"@] + (
    if job.pad_audio {
        Seq::empty()
    } else {
        seq!["-shortest"@]
    }) + seq![
        "-movflags"@,
        "+faststart"@,
        "-metadata"@,
        "title="@ + job.title@,
        "-metadata"@,
        "artist="@ + job.uploader@,
        job.output@,
    ]
}

/// The ffmpeg arguments that render a track.
pub open spec fn render_args(job: RenderJob, has_font: bool) -> Seq<Seq<char>> {
    open_args(job, has_font) + audio_args(job) + job.encoder.spec_video_args(QualityTier::Clip)
        + output_args(job)
}

fn build_open_args(job: &RenderJob, has_font: bool) -> (r: Vec<String>)
    ensures
        views(r@) == open_args(*job, has_font),
{
    let mut args: Vec<String> = Vec::new();
    text::put(&mut args, "-y");
    if !job.zoom {
        text::put(&mut args, "-loop");
        text::put(&mut args, "1");
    }
    text::put(&mut args, "-i");
    text::put(&mut args, job.cover.as_str());
    text::put(&mut args, "-i");
    text::put(&mut args, job.audio.as_str());
    text::put(&mut args, "-vf");
    text::put(&mut args, build_filter(job, has_font).as_str());
    assert(views(args@) =~= open_args(*job, has_font));
    args
}

fn build_audio_args(job: &RenderJob) -> (r: Vec<String>)
    ensures
        views(r@) == audio_args(*job),
{
    let mut args: Vec<String> = Vec::new();
    let filters = audio_chain(job);
    assert(views(filters@).len() == filters@.len());
    if filters.len() > 0 {
        text::put(&mut args, "-af");
        text::put(&mut args, text::join(filters.as_slice(), ",").as_str());
    }
    text::put(&mut args, "-t");
    let d: u64 = if job.duration < 1_000_000 { 1_000_000 } else { job.duration };
    text::put(&mut args, text::seconds_3(d).as_str());
    assert(views(args@) =~= audio_args(*job));
    args
}

fn build_output_args(job: &RenderJob) -> (r: Vec<String>)
    ensures
        views(r@) == output_args(*job),
{
    let mut args: Vec<String> = Vec::new();
    let mut rate = text::dec(job.audio_bitrate_k as u64);
    rate.append("k");
    let mut title = "title=".to_owned();
    title.append(job.title.as_str());
    let mut artist = "artist=".to_owned();
    artist.append(job.uploader.as_str());
    text::put(&mut args, "-c:a");
    text::put(&mut args, "aac");
    text::put(&mut args, "-b:a");
    text::put(&mut args, rate.as_str());
    if !job.pad_audio {
        text::put(&mut args, "-shortest");
    }
    text::put(&mut args, "-movflags");
    text::put(&mut args, "+faststart");
    text::put(&mut args, "-metadata");
    text::put(&mut args, title.as_str());
    text::put(&mut args, "-metadata");
    text::put(&mut args, artist.as_str());
    text::put(&mut args, job.output.as_str());
    assert(views(args@) =~= output_args(*job));
    args
}

/// Builds the complete ffmpeg argument list.
pub fn build_render_args(job: &RenderJob, has_font: bool) -> (r: Vec<String>)
    ensures
        views(r@) == render_args(*job, has_font),
        renders(views(r@), *job, has_font),
{
    proof {
        law_a_render_does_what_is_asked(*job, has_font);
    }
    let mut args = build_open_args(job, has_font);
    text::put_all(&mut args, build_audio_args(job).as_slice());
    text::put_all(&mut args, job.encoder.video_args(QualityTier::Clip).as_slice());
    text::put_all(&mut args, build_output_args(job).as_slice());
    args
}

/// A text with its line ends made spaces.
pub open spec fn on_one_line(s: Seq<char>) -> Seq<char> {
    Seq::new(
        s.len(),
        |i: int|
            if s[i] == '\r' || s[i] == '\n' {
                ' '
            } else {
                s[i]
            },
    )
}

/// The text of an overlay: on one line, trimmed. (drawtext renders its file
/// verbatim.)
pub fn overlay_text(s: &str) -> (r: String)
    ensures
        r@ == trimmed(on_one_line(s@)),
        is_on_one_line(r@),
{
    proof {
        law_an_overlay_is_one_line(s@);
    }
    let chars = text::to_chars(s);
    let mut out: Vec<char> = Vec::new();
    for i in 0..chars.len()
        invariant
            out@ =~= on_one_line(chars@).take(i as int),
    {
        if chars[i] == '\r' || chars[i] == '\n' {
            out.push(' ');
        } else {
            out.push(chars[i]);
        }
    }
    assert(out@ =~= on_one_line(s@));
    text::from_chars(text::trim_chars(out.as_slice()).as_slice())
}

/// The ffmpeg arguments that make a plain cover for a track without artwork.
pub open spec fn cover_request(out: Seq<char>, width: nat, height: nat) -> Seq<Seq<char>> {
    seq![
        "-y"@,
        "-f"@,
        "lavfi"@,
        "-i"@,
        "gradients=s="@ + decimal(width) + "x"@ + decimal(height)
            + ":c0=0x1d1d33:c1=0x3a2c4f:n=2"@,
        "-frames:v"@,
        "1"@,
        out,
    ]
}

/// The ffmpeg arguments that make a plain cover for a track without artwork.
pub fn placeholder_cover_args(out: &str, width: u32, height: u32) -> (r: Vec<String>)
    ensures
        views(r@) == cover_request(out@, width as nat, height as nat),
{
    let mut source = "gradients=s=".to_owned();
    source.append(text::dec(width as u64).as_str());
    source.append("x");
    source.append(text::dec(height as u64).as_str());
    source.append(":c0=0x1d1d33:c1=0x3a2c4f:n=2");
    let r = text::list(vec!["-y", "-f", "lavfi", "-i", source.as_str(), "-frames:v", "1", out]);
    assert(views(r@) =~= cover_request(out@, width as nat, height as nat));
    r
}

} // verus!
