//! What a render command asks of ffmpeg, read back from its arguments.
use vstd::prelude::*;

use crate::platform::Platform;
use crate::reading::{gives, lemma_gives, lemma_states, lists, states};
use crate::text::{decimal, ends, joined, lemma_trimmed_part, seconds3, starts, trimmed};
use crate::utils::filesystem::answered;
use crate::video::encoder::{codec_args, QualityTier};
use crate::video::ffmpeg::{
    audio_args, audio_filters, caption_filter, clip_length, cover_request, fade_filter,
    fade_out_start, font_option, font_paths, frames_for, is_first_font, motion_filter, on_one_line,
    open_args, output_args, render_args, seconds2, sizing_filter, video_filter, RenderJob,
};

verus! {

/// The length of a rendered video: what was asked for, and a second at least.
pub open spec fn asked_length(job: RenderJob) -> int {
    if job.duration < 1_000_000 {
        1_000_000
    } else {
        job.duration as int
    }
}

/// Whether a fade that lasts 1.2 s and starts here ends where the video does. (A video
/// that is shorter fades from its start.)
pub open spec fn fades_to_the_end(start: nat, length: int) -> bool {
    start + 1_200_000 == length || (start == 0 && length < 1_200_000)
}

/// What the audio filters of a render do: with fades, the music comes in at the start
/// and goes out at the end, and for a clip of fixed length silence fills up the rest.
pub open spec fn sounds_right(filters: Seq<char>, job: RenderJob) -> bool {
    &&& job.fade ==> exists|start: nat|
        {
            &&& #[trigger] fades_to_the_end(start, asked_length(job))
            &&& starts(
                filters,
                "afade=t=in:st=0:d=0.8,afade=t=out:st="@ + seconds2(start) + ":d=1.2"@,
            )
            &&& states(filters, "afade=t=out:st="@, seconds2(start))
        }
    &&& job.pad_audio ==> ends(filters, "apad"@)
    &&& !job.fade && job.pad_audio ==> filters == "apad"@
    &&& job.fade && !job.pad_audio ==> ends(filters, ":d=1.2"@)
}

/// What the video filter of a render does: the cover fills the size that was asked for,
/// stands still or is moved for as many frames as the video has, carries the title and
/// the artist, and with fades comes in at the start and goes out at the end, together
/// with the music.
pub open spec fn looks_right(filter: Seq<char>, job: RenderJob, has_font: bool) -> bool {
    let w = decimal(job.width as nat);
    let h = decimal(job.height as nat);
    &&& starts(filter, "scale="@ + w + ":"@ + h + ":force_original_aspect_ratio=decrease,pad="@ + w
        + ":"@ + h + ":(ow-iw)/2:(oh-ih)/2:color=0x101014,"@)
    &&& states(filter, "textfile="@, "title.txt"@)
    &&& states(filter, "textfile="@, "artist.txt"@)
    &&& has_font ==> states(filter, "fontfile="@, "font.ttf"@)
    &&& job.fade ==> exists|start: nat|
        {
            &&& #[trigger] fades_to_the_end(start, asked_length(job))
            &&& states(filter, ",fade=t=in:st=0:d="@, "1"@)
            &&& states(filter, ",fade=t=out:st="@, seconds2(start))
            &&& ends(filter, ",fade=t=out:st="@ + seconds2(start) + ":d=1.2,format=yuv420p"@)
        }
    &&& job.zoom ==> exists|frames: nat|
        {
            &&& frames * 1_000_000 >= asked_length(job) * 30
            &&& (frames - 1) * 1_000_000 < asked_length(job) * 30
            &&& #[trigger] states(filter, "':d="@, decimal(frames))
            &&& states(filter, ":s="@ + w + "x"@ + h, ""@)
        }
    &&& !job.fade ==> ends(filter, "+h/11,format=yuv420p"@)
    &&& states(filter, "fps="@, "30"@)
    &&& ends(filter, ",format=yuv420p"@)
}

/// What a render command does.
pub open spec fn renders(args: Seq<Seq<char>>, job: RenderJob, has_font: bool) -> bool {
    // The cover is the first input and the music the second.
    &&& exists|i: int|
        {
            &&& 0 <= i && i + 8 < args.len()
            &&& #[trigger] args[i] == "-i"@ && args[i + 1] == job.cover@
            &&& args[i + 2] == "-i"@ && args[i + 3] == job.audio@
            &&& args[i + 4] == "-vf"@ && looks_right(args[i + 5], job, has_font)
            &&& if job.fade || job.pad_audio {
                args[i + 6] == "-af"@ && sounds_right(args[i + 7], job) && args[i + 8] == "-t"@
            } else {
                args[i + 6] == "-t"@
            }
        }
    &&& job.zoom || gives(args, "-loop"@, "1"@)
    &&& gives(args, "-t"@, seconds3(asked_length(job) as nat))
    &&& gives(args, "-c:a"@, "aac"@)
    &&& gives(args, "-b:a"@, decimal(job.audio_bitrate_k as nat) + "k"@)
    &&& gives(args, "-c:v"@, job.encoder.kind.spec_codec())
    &&& gives(args, "-pix_fmt"@, "yuv420p"@)
    &&& !job.pad_audio ==> lists(args, "-shortest"@)
    &&& gives(args, "-metadata"@, "title="@ + job.title@)
    &&& gives(args, "-metadata"@, "artist="@ + job.uploader@)
    &&& args.len() > 0 && args[0] == "-y"@ && args.last() == job.output@
}

proof fn lemma_faded_sound(x: Seq<char>, rest: Seq<char>)
    ensures
        ({
            let fade = "afade=t=in:st=0:d=0.8,afade=t=out:st="@ + x + ":d=1.2"@;
            &&& starts(fade + rest, fade)
            &&& states(fade + rest, "afade=t=out:st="@, x)
            &&& rest.len() == 0 ==> ends(fade + rest, ":d=1.2"@)
        }),
{
    let front = "afade=t=in:st=0:d=0.8,"@;
    let key = "afade=t=out:st="@;
    let last = ":d=1.2"@;
    assert("afade=t=in:st=0:d=0.8,afade=t=out:st="@ =~= front + key) by {
        reveal_strlit("afade=t=in:st=0:d=0.8,afade=t=out:st=");
        reveal_strlit("afade=t=in:st=0:d=0.8,");
        reveal_strlit("afade=t=out:st=");
    }
    assert(last.len() > 0 && last[0] == ':') by {
        reveal_strlit(":d=1.2");
    }
    let fade = (front + key) + x + last;
    let s = fade + rest;
    assert(s.subrange(0, fade.len() as int) =~= fade);
    assert(s =~= front + key + x + (last + rest));
    assert((last + rest)[0] == ':');
    lemma_states(s, front, key, x, last + rest);
    if rest.len() == 0 {
        assert(s =~= (front + key + x) + last);
        assert(s.subrange(s.len() - last.len(), s.len() as int) =~= last);
    }
}

proof fn lemma_sounds_right(job: RenderJob)
    requires
        job.fade || job.pad_audio,
    ensures
        sounds_right(joined(audio_filters(job), ","@), job),
{
    let list = audio_filters(job);
    let s = joined(list, ","@);
    let start = fade_out_start(job.duration);
    let fade = "afade=t=in:st=0:d=0.8,afade=t=out:st="@ + seconds2(start) + ":d=1.2"@;
    reveal_with_fuel(joined, 3);
    assert(fades_to_the_end(start, asked_length(job)));
    if job.fade {
        let rest = if job.pad_audio {
            ","@ + "apad"@
        } else {
            Seq::empty()
        };
        if job.pad_audio {
            assert(list =~= seq![fade, "apad"@]);
            assert(list.drop_last() =~= seq![fade]);
        } else {
            assert(list =~= seq![fade]);
        }
        assert(s =~= fade + rest);
        lemma_faded_sound(seconds2(start), rest);
        if job.pad_audio {
            assert(s =~= (fade + ","@) + "apad"@);
            lemma_first_and_last(fade, ","@, "apad"@);
        }
    } else {
        assert(list =~= seq!["apad"@]);
        assert(s =~= "apad"@);
        assert(s.subrange(0, s.len() as int) =~= "apad"@);
    }
}

proof fn lemma_fade_looks_right(front: Seq<char>, job: RenderJob)
    requires
        job.fade,
    ensures
        ({
            let filter = front + fade_filter(job) + ",format=yuv420p"@;
            let start = fade_out_start(job.duration);
            &&& fades_to_the_end(start, asked_length(job))
            &&& states(filter, ",fade=t=in:st=0:d="@, "1"@)
            &&& states(filter, ",fade=t=out:st="@, seconds2(start))
            &&& ends(filter, ",fade=t=out:st="@ + seconds2(start) + ":d=1.2,format=yuv420p"@)
        }),
{
    let x = seconds2(fade_out_start(job.duration));
    let filter = front + fade_filter(job) + ",format=yuv420p"@;
    let a = ",fade=t=in:st=0:d="@;
    let b = ",fade=t=out:st="@;
    let c = ":d=1.2,format=yuv420p"@;
    assert(",fade=t=in:st=0:d=1,fade=t=out:st="@ =~= a + "1"@ + b) by {
        reveal_strlit(",fade=t=in:st=0:d=1,fade=t=out:st=");
        reveal_strlit(",fade=t=in:st=0:d=");
        reveal_strlit("1");
        reveal_strlit(",fade=t=out:st=");
    }
    assert(c =~= ":d=1.2"@ + ",format=yuv420p"@) by {
        reveal_strlit(":d=1.2,format=yuv420p");
        reveal_strlit(":d=1.2");
        reveal_strlit(",format=yuv420p");
    }
    assert(b.len() > 0 && b[0] == ',' && c.len() > 0 && c[0] == ':') by {
        reveal_strlit(",fade=t=out:st=");
        reveal_strlit(":d=1.2,format=yuv420p");
    }
    assert(filter =~= front + a + "1"@ + (b + x + c));
    assert((b + x + c)[0] == ',');
    lemma_states(filter, front, a, "1"@, b + x + c);
    assert(filter =~= (front + a + "1"@) + b + x + c);
    lemma_states(filter, front + a + "1"@, b, x, c);
    let tail = b + x + c;
    assert(filter =~= (front + a + "1"@) + tail);
    assert(filter.subrange(filter.len() - tail.len(), filter.len() as int) =~= tail);
}

proof fn lemma_zoom_looks_right(front: Seq<char>, job: RenderJob, rest: Seq<char>)
    requires
        job.zoom,
        rest.len() > 0,
        rest[0] == ',',
    ensures
        ({
            let filter = front + motion_filter(job) + rest;
            let w = decimal(job.width as nat);
            let h = decimal(job.height as nat);
            &&& states(filter, "':d="@, decimal(frames_for(clip_length(job.duration) as nat)))
            &&& states(filter, ":s="@ + w + "x"@ + h, ""@)
            &&& states(filter, "fps="@, "30"@)
        }),
{
    let w = decimal(job.width as nat);
    let h = decimal(job.height as nat);
    let n = decimal(frames_for(clip_length(job.duration) as nat));
    let filter = front + motion_filter(job) + rest;
    let open =
        ",zoompan=z='min(zoom+0.0004,1.25)':x='iw/2-(iw/zoom/2)':y='ih/2-(ih/zoom/2)':d="@;
    let head = ",zoompan=z='min(zoom+0.0004,1.25)':x='iw/2-(iw/zoom/2)':y='ih/2-(ih/zoom/2)"@;
    assert(open =~= head + "':d="@) by {
        reveal_strlit(
            ",zoompan=z='min(zoom+0.0004,1.25)':x='iw/2-(iw/zoom/2)':y='ih/2-(ih/zoom/2)':d=",
        );
        reveal_strlit(
            ",zoompan=z='min(zoom+0.0004,1.25)':x='iw/2-(iw/zoom/2)':y='ih/2-(ih/zoom/2)",
        );
        reveal_strlit("':d=");
    }
    assert(":fps=30"@ =~= ":"@ + "fps="@ + "30"@) by {
        reveal_strlit(":fps=30");
        reveal_strlit(":");
        reveal_strlit("fps=");
        reveal_strlit("30");
    }
    assert(":s="@.len() > 0 && ":s="@[0] == ':' && ":"@.len() == 1 && ":"@[0] == ':') by {
        reveal_strlit(":s=");
        reveal_strlit(":");
    }
    assert(""@.len() == 0) by {
        reveal_strlit("");
    }
    let size = ":s="@ + w + "x"@ + h;
    let tail = ":"@ + "fps="@ + "30"@ + rest;
    assert(filter =~= (front + head) + "':d="@ + n + (size + tail));
    assert((size + tail)[0] == ':');
    lemma_states(filter, front + head, "':d="@, n, size + tail);
    let before = front + head + "':d="@ + n;
    assert(filter =~= before + size + ""@ + tail);
    assert(tail[0] == ':');
    lemma_states(filter, before, size, ""@, tail);
    assert(filter =~= (before + size + ":"@) + "fps="@ + "30"@ + rest);
    lemma_states(filter, before + size + ":"@, "fps="@, "30"@, rest);
}

proof fn lemma_still_looks_right(front: Seq<char>, job: RenderJob, rest: Seq<char>)
    requires
        !job.zoom,
        rest.len() > 0,
        rest[0] == ',',
    ensures
        states(front + motion_filter(job) + rest, "fps="@, "30"@),
{
    let filter = front + motion_filter(job) + rest;
    assert(",fps=30"@ =~= ","@ + "fps="@ + "30"@) by {
        reveal_strlit(",fps=30");
        reveal_strlit(",");
        reveal_strlit("fps=");
        reveal_strlit("30");
    }
    assert(filter =~= (front + ","@) + "fps="@ + "30"@ + rest);
    lemma_states(filter, front + ","@, "fps="@, "30"@, rest);
}

proof fn lemma_captions_look_right(front: Seq<char>, has_font: bool, rest: Seq<char>)
    ensures
        ({
            let filter = front + caption_filter(has_font) + rest;
            &&& states(filter, "textfile="@, "title.txt"@)
            &&& states(filter, "textfile="@, "artist.txt"@)
            &&& has_font ==> states(filter, "fontfile="@, "font.ttf"@)
        }),
        caption_filter(has_font).len() > 0,
        caption_filter(has_font)[0] == ',',
{
    let font = font_option(has_font);
    let one =
        ":fontsize=h/16:fontcolor=white:borderw=3:bordercolor=black@0.65:x=(w-text_w)/2:y=h-h/4.8,drawtext="@;
    let two =
        ":fontsize=h/26:fontcolor=0xdddddd:borderw=2:bordercolor=black@0.65:x=(w-text_w)/2:y=h-h/4.8+h/11"@;
    assert(one.len() > 0 && one[0] == ':') by {
        reveal_strlit(
            ":fontsize=h/16:fontcolor=white:borderw=3:bordercolor=black@0.65:x=(w-text_w)/2:y=h-h/4.8,drawtext=",
        );
    }
    assert(two.len() > 0 && two[0] == ':') by {
        reveal_strlit(
            ":fontsize=h/26:fontcolor=0xdddddd:borderw=2:bordercolor=black@0.65:x=(w-text_w)/2:y=h-h/4.8+h/11",
        );
    }
    assert(",drawtext="@.len() > 0 && ",drawtext="@[0] == ',') by {
        reveal_strlit(",drawtext=");
    }
    assert(":"@.len() == 1 && ":"@[0] == ':') by {
        reveal_strlit(":");
    }
    lemma_caption_texts(front + ",drawtext="@ + font, one, font, two, rest);
    let key = "textfile="@;
    let body = key + "title.txt"@ + one + font + key + "artist.txt"@ + two;
    assert(caption_filter(has_font) =~= ",drawtext="@ + font + body);
    let filter = front + caption_filter(has_font) + rest;
    assert(filter =~= (front + ",drawtext="@ + font) + body + rest);
    if has_font {
        let tail = ":"@ + body + rest;
        assert(tail[0] == ':');
        assert(filter =~= (front + ",drawtext="@) + "fontfile="@ + "font.ttf"@ + tail);
        lemma_states(filter, front + ",drawtext="@, "fontfile="@, "font.ttf"@, tail);
    }
}

proof fn lemma_caption_texts(
    front: Seq<char>,
    one: Seq<char>,
    font: Seq<char>,
    two: Seq<char>,
    rest: Seq<char>,
)
    requires
        one.len() > 0 && one[0] == ':',
        two.len() > 0 && two[0] == ':',
    ensures
        ({
            let key = "textfile="@;
            let body = key + "title.txt"@ + one + font + key + "artist.txt"@ + two;
            let filter = front + body + rest;
            &&& states(filter, key, "title.txt"@)
            &&& states(filter, key, "artist.txt"@)
        }),
{
    let key = "textfile="@;
    let body = key + "title.txt"@ + one + font + key + "artist.txt"@ + two;
    let filter = front + body + rest;
    let tail = one + font + key + "artist.txt"@ + two + rest;
    assert(tail[0] == ':');
    assert(filter =~= front + key + "title.txt"@ + tail);
    lemma_states(filter, front, key, "title.txt"@, tail);
    let upto = front + key + "title.txt"@ + one + font;
    let end = two + rest;
    assert(end[0] == ':');
    assert(filter =~= upto + key + "artist.txt"@ + end);
    lemma_states(filter, upto, key, "artist.txt"@, end);
}

proof fn lemma_first_and_last(first: Seq<char>, middle: Seq<char>, last: Seq<char>)
    ensures
        starts(first + middle + last, first),
        ends(first + middle + last, last),
{
    let s = first + middle + last;
    assert(s.subrange(0, first.len() as int) =~= first);
    assert(s.subrange(s.len() - last.len(), s.len() as int) =~= last);
}

proof fn lemma_size_comes_first(job: RenderJob, middle: Seq<char>, last: Seq<char>)
    requires
        middle.len() > 0 && middle[0] == ',',
    ensures
        ({
            let w = decimal(job.width as nat);
            let h = decimal(job.height as nat);
            let filter = sizing_filter(job) + middle + last;
            &&& starts(
                filter,
                "scale="@ + w + ":"@ + h + ":force_original_aspect_ratio=decrease,pad="@ + w + ":"@
                    + h + ":(ow-iw)/2:(oh-ih)/2:color=0x101014,"@,
            )
            &&& ends(filter, last)
        }),
{
    let w = decimal(job.width as nat);
    let h = decimal(job.height as nat);
    let front = "scale="@ + w + ":"@ + h + ":force_original_aspect_ratio=decrease,pad="@ + w + ":"@
        + h;
    let colour = ":(ow-iw)/2:(oh-ih)/2:color=0x101014"@;
    assert(":(ow-iw)/2:(oh-ih)/2:color=0x101014,"@ =~= colour + seq![',']) by {
        reveal_strlit(":(ow-iw)/2:(oh-ih)/2:color=0x101014,");
        reveal_strlit(":(ow-iw)/2:(oh-ih)/2:color=0x101014");
    }
    assert(sizing_filter(job) == front + colour);
    let after = middle.subrange(1, middle.len() as int);
    assert(middle =~= seq![','] + after);
    assert((front + colour) + middle + last =~= (front + (colour + seq![','])) + after + last);
    lemma_first_and_last(front + (colour + seq![',']), after, last);
}

/// The video filter of a render does what the render asks for.
pub proof fn law_a_video_looks_as_asked(job: RenderJob, has_font: bool)
    ensures
        looks_right(video_filter(job, has_font), job, has_font),
{
    let filter = video_filter(job, has_font);
    let sizing = sizing_filter(job);
    let motion = motion_filter(job);
    let captions = caption_filter(has_font);
    let fade = fade_filter(job);
    let last = ",format=yuv420p"@;
    assert(last.len() > 0 && last[0] == ',') by {
        reveal_strlit(",format=yuv420p");
    }
    assert(motion.len() > 0 && motion[0] == ',') by {
        reveal_strlit(
            ",zoompan=z='min(zoom+0.0004,1.25)':x='iw/2-(iw/zoom/2)':y='ih/2-(ih/zoom/2)':d=",
        );
        reveal_strlit(",fps=30");
    }
    lemma_captions_look_right(sizing + motion, has_font, fade + last);
    lemma_parts(sizing, motion, captions, fade, last);
    if job.zoom {
        lemma_zoom_looks_right(sizing, job, captions + fade + last);
    } else {
        lemma_still_looks_right(sizing, job, captions + fade + last);
    }
    if job.fade {
        lemma_fade_looks_right(sizing + motion + captions, job);
    }
    lemma_size_comes_first(job, motion + captions + fade, last);
    lemma_has_its_frames(job);
    if !job.fade {
        lemma_captions_come_last(sizing + motion, has_font);
    }
}

proof fn lemma_captions_come_last(front: Seq<char>, has_font: bool)
    ensures
        ends(front + caption_filter(has_font) + ""@ + ",format=yuv420p"@, "+h/11,format=yuv420p"@),
{
    let font = font_option(has_font);
    let one =
        ":fontsize=h/16:fontcolor=white:borderw=3:bordercolor=black@0.65:x=(w-text_w)/2:y=h-h/4.8,drawtext="@;
    let before = front + ",drawtext="@ + font + "textfile="@ + "title.txt"@ + one + font
        + "textfile="@ + "artist.txt"@;
    let two =
        ":fontsize=h/26:fontcolor=0xdddddd:borderw=2:bordercolor=black@0.65:x=(w-text_w)/2:y=h-h/4.8"@;
    let last = "+h/11,format=yuv420p"@;
    assert(":fontsize=h/26:fontcolor=0xdddddd:borderw=2:bordercolor=black@0.65:x=(w-text_w)/2:y=h-h/4.8+h/11"@
        =~= two + "+h/11"@) by {
        reveal_strlit(
            ":fontsize=h/26:fontcolor=0xdddddd:borderw=2:bordercolor=black@0.65:x=(w-text_w)/2:y=h-h/4.8+h/11",
        );
        reveal_strlit(
            ":fontsize=h/26:fontcolor=0xdddddd:borderw=2:bordercolor=black@0.65:x=(w-text_w)/2:y=h-h/4.8",
        );
        reveal_strlit("+h/11");
    }
    assert(last =~= "+h/11"@ + ",format=yuv420p"@) by {
        reveal_strlit("+h/11,format=yuv420p");
        reveal_strlit("+h/11");
        reveal_strlit(",format=yuv420p");
    }
    assert(""@.len() == 0) by {
        reveal_strlit("");
    }
    assert(front + caption_filter(has_font) + ""@ + ",format=yuv420p"@ =~= before + two + last);
    lemma_first_and_last(before, two, last);
}

proof fn lemma_parts(
    a: Seq<char>,
    b: Seq<char>,
    c: Seq<char>,
    d: Seq<char>,
    e: Seq<char>,
)
    ensures
        a + b + c + d + e == a + b + c + (d + e),
        a + b + c + d + e == a + b + (c + d + e),
        a + b + c + d + e == a + (b + c + d) + e,
        c.len() > 0 ==> (c + d + e).len() > 0 && (c + d + e)[0] == c[0],
        b.len() > 0 ==> (b + c + d).len() > 0 && (b + c + d)[0] == b[0],
{
    assert(a + b + c + d + e =~= a + b + c + (d + e));
    assert(a + b + c + d + e =~= a + b + (c + d + e));
    assert(a + b + c + d + e =~= a + (b + c + d) + e);
}

proof fn lemma_has_its_frames(job: RenderJob)
    ensures
        frames_for(clip_length(job.duration) as nat) * 1_000_000 >= asked_length(job) * 30,
        (frames_for(clip_length(job.duration) as nat) - 1) * 1_000_000 < asked_length(job) * 30,
{
}

proof fn lemma_opening(job: RenderJob, has_font: bool, after: Seq<Seq<char>>)
    ensures
        ({
            let args = open_args(job, has_font) + after;
            let i = if job.zoom {
                1int
            } else {
                3
            };
            &&& open_args(job, has_font).len() == i + 6
            &&& args[0] == "-y"@
            &&& args[i] == "-i"@ && args[i + 1] == job.cover@
            &&& args[i + 2] == "-i"@ && args[i + 3] == job.audio@
            &&& args[i + 4] == "-vf"@ && args[i + 5] == video_filter(job, has_font)
            &&& job.zoom || gives(args, "-loop"@, "1"@)
        }),
{
    let args = open_args(job, has_font) + after;
    if !job.zoom {
        assert(args[1] == "-loop"@ && args[2] == "1"@);
        lemma_gives(args, 1, "-loop"@, "1"@);
    }
}

proof fn lemma_middle(job: RenderJob, before: Seq<Seq<char>>, after: Seq<Seq<char>>)
    ensures
        ({
            let args = before + audio_args(job) + after;
            let n = before.len() as int;
            &&& gives(args, "-t"@, seconds3(asked_length(job) as nat))
            &&& if job.fade || job.pad_audio {
                &&& audio_args(job).len() == 4
                &&& args[n] == "-af"@ && sounds_right(args[n + 1], job) && args[n + 2] == "-t"@
            } else {
                audio_args(job).len() == 2 && args[n] == "-t"@
            }
        }),
{
    let sound = audio_args(job);
    let args = before + sound + after;
    let n = before.len() as int;
    if job.fade || job.pad_audio {
        lemma_sounds_right(job);
        assert(audio_filters(job).len() > 0);
        assert(sound.len() == 4);
        assert(args[n] == sound[0] && args[n + 1] == sound[1]);
        assert(args[n + 2] == sound[2] && args[n + 3] == sound[3]);
        lemma_gives(args, n + 2, "-t"@, seconds3(asked_length(job) as nat));
    } else {
        assert(audio_filters(job).len() == 0);
        assert(args[n] == sound[0] && args[n + 1] == sound[1]);
        lemma_gives(args, n, "-t"@, seconds3(asked_length(job) as nat));
    }
}

proof fn lemma_ending(job: RenderJob, before: Seq<Seq<char>>)
    ensures
        ({
            let args = before + output_args(job);
            &&& gives(args, "-c:a"@, "aac"@)
            &&& gives(args, "-b:a"@, decimal(job.audio_bitrate_k as nat) + "k"@)
            &&& !job.pad_audio ==> lists(args, "-shortest"@)
            &&& gives(args, "-metadata"@, "title="@ + job.title@)
            &&& gives(args, "-metadata"@, "artist="@ + job.uploader@)
            &&& args.last() == job.output@
        }),
{
    let output = output_args(job);
    let args = before + output;
    let k = before.len() as int;
    assert(args[k] == output[0] && args[k + 1] == output[1] && args[k + 2] == output[2] && args[k
        + 3] == output[3]);
    lemma_gives(args, k, "-c:a"@, "aac"@);
    lemma_gives(args, k + 2, "-b:a"@, decimal(job.audio_bitrate_k as nat) + "k"@);
    let o = if job.pad_audio {
        4int
    } else {
        5
    };
    if !job.pad_audio {
        assert(args[k + 4] == "-shortest"@);
    }
    assert(args[k + o + 2] == output[o + 2] && args[k + o + 3] == output[o + 3]);
    lemma_gives(args, k + o + 2, "-metadata"@, "title="@ + job.title@);
    assert(args[k + o + 4] == output[o + 4] && args[k + o + 5] == output[o + 5]);
    lemma_gives(args, k + o + 4, "-metadata"@, "artist="@ + job.uploader@);
}

proof fn lemma_coding(job: RenderJob, before: Seq<Seq<char>>, after: Seq<Seq<char>>)
    ensures
        ({
            let args = before + job.encoder.spec_video_args(QualityTier::Clip) + after;
            &&& gives(args, "-c:v"@, job.encoder.kind.spec_codec())
            &&& gives(args, "-pix_fmt"@, "yuv420p"@)
        }),
{
    let block = codec_args(job.encoder.kind, QualityTier::Clip);
    let args = before + job.encoder.spec_video_args(QualityTier::Clip) + after;
    let c = before.len() as int;
    assert(args[c] == block[0] && args[c + 1] == block[1]);
    lemma_gives(args, c, "-c:v"@, job.encoder.kind.spec_codec());
    let f = c + block.len();
    assert(args[f] == "-pix_fmt"@ && args[f + 1] == "yuv420p"@);
    lemma_gives(args, f, "-pix_fmt"@, "yuv420p"@);
}

/// A render command does what the render asks for: it takes the cover and the music,
/// makes a video of the length that was asked for, in the size, with the effects and
/// at the bit rate that were asked for, tags it with title and artist, and writes it to
/// its file. Where there are fades, music and picture go out together, over the last
/// 1.2 s.
pub proof fn law_a_render_does_what_is_asked(job: RenderJob, has_font: bool)
    ensures
        renders(render_args(job, has_font), job, has_font),
{
    let open = open_args(job, has_font);
    let sound = audio_args(job);
    let codec = job.encoder.spec_video_args(QualityTier::Clip);
    let output = output_args(job);
    let args = render_args(job, has_font);
    law_a_video_looks_as_asked(job, has_font);
    assert(args =~= open + (sound + codec + output));
    lemma_opening(job, has_font, sound + codec + output);
    assert(args =~= open + sound + (codec + output));
    lemma_middle(job, open, codec + output);
    assert(args =~= (open + sound) + codec + output);
    lemma_coding(job, open + sound, output);
    lemma_ending(job, open + sound + codec);
    let i = if job.zoom {
        1int
    } else {
        3
    };
    assert(args.len() > i + 8);
    assert(args[i] == "-i"@);
}

/// Whether a text stands on one line.
pub open spec fn is_on_one_line(s: Seq<char>) -> bool {
    forall|i: int| 0 <= i < s.len() ==> #[trigger] s[i] != '\n' && s[i] != '\r'
}

/// What is written over a video stands on one line, without white space around it, and
/// is the text itself but for its line ends, which are spaces.
pub proof fn law_an_overlay_is_one_line(s: Seq<char>)
    ensures
        is_on_one_line(trimmed(on_one_line(s))),
        on_one_line(s).len() == s.len(),
        forall|i: int|
            0 <= i < s.len() ==> #[trigger] on_one_line(s)[i] == (if s[i] == '\n' || s[i] == '\r' {
                ' '
            } else {
                s[i]
            }),
        exists|from: int, to: int|
            0 <= from <= to <= s.len() && trimmed(on_one_line(s)) == #[trigger] on_one_line(
                s,
            ).subrange(from, to),
{
    let line = on_one_line(s);
    let (from, to) = lemma_trimmed_part(line);
    assert(trimmed(line) == line.subrange(from, to));
    assert forall|i: int| 0 <= i < trimmed(line).len() implies #[trigger] trimmed(line)[i] != '\n'
        && trimmed(line)[i] != '\r' by {
        assert(trimmed(line)[i] == line[from + i]);
    }
}

/// A plain cover is one frame of the size that is asked for.
pub proof fn law_a_plain_cover_is_one_frame(out: Seq<char>, width: nat, height: nat)
    ensures
        gives(cover_request(out, width, height), "-frames:v"@, "1"@),
        exists|source: Seq<char>| #[trigger]
            gives(cover_request(out, width, height), "-i"@, source) && starts(
                source,
                "gradients=s="@ + decimal(width) + "x"@ + decimal(height) + ":"@,
            ),
        cover_request(out, width, height).last() == out,
{
    let args = cover_request(out, width, height);
    let size = "gradients=s="@ + decimal(width) + "x"@ + decimal(height);
    let source = size + ":c0=0x1d1d33:c1=0x3a2c4f:n=2"@;
    lemma_gives(args, 5, "-frames:v"@, "1"@);
    lemma_gives(args, 3, "-i"@, source);
    assert(":c0=0x1d1d33:c1=0x3a2c4f:n=2"@ =~= ":"@ + "c0=0x1d1d33:c1=0x3a2c4f:n=2"@) by {
        reveal_strlit(":c0=0x1d1d33:c1=0x3a2c4f:n=2");
        reveal_strlit(":");
        reveal_strlit("c0=0x1d1d33:c1=0x3a2c4f:n=2");
    }
    let front = size + ":"@;
    assert(source =~= front + "c0=0x1d1d33:c1=0x3a2c4f:n=2"@);
    assert(source.subrange(0, front.len() as int) =~= front);
}

/// A font that is used is one of the platform's and is there; the best one is used unless
/// it was reported not to be.
pub proof fn law_the_best_font_is_used<F: Fn(&str) -> bool>(
    platform: Platform,
    present: F,
    r: Option<String>,
)
    requires
        is_first_font(platform, present, r),
    ensures
        r matches Some(path) ==> font_paths(platform).contains(path@) && answered(
            present,
            path@,
            true,
        ),
        !answered(present, font_paths(platform)[0], false) ==> r is Some && r->0@ == font_paths(
            platform,
        )[0],
{
    let fonts = font_paths(platform);
    assert(fonts.len() >= 3);
    if let Some(path) = r {
        let i = choose|i: int|
            #![trigger font_paths(platform)[i]]
            {
                &&& 0 <= i < font_paths(platform).len()
                &&& path@ == font_paths(platform)[i]
                &&& answered(present, path@, true)
                &&& forall|k: int|
                    0 <= k < i ==> answered(present, #[trigger] font_paths(platform)[k], false)
            };
        assert(fonts[i] == path@);
        if i > 0 {
            assert(answered(present, font_paths(platform)[0], false));
        }
    } else {
        assert(answered(present, font_paths(platform)[0], false));
    }
}

} // verus!
