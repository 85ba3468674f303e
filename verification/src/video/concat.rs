//! Combined-playlist export: the documents and argument lists that stitch the
//! per-track clips into a single video with crossfades, tags and chapters.
//!
//! Clips are combined with a filtergraph (`xfade` and `acrossfade` when there is
//! a transition, otherwise `concat`) and always re-encoded. The graph goes into
//! a script file, so the command line does not grow with it.
use vstd::prelude::*;
use vstd::string::*;
use vstd::utf8::encode_utf8;

use crate::text;
use crate::text::{
    contains_any, decimal, joined, lowered, seconds3, seconds6, signed_decimal,
    views,
};
use crate::video::chapter_laws::{law_every_clip_has_its_chapter, marks_every_clip};
use crate::video::encoder::{QualityTier, ResolvedEncoder};
use crate::video::graph_laws::{law_crossfaded_inputs_play_in_order, plays_in_order};
use crate::video::ladder::{PassView, PlannedPass};
use crate::video::pass_laws::{law_a_pass_does_what_is_planned, runs};
use crate::video::timeline::{
    chapter_start, chapter_starts, fits, joined_length, lemma_sum_part, lemma_transition_part,
    sum, total_duration,
};

verus! {

/// Maximum clip inputs handed to a single ffmpeg invocation by default.
pub const MAX_INPUTS_PER_PASS: usize = 40;

/// Largest batch size that may be selected.
pub const MAX_COMBINE_CHUNK: usize = 64;

/// The command-line ceiling of Windows.
pub const WINDOWS_CMDLINE_LIMIT: usize = 32_767;

/// A rendered clip that becomes one segment of the playlist.
#[derive(Debug, Clone)]
pub struct ClipInfo {
    pub path: String,
    /// Clip length in microseconds.
    pub duration: u64,
    pub title: String,
    pub uploader: String,
}

// ---------------------------------------------------------------------------
// Metadata document
// ---------------------------------------------------------------------------

/// Whether the metadata format gives this character a meaning of its own.
pub open spec fn is_special(c: char) -> bool {
    c == '=' || c == ';' || c == '#' || c == '\\' || c == '\n'
}

/// One character of a metadata value: special ones behind a backslash, a
/// carriage return as a space.
pub open spec fn escaped_char(c: char) -> Seq<char> {
    if is_special(c) {
        seq!['\\', c]
    } else if c == '\r' {
        seq![' ']
    } else {
        seq![c]
    }
}

/// A metadata value with its characters escaped.
pub open spec fn escaped(value: Seq<char>) -> Seq<char>
    decreases value.len(),
{
    if value.len() == 0 {
        Seq::empty()
    } else {
        escaped(value.drop_last()) + escaped_char(value.last())
    }
}

/// Escapes a metadata value.
pub fn escape_meta(value: &str) -> (r: String)
    ensures
        r@ == escaped(value@),
{
    let chars = text::to_chars(value);
    let mut out = String::new();
    for i in 0..chars.len()
        invariant
            out@ == escaped(chars@.take(i as int)),
    {
        let c = chars[i];
        assert(chars@.take(i + 1).drop_last() =~= chars@.take(i as int));
        let ghost before = out@;
        if c == '=' || c == ';' || c == '#' || c == '\\' || c == '\n' {
            out.push('\\');
            out.push(c);
        } else if c == '\r' {
            out.push(' ');
        } else {
            out.push(c);
        }
        assert(out@ =~= before + escaped_char(c));
    }
    assert(chars@.take(chars@.len() as int) =~= chars@);
    out
}

/// Whether position `i` stands right behind a backslash that escapes it.
pub open spec fn behind_backslash(s: Seq<char>, i: int) -> bool
    decreases i,
{
    i > 0 && i <= s.len() && s[i - 1] == '\\' && !behind_backslash(s, i - 1)
}

/// In an escaped value every character with a meaning of its own is behind a
/// backslash or is that backslash, no escape is left open at the end, and there
/// is no carriage return.
pub proof fn law_escaped_values_hold_no_bare_special(value: Seq<char>)
    ensures
        !behind_backslash(escaped(value), escaped(value).len() as int),
        forall|i: int|
            0 <= i < escaped(value).len() ==> {
                &&& #[trigger] escaped(value)[i] != '\r'
                &&& is_special(escaped(value)[i]) ==> behind_backslash(escaped(value), i)
                    || escaped(value)[i] == '\\'
            },
    decreases value.len(),
{
    if value.len() > 0 {
        let front = escaped(value.drop_last());
        let s = escaped(value);
        let n = front.len() as int;
        law_escaped_values_hold_no_bare_special(value.drop_last());
        assert forall|i: int| 0 <= i <= n implies behind_backslash(s, i) == behind_backslash(
            front,
            i,
        ) by {
            lemma_behind_backslash_prefix(front, s, i);
        }
        assert(behind_backslash(s, n) == behind_backslash(front, n));
        assert(is_special(value.last()) ==> behind_backslash(s, n + 1));
        assert(s.last() == escaped_char(value.last()).last());
        assert forall|i: int| 0 <= i < s.len() implies {
            &&& #[trigger] s[i] != '\r'
            &&& is_special(s[i]) ==> behind_backslash(s, i) || s[i] == '\\'
        } by {
            if i < n {
                assert(s[i] == front[i]);
            }
        }
    }
}

proof fn lemma_behind_backslash_prefix(front: Seq<char>, s: Seq<char>, i: int)
    requires
        0 <= i <= front.len() <= s.len(),
        forall|j: int| 0 <= j < front.len() ==> s[j] == front[j],
    ensures
        behind_backslash(s, i) == behind_backslash(front, i),
    decreases i,
{
    if i > 0 {
        lemma_behind_backslash_prefix(front, s, i - 1);
    }
}

/// Microseconds as whole milliseconds, a half going away from zero.
pub open spec fn rounded_millis(us: int) -> int {
    if us >= 0 {
        (us + 500) / 1000
    } else {
        -((500 - us) / 1000)
    }
}

fn to_millis(us: i64) -> (r: i64)
    requires
        us > i64::MIN,
    ensures
        r == rounded_millis(us as int),
        r > i64::MIN,
{
    if us >= 0 {
        us / 1000 + (if us % 1000 >= 500 { 1i64 } else { 0i64 })
    } else {
        let up: i64 = -us;
        -(up / 1000 + (if up % 1000 >= 500 { 1i64 } else { 0i64 }))
    }
}

/// Where chapter `i` ends: where the next one starts, or where the video ends.
pub open spec fn chapter_end(lengths: Seq<u64>, transition: u64, i: int) -> int {
    if i + 1 < lengths.len() {
        chapter_start(lengths, transition, i + 1)
    } else {
        joined_length(lengths, transition)
    }
}

/// The metadata section of chapter `i`.
pub open spec fn chapter_section(
    clips: Seq<ClipInfo>,
    lengths: Seq<u64>,
    transition: u64,
    i: int,
) -> Seq<char> {
    "\n[CHAPTER]\nTIMEBASE=1/1000\nSTART="@ + signed_decimal(
        rounded_millis(chapter_start(lengths, transition, i)),
    ) + "\nEND="@ + signed_decimal(rounded_millis(chapter_end(lengths, transition, i)))
        + "\ntitle="@ + escaped(clips[i].uploader@ + " - "@ + clips[i].title@) + "\n"@
}

/// The sections of the first `n` chapters.
pub open spec fn chapter_sections(
    clips: Seq<ClipInfo>,
    lengths: Seq<u64>,
    transition: u64,
    n: nat,
) -> Seq<char>
    decreases n,
{
    if n == 0 {
        Seq::empty()
    } else {
        chapter_sections(clips, lengths, transition, (n - 1) as nat) + chapter_section(
            clips,
            lengths,
            transition,
            n - 1,
        )
    }
}

/// The tags at the head of the metadata document.
pub open spec fn metadata_head(playlist_title: Seq<char>) -> Seq<char> {
    ";FFMETADATA1\ntitle="@ + escaped(playlist_title)
        + "\nartist=SoundCloud Playlist\ncomment=Generated by SoundCloud2MP4\n"@
}

/// The whole metadata document.
pub open spec fn metadata_document(
    playlist_title: Seq<char>,
    clips: Seq<ClipInfo>,
    lengths: Seq<u64>,
    transition: u64,
    chapters: bool,
) -> Seq<char> {
    if chapters {
        metadata_head(playlist_title) + chapter_sections(clips, lengths, transition, clips.len())
    } else {
        metadata_head(playlist_title)
    }
}

/// Builds an FFMETADATA1 document with playlist-level tags and, where wanted,
/// one chapter per track.
///
/// The lengths are those that were measured, not those that the renderer was
/// asked for, so that a mark lands where the track really starts.
pub fn build_ffmetadata(
    playlist_title: &str,
    clips: &[ClipInfo],
    durations: &[u64],
    transition: u64,
    chapters: bool,
) -> (r: String)
    requires
        clips@.len() == durations@.len(),
        fits(durations@, transition),
    ensures
        r@ == metadata_document(playlist_title@, clips@, durations@, transition, chapters),
        marks_every_clip(r@, playlist_title@, clips@, durations@, transition, chapters),
{
    proof {
        law_every_clip_has_its_chapter(playlist_title@, clips@, durations@, transition, chapters);
    }
    write_ffmetadata(playlist_title, clips, durations, transition, chapters)
}

fn write_ffmetadata(
    playlist_title: &str,
    clips: &[ClipInfo],
    durations: &[u64],
    transition: u64,
    chapters: bool,
) -> (r: String)
    requires
        clips@.len() == durations@.len(),
        fits(durations@, transition),
    ensures
        r@ == metadata_document(playlist_title@, clips@, durations@, transition, chapters),
{
    let mut s = ";FFMETADATA1\ntitle=".to_owned();
    s.append(escape_meta(playlist_title).as_str());
    s.append("\nartist=SoundCloud Playlist\ncomment=Generated by SoundCloud2MP4\n");
    if !chapters {
        return s;
    }
    let starts = chapter_starts(durations, transition);
    let total = total_duration(durations, transition);
    let ghost head = s@;
    assert(s@ =~= head + chapter_sections(clips@, durations@, transition, 0));
    proof {
        lemma_joined_length_fits(durations@, transition);
    }
    for i in 0..clips.len()
        invariant
            clips@.len() == durations@.len(),
            starts@.len() == durations@.len(),
            fits(durations@, transition),
            forall|j: int|
                0 <= j < starts@.len() ==> #[trigger] starts@[j] == chapter_start(
                    durations@,
                    transition,
                    j,
                ),
            total == joined_length(durations@, transition),
            total <= i64::MAX,
            s@ == head + chapter_sections(clips@, durations@, transition, i as nat),
    {
        proof {
            lemma_chapter_start_fits(durations@, transition, i as int);
            if i + 1 < starts@.len() {
                lemma_chapter_start_fits(durations@, transition, i + 1);
            }
        }
        let start_ms: i64 = to_millis(starts[i]);
        let end: i64 = if i + 1 < starts.len() { starts[i + 1] } else { total as i64 };
        let end_ms: i64 = to_millis(end);
        let mut name = clips[i].uploader.clone();
        name.append(" - ");
        name.append(clips[i].title.as_str());
        let mut section = "\n[CHAPTER]\nTIMEBASE=1/1000\nSTART=".to_owned();
        section.append(text::dec_signed(start_ms).as_str());
        section.append("\nEND=");
        section.append(text::dec_signed(end_ms).as_str());
        section.append("\ntitle=");
        section.append(escape_meta(name.as_str()).as_str());
        section.append("\n");
        assert(section@ == chapter_section(clips@, durations@, transition, i as int));
        s.append(section.as_str());
        assert(s@ =~= head + chapter_sections(clips@, durations@, transition, (i + 1) as nat));
    }
    s
}

proof fn lemma_chapter_start_fits(lengths: Seq<u64>, transition: u64, i: int)
    requires
        fits(lengths, transition),
        0 <= i <= lengths.len(),
    ensures
        i64::MIN < chapter_start(lengths, transition, i) <= i64::MAX,
{
    lemma_sum_part(lengths, 0, i);
    lemma_transition_part(transition, i, lengths.len() as int);
    assert(i * transition == transition * i) by (nonlinear_arith);
}

proof fn lemma_joined_length_fits(lengths: Seq<u64>, transition: u64)
    requires
        fits(lengths, transition),
    ensures
        0 <= joined_length(lengths, transition) <= sum(lengths) <= i64::MAX,
{
    if lengths.len() > 0 {
        lemma_transition_part(transition, lengths.len() - 1, lengths.len() as int);
    }
}

// ---------------------------------------------------------------------------
// Filtergraph
// ---------------------------------------------------------------------------

/// The chain that pins the audio of input `i` to the length the video side uses:
/// `apad` makes it arbitrarily long, `atrim` cuts it back.
pub open spec fn trim_chain(lengths: Seq<u64>, i: int) -> Seq<char> {
    "["@ + decimal(i as nat) + ":a]apad,atrim=0:"@ + seconds6(lengths[i] as nat)
        + ",asetpts=N/SR/TB[an"@ + decimal(i as nat) + "]"@
}

/// The labels of the first `n` inputs for the `concat` filter.
pub open spec fn concat_labels(n: nat) -> Seq<char>
    decreases n,
{
    if n == 0 {
        Seq::empty()
    } else {
        concat_labels((n - 1) as nat) + "["@ + decimal((n - 1) as nat) + ":v][an"@ + decimal(
            (n - 1) as nat,
        ) + "]"@
    }
}

/// The chain that joins `n` inputs with hard cuts.
pub open spec fn concat_chain(n: nat) -> Seq<char> {
    concat_labels(n) + "concat=n="@ + decimal(n) + ":v=1:a=1[vout][aout]"@
}

/// The label of the video after the first `i + 1` of `n` inputs have been joined.
pub open spec fn video_label(n: int, i: int) -> Seq<char> {
    if i == 0 {
        "[0:v]"@
    } else if i == n - 1 {
        "[vout]"@
    } else {
        "[vx"@ + decimal(i as nat) + "]"@
    }
}

/// The label of the audio after the first `i + 1` of `n` inputs have been joined.
pub open spec fn audio_label(n: int, i: int) -> Seq<char> {
    if i == 0 {
        "[an0]"@
    } else if i == n - 1 {
        "[aout]"@
    } else {
        "[ax"@ + decimal(i as nat) + "]"@
    }
}

/// Where the crossfade into input `i` begins: where the input's chapter starts,
/// and not before the video does.
pub open spec fn fade_offset(lengths: Seq<u64>, transition: u64, i: int) -> nat {
    let start = chapter_start(lengths, transition, i);
    if start < 0 {
        0
    } else {
        start as nat
    }
}

/// The chain that crossfades the video of input `i` in.
pub open spec fn video_fade(lengths: Seq<u64>, transition: u64, i: int) -> Seq<char> {
    video_label(lengths.len() as int, i - 1) + "["@ + decimal(i as nat)
        + ":v]xfade=transition=fade:duration="@ + seconds3(transition as nat) + ":offset="@
        + seconds3(fade_offset(lengths, transition, i)) + video_label(lengths.len() as int, i)
}

/// The chain that crossfades the (exactly sized) audio of input `i` in.
pub open spec fn audio_fade(lengths: Seq<u64>, transition: u64, i: int) -> Seq<char> {
    audio_label(lengths.len() as int, i - 1) + "[an"@ + decimal(i as nat) + "]acrossfade=d="@
        + seconds3(transition as nat) + ":c1=tri:c2=tri"@ + audio_label(lengths.len() as int, i)
}

/// The chains of the filtergraph: one per input for its audio, then the cut or
/// the crossfades of video and audio.
pub open spec fn filter_chains(lengths: Seq<u64>, transition: u64) -> Seq<Seq<char>> {
    let n = lengths.len();
    let trims = Seq::new(n, |i: int| trim_chain(lengths, i));
    if transition == 0 {
        trims.push(concat_chain(n))
    } else {
        trims + Seq::new((n - 1) as nat, |k: int| video_fade(lengths, transition, k + 1))
            + Seq::new((n - 1) as nat, |k: int| audio_fade(lengths, transition, k + 1))
    }
}

/// The whole filtergraph.
pub open spec fn combine_filter(lengths: Seq<u64>, transition: u64) -> Seq<char> {
    joined(filter_chains(lengths, transition), ";"@)
}

fn label(n: usize, i: usize, first: &str, last: &str, open: &str) -> (r: String)
    requires
        i < n,
    ensures
        r@ == (if i == 0 {
            first@
        } else if i == n - 1 {
            last@
        } else {
            open@ + decimal(i as nat) + "]"@
        }),
{
    if i == 0 {
        first.to_owned()
    } else if i == n - 1 {
        last.to_owned()
    } else {
        let mut s = open.to_owned();
        s.append(text::dec(i as u64).as_str());
        s.append("]");
        s
    }
}

/// Builds the filtergraph that merges the inputs into a single `[vout]` and
/// `[aout]` pair: chained `xfade` and `acrossfade` with a transition, else the
/// `concat` filter.
///
/// `xfade` is told where each cut lands, `acrossfade` simply consumes its
/// inputs, and a decoded audio stream is a little longer than its video. So each
/// input's audio is first padded and cut to exactly the length that the video
/// side assumes; otherwise the surplus would add up clip by clip.
pub fn build_combine_filter(durations: &[u64], transition: u64) -> (r: String)
    requires
        durations@.len() >= 2,
        fits(durations@, transition),
    ensures
        r@ == combine_filter(durations@, transition),
        transition > 0 ==> plays_in_order(r@, durations@.len()),
{
    proof {
        if transition > 0 {
            law_crossfaded_inputs_play_in_order(durations@, transition);
        }
    }
    let n: usize = durations.len();
    let ghost d = durations@;
    let ghost trims = Seq::new(n as nat, |i: int| trim_chain(d, i));
    let mut chains: Vec<String> = Vec::new();
    assert(views(chains@) =~= trims.take(0));
    for i in 0..n
        invariant
            n == durations@.len(),
            d == durations@,
            trims == Seq::new(n as nat, |i: int| trim_chain(d, i)),
            views(chains@) == trims.take(i as int),
    {
        let mut s = "[".to_owned();
        s.append(text::dec(i as u64).as_str());
        s.append(":a]apad,atrim=0:");
        s.append(text::seconds_6(durations[i]).as_str());
        s.append(",asetpts=N/SR/TB[an");
        s.append(text::dec(i as u64).as_str());
        s.append("]");
        text::put(&mut chains, s.as_str());
        assert(trims.take(i + 1) =~= trims.take(i as int).push(trim_chain(d, i as int)));
    }
    assert(trims.take(n as int) =~= trims);
    if transition == 0 {
        let mut s = String::new();
        for i in 0..n
            invariant
                s@ == concat_labels(i as nat),
        {
            s.append("[");
            s.append(text::dec(i as u64).as_str());
            s.append(":v][an");
            s.append(text::dec(i as u64).as_str());
            s.append("]");
        }
        s.append("concat=n=");
        s.append(text::dec(n as u64).as_str());
        s.append(":v=1:a=1[vout][aout]");
        text::put(&mut chains, s.as_str());
        return text::join(chains.as_slice(), ";");
    }
    let starts = chapter_starts(durations, transition);
    let ghost fades = Seq::new((n - 1) as nat, |k: int| video_fade(d, transition, k + 1));
    assert(views(chains@) =~= trims + fades.take(0));
    for i in 1..n
        invariant
            n == durations@.len(),
            n >= 2,
            d == durations@,
            starts@.len() == n,
            forall|j: int| 0 <= j < n ==> #[trigger] starts@[j] == chapter_start(d, transition, j),
            fades == Seq::new((n - 1) as nat, |k: int| video_fade(d, transition, k + 1)),
            views(chains@) == trims + fades.take(i - 1),
    {
        let offset: u64 = if starts[i] < 0 { 0 } else { starts[i] as u64 };
        let mut s = label(n, i - 1, "[0:v]", "[vout]", "[vx");
        s.append("[");
        s.append(text::dec(i as u64).as_str());
        s.append(":v]xfade=transition=fade:duration=");
        s.append(text::seconds_3(transition).as_str());
        s.append(":offset=");
        s.append(text::seconds_3(offset).as_str());
        s.append(label(n, i, "[0:v]", "[vout]", "[vx").as_str());
        assert(s@ == video_fade(d, transition, i as int));
        text::put(&mut chains, s.as_str());
        assert(fades.take(i as int) =~= fades.take(i - 1).push(
            video_fade(d, transition, i as int),
        ));
        assert(trims + fades.take(i as int) =~= (trims + fades.take(i - 1)).push(
            video_fade(d, transition, i as int),
        ));
    }
    assert(fades.take(n - 1) =~= fades);
    let ghost tones = Seq::new((n - 1) as nat, |k: int| audio_fade(d, transition, k + 1));
    assert(views(chains@) =~= trims + fades + tones.take(0));
    for i in 1..n
        invariant
            n == d.len(),
            n >= 2,
            tones == Seq::new((n - 1) as nat, |k: int| audio_fade(d, transition, k + 1)),
            views(chains@) == trims + fades + tones.take(i - 1),
    {
        let mut s = label(n, i - 1, "[an0]", "[aout]", "[ax");
        s.append("[an");
        s.append(text::dec(i as u64).as_str());
        s.append("]acrossfade=d=");
        s.append(text::seconds_3(transition).as_str());
        s.append(":c1=tri:c2=tri");
        s.append(label(n, i, "[an0]", "[aout]", "[ax").as_str());
        assert(s@ == audio_fade(d, transition, i as int));
        text::put(&mut chains, s.as_str());
        assert(tones.take(i as int) =~= tones.take(i - 1).push(
            audio_fade(d, transition, i as int),
        ));
        assert(trims + fades + tones.take(i as int) =~= (trims + fades + tones.take(i - 1)).push(
            audio_fade(d, transition, i as int),
        ));
    }
    assert(tones.take(n - 1) =~= tones);
    assert(views(chains@) =~= filter_chains(d, transition));
    text::join(chains.as_slice(), ";")
}

// ---------------------------------------------------------------------------
// Command line
// ---------------------------------------------------------------------------

/// The arguments that open the first `n` inputs, each with the given decode
/// arguments before it.
pub open spec fn input_args(inputs: Seq<Seq<char>>, decode: Seq<Seq<char>>, n: nat) -> Seq<
    Seq<char>,
>
    decreases n,
{
    if n == 0 {
        Seq::empty()
    } else {
        input_args(inputs, decode, (n - 1) as nat) + decode + seq!["-i"@, inputs[n - 1]]
    }
}

/// The arguments that take the metadata of the input behind the `n` clips.
pub open spec fn map_metadata(metadata: Option<Seq<char>>, n: nat) -> Seq<Seq<char>> {
    if metadata is Some {
        seq!["-map_metadata"@, decimal(n)]
    } else {
        Seq::empty()
    }
}

/// What a pass does with the opened inputs: a single input is copied, several
/// are filtered and encoded, at final quality with AAC audio in the final pass,
/// else as an intermediate with lossless audio.
pub open spec fn work_args(
    pass: PassView,
    metadata: Option<Seq<char>>,
    audio_bitrate_k: u32,
    encoder: ResolvedEncoder,
) -> Seq<Seq<char>> {
    let n = pass.inputs.len();
    if n <= 1 {
        seq!["-map"@, "0:v"@, "-map"@, "0:a"@] + map_metadata(metadata, n) + seq!["-c"@, "copy"@]
    } else {
        seq!["-filter_complex_script"@, pass.filter_script, "-map"@, "[vout]"@, "-map"@, "[aout]"@]
            + map_metadata(metadata, n) + if pass.is_final {
            encoder.spec_video_args(QualityTier::Final) + seq![
                "-c:a"@,
                "aac"@,
                "-b:a"@,
                decimal(audio_bitrate_k as nat) + "k"@,
            ]
        } else {
            encoder.spec_video_args(QualityTier::Intermediate) + seq!["-c:a"@, "flac"@]
        }
    }
}

/// The ffmpeg arguments of one pass. Only a pass that decodes (more than one
/// input) asks for hardware decoding, and never of the metadata document.
pub open spec fn pass_args(
    pass: PassView,
    metadata: Option<Seq<char>>,
    audio_bitrate_k: u32,
    encoder: ResolvedEncoder,
) -> Seq<Seq<char>> {
    let n = pass.inputs.len();
    let decode = if n > 1 {
        encoder.spec_decode_args()
    } else {
        Seq::empty()
    };
    seq!["-y"@] + input_args(pass.inputs, decode, n) + (match metadata {
        Some(meta) => seq!["-i"@, meta],
        None => Seq::empty(),
    }) + work_args(pass, metadata, audio_bitrate_k, encoder) + if pass.is_final {
        seq!["-movflags"@, "+faststart"@, pass.output]
    } else {
        seq![pass.output]
    }
}

/// The value behind an optional text.
pub open spec fn text_of(s: Option<&str>) -> Option<Seq<char>> {
    match s {
        Some(x) => Some(x@),
        None => None,
    }
}

/// Builds the ffmpeg argument list for one pass. The filtergraph is not in it:
/// it stands in the pass's script file, which keeps the command line flat as the
/// playlist grows.
pub fn build_pass_args(
    pass: &PlannedPass,
    metadata: Option<&str>,
    audio_bitrate_k: u32,
    encoder: &ResolvedEncoder,
) -> (r: Vec<String>)
    ensures
        views(r@) == pass_args(pass@, text_of(metadata), audio_bitrate_k, *encoder),
        runs(views(r@), pass@, text_of(metadata), audio_bitrate_k, *encoder),
{
    proof {
        law_a_pass_does_what_is_planned(pass@, text_of(metadata), audio_bitrate_k, *encoder);
    }
    list_pass_args(pass, metadata, audio_bitrate_k, encoder)
}

fn list_pass_args(
    pass: &PlannedPass,
    metadata: Option<&str>,
    audio_bitrate_k: u32,
    encoder: &ResolvedEncoder,
) -> (r: Vec<String>)
    ensures
        views(r@) == pass_args(pass@, text_of(metadata), audio_bitrate_k, *encoder),
{
    let n: usize = pass.inputs.len();
    let multi = n > 1;
    let decode = if multi { encoder.decode_args() } else { Vec::new() };
    let ghost dec = if n > 1 {
        encoder.spec_decode_args()
    } else {
        Seq::empty()
    };
    assert(views(decode@) =~= dec);
    let ghost names = pass@.inputs;
    let mut args: Vec<String> = Vec::new();
    text::put(&mut args, "-y");
    let ghost head = seq!["-y"@];
    assert(views(args@) =~= head + input_args(names, dec, 0));
    for i in 0..n
        invariant
            n == pass.inputs@.len(),
            names == views(pass.inputs@),
            dec == views(decode@),
            views(args@) == head + input_args(names, dec, i as nat),
    {
        text::put_all(&mut args, decode.as_slice());
        text::put(&mut args, "-i");
        text::put(&mut args, pass.inputs[i].as_str());
        assert(views(args@) =~= head + input_args(names, dec, (i + 1) as nat));
    }
    if let Some(meta) = metadata {
        text::put(&mut args, "-i");
        text::put(&mut args, meta);
    }
    let ghost opened = head + input_args(names, dec, n as nat) + (match text_of(metadata) {
        Some(meta) => seq!["-i"@, meta],
        None => Seq::empty(),
    });
    assert(views(args@) =~= opened);
    let work = build_work_args(pass, metadata.is_some(), audio_bitrate_k, encoder);
    assert(work_args(
        pass@,
        if metadata is Some {
            Some(Seq::empty())
        } else {
            None
        },
        audio_bitrate_k,
        *encoder,
    ) == work_args(pass@, text_of(metadata), audio_bitrate_k, *encoder));
    text::put_all(&mut args, work.as_slice());
    if pass.is_final {
        text::put(&mut args, "-movflags");
        text::put(&mut args, "+faststart");
    }
    text::put(&mut args, pass.output.as_str());
    assert(views(args@) =~= pass_args(pass@, text_of(metadata), audio_bitrate_k, *encoder));
    args
}

fn build_work_args(
    pass: &PlannedPass,
    with_metadata: bool,
    audio_bitrate_k: u32,
    encoder: &ResolvedEncoder,
) -> (r: Vec<String>)
    ensures
        views(r@) == work_args(
            pass@,
            if with_metadata {
                Some(Seq::empty())
            } else {
                None
            },
            audio_bitrate_k,
            *encoder,
        ),
{
    let n: usize = pass.inputs.len();
    let mut args: Vec<String> = Vec::new();
    if n <= 1 {
        text::put(&mut args, "-map");
        text::put(&mut args, "0:v");
        text::put(&mut args, "-map");
        text::put(&mut args, "0:a");
    } else {
        text::put(&mut args, "-filter_complex_script");
        text::put(&mut args, pass.filter_script.as_str());
        text::put(&mut args, "-map");
        text::put(&mut args, "[vout]");
        text::put(&mut args, "-map");
        text::put(&mut args, "[aout]");
    }
    if with_metadata {
        text::put(&mut args, "-map_metadata");
        text::put(&mut args, text::dec(n as u64).as_str());
    }
    if n <= 1 {
        text::put(&mut args, "-c");
        text::put(&mut args, "copy");
    } else if pass.is_final {
        text::put_all(&mut args, encoder.video_args(QualityTier::Final).as_slice());
        text::put(&mut args, "-c:a");
        text::put(&mut args, "aac");
        text::put(&mut args, "-b:a");
        let mut rate = text::dec(audio_bitrate_k as u64);
        rate.append("k");
        text::put(&mut args, rate.as_str());
    } else {
        text::put_all(&mut args, encoder.video_args(QualityTier::Intermediate).as_slice());
        text::put(&mut args, "-c:a");
        text::put(&mut args, "flac");
    }
    assert(views(args@) =~= work_args(
        pass@,
        if with_metadata {
            Some(Seq::empty())
        } else {
            None
        },
        audio_bitrate_k,
        *encoder,
    ));
    args
}

/// The length of a command line as Windows counts it: the program, and each
/// argument with a separating space and its quotes, in bytes.
pub open spec fn cmdline_length(program: Seq<char>, args: Seq<Seq<char>>) -> nat
    decreases args.len(),
{
    if args.len() == 0 {
        encode_utf8(program).len()
    } else {
        cmdline_length(program, args.drop_last()) + encode_utf8(args.last()).len() + 3
    }
}

/// Length of the command line that an argument list makes (or the largest
/// machine integer, for one that no machine could hold).
pub fn cmdline_len(program: &str, args: &[String]) -> (r: usize)
    ensures
        cmdline_length(program@, views(args@)) <= usize::MAX ==> r == cmdline_length(
            program@,
            views(args@),
        ),
        cmdline_length(program@, views(args@)) > usize::MAX ==> r == usize::MAX,
{
    let mut total: usize = program.as_bytes().len();
    let ghost names = views(args@);
    assert(names.take(0) =~= Seq::empty());
    for i in 0..args.len()
        invariant
            names == views(args@),
            total <= cmdline_length(program@, names.take(i as int)),
            total < usize::MAX ==> total == cmdline_length(program@, names.take(i as int)),
    {
        assert(names.take(i + 1).drop_last() =~= names.take(i as int));
        let size: usize = args[i].as_str().as_bytes().len();
        total = total.saturating_add(size).saturating_add(3);
    }
    assert(names.take(args@.len() as int) =~= names);
    total
}

// ---------------------------------------------------------------------------
// Hardware decode failures
// ---------------------------------------------------------------------------

/// What ffmpeg prints, in lower case, when the hardware decoder runs out of
/// memory or cannot hand a frame back.
pub open spec fn hwdecode_signatures() -> Seq<Seq<char>> {
    seq![
        "enomem"@,
        "cannot allocate memory"@,
        "failed to transfer data to output frame"@,
        "d3d11va"@,
        "hwaccel"@,
        "dxva"@,
        "d3d11"@,
    ]
}

/// Whether a stderr text, already in lower case, shows a hardware decode failure.
pub fn mentions_hwdecode(haystack: &str) -> (r: bool)
    ensures
        r == contains_any(haystack@, hwdecode_signatures()),
{
    let signatures = text::list(
        vec![
            "enomem",
            "cannot allocate memory",
            "failed to transfer data to output frame",
            "d3d11va",
            "hwaccel",
            "dxva",
            "d3d11",
        ],
    );
    assert(views(signatures@) =~= hwdecode_signatures());
    text::has_any(haystack, signatures.as_slice())
}

/// Whether an ffmpeg failure looks like a hardware-decode problem, the kind that
/// a retry with software decoding can recover from.
pub fn is_hwdecode_failure(stderr: &str) -> (r: bool)
    ensures
        r == contains_any(lowered(stderr@), hwdecode_signatures()),
{
    mentions_hwdecode(text::to_lowercase(stderr).as_str())
}

} // verus!
