//! What a combine pass asks of ffmpeg, read back from its arguments.
use vstd::prelude::*;

use vstd::utf8::*;

use crate::reading::{gives, lemma_gives};
use crate::text::{contains, contains_any, decimal, occurs_at};
use crate::video::concat::{
    cmdline_length, hwdecode_signatures, input_args, map_metadata, pass_args, work_args,
};
use crate::video::encoder::{EncoderKind, QualityTier, ResolvedEncoder};
use crate::video::encoder_laws::{decodes, encodes, law_encoders_encode, law_hardware_decodes};
use crate::video::ladder::PassView;

verus! {

/// How many arguments stand before the `-i` of each input: two where it is decoded in
/// hardware.
pub open spec fn decode_words(pass: PassView, encoder: ResolvedEncoder) -> int {
    if pass.inputs.len() > 1 && encoder.hardware_decode && encoder.kind != EncoderKind::Cpu {
        2
    } else {
        0
    }
}

/// Whether input `k` is opened in its place.
pub open spec fn opens(
    args: Seq<Seq<char>>,
    pass: PassView,
    encoder: ResolvedEncoder,
    k: int,
) -> bool {
    let d = decode_words(pass, encoder);
    let at = 1 + k * (d + 2);
    &&& at + d + 1 < args.len()
    &&& args[at + d] == "-i"@
    &&& args[at + d + 1] == pass.inputs[k]
    &&& d == 2 ==> decodes(seq![args[at], args[at + 1]], encoder)
}

/// Whether a block of arguments encodes for a tier.
pub open spec fn has_encode(args: Seq<Seq<char>>, kind: EncoderKind, tier: QualityTier) -> bool {
    exists|a: Seq<Seq<char>>, b: Seq<Seq<char>>, c: Seq<Seq<char>>| #[trigger]
        (a + b + c) == args && encodes(b, kind, tier)
}

/// What a pass does with its inputs, from argument `w` on.
pub open spec fn works(
    args: Seq<Seq<char>>,
    pass: PassView,
    audio_bitrate_k: u32,
    encoder: ResolvedEncoder,
    w: int,
) -> bool {
    if pass.inputs.len() <= 1 {
        &&& args[w] == "-map"@ && args[w + 1] == "0:v"@
        &&& args[w + 2] == "-map"@ && args[w + 3] == "0:a"@
        &&& gives(args, "-c"@, "copy"@)
    } else {
        &&& args[w] == "-filter_complex_script"@ && args[w + 1] == pass.filter_script
        &&& args[w + 2] == "-map"@ && args[w + 3] == "[vout]"@
        &&& args[w + 4] == "-map"@ && args[w + 5] == "[aout]"@
        &&& if pass.is_final {
            &&& has_encode(args, encoder.kind, QualityTier::Final)
            &&& gives(args, "-c:a"@, "aac"@)
            &&& gives(args, "-b:a"@, decimal(audio_bitrate_k as nat) + "k"@)
        } else {
            &&& has_encode(args, encoder.kind, QualityTier::Intermediate)
            &&& gives(args, "-c:a"@, "flac"@)
        }
    }
}

/// What a pass does: it opens its clips in order, and behind them the metadata where
/// there is any. A single clip is copied. More are put through the pass's filtergraph
/// and encoded: in the final pass at final quality with AAC audio at the given bit rate,
/// else as an intermediate with lossless audio. Tags come from the metadata, which is
/// the input behind the clips.
pub open spec fn runs(
    args: Seq<Seq<char>>,
    pass: PassView,
    metadata: Option<Seq<char>>,
    audio_bitrate_k: u32,
    encoder: ResolvedEncoder,
) -> bool {
    let n = pass.inputs.len() as int;
    let m = 1 + n * (decode_words(pass, encoder) + 2);
    let w = if metadata is Some {
        m + 2
    } else {
        m
    };
    &&& args.len() > w + 4 && args[0] == "-y"@ && args.last() == pass.output
    &&& forall|k: int| 0 <= k < n ==> #[trigger] opens(args, pass, encoder, k)
    &&& metadata is Some ==> args[m] == "-i"@ && args[m + 1] == metadata->0 && gives(
        args,
        "-map_metadata"@,
        decimal(n as nat),
    )
    &&& works(args, pass, audio_bitrate_k, encoder, w)
    &&& pass.is_final ==> gives(args, "-movflags"@, "+faststart"@)
}

/// The place of input `k` among the arguments that open the inputs.
proof fn lemma_input(inputs: Seq<Seq<char>>, decode: Seq<Seq<char>>, n: nat, k: int)
    requires
        0 <= k <= n <= inputs.len(),
    ensures
        input_args(inputs, decode, n).len() == n * (decode.len() + 2),
        0 <= k * (decode.len() + 2) <= n * (decode.len() + 2),
        k < n ==> (k + 1) * (decode.len() + 2) <= n * (decode.len() + 2) && (k + 1) * (decode.len()
            + 2) == k * (decode.len() + 2) + decode.len() + 2,
        k < n ==> input_args(inputs, decode, n).subrange(
            k * (decode.len() + 2),
            (k + 1) * (decode.len() + 2),
        ) == decode + seq!["-i"@, inputs[k]],
    decreases n,
{
    let s = (decode.len() + 2) as int;
    let all = input_args(inputs, decode, n);
    assert(0 <= k * s <= n * s) by (nonlinear_arith)
        requires
            0 <= k <= n,
            s >= 2,
    ;
    assert((k + 1) * s == k * s + s) by (nonlinear_arith);
    if n > 0 {
        let m = (n - 1) as nat;
        let front = input_args(inputs, decode, m);
        let last = decode + seq!["-i"@, inputs[n - 1]];
        assert(n * s == m * s + s) by (nonlinear_arith)
            requires
                n == m + 1,
        ;
        assert(all =~= front + last);
        if k < n {
            assert((k + 1) * s <= n * s) by (nonlinear_arith)
                requires
                    k + 1 <= n,
                    s >= 2,
            ;
        }
        if k < m {
            lemma_input(inputs, decode, m, k);
            assert(all.subrange(k * s, (k + 1) * s) =~= front.subrange(k * s, (k + 1) * s));
        } else {
            lemma_input(inputs, decode, m, 0);
            if k == m {
                assert(all.subrange(m * s, m * s + s) =~= last);
            }
        }
    } else {
        assert(0 * s == 0) by (nonlinear_arith);
    }
}

/// An input that stands among the opened ones is opened in the whole command.
proof fn lemma_opens(
    args: Seq<Seq<char>>,
    pass: PassView,
    encoder: ResolvedEncoder,
    decode: Seq<Seq<char>>,
    rest: Seq<Seq<char>>,
    k: int,
)
    requires
        0 <= k < pass.inputs.len(),
        decode.len() == decode_words(pass, encoder),
        decode.len() == 2 ==> decodes(decode, encoder),
        args == seq!["-y"@] + input_args(pass.inputs, decode, pass.inputs.len()) + rest,
    ensures
        opens(args, pass, encoder, k),
{
    let d = decode.len() as int;
    let n = pass.inputs.len();
    let inputs = input_args(pass.inputs, decode, n);
    lemma_input(pass.inputs, decode, n, k);
    let from = k * (d + 2);
    let part = inputs.subrange(from, from + d + 2);
    assert(part == decode + seq!["-i"@, pass.inputs[k]]);
    assert(part[d] == "-i"@ && part[d + 1] == pass.inputs[k]);
    assert(args[1 + from + d] == part[d]);
    assert(args[1 + from + d + 1] == part[d + 1]);
    if d == 2 {
        assert(args[1 + from] == part[0] && args[1 + from + 1] == part[1]);
        assert(seq![args[1 + from], args[1 + from + 1]] =~= decode);
    }
}

proof fn lemma_work(
    pass: PassView,
    metadata: Option<Seq<char>>,
    audio_bitrate_k: u32,
    encoder: ResolvedEncoder,
    before: Seq<Seq<char>>,
    after: Seq<Seq<char>>,
)
    ensures
        ({
            let n = pass.inputs.len();
            let work = work_args(pass, metadata, audio_bitrate_k, encoder);
            let args = before + work + after;
            &&& work.len() >= 6
            &&& metadata is Some ==> gives(args, "-map_metadata"@, decimal(n))
            &&& works(args, pass, audio_bitrate_k, encoder, before.len() as int)
        }),
{
    let n = pass.inputs.len();
    let work = work_args(pass, metadata, audio_bitrate_k, encoder);
    let args = before + work + after;
    let b = before.len() as int;
    let meta = map_metadata(metadata, n);
    assert(work.len() >= 6);
    assert(args[b] == work[0] && args[b + 1] == work[1] && args[b + 2] == work[2] && args[b + 3]
        == work[3] && args[b + 4] == work[4] && args[b + 5] == work[5]);
    if n <= 1 {
        if metadata is Some {
            assert(args[b + 4] == "-map_metadata"@ && args[b + 5] == decimal(n));
            lemma_gives(args, b + 4, "-map_metadata"@, decimal(n));
        }
        let c = b + 4 + meta.len();
        assert(args[c] == "-c"@ && args[c + 1] == "copy"@);
        lemma_gives(args, c, "-c"@, "copy"@);
    } else {
        if metadata is Some {
            assert(args[b + 6] == "-map_metadata"@ && args[b + 7] == decimal(n));
            lemma_gives(args, b + 6, "-map_metadata"@, decimal(n));
        }
        let head = seq![
            "-filter_complex_script"@,
            pass.filter_script,
            "-map"@,
            "[vout]"@,
            "-map"@,
            "[aout]"@,
        ] + meta;
        let tier = if pass.is_final {
            QualityTier::Final
        } else {
            QualityTier::Intermediate
        };
        let sound = if pass.is_final {
            seq!["-c:a"@, "aac"@, "-b:a"@, decimal(audio_bitrate_k as nat) + "k"@]
        } else {
            seq!["-c:a"@, "flac"@]
        };
        let block = encoder.spec_video_args(tier);
        law_encoders_encode(encoder, tier);
        assert(work =~= head + block + sound);
        assert(args =~= (before + head) + block + (sound + after));
        assert(has_encode(args, encoder.kind, tier));
        let c = b + head.len() + block.len();
        assert(args[c] == sound[0] && args[c + 1] == sound[1]);
        lemma_gives(args, c, "-c:a"@, sound[1]);
        if pass.is_final {
            assert(args[c + 2] == sound[2] && args[c + 3] == sound[3]);
            lemma_gives(args, c + 2, "-b:a"@, decimal(audio_bitrate_k as nat) + "k"@);
        }
    }
}

/// A pass plays its clips in order, tags and encodes them as its place in the ladder
/// asks, and writes its own file.
pub proof fn law_a_pass_does_what_is_planned(
    pass: PassView,
    metadata: Option<Seq<char>>,
    audio_bitrate_k: u32,
    encoder: ResolvedEncoder,
)
    ensures
        runs(
            pass_args(pass, metadata, audio_bitrate_k, encoder),
            pass,
            metadata,
            audio_bitrate_k,
            encoder,
        ),
{
    let args = pass_args(pass, metadata, audio_bitrate_k, encoder);
    let n = pass.inputs.len();
    let decode = if n > 1 {
        encoder.spec_decode_args()
    } else {
        Seq::empty()
    };
    law_hardware_decodes(encoder);
    let d = decode_words(pass, encoder);
    assert(decode.len() == d);
    let inputs = input_args(pass.inputs, decode, n);
    lemma_input(pass.inputs, decode, n, 0);
    let meta = match metadata {
        Some(meta) => seq!["-i"@, meta],
        None => Seq::empty(),
    };
    let work = work_args(pass, metadata, audio_bitrate_k, encoder);
    let output = if pass.is_final {
        seq!["-movflags"@, "+faststart"@, pass.output]
    } else {
        seq![pass.output]
    };
    let before = seq!["-y"@] + inputs + meta;
    assert(args == before + work + output);
    lemma_work(pass, metadata, audio_bitrate_k, encoder, before, output);
    let rest = meta + work + output;
    assert(args =~= seq!["-y"@] + inputs + rest);
    assert forall|k: int| 0 <= k < n implies #[trigger] opens(args, pass, encoder, k) by {
        lemma_opens(args, pass, encoder, decode, rest, k);
    }
    lemma_places(args, seq!["-y"@] + inputs, meta, work, output);
}

proof fn lemma_places(
    args: Seq<Seq<char>>,
    opened: Seq<Seq<char>>,
    meta: Seq<Seq<char>>,
    work: Seq<Seq<char>>,
    output: Seq<Seq<char>>,
)
    requires
        args == opened + meta + work + output,
        opened.len() > 0,
        output.len() > 0,
    ensures
        args[0] == opened[0],
        args.last() == output.last(),
        meta.len() == 2 ==> args[opened.len() as int] == meta[0] && args[(opened.len() + 1) as int]
            == meta[1],
        output.len() == 3 ==> gives(args, output[0], output[1]),
{
    if output.len() == 3 {
        let at = (opened.len() + meta.len() + work.len()) as int;
        assert(args[at] == output[0] && args[at + 1] == output[1]);
        lemma_gives(args, at, output[0], output[1]);
    }
}

/// A command line is as long as its program and its arguments, each of which takes a
/// space and two quotes besides its own bytes, in whatever groups they are added.
pub proof fn law_every_argument_counts_its_bytes_and_three(
    program: Seq<char>,
    a: Seq<Seq<char>>,
    b: Seq<Seq<char>>,
    arg: Seq<char>,
)
    ensures
        cmdline_length(program, Seq::empty()) == encode_utf8(program).len(),
        cmdline_length(program, seq![arg]) == encode_utf8(program).len() + encode_utf8(arg).len()
            + 3,
        cmdline_length(program, a + b) + encode_utf8(program).len() == cmdline_length(program, a)
            + cmdline_length(program, b),
    decreases b.len(),
{
    assert(seq![arg].drop_last() =~= Seq::empty());
    assert(cmdline_length(program, seq![arg].drop_last()) == encode_utf8(program).len());
    if b.len() == 0 {
        assert(a + b =~= a);
    } else {
        assert((a + b).drop_last() =~= a + b.drop_last());
        law_every_argument_counts_its_bytes_and_three(program, a, b.drop_last(), arg);
    }
}

/// A failure is put down to hardware decoding exactly when its output mentions memory
/// that could not be had, a frame that could not be handed back, or the decoder itself.
pub proof fn law_hardware_decode_failures_are_told_by_their_words(output: Seq<char>)
    ensures
        contains_any(output, hwdecode_signatures()) <==> {
            ||| contains(output, "enomem"@)
            ||| contains(output, "cannot allocate memory"@)
            ||| contains(output, "failed to transfer data to output frame"@)
            ||| contains(output, "hwaccel"@)
            ||| contains(output, "dxva"@)
            ||| contains(output, "d3d11"@)
        },
{
    let all = hwdecode_signatures();
    assert(all[0] == "enomem"@ && all[1] == "cannot allocate memory"@ && all[2]
        == "failed to transfer data to output frame"@ && all[3] == "d3d11va"@ && all[4]
        == "hwaccel"@ && all[5] == "dxva"@ && all[6] == "d3d11"@);
    if contains(output, "d3d11va"@) {
        let at = choose|at: int| #[trigger] occurs_at(output, "d3d11va"@, at);
        reveal_strlit("d3d11va");
        reveal_strlit("d3d11");
        assert(output.subrange(at, at + 5) =~= output.subrange(at, at + 7).subrange(0, 5));
        assert("d3d11va"@.subrange(0, 5) =~= "d3d11"@);
        assert(occurs_at(output, "d3d11"@, at));
    }
}

} // verus!
