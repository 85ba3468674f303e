//! What the choice of an encoder leads to, and how the machine's answers are read.
use vstd::prelude::*;

use crate::reading::{gives, lemma_gives};
use crate::text::{
    ascii_small, contains, ends, lines_of, lowered, occurs_at, starts, trimmed, words_of,
};
use crate::video::encoder::{
    after_divider, codec_args, device_lines, first_filled, last_telling, second_words, shortened,
    telling_line, test_request, veto, Availability, EncoderChoice, EncoderKind, EncoderSupport,
    QualityTier, ResolvedEncoder, Vendor,
};

verus! {

// ---------------------------------------------------------------------------
// Choice
// ---------------------------------------------------------------------------

/// Whether a note tells that an encoder with this name cannot be used, and why.
pub open spec fn excuses(note: Option<Seq<char>>, name: Seq<char>, why: Seq<char>) -> bool {
    &&& note is Some
    &&& starts(note->0, name)
    &&& contains(note->0, "("@ + why + ")"@)
    &&& ends(note->0, "using CPU (libx264) instead."@)
}

/// Whether a named hardware encoder was taken at its word: itself where it is
/// available, and CPU encoding with an excuse where it is not.
pub open spec fn taken_or_excused(
    there: Availability,
    kind: EncoderKind,
    name: Seq<char>,
    encoder: ResolvedEncoder,
    note: Option<Seq<char>>,
) -> bool {
    match there {
        Availability::Available => encoder.kind == kind && note is None,
        Availability::Unavailable(why) => encoder.kind == EncoderKind::Cpu && excuses(
            note,
            name,
            why@,
        ),
    }
}

/// Whether an encoder and a note are what a choice stands for on a machine.
pub open spec fn stands_for(
    support: EncoderSupport,
    choice: EncoderChoice,
    hardware_decode: bool,
    encoder: ResolvedEncoder,
    note: Option<Seq<char>>,
) -> bool {
    // Whoever chooses CPU encoding gets it, whatever else there is.
    &&& choice == EncoderChoice::Cpu ==> encoder.kind == EncoderKind::Cpu
        && !encoder.hardware_decode && note is None
    &&& choice == EncoderChoice::Nvenc ==> taken_or_excused(
        support.nvenc,
        EncoderKind::Nvenc,
        "NVIDIA NVENC"@,
        encoder,
        note,
    )
    &&& choice == EncoderChoice::Qsv ==> taken_or_excused(
        support.qsv,
        EncoderKind::Qsv,
        "Intel Quick Sync"@,
        encoder,
        note,
    )
    &&& choice == EncoderChoice::Amf ==> taken_or_excused(
        support.amf,
        EncoderKind::Amf,
        "AMD AMF"@,
        encoder,
        note,
    )
    // `Auto` never apologises, and uses hardware wherever there is any: NVIDIA's before
    // Intel's before AMD's.
    &&& choice == EncoderChoice::Auto ==> {
        &&& note is None
        &&& encoder.kind == EncoderKind::Nvenc <==> support.nvenc is Available
        &&& encoder.kind == EncoderKind::Qsv <==> support.nvenc !is Available
            && support.qsv is Available
        &&& encoder.kind == EncoderKind::Amf <==> support.nvenc !is Available
            && support.qsv !is Available && support.amf is Available
    }
    // Hardware decoding goes with hardware encoding.
    &&& encoder.hardware_decode <==> hardware_decode && encoder.kind != EncoderKind::Cpu
}

proof fn lemma_excuse(name: Seq<char>, why: Seq<char>)
    ensures
        excuses(
            Some(name + " is not available ("@ + why + "); using CPU (libx264) instead."@),
            name,
            why,
        ),
{
    let note = name + " is not available ("@ + why + "); using CPU (libx264) instead."@;
    assert(" is not available ("@ =~= " is not available "@ + "("@) by {
        reveal_strlit(" is not available (");
        reveal_strlit(" is not available ");
        reveal_strlit("(");
    }
    assert("); using CPU (libx264) instead."@ =~= ")"@ + "; "@ + "using CPU (libx264) instead."@) by {
        reveal_strlit("); using CPU (libx264) instead.");
        reveal_strlit(")");
        reveal_strlit("; ");
        reveal_strlit("using CPU (libx264) instead.");
    }
    assert(note.subrange(0, name.len() as int) =~= name);
    let key = "("@ + why + ")"@;
    let at = (name.len() + " is not available "@.len()) as int;
    let last = "using CPU (libx264) instead."@;
    assert(note =~= name + " is not available "@ + key + "; "@ + last);
    assert(note.subrange(at, at + key.len()) =~= key);
    assert(occurs_at(note, key, at));
    assert(note.subrange(note.len() - last.len(), note.len() as int) =~= last);
}

/// A choice resolves to what it says. CPU encoding is never overruled, whatever
/// hardware there is; a hardware encoder stands for itself, or for CPU encoding and a
/// note that says why; and `Auto` takes hardware wherever there is any.
pub proof fn law_a_choice_is_honoured(
    support: EncoderSupport,
    choice: EncoderChoice,
    hardware_decode: bool,
)
    ensures
        stands_for(
            support,
            choice,
            hardware_decode,
            support.resolved_encoder(choice, hardware_decode),
            support.fallback_note(choice),
        ),
{
    match choice {
        EncoderChoice::Nvenc => if let Availability::Unavailable(why) = support.nvenc {
            lemma_excuse("NVIDIA NVENC"@, why@);
        },
        EncoderChoice::Qsv => if let Availability::Unavailable(why) = support.qsv {
            lemma_excuse("Intel Quick Sync"@, why@);
        },
        EncoderChoice::Amf => if let Availability::Unavailable(why) = support.amf {
            lemma_excuse("AMD AMF"@, why@);
        },
        _ => {},
    }
}

// ---------------------------------------------------------------------------
// Arguments
// ---------------------------------------------------------------------------

/// The option that sets an encoder's quality.
pub open spec fn quality_flag(kind: EncoderKind) -> Seq<char> {
    match kind {
        EncoderKind::Cpu => "-crf"@,
        EncoderKind::Nvenc => "-cq"@,
        EncoderKind::Qsv => "-global_quality"@,
        EncoderKind::Amf => "-qp_p"@,
    }
}

/// Whether arguments encode for a tier. An intermediate batch, which is encoded again,
/// gets the better number; software makes up for it with a faster preset.
pub open spec fn encodes(args: Seq<Seq<char>>, kind: EncoderKind, tier: QualityTier) -> bool {
    &&& gives(args, "-pix_fmt"@, "yuv420p"@)
    &&& match kind {
        EncoderKind::Cpu => gives(args, "-c:v"@, "libx264"@),
        EncoderKind::Nvenc => gives(args, "-c:v"@, "h264_nvenc"@),
        EncoderKind::Qsv => gives(args, "-c:v"@, "h264_qsv"@),
        EncoderKind::Amf => gives(args, "-c:v"@, "h264_amf"@),
    }
    &&& if tier == QualityTier::Intermediate {
        gives(
            args,
            quality_flag(kind),
            if kind == EncoderKind::Cpu {
                "16"@
            } else {
                "20"@
            },
        )
    } else {
        gives(
            args,
            quality_flag(kind),
            if kind == EncoderKind::Cpu {
                "18"@
            } else {
                "22"@
            },
        )
    }
    &&& kind == EncoderKind::Cpu ==> if tier == QualityTier::Intermediate {
        gives(args, "-preset"@, "veryfast"@)
    } else {
        gives(args, "-preset"@, "medium"@)
    }
    &&& kind == EncoderKind::Cpu && tier == QualityTier::Clip ==> gives(
        args,
        "-tune"@,
        "stillimage"@,
    )
    &&& kind == EncoderKind::Nvenc ==> gives(args, "-rc"@, "vbr"@) && gives(args, "-b:v"@, "0"@)
        && if tier == QualityTier::Intermediate {
        gives(args, "-preset"@, "p4"@)
    } else {
        gives(args, "-preset"@, "p5"@)
    }
    &&& kind == EncoderKind::Amf ==> gives(args, "-rc"@, "cqp"@) && if tier
        == QualityTier::Intermediate {
        gives(args, "-quality"@, "speed"@) && gives(args, "-qp_i"@, "20"@)
    } else {
        gives(args, "-quality"@, "quality"@) && gives(args, "-qp_i"@, "22"@)
    }
    &&& args.len() == match kind {
        EncoderKind::Cpu => if tier == QualityTier::Clip {
            10int
        } else {
            8
        },
        EncoderKind::Qsv => 6,
        _ => 12,
    }
}

/// The arguments of an encoder name its codec and the quality of the tier, and every
/// path gives 8-bit 4:2:0 video.
pub proof fn law_encoders_encode(encoder: ResolvedEncoder, tier: QualityTier)
    ensures
        encodes(encoder.spec_video_args(tier), encoder.kind, tier),
{
    let args = encoder.spec_video_args(tier);
    let n = codec_args(encoder.kind, tier).len() as int;
    lemma_gives(args, n, "-pix_fmt"@, "yuv420p"@);
    lemma_gives(args, 0, args[0], args[1]);
    lemma_gives(args, 2, args[2], args[3]);
    lemma_gives(args, 4, args[4], args[5]);
    if n >= 8 {
        lemma_gives(args, 6, args[6], args[7]);
    }
    if n >= 10 {
        lemma_gives(args, 8, args[8], args[9]);
    }
}

/// Whether arguments decode an input in hardware, by the method of the encoder's
/// vendor, where that is wanted, and are none where it is not.
pub open spec fn decodes(args: Seq<Seq<char>>, encoder: ResolvedEncoder) -> bool {
    if encoder.hardware_decode && encoder.kind != EncoderKind::Cpu {
        &&& args.len() == 2
        &&& args[0] == "-hwaccel"@
        &&& encoder.kind == EncoderKind::Nvenc ==> args[1] == "cuda"@
        &&& encoder.kind == EncoderKind::Qsv ==> args[1] == "qsv"@
        &&& encoder.kind == EncoderKind::Amf ==> args[1] == "d3d11va"@
    } else {
        args.len() == 0
    }
}

/// Inputs are decoded in hardware exactly where that is on and the encoder is one.
pub proof fn law_hardware_decodes(encoder: ResolvedEncoder)
    ensures
        decodes(encoder.spec_decode_args(), encoder),
{
}

/// The names of an encoder belong together: its codec is the one that its full label
/// and its choice show, and its short label names its vendor.
pub proof fn law_encoder_names_belong_together(choice: EncoderChoice)
    requires
        choice.spec_kind() is Some,
    ensures
        choice.spec_label() == choice.spec_kind()->0.spec_full_label(),
        ends(choice.spec_label(), "("@ + choice.spec_kind()->0.spec_codec() + ")"@),
        choice.spec_kind()->0.spec_vendor() is Some,
        starts(choice.spec_label(), choice.spec_kind()->0.spec_vendor()->0.spec_human()),
        starts(choice.spec_label(), choice.spec_kind()->0.spec_short_label()),
        choice == EncoderChoice::Nvenc ==> choice.spec_kind()->0.spec_codec() == "h264_nvenc"@,
        choice == EncoderChoice::Qsv ==> choice.spec_kind()->0.spec_codec() == "h264_qsv"@,
        choice == EncoderChoice::Amf ==> choice.spec_kind()->0.spec_codec() == "h264_amf"@,
{
    let kind = choice.spec_kind()->0;
    let label = kind.spec_full_label();
    let short = kind.spec_short_label();
    let codec = kind.spec_codec();
    assert(choice.spec_label() =~= label) by {
        reveal_strlit("NVIDIA NVENC (h264_nvenc)");
        reveal_strlit("Intel Quick Sync (h264_qsv)");
        reveal_strlit("AMD AMF (h264_amf)");
        reveal_strlit("NVIDIA NVENC");
        reveal_strlit("Intel Quick Sync");
        reveal_strlit("AMD AMF");
        reveal_strlit("h264_nvenc");
        reveal_strlit("h264_qsv");
        reveal_strlit("h264_amf");
        reveal_strlit(" (");
        reveal_strlit(")");
    }
    let tail = "("@ + codec + ")"@;
    assert(" ("@ =~= " "@ + "("@) by {
        reveal_strlit(" (");
        reveal_strlit(" ");
        reveal_strlit("(");
    }
    assert(label =~= short + " "@ + tail);
    assert(label.subrange(label.len() - tail.len(), label.len() as int) =~= tail);
    assert(label.subrange(0, short.len() as int) =~= short);
    let vendor = kind.spec_vendor()->0.spec_human();
    assert(vendor.len() <= short.len() && short.subrange(0, vendor.len() as int) =~= vendor) by {
        reveal_strlit("NVIDIA NVENC");
        reveal_strlit("Intel Quick Sync");
        reveal_strlit("AMD AMF");
        reveal_strlit("NVIDIA");
        reveal_strlit("Intel");
        reveal_strlit("AMD");
    }
    assert(label.subrange(0, vendor.len() as int) =~= short.subrange(0, vendor.len() as int));
}

// ---------------------------------------------------------------------------
// Detection
// ---------------------------------------------------------------------------

/// Whether line `i` is the first with a divider.
pub open spec fn divides(lines: Seq<Seq<char>>, i: int) -> bool {
    &&& 0 <= i < lines.len()
    &&& contains(lines[i], "------"@)
    &&& forall|k: int| 0 <= k < i ==> !contains(#[trigger] lines[k], "------"@)
}

/// Whether a line gives an encoder's name, after its flags.
pub open spec fn names_encoder(line: Seq<char>, name: Seq<char>) -> bool {
    words_of(line).len() >= 2 && words_of(line)[1] == name
}

/// Whether names are those that a listing gives after its divider.
pub open spec fn listed(lines: Seq<Seq<char>>, names: Seq<Seq<char>>) -> bool {
    forall|name: Seq<char>| #[trigger]
        names.contains(name) <==> exists|i: int, j: int| #[trigger]
            divides(lines, i) && i < j < lines.len() && #[trigger] names_encoder(lines[j], name)
}

proof fn lemma_after_divider(lines: Seq<Seq<char>>)
    ensures
        (exists|i: int| #[trigger] divides(lines, i) && after_divider(lines) == lines.skip(i + 1))
            || (after_divider(lines).len() == 0 && forall|i: int| !#[trigger] divides(lines, i)),
    decreases lines.len(),
{
    if lines.len() > 0 {
        if contains(lines[0], "------"@) {
            assert(divides(lines, 0));
        } else {
            let rest = lines.skip(1);
            lemma_after_divider(rest);
            if exists|i: int| #[trigger] divides(rest, i) && after_divider(rest) == rest.skip(i + 1) {
                let i = choose|i: int| #[trigger]
                    divides(rest, i) && after_divider(rest) == rest.skip(i + 1);
                assert forall|k: int| 0 <= k < i + 1 implies !contains(
                    #[trigger] lines[k],
                    "------"@,
                ) by {
                    if k > 0 {
                        assert(lines[k] == rest[k - 1]);
                    }
                }
                assert(lines[i + 1] == rest[i]);
                assert(divides(lines, i + 1));
                assert(rest.skip(i + 1) =~= lines.skip(i + 2));
            } else {
                assert forall|i: int| !#[trigger] divides(lines, i) by {
                    if divides(lines, i) {
                        assert(i > 0);
                        assert(rest[i - 1] == lines[i]);
                        assert forall|k: int| 0 <= k < i - 1 implies !contains(
                            #[trigger] rest[k],
                            "------"@,
                        ) by {
                            assert(rest[k] == lines[k + 1]);
                        }
                        assert(divides(rest, i - 1));
                    }
                }
            }
        }
    }
}

proof fn lemma_second_words(lines: Seq<Seq<char>>, name: Seq<char>)
    ensures
        second_words(lines).contains(name) <==> exists|j: int|
            0 <= j < lines.len() && #[trigger] names_encoder(lines[j], name),
    decreases lines.len(),
{
    if lines.len() > 0 {
        let front = lines.drop_last();
        let n = front.len() as int;
        lemma_second_words(front, name);
        let names = second_words(lines);
        let before = second_words(front);
        if before.contains(name) {
            let k = choose|k: int| 0 <= k < before.len() && before[k] == name;
            assert(names[k] == name);
            let j = choose|j: int| 0 <= j < front.len() && #[trigger] names_encoder(front[j], name);
            assert(names_encoder(lines[j], name));
        }
        if names_encoder(lines[n], name) {
            assert(names.last() == name);
        }
        if names.contains(name) && !before.contains(name) {
            let k = choose|k: int| 0 <= k < names.len() && names[k] == name;
            if k < before.len() {
                assert(before[k] == name);
            }
            assert(names_encoder(lines[n], name));
        }
        if exists|j: int| 0 <= j < lines.len() && #[trigger] names_encoder(lines[j], name) {
            let j = choose|j: int| 0 <= j < lines.len() && #[trigger] names_encoder(lines[j], name);
            if j < n {
                assert(names_encoder(front[j], name));
            }
        }
    }
}

/// The encoders that a listing shows are exactly the second words of the lines after
/// its first divider.
pub proof fn law_encoders_are_read_after_the_divider(lines: Seq<Seq<char>>)
    ensures
        listed(lines, second_words(after_divider(lines))),
{
    let rest = after_divider(lines);
    lemma_after_divider(lines);
    assert forall|name: Seq<char>| #[trigger]
        second_words(rest).contains(name) <==> exists|i: int, j: int| #[trigger]
            divides(lines, i) && i < j < lines.len() && #[trigger] names_encoder(
                lines[j],
                name,
            ) by {
        lemma_second_words(rest, name);
        if second_words(rest).contains(name) {
            let j = choose|j: int| 0 <= j < rest.len() && #[trigger] names_encoder(rest[j], name);
            let i = choose|i: int| #[trigger] divides(lines, i) && rest == lines.skip(i + 1);
            assert(divides(lines, i) && names_encoder(lines[i + 1 + j], name));
        }
        if exists|i: int, j: int| #[trigger]
            divides(lines, i) && i < j < lines.len() && #[trigger] names_encoder(lines[j], name) {
            let (i, j) = choose|i: int, j: int| #[trigger]
                divides(lines, i) && i < j < lines.len() && #[trigger] names_encoder(lines[j], name);
            let d = choose|d: int| #[trigger] divides(lines, d) && rest == lines.skip(d + 1);
            assert(d == i) by {
                if d < i {
                    assert(!contains(lines[d], "------"@));
                }
                if i < d {
                    assert(!contains(lines[i], "------"@));
                }
            }
            assert(names_encoder(rest[j - i - 1], name));
        }
    }
}

/// The devices of a listing are its lines but for blank ones and the header, in any
/// case of letters, each without the white space around it, in order.
pub proof fn law_devices_are_the_filled_lines(lines: Seq<Seq<char>>, line: Seq<char>)
    ensures
        device_lines(Seq::empty()) == Seq::<Seq<char>>::empty(),
        trimmed(line).len() == 0 ==> device_lines(lines.push(line)) == device_lines(lines),
        ascii_small(trimmed(line)) == "name"@ ==> device_lines(lines.push(line))
            == device_lines(lines),
        trimmed(line).len() > 0 && ascii_small(trimmed(line)) != "name"@
            ==> device_lines(lines.push(line)) == device_lines(lines).push(trimmed(line)),
{
    assert(lines.push(line).drop_last() =~= lines);
    assert(ascii_small("name"@) =~= "name"@) by {
        reveal_strlit("name");
    }
}

/// A vendor is recognised by the words that its devices carry, and by no others.
pub proof fn law_vendors_are_recognised(name: Seq<char>)
    ensures
        contains(name, "nvidia"@) ==> Vendor::Nvidia.named_in(name),
        contains(name, "geforce"@) ==> Vendor::Nvidia.named_in(name),
        contains(name, "quadro"@) ==> Vendor::Nvidia.named_in(name),
        Vendor::Nvidia.named_in(name) ==> contains(name, "nvidia"@) || contains(name, "geforce"@)
            || contains(name, "quadro"@),
        Vendor::Intel.named_in(name) <==> contains(name, "intel"@),
        contains(name, "amd"@) ==> Vendor::Amd.named_in(name),
        contains(name, "radeon"@) ==> Vendor::Amd.named_in(name),
        Vendor::Amd.named_in(name) ==> contains(name, "amd"@) || contains(name, "radeon"@),
{
}

/// Whether an encoder could work as far as the machine's lists tell: ffmpeg has it, and
/// its vendor's device is there, or nothing is known of the devices.
pub open spec fn could_work(
    kind: EncoderKind,
    compiled: Seq<Seq<char>>,
    gpus: Seq<Seq<char>>,
) -> bool {
    &&& match kind {
        EncoderKind::Cpu => compiled.contains("libx264"@),
        EncoderKind::Nvenc => compiled.contains("h264_nvenc"@),
        EncoderKind::Qsv => compiled.contains("h264_qsv"@),
        EncoderKind::Amf => compiled.contains("h264_amf"@),
    }
    &&& gpus.len() == 0 || match kind {
        EncoderKind::Cpu => true,
        EncoderKind::Nvenc => exists|i: int|
            0 <= i < gpus.len() && Vendor::Nvidia.named_in(lowered(#[trigger] gpus[i])),
        EncoderKind::Qsv => exists|i: int|
            0 <= i < gpus.len() && Vendor::Intel.named_in(lowered(#[trigger] gpus[i])),
        EncoderKind::Amf => exists|i: int|
            0 <= i < gpus.len() && Vendor::Amd.named_in(lowered(#[trigger] gpus[i])),
    }
}

/// An encoder is refused without a test exactly when it cannot work, and the refusal
/// names the codec.
pub proof fn law_only_what_cannot_work_is_refused(
    kind: EncoderKind,
    compiled: Seq<Seq<char>>,
    gpus: Seq<Seq<char>>,
)
    ensures
        veto(kind, compiled, gpus) is None <==> could_work(kind, compiled, gpus),
        veto(kind, compiled, gpus) is Some ==> ends(
            veto(kind, compiled, gpus)->0,
            kind.spec_codec() + " support"@,
        ),
{
    if let Some(why) = veto(kind, compiled, gpus) {
        let tail = kind.spec_codec() + " support"@;
        if !compiled.contains(kind.spec_codec()) {
            assert(why =~= "this ffmpeg build has no "@ + tail);
        } else {
            assert(why =~= (kind.spec_vendor()->0.spec_human()
                + " GPU not detected or ffmpeg lacks "@) + tail);
        }
        assert(why.subrange(why.len() - tail.len(), why.len() as int) =~= tail);
    }
}

/// Whether a line says something of its own, rather than report progress or carry a
/// component's tag.
pub open spec fn speaks(line: Seq<char>) -> bool {
    let t = trimmed(line);
    t.len() > 0 && !starts(t, "frame="@) && !starts(t, "["@)
}

/// Whether a line is filled at all.
pub open spec fn filled(line: Seq<char>) -> bool {
    trimmed(line).len() > 0
}

/// Whether `i` is the last line that speaks.
pub open spec fn speaks_last(lines: Seq<Seq<char>>, i: int) -> bool {
    0 <= i < lines.len() && speaks(lines[i]) && forall|k: int|
        i < k < lines.len() ==> !speaks(#[trigger] lines[k])
}

/// Whether a reason is the one to give for a failure with these lines.
pub open spec fn is_reason(lines: Seq<Seq<char>>, reason: Seq<char>) -> bool {
    &&& forall|i: int| #[trigger] speaks_last(lines, i) ==> reason == trimmed(lines[i])
    &&& (forall|k: int| 0 <= k < lines.len() ==> !speaks(#[trigger] lines[k])) ==> {
        &&& forall|i: int|
            0 <= i < lines.len() && filled(#[trigger] lines[i]) && (forall|k: int|
                0 <= k < i ==> !filled(#[trigger] lines[k])) ==> reason == trimmed(lines[i])
        &&& (forall|k: int| 0 <= k < lines.len() ==> !filled(#[trigger] lines[k])) ==> reason
            == "test encode failed"@
    }
}

proof fn lemma_last_telling(lines: Seq<Seq<char>>)
    ensures
        forall|i: int| #[trigger]
            speaks_last(lines, i) ==> last_telling(lines) == Some(trimmed(lines[i])),
        (forall|k: int| 0 <= k < lines.len() ==> !speaks(#[trigger] lines[k])) ==> last_telling(
            lines,
        ) is None,
    decreases lines.len(),
{
    if lines.len() > 0 {
        let front = lines.drop_last();
        lemma_last_telling(front);
        assert forall|i: int| #[trigger] speaks_last(lines, i) implies last_telling(lines) == Some(
            trimmed(lines[i]),
        ) by {
            if i < front.len() {
                assert(!speaks(lines[lines.len() - 1]));
                assert(speaks_last(front, i)) by {
                    assert forall|k: int| i < k < front.len() implies !speaks(
                        #[trigger] front[k],
                    ) by {
                        assert(front[k] == lines[k]);
                    }
                }
            }
        }
        if forall|k: int| 0 <= k < lines.len() ==> !speaks(#[trigger] lines[k]) {
            assert(!speaks(lines[lines.len() - 1]));
            assert forall|k: int| 0 <= k < front.len() implies !speaks(#[trigger] front[k]) by {
                assert(front[k] == lines[k]);
            }
        }
    }
}

proof fn lemma_first_filled(lines: Seq<Seq<char>>)
    ensures
        forall|i: int|
            0 <= i < lines.len() && filled(#[trigger] lines[i]) && (forall|k: int|
                0 <= k < i ==> !filled(#[trigger] lines[k])) ==> first_filled(lines) == Some(
                trimmed(lines[i]),
            ),
        (forall|k: int| 0 <= k < lines.len() ==> !filled(#[trigger] lines[k])) ==> first_filled(
            lines,
        ) is None,
    decreases lines.len(),
{
    if lines.len() > 0 {
        let rest = lines.skip(1);
        lemma_first_filled(rest);
        assert forall|i: int|
            0 <= i < lines.len() && filled(#[trigger] lines[i]) && (forall|k: int|
                0 <= k < i ==> !filled(#[trigger] lines[k])) implies first_filled(lines) == Some(
            trimmed(lines[i]),
        ) by {
            if i > 0 {
                assert(!filled(lines[0]));
                assert(rest[i - 1] == lines[i]);
                assert forall|k: int| 0 <= k < i - 1 implies !filled(#[trigger] rest[k]) by {
                    assert(rest[k] == lines[k + 1]);
                }
            }
        }
        if forall|k: int| 0 <= k < lines.len() ==> !filled(#[trigger] lines[k]) {
            assert(!filled(lines[0]));
            assert forall|k: int| 0 <= k < rest.len() implies !filled(#[trigger] rest[k]) by {
                assert(rest[k] == lines[k + 1]);
            }
        }
    }
}

/// The reason of a failed test encode is the last line of its output that says something
/// of its own, else the first that is filled, else a fixed text; and no more than 160
/// characters of it, from its start.
pub proof fn law_the_last_word_is_the_reason(stderr: Seq<char>)
    ensures
        is_reason(lines_of(stderr), telling_line(stderr)),
        shortened(telling_line(stderr), 160).len() <= 160,
        starts(telling_line(stderr), shortened(telling_line(stderr), 160)),
        shortened(telling_line(stderr), 160).len() < 160 ==> shortened(telling_line(stderr), 160)
            == telling_line(stderr),
{
    let lines = lines_of(stderr);
    lemma_last_telling(lines);
    lemma_first_filled(lines);
    let line = telling_line(stderr);
    assert(line.subrange(0, shortened(line, 160).len() as int) =~= shortened(line, 160));
}

/// A test encode encodes with the codec that is tested, as a real one would, and keeps
/// nothing.
pub proof fn law_a_test_encode_tests_its_codec(codec: Seq<char>)
    ensures
        gives(test_request(codec), "-c:v"@, codec),
        gives(test_request(codec), "-pix_fmt"@, "yuv420p"@),
        gives(test_request(codec), "-f"@, "null"@),
        gives(test_request(codec), "-f"@, "lavfi"@),
        test_request(codec).last() == "-"@,
{
    let args = test_request(codec);
    lemma_gives(args, 5, "-c:v"@, codec);
    lemma_gives(args, 7, "-pix_fmt"@, "yuv420p"@);
    lemma_gives(args, 9, "-f"@, "null"@);
    lemma_gives(args, 1, "-f"@, "lavfi"@);
}

/// A choice that names no hardware can always be picked; any other exactly when its
/// hardware can be used.
pub proof fn law_a_choice_is_as_available_as_its_encoder(
    support: EncoderSupport,
    choice: EncoderChoice,
    r: Availability,
)
    requires
        support.spec_choice_availability(choice, r),
    ensures
        choice == EncoderChoice::Auto || choice == EncoderChoice::Cpu ==> r is Available,
        choice == EncoderChoice::Nvenc ==> r == support.nvenc,
        choice == EncoderChoice::Qsv ==> r == support.qsv,
        choice == EncoderChoice::Amf ==> r == support.amf,
{
}

} // verus!
