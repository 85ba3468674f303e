//! Video encoder selection and ffmpeg argument building.
//!
//! `ffmpeg -encoders` lists every encoder the binary was compiled with, which
//! says nothing about the hardware. So availability is decided in three steps,
//! and only the last is trusted as a yes: is the encoder compiled in, is a GPU
//! of the right vendor present, and does a tiny real encode succeed. Anything
//! short of that is reported as unavailable with the reason, and CPU encoding
//! takes over.
use vstd::prelude::*;
use vstd::string::*;

use crate::config::settings::Settings;
use crate::text;
use crate::text::{ascii_small, contains, lines_of, lowered, starts, trimmed, views, words_of};
use crate::video::encoder_laws::{
    could_work, decodes, encodes, is_reason, law_a_choice_is_honoured,
    law_encoders_are_read_after_the_divider, law_encoders_encode, law_hardware_decodes,
    law_only_what_cannot_work_is_refused, law_the_last_word_is_the_reason, listed, stands_for,
};

verus! {

/// The encoder the user picked. `Auto` resolves to the best available hardware
/// encoder, or CPU when there is none.
#[derive(Debug, Clone, Copy, PartialEq, Eq, Structural)]
pub enum EncoderChoice {
    /// Pick the best available hardware encoder, else CPU.
    Auto,
    /// Force software `libx264`.
    Cpu,
    /// NVIDIA `h264_nvenc`.
    Nvenc,
    /// Intel Quick Sync `h264_qsv`.
    Qsv,
    /// AMD AMF `h264_amf`.
    Amf,
}

impl Default for EncoderChoice {
    fn default() -> (r: Self)
        ensures
            r == EncoderChoice::Auto,
    {
        EncoderChoice::Auto
    }
}

impl EncoderChoice {
    /// Every choice, in the order in which they are offered.
    pub fn all() -> (r: Vec<EncoderChoice>)
        ensures
            r@ == seq![
                EncoderChoice::Auto,
                EncoderChoice::Cpu,
                EncoderChoice::Nvenc,
                EncoderChoice::Qsv,
                EncoderChoice::Amf,
            ],
    {
        let r = vec![
            EncoderChoice::Auto,
            EncoderChoice::Cpu,
            EncoderChoice::Nvenc,
            EncoderChoice::Qsv,
            EncoderChoice::Amf,
        ];
        assert(r@ =~= seq![
            EncoderChoice::Auto,
            EncoderChoice::Cpu,
            EncoderChoice::Nvenc,
            EncoderChoice::Qsv,
            EncoderChoice::Amf,
        ]);
        r
    }

    pub open spec fn spec_label(self) -> Seq<char> {
        match self {
            EncoderChoice::Auto => "Auto (recommended)"@,
            EncoderChoice::Cpu => "CPU (libx264)"@,
            EncoderChoice::Nvenc => "NVIDIA NVENC (h264_nvenc)"@,
            EncoderChoice::Qsv => "Intel Quick Sync (h264_qsv)"@,
            EncoderChoice::Amf => "AMD AMF (h264_amf)"@,
        }
    }

    /// The name shown for this choice.
    pub fn label(self) -> (r: &'static str)
        ensures
            r@ == self.spec_label(),
    {
        match self {
            EncoderChoice::Auto => "Auto (recommended)",
            EncoderChoice::Cpu => "CPU (libx264)",
            EncoderChoice::Nvenc => "NVIDIA NVENC (h264_nvenc)",
            EncoderChoice::Qsv => "Intel Quick Sync (h264_qsv)",
            EncoderChoice::Amf => "AMD AMF (h264_amf)",
        }
    }

    pub open spec fn spec_kind(self) -> Option<EncoderKind> {
        match self {
            EncoderChoice::Auto | EncoderChoice::Cpu => None,
            EncoderChoice::Nvenc => Some(EncoderKind::Nvenc),
            EncoderChoice::Qsv => Some(EncoderKind::Qsv),
            EncoderChoice::Amf => Some(EncoderKind::Amf),
        }
    }

    /// The hardware encoder this choice names, or `None` for `Auto` and `Cpu`,
    /// which are always selectable.
    pub fn kind(self) -> (r: Option<EncoderKind>)
        ensures
            r == self.spec_kind(),
    {
        match self {
            EncoderChoice::Auto | EncoderChoice::Cpu => None,
            EncoderChoice::Nvenc => Some(EncoderKind::Nvenc),
            EncoderChoice::Qsv => Some(EncoderKind::Qsv),
            EncoderChoice::Amf => Some(EncoderKind::Amf),
        }
    }
}

/// A concrete encoder: no `Auto`.
#[derive(Debug, Clone, Copy, PartialEq, Eq, Structural)]
pub enum EncoderKind {
    Cpu,
    Nvenc,
    Qsv,
    Amf,
}

impl EncoderKind {
    pub open spec fn spec_codec(self) -> Seq<char> {
        match self {
            EncoderKind::Cpu => "libx264"@,
            EncoderKind::Nvenc => "h264_nvenc"@,
            EncoderKind::Qsv => "h264_qsv"@,
            EncoderKind::Amf => "h264_amf"@,
        }
    }

    /// The ffmpeg `-c:v` codec name.
    pub fn codec(self) -> (r: &'static str)
        ensures
            r@ == self.spec_codec(),
    {
        match self {
            EncoderKind::Cpu => "libx264",
            EncoderKind::Nvenc => "h264_nvenc",
            EncoderKind::Qsv => "h264_qsv",
            EncoderKind::Amf => "h264_amf",
        }
    }

    pub open spec fn spec_vendor(self) -> Option<Vendor> {
        match self {
            EncoderKind::Cpu => None,
            EncoderKind::Nvenc => Some(Vendor::Nvidia),
            EncoderKind::Qsv => Some(Vendor::Intel),
            EncoderKind::Amf => Some(Vendor::Amd),
        }
    }

    /// The GPU vendor whose hardware this encoder needs, if any.
    pub fn vendor(self) -> (r: Option<Vendor>)
        ensures
            r == self.spec_vendor(),
    {
        match self {
            EncoderKind::Cpu => None,
            EncoderKind::Nvenc => Some(Vendor::Nvidia),
            EncoderKind::Qsv => Some(Vendor::Intel),
            EncoderKind::Amf => Some(Vendor::Amd),
        }
    }

    pub open spec fn spec_short_label(self) -> Seq<char> {
        match self {
            EncoderKind::Cpu => "CPU (libx264)"@,
            EncoderKind::Nvenc => "NVIDIA NVENC"@,
            EncoderKind::Qsv => "Intel Quick Sync"@,
            EncoderKind::Amf => "AMD AMF"@,
        }
    }

    /// Short human name, such as "AMD AMF".
    pub fn short_label(self) -> (r: &'static str)
        ensures
            r@ == self.spec_short_label(),
    {
        match self {
            EncoderKind::Cpu => "CPU (libx264)",
            EncoderKind::Nvenc => "NVIDIA NVENC",
            EncoderKind::Qsv => "Intel Quick Sync",
            EncoderKind::Amf => "AMD AMF",
        }
    }

    pub open spec fn spec_full_label(self) -> Seq<char> {
        if self == EncoderKind::Cpu {
            "CPU (libx264)"@
        } else {
            self.spec_short_label() + " ("@ + self.spec_codec() + ")"@
        }
    }

    /// Vendor plus codec, such as "AMD AMF (h264_amf)".
    pub fn full_label(self) -> (r: String)
        ensures
            r@ == self.spec_full_label(),
    {
        if self == EncoderKind::Cpu {
            "CPU (libx264)".to_owned()
        } else {
            let mut s = self.short_label().to_owned();
            s.append(" (");
            s.append(self.codec());
            s.append(")");
            s
        }
    }

    pub open spec fn spec_hwaccel(self) -> Option<Seq<char>> {
        match self {
            EncoderKind::Cpu => None,
            EncoderKind::Nvenc => Some("cuda"@),
            EncoderKind::Qsv => Some("qsv"@),
            EncoderKind::Amf => Some("d3d11va"@),
        }
    }

    /// The `-hwaccel` method that inputs are decoded with when hardware decoding
    /// is on. The frames go back to system memory for the CPU filter graph, so
    /// this offloads the decoding alone.
    pub fn hwaccel_decode(self) -> (r: Option<&'static str>)
        ensures
            r is Some == self.spec_hwaccel() is Some,
            r is Some ==> r->0@ == self.spec_hwaccel()->0,
    {
        match self {
            EncoderKind::Cpu => None,
            EncoderKind::Nvenc => Some("cuda"),
            EncoderKind::Qsv => Some("qsv"),
            // AMD has no decode method of its own; d3d11va is the Windows path.
            EncoderKind::Amf => Some("d3d11va"),
        }
    }
}

/// What an encode is for: a throwaway intermediate can be faster and larger than
/// the file that is kept.
#[derive(Debug, Clone, Copy, PartialEq, Eq, Structural)]
pub enum QualityTier {
    /// A per-track clip: a static cover with text, so `stillimage` tuning helps.
    Clip,
    /// A combine batch that is re-encoded again: speed and fidelity.
    Intermediate,
    /// The playlist video that is kept: quality.
    Final,
}

/// A concrete encoder, and whether its inputs are to be decoded in hardware.
#[derive(Debug, Clone, Copy, PartialEq, Eq, Structural)]
pub struct ResolvedEncoder {
    pub kind: EncoderKind,
    /// Emit `-hwaccel <method>` before each input (combine stage only).
    pub hardware_decode: bool,
}

/// The codec, preset and quality arguments of an encoder for a tier.
pub open spec fn codec_args(kind: EncoderKind, tier: QualityTier) -> Seq<Seq<char>> {
    match kind {
        EncoderKind::Cpu => match tier {
            QualityTier::Clip => seq![
                "-c:v"@, "libx264"@, "-preset"@, "medium"@, "-tune"@, "stillimage"@, "-crf"@, "18"@,
            ],
            QualityTier::Intermediate => seq![
                "-c:v"@, "libx264"@, "-preset"@, "veryfast"@, "-crf"@, "16"@,
            ],
            QualityTier::Final => seq![
                "-c:v"@, "libx264"@, "-preset"@, "medium"@, "-crf"@, "18"@,
            ],
        },
        EncoderKind::Nvenc => if tier == QualityTier::Intermediate {
            seq![
                "-c:v"@, "h264_nvenc"@, "-preset"@, "p4"@, "-rc"@, "vbr"@, "-cq"@, "20"@, "-b:v"@, "0"@,
            ]
        } else {
            seq![
                "-c:v"@, "h264_nvenc"@, "-preset"@, "p5"@, "-rc"@, "vbr"@, "-cq"@, "22"@, "-b:v"@, "0"@,
            ]
        },
        EncoderKind::Qsv => if tier == QualityTier::Intermediate {
            seq!["-c:v"@, "h264_qsv"@, "-global_quality"@, "20"@]
        } else {
            seq!["-c:v"@, "h264_qsv"@, "-global_quality"@, "22"@]
        },
        EncoderKind::Amf => if tier == QualityTier::Intermediate {
            seq![
                "-c:v"@, "h264_amf"@, "-quality"@, "speed"@, "-rc"@, "cqp"@, "-qp_i"@, "20"@, "-qp_p"@, "20"@,
            ]
        } else {
            seq![
                "-c:v"@, "h264_amf"@, "-quality"@, "quality"@, "-rc"@, "cqp"@, "-qp_i"@, "22"@, "-qp_p"@, "22"@,
            ]
        },
    }
}

impl ResolvedEncoder {
    /// Plain software encoding: the universal fallback.
    pub fn cpu() -> (r: Self)
        ensures
            r == (ResolvedEncoder { kind: EncoderKind::Cpu, hardware_decode: false }),
    {
        ResolvedEncoder { kind: EncoderKind::Cpu, hardware_decode: false }
    }

    pub open spec fn spec_decode_args(self) -> Seq<Seq<char>> {
        if self.hardware_decode && self.kind.spec_hwaccel() is Some {
            seq!["-hwaccel"@, self.kind.spec_hwaccel()->0]
        } else {
            Seq::empty()
        }
    }

    /// The `-hwaccel <method>` arguments to place before an input; none when
    /// hardware decoding is off or this encoder has no method for it.
    pub fn decode_args(&self) -> (r: Vec<String>)
        ensures
            views(r@) == self.spec_decode_args(),
            decodes(views(r@), *self),
    {
        proof {
            law_hardware_decodes(*self);
        }
        let mut args: Vec<String> = Vec::new();
        if self.hardware_decode {
            if let Some(method) = self.kind.hwaccel_decode() {
                text::put(&mut args, "-hwaccel");
                text::put(&mut args, method);
            }
        }
        assert(views(args@) =~= self.spec_decode_args());
        args
    }

    pub open spec fn spec_video_args(self, tier: QualityTier) -> Seq<Seq<char>> {
        codec_args(self.kind, tier) + seq!["-pix_fmt"@, "yuv420p"@]
    }

    /// The `-c:v ...` block (codec, preset or quality, pixel format) for `tier`.
    /// Every path outputs 8-bit 4:2:0 for the widest player support.
    pub fn video_args(&self, tier: QualityTier) -> (r: Vec<String>)
        ensures
            views(r@) == self.spec_video_args(tier),
            encodes(views(r@), self.kind, tier),
    {
        proof {
            law_encoders_encode(*self, tier);
        }
        let parts: Vec<&str> = match self.kind {
            EncoderKind::Cpu => match tier {
                QualityTier::Clip => vec![
                    "-c:v", "libx264", "-preset", "medium", "-tune", "stillimage", "-crf", "18",
                ],
                QualityTier::Intermediate => vec![
                    "-c:v", "libx264", "-preset", "veryfast", "-crf", "16",
                ],
                QualityTier::Final => vec![
                    "-c:v", "libx264", "-preset", "medium", "-crf", "18",
                ],
            },
            EncoderKind::Nvenc => if tier == QualityTier::Intermediate {
                vec![
                    "-c:v", "h264_nvenc", "-preset", "p4", "-rc", "vbr", "-cq", "20", "-b:v", "0",
                ]
            } else {
                vec![
                    "-c:v", "h264_nvenc", "-preset", "p5", "-rc", "vbr", "-cq", "22", "-b:v", "0",
                ]
            },
            EncoderKind::Qsv => if tier == QualityTier::Intermediate {
                vec!["-c:v", "h264_qsv", "-global_quality", "20"]
            } else {
                vec!["-c:v", "h264_qsv", "-global_quality", "22"]
            },
            EncoderKind::Amf => if tier == QualityTier::Intermediate {
                vec![
                    "-c:v", "h264_amf", "-quality", "speed", "-rc", "cqp", "-qp_i", "20", "-qp_p", "20",
                ]
            } else {
                vec![
                    "-c:v", "h264_amf", "-quality", "quality", "-rc", "cqp", "-qp_i", "22", "-qp_p", "22",
                ]
            },
        };
        let mut args = text::list(parts);
        assert(views(args@) =~= codec_args(self.kind, tier));
        text::put(&mut args, "-pix_fmt");
        text::put(&mut args, "yuv420p");
        assert(views(args@) =~= self.spec_video_args(tier));
        args
    }
}

/// GPU vendors that a hardware encoder belongs to.
#[derive(Debug, Clone, Copy, PartialEq, Eq, Structural)]
pub enum Vendor {
    Nvidia,
    Intel,
    Amd,
}

impl Vendor {
    /// Whether a GPU name, already in lower case, names this vendor.
    pub open spec fn named_in(self, name: Seq<char>) -> bool {
        match self {
            Vendor::Nvidia => contains(name, "nvidia"@) || contains(name, "geforce"@)
                || contains(name, "quadro"@),
            Vendor::Intel => contains(name, "intel"@),
            Vendor::Amd => contains(name, "amd"@) || contains(name, "radeon"@),
        }
    }

    /// Whether a GPU name, already in lower case, names this vendor.
    pub fn matches_lowered(self, name: &str) -> (r: bool)
        ensures
            r == self.named_in(name@),
    {
        match self {
            Vendor::Nvidia => text::has(name, "nvidia") || text::has(name, "geforce") || text::has(
                name,
                "quadro",
            ),
            Vendor::Intel => text::has(name, "intel"),
            Vendor::Amd => text::has(name, "amd") || text::has(name, "radeon"),
        }
    }

    /// Whether a GPU name, in any case, names this vendor.
    pub fn matches(self, gpu_name: &str) -> (r: bool)
        ensures
            r == self.named_in(lowered(gpu_name@)),
    {
        self.matches_lowered(text::to_lowercase(gpu_name).as_str())
    }

    pub open spec fn spec_human(self) -> Seq<char> {
        match self {
            Vendor::Nvidia => "NVIDIA"@,
            Vendor::Intel => "Intel"@,
            Vendor::Amd => "AMD"@,
        }
    }

    /// The vendor's name for messages.
    pub fn human(self) -> (r: &'static str)
        ensures
            r@ == self.spec_human(),
    {
        match self {
            Vendor::Nvidia => "NVIDIA",
            Vendor::Intel => "Intel",
            Vendor::Amd => "AMD",
        }
    }
}

/// Whether a hardware encoder can be used, and if not, why.
#[derive(Debug, PartialEq, Eq)]
pub enum Availability {
    Available,
    Unavailable(String),
}

impl Clone for Availability {
    fn clone(&self) -> (r: Self)
        ensures
            r == *self,
    {
        match self {
            Availability::Available => Availability::Available,
            Availability::Unavailable(reason) => Availability::Unavailable(reason.clone()),
        }
    }
}

impl Default for Availability {
    fn default() -> (r: Self)
        ensures
            r is Unavailable,
            r->Unavailable_0@ == "not yet detected"@,
    {
        Availability::Unavailable("not yet detected".to_owned())
    }
}

impl Availability {
    /// Whether the encoder can be used.
    pub fn is_available(&self) -> (r: bool)
        ensures
            r == (*self is Available),
    {
        match self {
            Availability::Available => true,
            Availability::Unavailable(_) => false,
        }
    }

    /// Why the encoder cannot be used, where it cannot.
    pub fn reason(&self) -> (r: Option<&str>)
        ensures
            r is Some == (*self is Unavailable),
            r is Some ==> r->0@ == self->Unavailable_0@,
    {
        match self {
            Availability::Available => None,
            Availability::Unavailable(reason) => Some(reason.as_str()),
        }
    }
}

/// What probing the machine found: the GPUs, and whether each hardware encoder
/// is usable.
#[derive(Debug, Clone)]
pub struct EncoderSupport {
    /// GPU device names as the operating system reports them.
    pub gpus: Vec<String>,
    pub nvenc: Availability,
    pub qsv: Availability,
    pub amf: Availability,
}

impl Default for EncoderSupport {
    fn default() -> (r: Self)
        ensures
            r.gpus@.len() == 0,
            r.nvenc is Unavailable && r.nvenc->Unavailable_0@ == "not yet detected"@,
            r.qsv is Unavailable && r.qsv->Unavailable_0@ == "not yet detected"@,
            r.amf is Unavailable && r.amf->Unavailable_0@ == "not yet detected"@,
    {
        EncoderSupport {
            gpus: Vec::new(),
            nvenc: Availability::default(),
            qsv: Availability::default(),
            amf: Availability::default(),
        }
    }
}

impl EncoderSupport {
    pub open spec fn spec_availability(self, kind: EncoderKind) -> Availability {
        match kind {
            EncoderKind::Cpu => Availability::Available,
            EncoderKind::Nvenc => self.nvenc,
            EncoderKind::Qsv => self.qsv,
            EncoderKind::Amf => self.amf,
        }
    }

    /// Availability of an encoder; CPU encoding is always available.
    pub fn availability(&self, kind: EncoderKind) -> (r: Availability)
        ensures
            r == self.spec_availability(kind),
    {
        match kind {
            EncoderKind::Cpu => Availability::Available,
            EncoderKind::Nvenc => self.nvenc.clone(),
            EncoderKind::Qsv => self.qsv.clone(),
            EncoderKind::Amf => self.amf.clone(),
        }
    }

    /// Whether this is the availability of a choice.
    pub open spec fn spec_choice_availability(
        self,
        choice: EncoderChoice,
        r: Availability,
    ) -> bool {
        r == (match choice.spec_kind() {
            None => Availability::Available,
            Some(kind) => self.spec_availability(kind),
        })
    }

    /// Availability of a choice. `Auto` and `Cpu` are always usable.
    pub fn choice_availability(&self, choice: EncoderChoice) -> (r: Availability)
        ensures
            self.spec_choice_availability(choice, r),
    {
        match choice.kind() {
            None => Availability::Available,
            Some(kind) => self.availability(kind),
        }
    }

    /// The encoder that a choice stands for on this machine: `Auto` takes the
    /// first available of NVENC, Quick Sync and AMF, a hardware encoder stands
    /// for itself where it is available, and everything else is CPU.
    pub open spec fn resolved_kind(self, choice: EncoderChoice) -> EncoderKind {
        match choice.spec_kind() {
            Some(kind) => if self.spec_availability(kind) is Available {
                kind
            } else {
                EncoderKind::Cpu
            },
            None => if choice == EncoderChoice::Cpu {
                EncoderKind::Cpu
            } else if self.nvenc is Available {
                EncoderKind::Nvenc
            } else if self.qsv is Available {
                EncoderKind::Qsv
            } else if self.amf is Available {
                EncoderKind::Amf
            } else {
                EncoderKind::Cpu
            },
        }
    }

    /// The encoder that a choice stands for, with hardware decoding where that was
    /// asked for and the encoder is not CPU.
    pub open spec fn resolved_encoder(
        self,
        choice: EncoderChoice,
        hardware_decode: bool,
    ) -> ResolvedEncoder {
        ResolvedEncoder {
            kind: self.resolved_kind(choice),
            hardware_decode: hardware_decode && self.resolved_kind(choice) != EncoderKind::Cpu,
        }
    }

    /// The note for a choice that fell back to CPU, if it did.
    pub open spec fn fallback_note(self, choice: EncoderChoice) -> Option<Seq<char>> {
        match choice.spec_kind() {
            Some(kind) => match self.spec_availability(kind) {
                Availability::Available => None,
                Availability::Unavailable(reason) => Some(
                    kind.spec_short_label() + " is not available ("@ + reason@
                        + "); using CPU (libx264) instead."@,
                ),
            },
            None => None,
        }
    }

    /// Resolves a choice to a concrete encoder, plus a note when it fell back.
    /// Hardware decoding is kept only for an encoder that has it.
    pub fn resolve(&self, choice: EncoderChoice, hardware_decode: bool) -> (r: (
        ResolvedEncoder,
        Option<String>,
    ))
        ensures
            r.0 == self.resolved_encoder(choice, hardware_decode),
            r.1 is Some == self.fallback_note(choice) is Some,
            r.1 is Some ==> r.1->0@ == self.fallback_note(choice)->0,
            stands_for(
                *self,
                choice,
                hardware_decode,
                r.0,
                match r.1 {
                    Some(note) => Some(note@),
                    None => None,
                },
            ),
    {
        proof {
            law_a_choice_is_honoured(*self, choice, hardware_decode);
        }
        let mut note: Option<String> = None;
        let kind = match choice.kind() {
            Some(kind) => match self.availability(kind) {
                Availability::Available => kind,
                Availability::Unavailable(reason) => {
                    let mut s = kind.short_label().to_owned();
                    s.append(" is not available (");
                    s.append(reason.as_str());
                    s.append("); using CPU (libx264) instead.");
                    note = Some(s);
                    EncoderKind::Cpu
                },
            },
            None => if choice == EncoderChoice::Cpu {
                EncoderKind::Cpu
            } else if self.nvenc.is_available() {
                EncoderKind::Nvenc
            } else if self.qsv.is_available() {
                EncoderKind::Qsv
            } else if self.amf.is_available() {
                EncoderKind::Amf
            } else {
                EncoderKind::Cpu
            },
        };
        let hw = hardware_decode && kind != EncoderKind::Cpu && kind.hwaccel_decode().is_some();
        (ResolvedEncoder { kind, hardware_decode: hw }, note)
    }
}

/// Where the result of the last probe is kept, to be shown until the next one
/// reports: the names from the user's configuration directory on.
pub fn cache_path() -> (r: Vec<String>)
    ensures
        views(r@) == Settings::app_names().push("encoders.json"@),
{
    let mut r = Settings::app_dir();
    text::put(&mut r, "encoders.json");
    r
}

/// The encoder that runs is always one that the machine can run, hardware
/// decoding is never asked of CPU encoding, and a choice is only ever replaced
/// by CPU encoding with a note that says so.
pub proof fn law_resolve_never_picks_an_unavailable_encoder(
    support: EncoderSupport,
    choice: EncoderChoice,
    hardware_decode: bool,
)
    ensures
        support.spec_availability(support.resolved_kind(choice)) is Available,
        support.resolved_encoder(choice, hardware_decode).kind == support.resolved_kind(choice),
        support.resolved_encoder(choice, hardware_decode).hardware_decode ==> hardware_decode
            && support.resolved_kind(choice) != EncoderKind::Cpu,
        support.fallback_note(choice) is Some <==> choice.spec_kind() is Some
            && support.resolved_kind(choice) != choice.spec_kind()->0,
        support.fallback_note(choice) is Some ==> support.resolved_kind(choice) == EncoderKind::Cpu,
        choice == EncoderChoice::Auto && support.resolved_kind(choice) == EncoderKind::Cpu ==> (
        support.nvenc is Unavailable && support.qsv is Unavailable && support.amf is Unavailable),
{
}

// ---------------------------------------------------------------------------
// Detection
// ---------------------------------------------------------------------------

/// The lines that follow the first line with a divider in it.
pub open spec fn after_divider(lines: Seq<Seq<char>>) -> Seq<Seq<char>>
    decreases lines.len(),
{
    if lines.len() == 0 {
        Seq::empty()
    } else if contains(lines[0], "------"@) {
        lines.skip(1)
    } else {
        after_divider(lines.skip(1))
    }
}

/// The second word of each line that has one.
pub open spec fn second_words(lines: Seq<Seq<char>>) -> Seq<Seq<char>>
    decreases lines.len(),
{
    if lines.len() == 0 {
        Seq::empty()
    } else {
        let w = words_of(lines.last());
        if w.len() >= 2 {
            second_words(lines.drop_last()).push(w[1])
        } else {
            second_words(lines.drop_last())
        }
    }
}

/// Encoder names in the output of `ffmpeg -encoders`: each line after the
/// divider is ` FLAGS name  description`.
pub fn parse_encoder_names(out: &str) -> (r: Vec<String>)
    ensures
        views(r@) == second_words(after_divider(lines_of(out@))),
        listed(lines_of(out@), views(r@)),
{
    proof {
        law_encoders_are_read_after_the_divider(lines_of(out@));
    }
    let lines = text::lines(out);
    let ghost all = views(lines@);
    let mut from: usize = 0;
    assert(all.skip(0) =~= all);
    while from < lines.len() && !text::has(lines[from].as_str(), "------")
        invariant
            all == views(lines@),
            from <= lines@.len(),
            after_divider(all) == after_divider(all.skip(from as int)),
        decreases lines@.len() - from,
    {
        assert(all.skip(from as int).skip(1) =~= all.skip(from + 1));
        from = from + 1;
    }
    let mut names: Vec<String> = Vec::new();
    if from == lines.len() {
        assert(after_divider(all) =~= Seq::empty());
        assert(views(names@) =~= second_words(Seq::empty()));
        return names;
    }
    from = from + 1;
    let ghost rest = all.skip(from as int);
    assert(all.skip(from - 1).skip(1) =~= rest);
    let mut i: usize = from;
    assert(rest.take(0) =~= Seq::empty());
    assert(views(names@) =~= second_words(rest.take(0)));
    while i < lines.len()
        invariant
            all == views(lines@),
            rest == all.skip(from as int),
            from <= i <= lines@.len(),
            views(names@) == second_words(rest.take(i - from)),
        decreases lines@.len() - i,
    {
        assert(rest.take(i - from + 1).drop_last() =~= rest.take(i - from));
        assert(rest.take(i - from + 1).last() == lines@[i as int]@);
        let words = text::words(lines[i].as_str());
        if words.len() >= 2 {
            assert(views(words@)[1] == words@[1]@);
            text::put(&mut names, words[1].as_str());
        }
        i = i + 1;
    }
    assert(rest.take(i - from) =~= rest);
    names
}

/// The encoders that a run of `ffmpeg -encoders` shows to be compiled in: none
/// when it could not run or failed (`None`), else those that it printed.
pub fn compiled_in_encoders(stdout: Option<&str>) -> (r: Vec<String>)
    ensures
        views(r@) == (match stdout {
            Some(out) => second_words(after_divider(lines_of(out@))),
            None => Seq::empty(),
        }),
{
    match stdout {
        Some(out) => parse_encoder_names(out),
        None => {
            let none: Vec<String> = Vec::new();
            assert(views(none@) =~= Seq::empty());
            none
        },
    }
}

/// Whether a trimmed line of a device listing is a device name: neither blank
/// nor the column header.
pub open spec fn is_device_line(line: Seq<char>) -> bool {
    line.len() > 0 && ascii_small(line) != ascii_small("name"@)
}

/// The trimmed lines that are device names.
pub open spec fn device_lines(lines: Seq<Seq<char>>) -> Seq<Seq<char>>
    decreases lines.len(),
{
    if lines.len() == 0 {
        Seq::empty()
    } else {
        let line = trimmed(lines.last());
        if is_device_line(line) {
            device_lines(lines.drop_last()).push(line)
        } else {
            device_lines(lines.drop_last())
        }
    }
}

/// Cleans the device-name output of wmic or PowerShell into a list, dropping the
/// header row and blanks.
pub fn parse_gpu_lines(out: &str) -> (r: Vec<String>)
    ensures
        views(r@) == device_lines(lines_of(out@)),
{
    let lines = text::lines(out);
    let ghost all = views(lines@);
    let mut names: Vec<String> = Vec::new();
    assert(views(names@) =~= device_lines(all.take(0)));
    for i in 0..lines.len()
        invariant
            all == views(lines@),
            views(names@) == device_lines(all.take(i as int)),
    {
        assert(all.take(i + 1).drop_last() =~= all.take(i as int));
        assert(all.take(i + 1).last() == lines@[i as int]@);
        let line = text::trim(lines[i].as_str());
        if !line.as_str().is_empty() && !text::same_ignoring_case(line.as_str(), "name") {
            text::put(&mut names, line.as_str());
        }
    }
    assert(all.take(lines@.len() as int) =~= all);
    names
}

/// The GPU names that the first device query settles: those it printed, unless
/// it failed or printed none, in which case the second query is asked.
pub fn first_query_names(stdout: Option<&str>) -> (r: Option<Vec<String>>)
    ensures
        r is Some == (stdout is Some && device_lines(lines_of(stdout->0@)).len() > 0),
        r is Some ==> views(r->0@) == device_lines(lines_of(stdout->0@)),
{
    match stdout {
        Some(out) => {
            let names = parse_gpu_lines(out);
            assert(views(names@).len() == names@.len());
            if names.len() > 0 {
                Some(names)
            } else {
                None
            }
        },
        None => None,
    }
}

/// Whether one of the GPU names, taken in lower case, names the vendor.
pub open spec fn vendor_present(vendor: Vendor, gpus: Seq<Seq<char>>) -> bool {
    exists|i: int| 0 <= i < gpus.len() && vendor.named_in(lowered(#[trigger] gpus[i]))
}

/// Why an encoder is unavailable before any test encode is made: it is not
/// compiled in, or GPUs were found and none is of its vendor. An empty GPU list
/// means that the machine could not tell, and vetoes nothing.
pub open spec fn veto(
    kind: EncoderKind,
    compiled: Seq<Seq<char>>,
    gpus: Seq<Seq<char>>,
) -> Option<Seq<char>> {
    if !compiled.contains(kind.spec_codec()) {
        Some("this ffmpeg build has no "@ + kind.spec_codec() + " support"@)
    } else if kind.spec_vendor() is Some && gpus.len() > 0 && !vendor_present(
        kind.spec_vendor()->0,
        gpus,
    ) {
        Some(
            kind.spec_vendor()->0.spec_human() + " GPU not detected or ffmpeg lacks "@
                + kind.spec_codec() + " support"@,
        )
    } else {
        None
    }
}

fn any_gpu_of(vendor: Vendor, gpus: &[String]) -> (r: bool)
    ensures
        r == vendor_present(vendor, views(gpus@)),
{
    for i in 0..gpus.len()
        invariant
            forall|j: int|
                0 <= j < i ==> !vendor.named_in(lowered(#[trigger] views(gpus@)[j])),
    {
        if vendor.matches(gpus[i].as_str()) {
            assert(vendor.named_in(lowered(views(gpus@)[i as int])));
            return true;
        }
    }
    false
}

/// The first two steps of the availability gate: the reason for a refusal, or
/// `None` where only a test encode can tell.
pub fn refuse_without_test(kind: EncoderKind, compiled: &[String], gpus: &[String]) -> (r: Option<
    String,
>)
    ensures
        r is Some == veto(kind, views(compiled@), views(gpus@)) is Some,
        r is Some ==> r->0@ == veto(kind, views(compiled@), views(gpus@))->0,
{
    let codec = kind.codec();
    if !text::holds(compiled, codec) {
        let mut s = "this ffmpeg build has no ".to_owned();
        s.append(codec);
        s.append(" support");
        return Some(s);
    }
    if let Some(vendor) = kind.vendor() {
        assert(views(gpus@).len() == gpus@.len());
        if gpus.len() > 0 && !any_gpu_of(vendor, gpus) {
            let mut s = vendor.human().to_owned();
            s.append(" GPU not detected or ffmpeg lacks ");
            s.append(codec);
            s.append(" support");
            return Some(s);
        }
    }
    None
}

/// The whole gate, given how the test encode came out (or would come out): the
/// encoder is available exactly when nothing vetoes it and the test succeeded.
pub fn probe(
    kind: EncoderKind,
    compiled: &[String],
    gpus: &[String],
    test: Result<(), String>,
) -> (r: Availability)
    ensures
        match veto(kind, views(compiled@), views(gpus@)) {
            Some(reason) => r is Unavailable && r->Unavailable_0@ == reason,
            None => match test {
                Ok(_) => r is Available,
                Err(reason) => r == Availability::Unavailable(reason),
            },
        },
        r is Available <==> could_work(kind, views(compiled@), views(gpus@)) && test is Ok,
{
    proof {
        law_only_what_cannot_work_is_refused(kind, views(compiled@), views(gpus@));
    }
    match refuse_without_test(kind, compiled, gpus) {
        Some(reason) => Availability::Unavailable(reason),
        None => match test {
            Ok(_) => Availability::Available,
            Err(reason) => Availability::Unavailable(reason),
        },
    }
}

/// The ffmpeg arguments of a test encode: two frames of a synthetic source,
/// encoded with `codec` and thrown away.
pub open spec fn test_request(codec: Seq<char>) -> Seq<Seq<char>> {
    seq![
        "-hide_banner"@,
        "-f"@,
        "lavfi"@,
        "-i"@,
        "color=c=black:s=256x144:r=2:d=0.1"@,
        "-c:v"@,
        codec,
        "-pix_fmt"@,
        "yuv420p"@,
        "-f"@,
        "null"@,
        "-"@,
    ]
}

/// The ffmpeg arguments of a test encode.
pub fn test_encode_args(codec: &str) -> (r: Vec<String>)
    ensures
        views(r@) == test_request(codec@),
{
    let r = text::list(
        vec![
            "-hide_banner",
            "-f",
            "lavfi",
            "-i",
            "color=c=black:s=256x144:r=2:d=0.1",
            "-c:v",
            codec,
            "-pix_fmt",
            "yuv420p",
            "-f",
            "null",
            "-",
        ],
    );
    assert(views(r@) =~= test_request(codec@));
    r
}

/// Whether a trimmed stderr line tells something: not blank, no progress line,
/// no line of a component's own log.
pub open spec fn is_telling(line: Seq<char>) -> bool {
    line.len() > 0 && !starts(line, "frame="@) && !starts(line, "["@)
}

/// The last telling line, trimmed.
pub open spec fn last_telling(lines: Seq<Seq<char>>) -> Option<Seq<char>>
    decreases lines.len(),
{
    if lines.len() == 0 {
        None
    } else if is_telling(trimmed(lines.last())) {
        Some(trimmed(lines.last()))
    } else {
        last_telling(lines.drop_last())
    }
}

/// The first line that is not blank, trimmed.
pub open spec fn first_filled(lines: Seq<Seq<char>>) -> Option<Seq<char>>
    decreases lines.len(),
{
    if lines.len() == 0 {
        None
    } else if trimmed(lines[0]).len() > 0 {
        Some(trimmed(lines[0]))
    } else {
        first_filled(lines.skip(1))
    }
}

/// The most telling line of an ffmpeg failure: the last telling one, else the
/// first that is not blank, else a fixed text.
pub open spec fn telling_line(stderr: Seq<char>) -> Seq<char> {
    let lines = lines_of(stderr);
    match last_telling(lines) {
        Some(line) => line,
        None => match first_filled(lines) {
            Some(line) => line,
            None => "test encode failed"@,
        },
    }
}

/// At most the first `n` characters of a text.
pub open spec fn shortened(s: Seq<char>, n: int) -> Seq<char> {
    if s.len() <= n {
        s
    } else {
        s.take(n)
    }
}

fn most_telling_line(stderr: &str) -> (r: String)
    ensures
        r@ == telling_line(stderr@),
{
    let lines = text::lines(stderr);
    let ghost all = views(lines@);
    let mut n: usize = lines.len();
    assert(all.take(n as int) =~= all);
    while n > 0
        invariant
            all == views(lines@),
            n <= lines@.len(),
            last_telling(all) == last_telling(all.take(n as int)),
            all == lines_of(stderr@),
        decreases n,
    {
        assert(all.take(n as int).last() == lines@[n - 1]@);
        assert(all.take(n as int).drop_last() =~= all.take(n - 1));
        let line = text::trim(lines[n - 1].as_str());
        if !line.as_str().is_empty() && !text::has_prefix(line.as_str(), "frame=")
            && !text::has_prefix(line.as_str(), "[") {
            return line;
        }
        n = n - 1;
    }
    let mut from: usize = 0;
    assert(all.skip(0) =~= all);
    while from < lines.len()
        invariant
            all == views(lines@),
            from <= lines@.len(),
            last_telling(all) is None,
            first_filled(all) == first_filled(all.skip(from as int)),
            all == lines_of(stderr@),
        decreases lines@.len() - from,
    {
        assert(all.skip(from as int)[0] == lines@[from as int]@);
        assert(all.skip(from as int).skip(1) =~= all.skip(from + 1));
        let line = text::trim(lines[from].as_str());
        if !line.as_str().is_empty() {
            return line;
        }
        from = from + 1;
    }
    "test encode failed".to_owned()
}

/// Pulls the most telling line out of an ffmpeg failure, at most 160 characters
/// of it.
pub fn short_reason(stderr: &str) -> (r: String)
    ensures
        r@ == shortened(telling_line(stderr@), 160),
        exists|reason: Seq<char>| #[trigger]
            is_reason(lines_of(stderr@), reason) && starts(reason, r@) && r@.len() <= 160 && (r@.len()
                < 160 ==> r@ == reason),
{
    proof {
        law_the_last_word_is_the_reason(stderr@);
    }
    let line = text::to_chars(most_telling_line(stderr).as_str());
    if line.len() <= 160 {
        text::from_chars(line.as_slice())
    } else {
        let r = text::from_chars(text::slice_of(line.as_slice(), 0, 160).as_slice());
        assert(r@ =~= line@.take(160));
        r
    }
}

/// How a finished test encode counts: success, or the telling line of its
/// stderr.
pub fn test_encode_outcome(success: bool, stderr: &str) -> (r: Result<(), String>)
    ensures
        r is Ok == success,
        r is Err ==> r->Err_0@ == shortened(telling_line(stderr@), 160),
{
    if success {
        Ok(())
    } else {
        Err(short_reason(stderr))
    }
}

} // verus!
