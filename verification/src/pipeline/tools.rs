//! Finding out what the machine can do: what is said of its tools and encoders,
//! and the encoder benchmark.
use vstd::prelude::*;
use vstd::string::*;

use crate::models::messages::BenchmarkResult;
use crate::text;
use crate::text::{decimal, fixed_point, joined, nearest_even, seconds1, views};
use crate::video::encoder::{Availability, EncoderSupport, QualityTier, ResolvedEncoder};

verus! {

/// What the log says of an encoder.
pub open spec fn encoder_line(name: Seq<char>, a: Availability) -> Seq<char> {
    match a {
        Availability::Available => "Encoder "@ + name + ": available"@,
        Availability::Unavailable(reason) => "Encoder "@ + name + ": unavailable ("@ + reason@
            + ")"@,
    }
}

fn encoder_text(name: &str, a: &Availability) -> (r: String)
    ensures
        r@ == encoder_line(name@, *a),
{
    let mut s = "Encoder ".to_owned();
    s.append(name);
    match a {
        Availability::Available => s.append(": available"),
        Availability::Unavailable(reason) => {
            s.append(": unavailable (");
            s.append(reason.as_str());
            s.append(")");
        },
    }
    s
}

/// What the log says of the encoders that were found.
pub open spec fn support_lines(support: EncoderSupport) -> Seq<Seq<char>> {
    let gpus = if support.gpus@.len() > 0 {
        seq!["Detected GPU(s): "@ + joined(views(support.gpus@), ", "@)]
    } else {
        Seq::empty()
    };
    gpus + seq![
        encoder_line("NVENC"@, support.nvenc),
        encoder_line("Quick Sync"@, support.qsv),
        encoder_line("AMF"@, support.amf),
    ]
}

/// Says which encoders were found.
pub fn detect_encoders(support: &EncoderSupport) -> (r: Vec<String>)
    ensures
        views(r@) == support_lines(*support),
{
    let mut lines: Vec<String> = Vec::new();
    if support.gpus.len() > 0 {
        let mut s = "Detected GPU(s): ".to_owned();
        s.append(text::join(support.gpus.as_slice(), ", ").as_str());
        text::put(&mut lines, s.as_str());
    }
    text::put(&mut lines, encoder_text("NVENC", &support.nvenc).as_str());
    text::put(&mut lines, encoder_text("Quick Sync", &support.qsv).as_str());
    text::put(&mut lines, encoder_text("AMF", &support.amf).as_str());
    assert(views(lines@) =~= support_lines(*support));
    lines
}

// ---------------------------------------------------------------------------
// Benchmark
// ---------------------------------------------------------------------------

/// The result of a benchmark run that took so long and wrote so much.
pub fn benchmark_result(encoder: &ResolvedEncoder, elapsed_us: u64, size_bytes: u64) -> (r:
    BenchmarkResult)
    ensures
        r.encoder@ == encoder.kind.spec_full_label(),
        r.elapsed_us == (if elapsed_us < 1000 {
            1000
        } else {
            elapsed_us
        }),
        r.size_bytes == size_bytes,
{
    BenchmarkResult {
        encoder: encoder.kind.full_label(),
        elapsed_us: if elapsed_us < 1000 {
            1000
        } else {
            elapsed_us
        },
        size_bytes,
    }
}

/// The ffmpeg arguments of a benchmark: a detailed moving test pattern, encoded
/// at final quality without sound.
pub open spec fn benchmark_request(
    width: nat,
    height: nat,
    encoder: ResolvedEncoder,
    out: Seq<char>,
) -> Seq<Seq<char>> {
    seq![
        "-y"@,
        "-f"@,
        "lavfi"@,
        "-i"@,
        "testsrc2=s="@ + decimal(width) + "x"@ + decimal(height) + ":r=30:d=30"@,
    ] + encoder.spec_video_args(QualityTier::Final) + seq!["-an"@, out]
}

/// The ffmpeg arguments of a benchmark.
pub fn benchmark_args(width: u32, height: u32, encoder: &ResolvedEncoder, out: &str) -> (r: Vec<
    String,
>)
    ensures
        views(r@) == benchmark_request(width as nat, height as nat, *encoder, out@),
{
    let mut source = "testsrc2=s=".to_owned();
    source.append(text::dec(width as u64).as_str());
    source.append("x");
    source.append(text::dec(height as u64).as_str());
    source.append(":r=30:d=30");
    let mut args = text::list(vec!["-y", "-f", "lavfi", "-i", source.as_str()]);
    let ghost head = seq![
        "-y"@,
        "-f"@,
        "lavfi"@,
        "-i"@,
        "testsrc2=s="@ + decimal(width as nat) + "x"@ + decimal(height as nat) + ":r=30:d=30"@,
    ];
    assert(views(args@) =~= head);
    text::put_all(&mut args, encoder.video_args(QualityTier::Final).as_slice());
    text::put(&mut args, "-an");
    text::put(&mut args, out);
    assert(views(args@) =~= head + encoder.spec_video_args(QualityTier::Final) + seq![
        "-an"@,
        out@,
    ]);
    args
}

/// Frames per second, to the nearest integer.
pub open spec fn frames_per_second(elapsed_us: nat) -> nat {
    nearest_even(900_000_000, elapsed_us)
}

/// A size in mebibytes with one decimal.
pub open spec fn mebibytes(bytes: nat) -> Seq<char> {
    fixed_point(nearest_even(bytes * 10, 1_048_576), 10, 1)
}

/// Writes a size in mebibytes.
pub fn mebibytes_text(bytes: u64) -> (r: String)
    ensures
        r@ == mebibytes(bytes as nat),
{
    let tenths: u128 = text::to_nearest_even(bytes as u128 * 10, 1_048_576);
    assert(tenths <= u64::MAX) by {
        assert(nearest_even((bytes * 10) as nat, 1_048_576) <= (bytes * 10) / 1_048_576 + 1);
    }
    let mut s = text::dec(tenths as u64 / 10);
    s.append(".");
    s.append(text::dec_padded(tenths as u64 % 10, 1).as_str());
    s
}

/// Writes the frames per second of a benchmark.
pub fn fps_text(elapsed_us: u64) -> (r: String)
    requires
        elapsed_us > 0,
    ensures
        r@ == decimal(frames_per_second(elapsed_us as nat)),
{
    let fps: u128 = text::to_nearest_even(900_000_000, elapsed_us);
    assert(fps <= 900_000_001) by (nonlinear_arith)
        requires
            fps <= 900_000_000int / (elapsed_us as int) + 1,
            elapsed_us > 0,
    ;
    text::dec(fps as u64)
}

/// What the log says of a benchmark.
pub fn benchmark_line(result: &Result<BenchmarkResult, String>) -> (r: String)
    requires
        match *result {
            Ok(b) => b.elapsed_us > 0,
            Err(_) => true,
        },
    ensures
        r@ == (match *result {
            Ok(b) => "Benchmark: "@ + b.encoder@ + " — "@ + seconds1(b.elapsed_us as nat) + "s, "@
                + decimal(frames_per_second(b.elapsed_us as nat)) + " fps, "@ + mebibytes(
                b.size_bytes as nat,
            ) + " MB"@,
            Err(e) => "Benchmark failed: "@ + e@,
        }),
{
    match result {
        Ok(b) => {
            let mut s = "Benchmark: ".to_owned();
            s.append(b.encoder.as_str());
            s.append(" — ");
            s.append(text::seconds_1(b.elapsed_us).as_str());
            s.append("s, ");
            s.append(fps_text(b.elapsed_us).as_str());
            s.append(" fps, ");
            s.append(mebibytes_text(b.size_bytes).as_str());
            s.append(" MB");
            s
        },
        Err(e) => {
            let mut s = "Benchmark failed: ".to_owned();
            s.append(e.as_str());
            s
        },
    }
}

} // verus!
