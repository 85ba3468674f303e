use soundcloud2mp4::video::combine::{
    CombineError, FailureStep, PlaylistRenderer, Reuse,
};
use soundcloud2mp4::video::checkpoint::Checkpoint;
use soundcloud2mp4::video::concat::{
    build_combine_filter, build_ffmetadata, build_pass_args, cmdline_len, escape_meta,
    is_hwdecode_failure, ClipInfo, MAX_COMBINE_CHUNK, MAX_INPUTS_PER_PASS, WINDOWS_CMDLINE_LIMIT,
};
use soundcloud2mp4::video::encoder::{EncoderKind, ResolvedEncoder};
use soundcloud2mp4::video::ladder::{plan_batches, plan_passes, PlannedPass};
use soundcloud2mp4::video::timeline::{
    chapter_starts, safe_transition, timeline_fits, total_duration,
};

/// Seconds as microseconds.
fn us(seconds: f64) -> u64 {
    (seconds * 1_000_000.0).round() as u64
}

fn all_us(seconds: &[f64]) -> Vec<u64> {
    seconds.iter().map(|s| us(*s)).collect()
}

fn clips(durs: &[f64]) -> Vec<ClipInfo> {
    durs.iter()
        .enumerate()
        .map(|(i, d)| ClipInfo {
            path: format!("clip_{i}.mp4"),
            duration: us(*d),
            title: format!("Song {}", i + 1),
            uploader: "Artist".into(),
        })
        .collect()
}

#[test]
fn chapter_starts_account_for_overlap() {
    // No transition: plain cumulative sums.
    assert_eq!(
        chapter_starts(&all_us(&[100.0, 200.0, 150.0]), 0),
        vec![0, 100_000_000, 300_000_000]
    );
    // 2s transition shifts each subsequent clip earlier.
    assert_eq!(
        chapter_starts(&all_us(&[100.0, 200.0, 150.0]), us(2.0)),
        vec![0, 98_000_000, 296_000_000]
    );
}

#[test]
fn total_duration_subtracts_transitions() {
    assert_eq!(total_duration(&all_us(&[100.0, 200.0, 150.0]), 0), us(450.0));
    assert_eq!(total_duration(&all_us(&[100.0, 200.0, 150.0]), us(2.0)), us(446.0));
    assert_eq!(total_duration(&[], us(2.0)), 0);
}

#[test]
fn safe_transition_clamps_to_shortest_clip() {
    assert_eq!(safe_transition(&all_us(&[100.0, 200.0]), us(2.0)), us(2.0));
    // Shortest clip is 1.5s -> transition clamped below it.
    let t = safe_transition(&all_us(&[1.5, 200.0]), us(2.0));
    assert!(t < us(1.5) && t > 0, "got {t}");
    // Zero requested -> zero.
    assert_eq!(safe_transition(&all_us(&[100.0, 200.0]), 0), 0);
    // Single clip -> no transition.
    assert_eq!(safe_transition(&all_us(&[100.0]), us(2.0)), 0);
}

#[test]
fn concat_filter_when_no_transition() {
    let f = build_combine_filter(&all_us(&[10.0, 20.0, 30.0]), 0);
    assert!(
        f.ends_with("[0:v][an0][1:v][an1][2:v][an2]concat=n=3:v=1:a=1[vout][aout]"),
        "{f}"
    );
}

/// Every input's audio is pinned to the exact length the video side uses,
/// which is what keeps the two timelines from drifting apart over hundreds
/// of clips.
#[test]
fn audio_is_normalised_to_the_measured_clip_length() {
    for transition in [0.0, 2.0] {
        let f = build_combine_filter(&all_us(&[10.0, 20.5, 30.0]), us(transition));
        assert!(f.contains("[0:a]apad,atrim=0:10.000000,asetpts=N/SR/TB[an0]"), "{f}");
        assert!(f.contains("[1:a]apad,atrim=0:20.500000,asetpts=N/SR/TB[an1]"), "{f}");
        assert!(f.contains("[2:a]apad,atrim=0:30.000000,asetpts=N/SR/TB[an2]"), "{f}");
        // The raw inputs are never crossfaded or concatenated directly.
        assert!(!f.contains("[1:a]acrossfade"), "{f}");
        assert!(!f.contains("[1:a][2:a]"), "{f}");
    }
}

#[test]
fn xfade_offsets_are_correct_and_chained() {
    let f = build_combine_filter(&all_us(&[100.0, 200.0, 150.0]), us(2.0));
    // First xfade at 100-2 = 98; second at (100+200-2)-2 = 296.
    assert!(f.contains("xfade=transition=fade:duration=2.000:offset=98.000[vx1]"), "{f}");
    assert!(
        f.contains("[vx1][2:v]xfade=transition=fade:duration=2.000:offset=296.000[vout]"),
        "{f}"
    );
    // Audio crossfades chain to [aout], over the normalised streams.
    assert!(f.contains("[an0][an1]acrossfade=d=2.000"), "{f}");
    assert!(f.contains("acrossfade=d=2.000:c1=tri:c2=tri[aout]"), "{f}");
}

#[test]
fn two_clips_produce_single_xfade_to_vout() {
    let f = build_combine_filter(&all_us(&[10.0, 20.0]), us(2.0));
    assert!(
        f.contains("[0:v][1:v]xfade=transition=fade:duration=2.000:offset=8.000[vout]"),
        "{f}"
    );
    assert!(f.contains("[an0][an1]acrossfade=d=2.000:c1=tri:c2=tri[aout]"), "{f}");
}

#[test]
fn ffmetadata_has_playlist_tags_and_chapters() {
    let md = build_ffmetadata(
        "My Playlist",
        &clips(&[100.0, 200.0]),
        &all_us(&[100.0, 200.0]),
        us(2.0),
        true,
    );
    assert!(md.starts_with(";FFMETADATA1"));
    assert!(md.contains("title=My Playlist"));
    assert!(md.contains("artist=SoundCloud Playlist"));
    assert!(md.contains("comment=Generated by SoundCloud2MP4"));
    assert_eq!(md.matches("[CHAPTER]").count(), 2);
    assert!(md.contains("START=0\nEND=98000"));
    assert!(md.contains("title=Artist - Song 1"));
    assert!(md.contains("title=Artist - Song 2"));
}

/// Chapters follow the *measured* clip lengths, not the requested ones —
/// the whole point of probing. Here each clip was asked for 100 s but
/// actually came out 100.5 s, so the second chapter has to move.
#[test]
fn ffmetadata_uses_measured_durations_not_requested_ones() {
    let requested = clips(&[100.0, 100.0, 100.0]);
    let measured = all_us(&[100.5, 100.5, 100.5]);
    let md = build_ffmetadata("P", &requested, &measured, us(2.0), true);
    // Track 2 starts at 100.5 - 2 = 98.5 s, not the 98.0 s the requested
    // lengths imply; track 3 at 197.0 s rather than 196.0 s.
    assert!(md.contains("START=0\nEND=98500"), "{md}");
    assert!(md.contains("START=98500\nEND=197000"), "{md}");
    // Last chapter ends at the true total: 301.5 - 4 = 297.5 s.
    assert!(md.contains("START=197000\nEND=297500"), "{md}");
}

#[test]
fn ffmetadata_escapes_special_characters() {
    let mut cs = clips(&[100.0]);
    cs[0].title = "A=B; C#D".into();
    let md = build_ffmetadata("List", &cs, &all_us(&[100.0]), 0, true);
    assert!(md.contains(r"title=Artist - A\=B\; C\#D"), "{md}");
}

#[test]
fn every_special_character_is_escaped_once() {
    assert_eq!(escape_meta(r"a\b=c;d#e"), r"a\\b\=c\;d\#e");
    assert_eq!(escape_meta("plain"), "plain");
}

#[test]
fn chapters_can_be_disabled() {
    let md = build_ffmetadata(
        "List",
        &clips(&[100.0, 200.0]),
        &all_us(&[100.0, 200.0]),
        0,
        false,
    );
    assert!(!md.contains("[CHAPTER]"));
    assert!(md.contains("title=List"));
}

/// The default upper-level batch cap.
const TEST_BATCH_MAX: usize = 4;

fn inputs_of(n: usize) -> (Vec<String>, Vec<u64>) {
    (
        (0..n).map(|i| format!("clip_{i:04}.mp4")).collect(),
        (0..n).map(|i| us(180.0 + i as f64)).collect(),
    )
}

/// Level-0 inputs named the way `combine` names them, planned with the real
/// default caps (leaf = `MAX_INPUTS_PER_PASS`, batches = `TEST_BATCH_MAX`).
fn plan_for(n: usize, transition: f64) -> (Vec<PlannedPass>, Vec<u64>) {
    let (inputs, durations) = inputs_of(n);
    let passes = plan_passes(
        &inputs,
        &durations,
        us(transition),
        r"C:\Users\someone\Videos\SoundCloud Videos\My Playlist.mp4",
        MAX_INPUTS_PER_PASS,
        TEST_BATCH_MAX,
    );
    (passes, durations)
}

#[test]
fn combine_args_multi_clip_reencodes_and_maps_metadata() {
    let (passes, _) = plan_for(2, 2.0);
    let args = build_pass_args(&passes[0], Some("meta.txt"), 320, &ResolvedEncoder::cpu());
    let j = args.join(" ");
    assert_eq!(args.iter().filter(|a| *a == "-i").count(), 3); // 2 clips + metadata
    assert!(j.contains("-filter_complex_script fc_final.txt"), "{j}");
    assert!(j.contains("-map [vout] -map [aout]"), "{j}");
    assert!(j.contains("-map_metadata 2"), "{j}"); // metadata is input index 2
    assert!(j.contains("-c:v libx264"), "{j}");
    assert!(j.contains("-b:a 320k"));
    assert!(j.contains("+faststart"));
    assert!(args.last().unwrap().ends_with("My Playlist.mp4"));
}

/// A representative stderr from a final-pass hardware-decode memory failure
/// (and other hardware-decode signatures) must be recognised so the
/// software-decode retry fires.
#[test]
fn hwdecode_failure_is_detected() {
    let real = "[h264 @ 0x0] Failed to transfer data to output frame: -12.\n\
                [dec:h264] Error processing packet in decoder: Cannot allocate memory\n\
                Task finished with error code: -12 (Cannot allocate memory)";
    assert!(is_hwdecode_failure(real));
    // Casing of device/hwaccel identifiers must not matter.
    assert!(is_hwdecode_failure("Cannot initialise -hwaccel d3d11va device"));
    assert!(is_hwdecode_failure("DXVA2 was unable to create the decoder"));
    assert!(is_hwdecode_failure("D3D11 texture allocation failed"));
    assert!(is_hwdecode_failure("device returned ENOMEM"));
}

/// Unrelated failures must NOT trigger a software-decode retry — they would
/// fail identically the second time and only waste another pass.
#[test]
fn unrelated_failures_do_not_trigger_retry() {
    for stderr in [
        "clip_0003.mp4: No such file or directory",
        "Invalid argument: error parsing filter graph",
        "moov atom not found; input appears corrupt",
        "Permission denied",
        "No space left on device",
        "Unrecognized option 'foo'",
        "ffmpeg exited with code 1\n\nstderr:\nConversion failed!",
    ] {
        assert!(!is_hwdecode_failure(stderr), "false positive on: {stderr}");
    }
}

#[test]
fn combine_args_single_clip_copies_streams() {
    let (passes, _) = plan_for(1, 2.0);
    let args = build_pass_args(&passes[0], Some("meta.txt"), 320, &ResolvedEncoder::cpu());
    let j = args.join(" ");
    assert!(j.contains("-c copy"), "{j}");
    assert!(j.contains("-map_metadata 1"), "{j}"); // 1 clip -> metadata index 1
    assert!(!j.contains("-filter_complex"), "{j}");
}

/// A GPU encoder swaps the codec and (for a multi-input pass) prefixes each
/// input with the right `-hwaccel`, while audio stays AAC.
#[test]
fn gpu_encoder_sets_codec_and_hwaccel_on_the_final_pass() {
    let (passes, _) = plan_for(2, 2.0);
    let enc = ResolvedEncoder { kind: EncoderKind::Amf, hardware_decode: true };
    let args = build_pass_args(&passes[0], Some("meta.txt"), 320, &enc);
    let j = args.join(" ");
    assert!(j.contains("-c:v h264_amf"), "{j}");
    assert!(j.contains("-c:a aac"), "{j}");
    // One -hwaccel per real input (the metadata input is never accelerated).
    assert_eq!(args.iter().filter(|a| *a == "-hwaccel").count(), 2, "{j}");
    assert!(j.contains("-hwaccel d3d11va"), "{j}");
}

#[test]
fn small_playlists_still_use_exactly_one_pass() {
    for n in [2, 10, MAX_INPUTS_PER_PASS] {
        let (passes, _) = plan_for(n, 2.0);
        assert_eq!(passes.len(), 1, "n={n} should need no batching");
        assert!(passes[0].is_final);
        assert_eq!(passes[0].inputs.len(), n);
    }
}

#[test]
fn batches_are_even_and_never_exceed_the_input_limit() {
    assert_eq!(plan_batches(5, 40), vec![0..5]);
    // 41 splits 21/20 rather than leaving a batch of one.
    assert_eq!(plan_batches(41, 40), vec![0..21, 21..41]);
    assert_eq!(plan_batches(80, 40), vec![0..40, 40..80]);
    for n in [41, 100, 500, 1_000, 5_000] {
        let batches = plan_batches(n, 40);
        assert!(batches.iter().all(|b| b.len() <= 40), "n={n}");
        assert!(batches.iter().all(|b| !b.is_empty()), "n={n}");
        assert_eq!(batches.iter().map(|b| b.len()).sum::<usize>(), n);
    }
}

#[test]
fn large_playlist_is_split_into_batches_plus_one_final_pass() {
    let (passes, _) = plan_for(500, 2.0);
    let (batches, finals): (Vec<_>, Vec<_>) = passes.iter().partition(|p| !p.is_final);
    assert_eq!(finals.len(), 1, "exactly one final pass");
    assert!(passes.last().unwrap().is_final, "final pass must run last");
    assert!(!batches.is_empty(), "500 clips must be batched");
    // Each pass obeys its tier's cap: first-level (batch_r1_) passes take up
    // to the leaf cap, every other pass at most the small batch cap.
    for p in &passes {
        let cap = if p.output.starts_with("batch_r1_") {
            MAX_INPUTS_PER_PASS
        } else {
            TEST_BATCH_MAX
        };
        assert!(p.inputs.len() <= cap, "pass {} over its cap of {cap}", p.output);
    }
    // The first level consumes every clip exactly once, in order; the upper
    // levels consume batch files, not clips.
    let clips: Vec<&String> = passes
        .iter()
        .filter(|p| p.output.starts_with("batch_r1_"))
        .flat_map(|p| p.inputs.iter())
        .collect();
    assert_eq!(clips.len(), 500);
    for (i, name) in clips.iter().enumerate() {
        assert_eq!(*name, &format!("clip_{i:04}.mp4"), "order broken at {i}");
    }
    // Only the final pass writes an mp4; every batch stays in Matroska.
    assert!(batches.iter().all(|p| p.output.ends_with(".mkv")));
}

/// 493 clips → 13 first-level batches (cap 40) → 4 upper batches (cap 4) →
/// final(4). No pass ever opens more than the small batch cap of large
/// intermediates.
#[test]
fn two_tier_ladder_bounds_upper_levels_by_the_batch_cap() {
    let (inputs, durations) = inputs_of(493);
    let passes = plan_passes(&inputs, &durations, us(2.0), "out.mp4", 40, 4);

    // Round 1: 493 clips → ⌈493/40⌉ = 13 batches.
    let r1: Vec<&PlannedPass> =
        passes.iter().filter(|p| p.output.starts_with("batch_r1_")).collect();
    assert_eq!(r1.len(), 13);
    for (i, p) in r1.iter().enumerate() {
        assert_eq!(p.output, format!("batch_r1_{i:04}.mkv"));
        assert!(p.inputs.len() <= 40);
    }
    // Round 2: 13 batches → ⌈13/4⌉ = 4 batches, each ≤ 4 inputs.
    let r2: Vec<&PlannedPass> =
        passes.iter().filter(|p| p.output.starts_with("batch_r2_")).collect();
    assert_eq!(r2.len(), 4);
    assert!(r2.iter().all(|p| p.inputs.len() <= 4));
    // r2 consumes the r1 batch files, in order.
    let r2_inputs: Vec<&String> = r2.iter().flat_map(|p| p.inputs.iter()).collect();
    assert_eq!(r2_inputs.len(), 13);
    for (i, name) in r2_inputs.iter().enumerate() {
        assert_eq!(*name, &format!("batch_r1_{i:04}.mkv"));
    }
    // Final: 4 batches → 1 pass, also within the batch cap.
    let last = passes.last().unwrap();
    assert!(last.is_final);
    assert_eq!(last.output, "out.mp4");
    assert_eq!(last.inputs.len(), 4);
    // No pass anywhere past the leaf level opens more than the batch cap.
    for p in passes.iter().filter(|p| !p.output.starts_with("batch_r1_")) {
        assert!(p.inputs.len() <= 4, "upper pass {} exceeds the batch cap", p.output);
    }
}

/// First-level batching must not depend on the batch cap, so the `batch_r1_*`
/// files an interrupted run already produced still match this plan and are
/// reused rather than rebuilt.
#[test]
fn first_level_batching_is_independent_of_the_batch_cap() {
    let (inputs, durations) = inputs_of(493);
    let r1_of = |batch_max: usize| -> Vec<(String, Vec<String>, Vec<u64>)> {
        plan_passes(&inputs, &durations, us(2.0), "out.mp4", 40, batch_max)
            .into_iter()
            .filter(|p| p.output.starts_with("batch_r1_"))
            .map(|p| (p.output, p.inputs, p.durations))
            .collect()
    };
    // Same names, groupings AND durations regardless of the batch cap — which
    // is exactly what the resume reuse check (name + measured duration) needs.
    assert_eq!(r1_of(4), r1_of(8));
    assert_eq!(r1_of(4), r1_of(40));
}

/// Chapters/timing are invariant to ladder depth, including the extra levels
/// the small batch cap introduces.
#[test]
fn two_tier_preserves_total_duration_exactly() {
    for n in [13, 41, 500, 1_500] {
        for transition in [0.0, 2.0] {
            let (inputs, durations) = inputs_of(n);
            let passes = plan_passes(&inputs, &durations, us(transition), "out.mp4", 40, 4);
            let expected = total_duration(&durations, us(transition));
            let actual = passes.last().unwrap().output_duration(us(transition));
            assert_eq!(actual, expected, "n={n} t={transition}");
        }
    }
}

#[test]
fn batching_preserves_total_duration_exactly() {
    for n in [2, 41, 500, 1_500] {
        for transition in [0.0, 2.0] {
            let (passes, durations) = plan_for(n, transition);
            let expected = total_duration(&durations, us(transition));
            let actual = passes.last().unwrap().output_duration(us(transition));
            assert_eq!(
                actual, expected,
                "n={n} t={transition}: batched {actual} != single-pass {expected}"
            );
        }
    }
}

/// A 500-track playlist must not run past the command-line limit of Windows.
#[test]
fn combine_plan_stays_far_below_windows_limit() {
    let ffmpeg = r"C:\ytdlp\ffmpeg.exe";
    for n in [2, 500, 2_000] {
        let (passes, _) = plan_for(n, 2.0);
        for (i, pass) in passes.iter().enumerate() {
            let meta = pass.is_final.then_some("playlist_meta.txt");
            let len = cmdline_len(
                ffmpeg,
                &build_pass_args(pass, meta, 320, &ResolvedEncoder::cpu()),
            );
            assert!(
                len < WINDOWS_CMDLINE_LIMIT / 4,
                "n={n} pass {i}: {len} chars is uncomfortably close to the \
                 {WINDOWS_CMDLINE_LIMIT}-char limit"
            );
        }
    }
}

/// The largest user-selectable batch (64) must still build a command line
/// far under the Windows limit, even with the hardware-decode `-hwaccel`
/// prefix on every input.
#[test]
fn max_chunk_pass_stays_far_below_windows_limit() {
    let ffmpeg = r"C:\ytdlp\ffmpeg.exe";
    let (inputs, durations) = inputs_of(500);
    let passes = plan_passes(
        &inputs,
        &durations,
        us(2.0),
        "out.mp4",
        MAX_COMBINE_CHUNK,
        MAX_COMBINE_CHUNK,
    );
    let enc = ResolvedEncoder { kind: EncoderKind::Amf, hardware_decode: true };
    for pass in &passes {
        assert!(pass.inputs.len() <= MAX_COMBINE_CHUNK);
        let meta = pass.is_final.then_some("playlist_meta.txt");
        let len = cmdline_len(ffmpeg, &build_pass_args(pass, meta, 320, &enc));
        assert!(
            len < WINDOWS_CMDLINE_LIMIT / 4,
            "pass of {} inputs: {len} chars",
            pass.inputs.len()
        );
    }
}

/// The filtergraph is the other thing that grew with the track count; it
/// must never reach the command line at all.
#[test]
fn filtergraph_is_never_passed_as_an_argument() {
    let (passes, _) = plan_for(500, 2.0);
    for pass in &passes {
        let args = build_pass_args(
            &pass.clone(),
            pass.is_final.then_some("m.txt"),
            320,
            &ResolvedEncoder::cpu(),
        );
        assert!(
            args.iter().all(|a| !a.contains("xfade") && !a.contains("acrossfade")),
            "filtergraph leaked onto the command line"
        );
        assert!(args.contains(&"-filter_complex_script".to_string()));
    }
    // ...and it is big enough that this matters.
    let graph = build_combine_filter(&passes[0].durations, us(2.0));
    assert!(graph.len() > 1_000, "graph unexpectedly small: {}", graph.len());
}

#[test]
fn a_timeline_that_is_too_long_is_seen() {
    assert!(timeline_fits(&[1, 2, 3], 0));
    assert!(!timeline_fits(&[u64::MAX, u64::MAX], 0));
}

fn renderer(n: usize, transition: f64) -> PlaylistRenderer {
    let (_, durations) = inputs_of(n);
    PlaylistRenderer {
        clips: durations
            .iter()
            .enumerate()
            .map(|(i, d)| ClipInfo {
                path: format!("/w/clip_{i:04}.mp4"),
                duration: *d,
                title: format!("Song {i}"),
                uploader: "Artist".into(),
            })
            .collect(),
        output: "/out/All.mp4".into(),
        playlist_title: "All".into(),
        transition: us(transition),
        chapters: true,
        audio_bitrate_k: 320,
        encoder: ResolvedEncoder::cpu(),
        chunk_size: 40,
        batch_chunk_size: 4,
    }
}

#[test]
fn a_combine_run_walks_its_passes_and_frees_what_it_has_used() {
    let (inputs, durations) = inputs_of(45);
    let start = renderer(45, 2.0).combine(&inputs, &durations, Checkpoint::default()).unwrap();
    let mut run = start.run;
    assert!(start.metadata.contains("title=All"));
    // 45 clips make two batches and the final pass.
    assert_eq!(run.passes.len(), 3);
    let mut freed: Vec<String> = Vec::new();
    for i in 0..3 {
        assert_eq!(run.next, i);
        let pass = run.start_pass("ffmpeg").unwrap();
        let args = pass.args.unwrap();
        assert_eq!(args.last().unwrap(), &run.passes[i].output);
        assert!(pass.filter.unwrap().contains("xfade"));
        let expected = run.passes[i].output_duration(run.transition);
        let done = run.pass_succeeded(&Ok(expected));
        freed.extend(done.delete);
    }
    run.finish();
    // Both batches are deleted once they are in the video; no clip ever is.
    assert!(freed.contains(&"batch_r1_0000.mkv".to_string()), "{freed:?}");
    assert!(freed.contains(&"batch_r1_0001.mkv".to_string()), "{freed:?}");
    assert!(freed.iter().all(|f| !f.starts_with("clip_")), "{freed:?}");
    assert_eq!(run.checkpoint.stage, "done");
    assert_eq!(run.checkpoint.completed_batches.len(), 2);
}

#[test]
fn a_batch_of_the_right_length_is_reused() {
    let (inputs, durations) = inputs_of(45);
    let start = renderer(45, 2.0).combine(&inputs, &durations, Checkpoint::default()).unwrap();
    let mut run = start.run;
    let expected = run.passes[0].output_duration(run.transition);
    assert!(matches!(run.consider_reuse(&Ok(expected)), Reuse::Reused(_)));
    assert_eq!(run.next, 1);
    // Another length, or none, means that it is built again.
    assert!(matches!(run.consider_reuse(&Ok(1)), Reuse::Rebuild(_)));
    assert!(matches!(run.consider_reuse(&Err("truncated".into())), Reuse::Rebuild(_)));
    assert_eq!(run.next, 1);
}

#[test]
fn every_clip_starts_at_its_chapter_however_deep_the_ladder() {
    // Lengths that differ, so that nothing lines up by accident; three levels.
    let inputs: Vec<String> = (0..200).map(|i| format!("clip_{i:04}.mp4")).collect();
    let durations: Vec<u64> = (0..200).map(|i| us(10.0) + i * 12_345).collect();
    let transition = us(2.0);
    let passes = plan_passes(&inputs, &durations, transition, "out.mp4", 16, 4);
    assert!(passes.len() > 14);
    let mut files: Vec<(String, Vec<(String, i64)>)> =
        inputs.iter().map(|n| (n.clone(), vec![(n.clone(), 0)])).collect();
    for pass in &passes {
        let mut cues: Vec<(String, i64)> = Vec::new();
        for (name, start) in pass.inputs.iter().zip(chapter_starts(&pass.durations, transition)) {
            let (_, inner) = files.iter().find(|(n, _)| n == name).unwrap();
            cues.extend(inner.iter().map(|(clip, at)| (clip.clone(), at + start)));
        }
        files.push((pass.output.clone(), cues));
    }
    let (_, video) = files.last().unwrap();
    let expected: Vec<(String, i64)> =
        inputs.iter().cloned().zip(chapter_starts(&durations, transition)).collect();
    assert_eq!(video, &expected);
}

#[test]
fn what_is_recorded_decides_nothing() {
    let (inputs, durations) = inputs_of(45);
    let mut recorded = Checkpoint::default();
    recorded.record_batch("batch_r1_0000.mkv");
    let mut a = renderer(45, 2.0).combine(&inputs, &durations, recorded).unwrap().run;
    let mut b = renderer(45, 2.0).combine(&inputs, &durations, Checkpoint::default()).unwrap().run;
    // A recorded batch that does not measure up is made again.
    assert!(matches!(a.consider_reuse(&Ok(1)), Reuse::Rebuild(_)));
    assert!(matches!(a.consider_reuse(&Err("truncated".into())), Reuse::Rebuild(_)));
    // One that nothing records is taken where it does.
    let expected = a.passes[0].output_duration(a.transition);
    let Reuse::Reused(with) = a.consider_reuse(&Ok(expected)) else {
        panic!("the recorded batch is as long as it should be");
    };
    let Reuse::Reused(without) = b.consider_reuse(&Ok(expected)) else {
        panic!("the other batch is as long as it should be");
    };
    assert_eq!(with, format!("{without} [checkpoint]"));
    assert_eq!((a.next, a.reused_any), (b.next, b.reused_any));
    assert_eq!(a.intermediates, b.intermediates);
}

#[test]
fn a_hardware_decode_failure_is_tried_again_in_software() {
    let (inputs, durations) = inputs_of(3);
    let mut r = renderer(3, 2.0);
    r.encoder = ResolvedEncoder { kind: EncoderKind::Amf, hardware_decode: true };
    let start = r.combine(&inputs, &durations, Checkpoint::default()).unwrap();
    let mut run = start.run;
    run.start_pass("ffmpeg").unwrap();
    let FailureStep::RetrySoftware(_, args) = run.after_failure("D3D11 allocation failed", false)
    else {
        panic!("hardware decoding failed");
    };
    assert!(!args.contains(&"-hwaccel".to_string()));
    assert!(args.contains(&"h264_amf".to_string()));
    // Anything else, and a cancelled pass, fails at once.
    assert!(matches!(run.after_failure("Permission denied", false), FailureStep::Fail(_)));
    assert!(matches!(run.after_failure("D3D11 allocation failed", true), FailureStep::Fail(_)));
    let both = run.after_second_failure("first", "second");
    assert!(both.contains("first") && both.contains("second"), "{both}");
}

#[test]
fn nothing_to_combine_is_an_error() {
    let err = renderer(0, 2.0).combine(&[], &[], Checkpoint::default()).err();
    assert_eq!(err, Some(CombineError::NoClips));
    let endless = renderer(2, 0.0).combine(
        &["a.mp4".to_string(), "b.mp4".to_string()],
        &[u64::MAX, u64::MAX],
        Checkpoint::default(),
    );
    assert_eq!(endless.err(), Some(CombineError::TooLong));
    assert!(!CombineError::NoClips.message().is_empty());
}

#[test]
fn round_trips_and_dedups() {
    let mut cp = Checkpoint::load_or_new(None);
    cp.playlist = "My List".into();
    cp.encoder = "h264_amf".into();
    cp.set_stage("render");
    cp.record_clip(0);
    cp.record_clip(0); // duplicate ignored
    cp.record_clip(1);
    cp.set_stage("combine");
    cp.record_batch("batch_r1_0000.mkv");

    let loaded = Checkpoint::load_or_new(Some(cp));
    assert_eq!(loaded.playlist, "My List");
    assert_eq!(loaded.encoder, "h264_amf");
    assert_eq!(loaded.stage, "combine");
    assert_eq!(loaded.completed_clips, vec![0, 1]);
    assert!(loaded.has_batch("batch_r1_0000.mkv"));
    assert!(!loaded.has_batch("batch_r1_0001.mkv"));
    assert!(loaded.has_progress());
    assert_eq!(Checkpoint::path(&["/w".to_string()]), vec!["/w", "resume.json"]);
}

#[test]
fn missing_checkpoint_is_empty_not_an_error() {
    assert!(!Checkpoint::load_or_new(None).has_progress());
}
