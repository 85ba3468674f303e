use soundcloud2mp4::config::settings::Settings;
use soundcloud2mp4::downloader::metadata::DownloadedTrack;
use soundcloud2mp4::models::track::TrackMetadata;
use soundcloud2mp4::platform::Platform;
use soundcloud2mp4::video::encoder::ResolvedEncoder;
use soundcloud2mp4::video::ffmpeg::{
    build_filter, build_render_args, find_font, font_candidates, overlay_text,
    placeholder_cover_args, RenderJob,
};
use soundcloud2mp4::video::probe::{
    ffprobe_path, measure_all, parse_duration, probe_args, probe_duration, report_measurement,
};
use soundcloud2mp4::video::renderer::{effective_seconds, render_track_to, video_stem};

fn job() -> RenderJob {
    RenderJob {
        cover: r"C:\work\track.jpg".into(),
        audio: r"C:\work\track.mp3".into(),
        output: r"C:\out\Artist - Song.mp4".into(),
        title: "It's a: Song".into(),
        uploader: "Some Artist".into(),
        width: 1920,
        height: 1080,
        audio_bitrate_k: 320,
        duration: 215_000_000,
        fade: true,
        zoom: false,
        encoder: ResolvedEncoder::cpu(),
        pad_audio: false,
    }
}

#[test]
fn filter_contains_no_absolute_paths_or_drive_colons() {
    let filter = build_filter(&job(), true);
    // A path such as `fontfile=C\:/...` breaks filtergraph parsing.
    assert!(!filter.contains("C:"), "absolute path leaked into filter: {filter}");
    assert!(!filter.contains("C\\:"), "escaped path leaked into filter: {filter}");
    assert!(filter.contains("fontfile=font.ttf"));
    assert!(filter.contains("textfile=title.txt"));
    assert!(filter.contains("textfile=artist.txt"));
}

#[test]
fn filter_scales_and_pads_to_requested_resolution() {
    let filter = build_filter(&job(), true);
    assert!(filter.contains("scale=1920:1080"));
    assert!(filter.contains("pad=1920:1080"));
    assert!(filter.contains("format=yuv420p"));
}

#[test]
fn args_carry_quality_duration_and_metadata() {
    let args = build_render_args(&job(), true);
    let joined = args.join(" ");
    assert!(joined.contains("-b:a 320k"), "{joined}");
    assert!(joined.contains("-t 215.000"), "{joined}");
    assert_eq!(args.iter().filter(|a| *a == "-metadata").count(), 2);
    assert!(args.iter().any(|a| a == "title=It's a: Song"), "{joined}");
    assert!(args.iter().any(|a| a == "artist=Some Artist"), "{joined}");
    assert!(args.iter().any(|a| a.ends_with("Artist - Song.mp4")));
}

#[test]
fn loop_flag_only_without_zoom() {
    let mut j = job();
    assert!(build_render_args(&j, true).contains(&"-loop".to_string()));
    j.zoom = true;
    let args = build_render_args(&j, true);
    assert!(!args.contains(&"-loop".to_string()));
    assert!(build_filter(&j, true).contains("zoompan"));
}

#[test]
fn fade_filters_present_only_when_enabled() {
    let mut j = job();
    let args = build_render_args(&j, true).join(" ");
    assert!(args.contains("afade"));
    assert!(build_filter(&j, true).contains("fade=t=out:st=213.80"));
    j.fade = false;
    assert!(!build_render_args(&j, true).join(" ").contains("afade"));
    assert!(!build_filter(&j, true).contains("fade="));
}

#[test]
fn missing_font_omits_fontfile() {
    let filter = build_filter(&job(), false);
    assert!(!filter.contains("fontfile"));
    assert!(filter.contains("textfile=title.txt"));
}

#[test]
fn pad_audio_adds_apad_and_drops_shortest() {
    let mut j = job();
    j.fade = false;
    j.pad_audio = true;
    let args = build_render_args(&j, true);
    let joined = args.join(" ");
    assert!(joined.contains("-af apad"), "{joined}");
    assert!(!args.contains(&"-shortest".to_string()), "combined clips must be fixed-length");
}

#[test]
fn separate_mode_keeps_shortest() {
    let args = build_render_args(&job(), true);
    assert!(args.contains(&"-shortest".to_string()));
}

#[test]
fn the_first_font_that_is_there_is_taken() {
    for platform in [Platform::Windows, Platform::MacOs, Platform::Other] {
        let all = font_candidates(platform);
        assert!(!all.is_empty());
        let second = all[all.len() - 1].clone();
        assert_eq!(find_font(platform, |p: &str| p == second), Some(second.clone()));
        assert_eq!(find_font(platform, |_: &str| false), None);
        assert_eq!(find_font(platform, |_: &str| true), Some(all[0].clone()));
    }
}

#[test]
fn overlay_text_is_one_short_line() {
    let t = overlay_text("a\nb");
    assert!(!t.contains('\n'), "{t}");
    let args = placeholder_cover_args("cover.png", 1280, 720).join(" ");
    assert!(args.contains("1280x720"), "{args}");
    assert!(args.ends_with("cover.png"), "{args}");
}

#[test]
fn ffprobe_is_found_next_to_ffmpeg() {
    assert_eq!(ffprobe_path(r"C:\ytdlp\ffmpeg.exe"), r"C:\ytdlp\ffprobe.exe");
    assert_eq!(ffprobe_path("/usr/bin/ffmpeg"), "/usr/bin/ffprobe");
    assert_eq!(ffprobe_path("ffmpeg"), "ffprobe");
    assert_eq!(ffprobe_path("ffmpeg.exe"), "ffprobe.exe");
    // Unrecognisable name -> hope for one on PATH rather than guessing.
    assert_eq!(ffprobe_path(r"C:\tools\my-encoder.exe"), "ffprobe");
}

#[test]
fn duration_prefers_the_stream_and_falls_back_to_the_container() {
    // mp4: both lines present and equal.
    assert_eq!(parse_duration("1.533333\n1.533333\n"), Some(1_533_333));
    // Matroska: the stream duration is N/A, the container's is not.
    assert_eq!(parse_duration("N/A\n2.667000\n"), Some(2_667_000));
    // Nothing usable.
    assert_eq!(parse_duration("N/A\nN/A\n"), None);
    assert_eq!(parse_duration(""), None);
    // Zero-length or nonsense output is not a duration.
    assert_eq!(parse_duration("0.000000\n"), None);
    assert_eq!(parse_duration("garbage\n"), None);
}

#[test]
fn the_first_usable_length_wins() {
    assert_eq!(parse_duration("0\n2\n"), Some(2_000_000));
    assert_eq!(parse_duration("-1\ninf\nnan\n2.5\n7\n"), Some(2_500_000));
    assert_eq!(parse_duration("0\n-3\ninf\n"), None);
    // Beyond what can be counted is no length; next to nothing is one.
    assert_eq!(parse_duration("1e400\n"), None);
    assert_eq!(parse_duration("1e400\n3\n"), Some(3_000_000));
    assert_eq!(parse_duration("0.0000001\n"), Some(1));
}

#[test]
fn a_probe_that_fails_says_what_was_probed() {
    assert_eq!(probe_duration(true, "1.5\n", "", "clip.mp4"), Ok(1_500_000));
    assert!(probe_duration(false, "", "boom", "clip.mp4").is_err());
    assert!(probe_duration(true, "N/A\n", "", "clip.mp4").is_err());
    assert_eq!(probe_args("clip.mp4").last().map(|s| s.as_str()), Some("clip.mp4"));
}

/// Not every ffmpeg install ships an ffprobe next to it. Measuring must then
/// trust the requested durations rather than fail an export that would otherwise
/// have worked.
#[test]
fn missing_ffprobe_falls_back_to_requested_durations() {
    let requested = vec![100_000_000, 200_000_000, 300_000_000];
    let readings: Vec<(usize, Result<u64, String>)> =
        (0..3).map(|i| (i, Err("definitely-not-a-real-ffprobe-binary".to_string()))).collect();
    let measured = measure_all(&requested, &readings);

    assert_eq!(measured.durations, requested, "must fall back to what was asked for");
    assert_eq!(measured.measured, 0);
    assert!(!measured.all_measured());
    assert!(measured.error.is_some(), "the failure should be reported");

    // The user is told, rather than silently getting drifted chapters.
    let logs = report_measurement(&measured, 3);
    assert!(
        logs.iter().any(|l| l.contains("could not measure") && l.contains("chapter")),
        "fallback must warn about chapter accuracy: {logs:?}"
    );
}

#[test]
fn measured_lengths_replace_requested_ones() {
    let measured = measure_all(&[100, 200, 300], &[(2, Ok(330)), (0, Ok(90)), (1, Err("x".into()))]);
    assert_eq!(measured.durations, vec![90, 200, 330]);
    assert_eq!(measured.measured, 2);
    assert_eq!(measured.max_drift, 30);
    assert_eq!(measured.error.as_deref(), Some("x"));
    let logs = report_measurement(&measured, 3);
    assert!(logs[0].starts_with("Measured 2/3 clip(s)"), "{logs:?}");
}

fn meta(duration: u64) -> TrackMetadata {
    TrackMetadata {
        id: "1".into(),
        title: "t".into(),
        uploader: "u".into(),
        duration,
        thumbnail: None,
        url: "https://x".into(),
    }
}

#[test]
fn effective_seconds_respects_track_length_and_global_max() {
    // Requested longer than the song -> capped at song length.
    assert_eq!(effective_seconds(&meta(30), 60_000_000, 0), 30_000_000);
    // Global max wins when smaller.
    assert_eq!(effective_seconds(&meta(300), 300_000_000, 20_000_000), 20_000_000);
    // Unknown duration (0) -> play_seconds honored.
    assert_eq!(effective_seconds(&meta(0), 45_000_000, 0), 45_000_000);
    // Never below 1 second.
    assert_eq!(effective_seconds(&meta(0), 0, 0), 1_000_000);
}

#[test]
fn a_render_takes_its_values_from_the_settings() {
    let mut settings = Settings::default();
    settings.default_resolution = "1280x720".into();
    settings.default_quality = "128".into();
    settings.effect_zoom = true;
    let downloaded =
        DownloadedTrack { meta: meta(30), audio: "track.mp3".into(), cover: None };
    let j = render_track_to(
        &settings,
        &downloaded,
        "/w/cover.png",
        "/w/track.mp3",
        60_000_000,
        "/w/clip_0000.mp4",
        true,
        ResolvedEncoder::cpu(),
    );
    assert_eq!((j.width, j.height, j.audio_bitrate_k), (1280, 720, 128));
    assert_eq!(j.duration, 30_000_000);
    assert_eq!(j.output, "/w/clip_0000.mp4");
    assert!(j.zoom && j.pad_audio);
    assert!(!video_stem(&meta(30)).contains('/'));
}
