use soundcloud2mp4::config::settings::{CookieBrowser, Settings};
use soundcloud2mp4::downloader::cookies::{CookieSource, CookieStatus};
use soundcloud2mp4::downloader::ytdlp::{
    self, fetch_track_info_detailed, FailureKind, FinishedRun, FlatEntry, RetryDecision,
};
use soundcloud2mp4::models::cache::PlaylistCache;
use soundcloud2mp4::models::track::{MetaFailure, MetaState, TrackMetadata, TrackStatus};
use soundcloud2mp4::pipeline::combined::{
    clip_name, combine_job, combined_stem, status_after_combine_failure, ClipFailure, CombinedRun,
};
use soundcloud2mp4::pipeline::convert::{
    is_cancellation, label_of, leftover_dirs, track_progress, work_dir_name, AfterTrack,
    ConvertRun, Stage,
};
use soundcloud2mp4::pipeline::fetch::{
    cookies_refreshed_line, should_refresh_cookies, FetchStep, MetaFetch, TrackFetch,
};
use soundcloud2mp4::pipeline::gate::BackoffGate;
use soundcloud2mp4::pipeline::load::{
    begin_load, choose_membership, describe_backoff, load_attempts, load_finished_line,
    load_plan_line, outcome_kind, prepare_load, retry_attempts, retry_outcome, retry_pass_workers,
    retry_plan_line, retry_remaining, tally, update_cache_meta,
};
use soundcloud2mp4::pipeline::tools::{benchmark_line, benchmark_result, detect_encoders};
use soundcloud2mp4::utils::process::spawn_err;
use soundcloud2mp4::video::checkpoint::Checkpoint;
use soundcloud2mp4::video::encoder::{Availability, EncoderSupport, ResolvedEncoder};

#[test]
fn cookie_refresh_fires_only_once_and_only_with_a_browser() {
    // Happy path: enabled, not yet refreshed, a browser is configured.
    assert!(should_refresh_cookies(true, false, Some(CookieBrowser::Firefox)));
    // Already refreshed once — never a second time (the "one refresh per
    // request" rule).
    assert!(!should_refresh_cookies(true, true, Some(CookieBrowser::Firefox)));
    // Feature disabled.
    assert!(!should_refresh_cookies(false, false, Some(CookieBrowser::Firefox)));
    // No browser to refresh from.
    assert!(!should_refresh_cookies(true, false, None));
}

#[test]
fn only_restricted_failures_map_to_a_cookie_refresh() {
    // The retry engine keys off RetryDecision; restricted → refresh, the
    // others never do.
    assert_eq!(
        ytdlp::retry_decision("ERROR: This video is DRM protected"),
        RetryDecision::RefreshCookiesAndRetry
    );
    assert_eq!(
        ytdlp::retry_decision("ERROR: HTTP Error 429: Too Many Requests"),
        RetryDecision::Retry
    );
    assert_eq!(
        ytdlp::retry_decision("ERROR: HTTP Error 404: Not Found"),
        RetryDecision::PermanentFailure
    );
}

#[test]
fn metafetch_uses_the_settings_exponential_ladder_and_browser() {
    let mut s = Settings::default();
    s.cookie_browser = CookieBrowser::Firefox;
    let m = MetaFetch::new(&s, 0, s.metadata_retry_attempts(), None);
    assert_eq!(m.browser, Some(CookieBrowser::Firefox));
    assert_eq!(m.max_attempts, 6);
    // The shared gate carries the exponential ladder from settings.
    let gate = BackoffGate::new(m.steps.clone(), 0);
    assert_eq!(gate.steps, vec![5, 10, 20, 40, 60, 60]);
}

#[test]
fn metafetch_without_a_browser_cannot_refresh() {
    let s = Settings::default(); // cookie_browser defaults to none
    let m = MetaFetch::new(&s, 0, 1, None);
    assert_eq!(m.browser, None);
    assert!(!should_refresh_cookies(m.auto_cookie_refresh, false, m.browser));
    // max_attempts is floored at 1 even if a caller passes 0.
    let m0 = MetaFetch::new(&s, 0, 0, None);
    assert_eq!(m0.max_attempts, 1);
}

// ---------------------------------------------------------------------------
// A retry pass, driven on a clock of its own
// ---------------------------------------------------------------------------

/// Everything the window would have learned from a run.
#[derive(Default)]
struct Collected {
    meta: Vec<(usize, Result<TrackMetadata, MetaFailure>)>,
    retrying: Vec<usize>,
    progress: Vec<(usize, usize)>,
    /// (recovered, still_failed, cancelled, gave_up)
    finished: Option<(usize, usize, bool, bool)>,
    logs: Vec<String>,
    elapsed_ms: u64,
}

fn entry(id: &str) -> FlatEntry {
    FlatEntry { id: id.into(), url: format!("https://soundcloud.com/test/{id}"), title: None }
}

/// Settings that never reach the network: yt-dlp path points at nothing.
fn offline_settings() -> Settings {
    Settings {
        ytdlp_path: "definitely-not-a-real-yt-dlp-binary".into(),
        debug_mode: false,
        retry_delay_ms: 250,
        retry_concurrency: 4,
        metadata_retry_max_attempts: 3,
        retry_initial_delay_secs: 1, // the floor; the ladder is [1s, 1s, 1s]
        retry_max_delay_secs: 1,
        ..Settings::default()
    }
}

/// A request that fails because the program is not there.
fn not_started(settings: &Settings) -> Result<FinishedRun, String> {
    Err(spawn_err(&settings.ytdlp_path, true, "No such file or directory (os error 2)"))
}

/// One worker after another, each waiting out the shared gate and the delay on a clock
/// that only moves when it is waited for.
fn offline_pass(
    settings: &Settings,
    targets: &[(usize, FlatEntry)],
    cancel_at: Option<u64>,
) -> Collected {
    let mut c = Collected::default();
    let total = targets.len();
    if total == 0 {
        let out = retry_outcome(0, &[], false, false);
        c.finished = Some((out.recovered, out.still_failed, false, false));
        return c;
    }
    let fetch =
        MetaFetch::new(settings, settings.retry_delay(), retry_attempts(settings), None);
    let mut gate = BackoffGate::new(fetch.steps.clone(), 0);
    let mut now: u64 = 0;
    let mut gave_up = false;
    let cancelled = |now: u64| cancel_at.map_or(false, |at| now >= at);
    c.logs.push(retry_plan_line(settings, total, &gate.steps));
    c.progress.push((total, total));
    let mut outcomes: Vec<Option<FailureKind>> = Vec::new();
    for (index, e) in targets {
        if cancelled(now) || gave_up {
            continue;
        }
        c.retrying.push(*index);
        let mut track = TrackFetch::start(&fetch);
        let result = loop {
            now += gate.remaining(now) + fetch.delay_ms;
            if let Some(failure) = track.after_wait(!cancelled(now), gave_up) {
                break Err(failure);
            }
            let outcome = fetch_track_info_detailed(not_started(settings), cancelled(now));
            let report =
                track.after_fetch(&fetch, &e.id, outcome, cancelled(now), &mut gate, now);
            c.logs.extend(report.log);
            gave_up = gave_up || report.gave_up;
            match report.step {
                FetchStep::Again => {}
                FetchStep::RefreshCookies(_) => panic!("no browser is set"),
                FetchStep::Done(r) => break r,
            }
        };
        if cancelled(now) {
            continue;
        }
        outcomes.push(outcome_kind(&result));
        c.meta.push((*index, result));
        c.progress.push((retry_remaining(total, outcomes.len()), total));
    }
    let out = retry_outcome(total, &outcomes, cancelled(now), gave_up);
    c.logs.push(out.log);
    c.finished = Some((out.recovered, out.still_failed, cancelled(now), gave_up));
    c.elapsed_ms = now;
    c
}

#[test]
fn retry_reports_progress_and_logs_every_attempt() {
    let targets = vec![(3, entry("aaa")), (7, entry("bbb"))];
    let c = offline_pass(&offline_settings(), &targets, None);

    // Only the two requested rows were touched.
    assert_eq!(c.retrying.len(), 2);
    assert!(c.retrying.contains(&3) && c.retrying.contains(&7));
    let touched: Vec<usize> = c.meta.iter().map(|(i, _)| *i).collect();
    assert_eq!(touched.len(), 2, "retry must not touch other rows: {touched:?}");
    assert!(c.meta.iter().all(|(_, r)| r.is_err()));

    // Progress counts down from total to 0.
    assert_eq!(c.progress.first(), Some(&(2usize, 2usize)));
    assert_eq!(c.progress.last(), Some(&(0usize, 2usize)));

    assert_eq!(c.finished, Some((0, 2, false, false)));

    // Every attempt is logged with the track id and attempt number.
    let attempts: Vec<&String> =
        c.logs.iter().filter(|l| l.contains("transient error on track")).collect();
    assert!(
        attempts.iter().any(|l| l.contains("aaa") && l.contains("attempt 1/3")),
        "missing attempt log: {attempts:?}"
    );
    assert!(
        attempts.iter().any(|l| l.contains("attempt 3/3")),
        "should exhaust all 3 attempts: {attempts:?}"
    );
    assert!(
        c.logs.iter().any(|l| l.contains("global cooldown")),
        "transient failures should trigger the shared cooldown: {:?}",
        c.logs
    );
}

#[test]
fn cancelled_retry_stops_promptly() {
    let targets: Vec<_> = (0..50).map(|i| (i, entry(&format!("t{i}")))).collect();
    let c = offline_pass(&offline_settings(), &targets, Some(150));

    // Without cancellation this would take 50 tracks x 3 attempts.
    assert!(c.elapsed_ms < 5_000, "cancellation was not prompt: {}", c.elapsed_ms);
    let (_, _, cancelled, _) = c.finished.expect("must report completion even when cancelled");
    assert!(cancelled, "finish message must say it was cancelled");
    assert!(c.meta.len() < 50, "a cancelled pass should not have resolved every track");
}

#[test]
fn empty_target_list_finishes_immediately() {
    let c = offline_pass(&offline_settings(), &[], None);
    assert_eq!(c.finished, Some((0, 0, false, false)));
}

#[test]
fn without_automatic_retry_a_track_is_fetched_exactly_once() {
    let settings = Settings { auto_metadata_retry: false, ..offline_settings() };
    assert_eq!(retry_attempts(&settings), 1);
    assert_eq!(load_attempts(&settings), 1);
    let c = offline_pass(&settings, &[(3, entry("aaa"))], None);
    assert_eq!(c.logs.iter().filter(|l| l.contains("transient error on track")).count(), 1);
    assert!(c.logs[0].contains("up to 1 attempts each"), "{:?}", c.logs);
    assert_eq!(c.meta.len(), 1);
    assert!(c.meta[0].1.as_ref().unwrap_err().is_auto_retryable());
    assert_eq!(c.finished, Some((0, 1, false, false)));
    // With it on, the attempts are those of the settings.
    assert_eq!(retry_attempts(&offline_settings()), 3);
}

/// A hard rate limit must not turn into an unbounded grind: once the ladder
/// tops out with no successes, the pass stops early and hands over to the
/// manual button.
#[test]
fn persistent_rate_limiting_stops_the_pass_early() {
    // Far more tracks than the abort guard allows attempts for.
    let targets: Vec<_> = (0..80).map(|i| (i, entry(&format!("t{i}")))).collect();
    let c = offline_pass(&offline_settings(), &targets, None);
    let (recovered, still_failed, cancelled, gave_up) = c.finished.expect("must finish");
    assert_eq!(recovered, 0);
    assert_eq!(still_failed, 80);
    assert!(!cancelled, "giving up is not the same as user cancellation");
    assert!(gave_up, "should have stopped early: took {}", c.elapsed_ms);
    assert!(
        c.logs.iter().any(|l| l.contains("giving up on this batch")),
        "the abort should be logged"
    );
    // Stopping early means most tracks were never attempted.
    assert!(
        c.meta.len() < 80,
        "abort should skip remaining tracks, resolved {}",
        c.meta.len()
    );
}

fn failed(stderr: &str) -> Result<FinishedRun, String> {
    Ok(FinishedRun { success: false, code: Some(1), stdout: "".into(), stderr: stderr.into() })
}

#[test]
fn refused_access_refreshes_the_cookies_once() {
    let mut s = Settings::default();
    s.cookie_browser = CookieBrowser::Firefox;
    let m = MetaFetch::new(&s, 0, 1, None);
    let mut gate = BackoffGate::new(m.steps.clone(), 0);
    let mut t = TrackFetch::start(&m);
    let refused = || fetch_track_info_detailed(failed("ERROR: DRM protected"), false);
    let first = t.after_fetch(&m, "1", refused(), false, &mut gate, 0);
    assert!(matches!(first.step, FetchStep::RefreshCookies(CookieBrowser::Firefox)));
    assert_eq!(t.attempt, 1, "the refresh gets a try of its own");
    assert_eq!(t.cookies, CookieSource::Browser(CookieBrowser::Firefox));
    let second = t.after_fetch(&m, "1", refused(), false, &mut gate, 0);
    let FetchStep::Done(Err(f)) = second.step else { panic!("refused a second time") };
    assert!(f.is_restricted());
    assert!(second.log.unwrap().contains("still refused after refreshing cookies"));
    // No penalty: refused access is no rate limit.
    assert_eq!(gate.remaining(0), 0);
}

#[test]
fn a_lost_track_ends_its_fetch_at_once() {
    let m = MetaFetch::new(&Settings::default(), 0, 6, None);
    let mut gate = BackoffGate::new(m.steps.clone(), 0);
    let mut t = TrackFetch::start(&m);
    let gone = fetch_track_info_detailed(failed("ERROR: HTTP Error 404: Not Found"), false);
    let report = t.after_fetch(&m, "1", gone, false, &mut gate, 0);
    let FetchStep::Done(Err(f)) = report.step else { panic!("a lost track") };
    assert!(f.is_permanent());
    assert_eq!(f.headline(), "Track no longer exists");
}

#[test]
fn a_success_relaxes_the_gate() {
    let m = MetaFetch::new(&Settings::default(), 0, 6, None);
    let mut gate = BackoffGate::new(m.steps.clone(), 0);
    gate.penalize(0);
    gate.penalize(0);
    assert_eq!(gate.consecutive, 2);
    let good = FinishedRun {
        success: true,
        code: Some(0),
        stdout: r#"{"id":"1","title":"t","uploader":"u","url":"x"}"#.into(),
        stderr: "".into(),
    };
    let mut t = TrackFetch::start(&m);
    let report =
        t.after_fetch(&m, "1", fetch_track_info_detailed(Ok(good), false), false, &mut gate, 0);
    assert!(matches!(report.step, FetchStep::Done(Ok(_))));
    assert_eq!(
        report.log.as_deref(),
        Some("✓ Metadata downloaded — track 1 \"t\" (attempt 1/6)")
    );
    assert_eq!(gate.consecutive, 0);
}

#[test]
fn the_gate_climbs_its_ladder_and_never_opens_early() {
    let mut gate = BackoffGate::new(vec![5, 10], 1_000);
    assert_eq!(gate.remaining(1_000), 0);
    assert_eq!(gate.penalize(1_000), (5, false));
    assert_eq!(gate.remaining(1_000), 5_000);
    assert_eq!(gate.penalize(1_000), (10, false));
    assert_eq!(gate.remaining(1_000), 10_000);
    assert_eq!(gate.remaining(20_000), 0);
    assert_eq!(BackoffGate::new(vec![], 0).steps, vec![5]);
    // Fifteen penalties with no success in between end the batch.
    let mut hard = BackoffGate::new(vec![1], 0);
    for _ in 0..14 {
        assert!(!hard.penalize(0).1);
    }
    assert!(hard.penalize(0).1);
}

#[test]
fn the_refresh_line_says_what_was_found() {
    assert_eq!(
        cookies_refreshed_line(&CookieStatus::Disabled),
        "Cookie refresh: Not using cookies. Retrying..."
    );
}

// ---------------------------------------------------------------------------
// Loading
// ---------------------------------------------------------------------------

#[test]
fn a_load_begins_with_how_it_signs_in() {
    let s = Settings::default();
    let lines = begin_load(&s, "https://soundcloud.com/a/sets/b", false, None).unwrap();
    assert_eq!(lines[0], "SoundCloud authentication: no cookies (anonymous)");
    assert_eq!(lines.last().unwrap(), "Loading playlist: https://soundcloud.com/a/sets/b");
    assert!(begin_load(&s, "https://example.com", false, None).is_err());
}

#[test]
fn a_cached_playlist_stands_in_when_the_network_does_not() {
    let mut cached = PlaylistCache::new("https://soundcloud.com/a/set", "Set");
    cached.sync_entries("Set", &[entry("1"), entry("2")]);
    let m = choose_membership(Err("offline".into()), Some(&cached)).unwrap();
    assert_eq!(m.title, "Set");
    assert_eq!(m.entries.len(), 2);
    assert!(m.log.unwrap().contains("offline"));
    assert!(choose_membership(Err("offline".into()), None).is_err());
    let fresh =
        choose_membership(Ok(("New".into(), vec![entry("3")])), Some(&cached)).unwrap();
    assert_eq!(fresh.title, "New");
    assert!(fresh.log.is_none());
}

#[test]
fn only_what_is_missing_is_fetched() {
    let mut cached = PlaylistCache::new("https://soundcloud.com/a/set", "Set");
    cached.sync_entries("Set", &[entry("1"), entry("2")]);
    let meta = TrackMetadata {
        id: "1".into(),
        title: "One".into(),
        uploader: "U".into(),
        duration: 9,
        thumbnail: None,
        url: "https://soundcloud.com/test/1".into(),
    };
    update_cache_meta(&mut cached, 0, &Ok(meta));
    let p = prepare_load(cached, "Set", &[entry("1"), entry("2"), entry("3")], 0);
    assert_eq!(p.to_fetch, vec![1, 2]);
    assert_eq!(p.tracks.len(), 3);
    assert_eq!(p.tracks[0].meta, MetaState::Loaded);
    assert_eq!(p.tracks[0].play_us, 9_000_000);
}

#[test]
fn outcomes_are_tallied_by_kind() {
    let t = tally(&[
        None,
        Some(FailureKind::Retryable),
        Some(FailureKind::Permanent),
        Some(FailureKind::Restricted),
        Some(FailureKind::Retryable),
    ]);
    assert_eq!((t.succeeded, t.failed, t.rate_limited, t.permanent, t.restricted), (1, 4, 2, 1, 1));
    assert_eq!(
        load_finished_line(&t),
        "Playlist metadata loading finished: 4 still failed (2 transient/rate-limited, \
         1 access-restricted, 1 permanently unavailable)."
    );
    let r = retry_outcome(3, &[None, Some(FailureKind::Permanent)], false, false);
    assert_eq!((r.recovered, r.still_failed, r.permanent, r.restricted), (1, 2, 1, 0));
    assert_eq!(
        r.log,
        "Metadata retry complete: 1 recovered, 2 still failed (0 access-restricted, \
         1 permanently unavailable) (of 3)."
    );
}

#[test]
fn ladders_are_spelled_out() {
    assert_eq!(describe_backoff(&[5, 10, 20]), "5s → 10s → 20s");
    assert_eq!(describe_backoff(&[]), "");
    assert!(load_plan_line(3, 6, true, &[5, 10]).contains("5s → 10s"));
    assert_eq!(retry_pass_workers(&Settings::default()), 2);
}

#[test]
fn a_retry_pass_stays_gentle_whatever_the_settings_say() {
    let wild =
        Settings { retry_concurrency: 1000, retry_delay_ms: 0, ..Settings::default() };
    assert_eq!(retry_pass_workers(&wild), 4);
    assert_eq!(wild.retry_delay(), 250);
    let none =
        Settings { retry_concurrency: 0, retry_delay_ms: 999_999, ..Settings::default() };
    assert_eq!(retry_pass_workers(&none), 1);
    assert_eq!(none.retry_delay(), 5_000);
}

// ---------------------------------------------------------------------------
// Converting
// ---------------------------------------------------------------------------

#[test]
fn clearing_up_takes_the_directories_of_tracks_only() {
    let names: Vec<String> = [
        &work_dir_name(0),
        "clip_0000.mp4",
        "batch_r1_0000.mkv",
        "resume.json",
        &work_dir_name(12),
    ]
    .iter()
    .map(|n| n.to_string())
    .collect();
    assert_eq!(leftover_dirs(&names), vec!["track_0000".to_string(), "track_0012".to_string()]);
    assert!(leftover_dirs(&[]).is_empty());
}

#[test]
fn a_conversion_counts_what_came_of_each_track() {
    let mut run = ConvertRun::new(3, true);
    let done = run.track_finished("A - B", Ok("/out/a.mp4".into()), false);
    assert_eq!(done.status, TrackStatus::Done("/out/a.mp4".into()));
    assert_eq!(done.log, vec!["Finished: /out/a.mp4"]);
    assert_eq!(done.next_step, AfterTrack::GoOn);
    assert!(done.clean_up);
    let failed = run.track_finished("C - D", Err("boom".into()), false);
    assert_eq!(failed.status, TrackStatus::Failed("boom".into()));
    assert_eq!(failed.log, vec!["ERROR on 'C - D': boom"]);
    assert_eq!(failed.next_step, AfterTrack::GoOn);
    let stopped = run.track_finished("E - F", Err("cancelled".into()), true);
    assert_eq!(stopped.next_step, AfterTrack::Cancelled);
    let f = run.finished(true);
    assert_eq!((f.ok, f.failed, f.cancelled), (1, 1, true));
}

#[test]
fn a_failed_track_stops_the_conversion_where_asked() {
    let mut run = ConvertRun::new(3, false);
    run.track_finished("A - B", Ok("/out/a.mp4".into()), false);
    let failed = run.track_finished("C - D", Err("boom".into()), false);
    assert_eq!(failed.next_step, AfterTrack::Stopped);
    assert_eq!(
        failed.log[1],
        "Stopping export: 'Continue when a track fails' is off and track 2 failed."
    );
    let mut run = ConvertRun::new(1, false);
    assert_eq!(run.no_work_dir("no disk").next_step, AfterTrack::Stopped);
    let (line, finished) = ConvertRun::new(3, true).no_output_folder("no disk");
    assert_eq!(line, "ERROR: cannot create output folder: no disk");
    assert_eq!(finished.failed, 3);
}

#[test]
fn cancellation_is_told_from_failure() {
    assert!(is_cancellation(true, "anything"));
    assert!(is_cancellation(false, "yt-dlp was cancelled"));
    assert!(!is_cancellation(false, "boom"));
}

#[test]
fn names_and_phases_of_a_conversion() {
    assert_eq!(label_of("Song", "Artist"), "Song - Artist");
    assert_eq!(work_dir_name(7), "track_0007");
    assert_eq!(clip_name(12), "clip_0012.mp4");
    let p = track_progress(Stage::Downloading, 0, 2, "Song - Artist");
    assert_eq!(p.phase, "Downloading Track 1/2: Song - Artist");
    assert_eq!(p.done, 0);
}

#[test]
fn a_combined_export_collects_clips_in_order() {
    let (mut run, lines) =
        CombinedRun::start(2, Checkpoint::default(), "List", &ResolvedEncoder::cpu());
    assert!(lines.is_empty(), "nothing is left of an earlier attempt");
    run.clip_ready(0, "/w/clip_0000.mp4", 1_000_000, "A", "U");
    run.clip_ready(1, "/w/clip_0001.mp4", 2_000_000, "B", "U");
    assert_eq!(run.contributing, vec![0, 1]);
    assert_eq!(run.checkpoint.completed_clips, vec![0, 1]);
    assert!(run.start_combining().is_ok());
    assert_eq!(run.checkpoint.stage, "combine");
    let (line, done) = run.video_done("/out/List.mp4", false);
    assert!(line.contains("/out/List.mp4"), "{line}");
    assert_eq!((done.ok, done.failed), (2, 0));
}

#[test]
fn a_failed_clip_stops_the_export_unless_it_may_go_on() {
    let start = || CombinedRun::start(2, Checkpoint::default(), "List", &ResolvedEncoder::cpu()).0;
    let mut run = start();
    assert!(matches!(run.clip_failed(0, "A - U", "boom", false, true), ClipFailure::GoOn(..)));
    assert_eq!(run.failed, 1);
    let mut run = start();
    assert!(matches!(run.clip_failed(0, "A - U", "boom", false, false), ClipFailure::Stop(..)));
    let mut run = start();
    assert!(matches!(run.clip_failed(0, "A - U", "boom", true, true), ClipFailure::Cancelled(_)));
    assert!(run.start_combining().is_err(), "no clip, no video");
}

#[test]
fn a_failed_combine_blames_no_track() {
    assert_eq!(status_after_combine_failure("boom", false), Some(TrackStatus::Pending));
    assert_eq!(status_after_combine_failure("boom", true), None);
}

#[test]
fn the_combined_video_takes_the_playlists_name() {
    let mut s = Settings::default();
    assert_eq!(combined_stem(&s, "My: List"), combined_stem(&s, "My: List"));
    s.playlist_video_name = "  Own Name ".into();
    assert_eq!(combined_stem(&s, "My List"), "Own Name");
    let job = combine_job(&s, "My List", Vec::new(), "/out/x.mp4", ResolvedEncoder::cpu());
    assert_eq!(job.output, "/out/x.mp4");
    assert_eq!(job.chunk_size, 40);
}

#[test]
fn encoders_and_benchmarks_are_reported() {
    let support = EncoderSupport {
        gpus: vec!["AMD Radeon".into()],
        amf: Availability::Available,
        ..Default::default()
    };
    let lines = detect_encoders(&support);
    assert_eq!(lines[0], "Detected GPU(s): AMD Radeon");
    assert_eq!(lines[3], "Encoder AMF: available");
    let b = benchmark_result(&ResolvedEncoder::cpu(), 3_000_000, 1_048_576);
    assert_eq!(
        benchmark_line(&Ok(b)),
        "Benchmark: CPU (libx264) — 3.0s, 300 fps, 1.0 MB"
    );
    assert_eq!(benchmark_line(&Err("no disk".into())), "Benchmark failed: no disk");
    assert_eq!(benchmark_result(&ResolvedEncoder::cpu(), 0, 0).elapsed_us, 1_000);
}
