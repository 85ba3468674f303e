use soundcloud2mp4::config::settings::{CookieBrowser, ExportMode, Settings};
use soundcloud2mp4::downloader::cookies::CookieStatus;
use soundcloud2mp4::gui::components::{
    failure_text, play_limit, row_text, status_label, Tone,
};
use soundcloud2mp4::gui::panels::{
    batches_label, clips_label, missing_line, tool_badge, transition_option, RetryPanel,
};
use soundcloud2mp4::gui::rows::{count_selected, state_of, RowState};
use soundcloud2mp4::gui::session::{
    work_has_resumable_artifacts, AppState, ResumeChoice, Session, SetupAction, SetupOrder, SetupUi,
};
use soundcloud2mp4::models::messages::{BenchmarkResult, Progress, WorkerMsg};
use soundcloud2mp4::models::track::{
    MetaFailure, MetaState, Track, TrackMetadata, TrackStatus,
};
use soundcloud2mp4::video::encoder::{Availability, EncoderKind, EncoderSupport};

fn session() -> Session {
    Session::new(Settings::default(), None)
}

fn row(id: &str, meta: MetaState) -> Track {
    let mut t = Track::placeholder(id.into(), format!("https://x/{id}"), Some(format!("T{id}")));
    t.meta = meta;
    t
}

fn transient() -> MetaState {
    MetaState::Failed(MetaFailure::transient("403".into()))
}

fn restricted() -> MetaState {
    MetaState::Failed(MetaFailure::restricted("drm".into(), "refused".into()))
}

fn permanent() -> MetaState {
    MetaState::Failed(MetaFailure::permanent("404".into(), "gone".into()))
}

fn mixed() -> Session {
    let mut s = session();
    s.tracks = vec![
        row("a", MetaState::Loaded),
        row("b", transient()),
        row("c", restricted()),
        row("d", permanent()),
        row("e", MetaState::Loading),
    ];
    s
}

fn tell(s: &mut Session, msg: WorkerMsg) -> Vec<usize> {
    s.handle(msg, 1_000, false, &[]).retry.iter().map(|t| t.index).collect()
}

#[test]
fn rows_are_counted_by_state() {
    let s = mixed();
    assert_eq!(s.failed_meta_count(), 2);
    assert_eq!(s.permanent_meta_count(), 1);
    assert_eq!(s.restricted_meta_count(), 1);
    assert_eq!(s.auto_recoverable_count(), 1);
    assert_eq!(s.resolved_meta_count(), 1);
    assert_eq!(state_of(&s.tracks[4]), RowState::Loading);
    assert_eq!(count_selected(&s.tracks), 5);
}

#[test]
fn an_automatic_retry_leaves_refused_rows_alone() {
    let mut s = mixed();
    let auto: Vec<usize> = s.start_retry_metadata(true).iter().map(|t| t.index).collect();
    assert_eq!(auto, vec![1]);
    let mut s = mixed();
    let manual = s.start_retry_metadata(false);
    let at: Vec<usize> = manual.iter().map(|t| t.index).collect();
    assert_eq!(at, vec![1, 2]);
    assert_eq!(manual[0].entry.id, "b");
    assert_eq!(manual[0].entry.url, "https://x/b");
    assert!(s.retrying());
    let p = s.retry.progress.unwrap();
    assert_eq!((p.remaining, p.total, p.auto), (2, 2, false));
}

#[test]
fn nothing_to_retry_starts_nothing() {
    let mut s = session();
    s.tracks = vec![row("a", MetaState::Loaded), row("d", permanent())];
    assert!(s.start_retry_metadata(false).is_empty());
    assert!(!s.retrying());
}

#[test]
fn a_cancelled_retry_puts_rows_back() {
    let mut s = mixed();
    s.start_retry_metadata(false);
    tell(&mut s, WorkerMsg::MetaRetrying(1));
    assert_eq!(s.tracks[1].meta, MetaState::Loading);
    assert!(s.cancel_retry());
    tell(
        &mut s,
        WorkerMsg::MetaRetryFinished {
            recovered: 0,
            still_failed: 2,
            permanent: 0,
            restricted: 0,
            cancelled: true,
            gave_up: false,
        },
    );
    assert_eq!(s.tracks[1].meta, transient());
    assert_eq!(s.tracks[4].meta, MetaState::Loading, "that row was not part of the retry");
    assert!(!s.retrying());
    assert_eq!(s.retry.next_at, None, "a cancelled pass ends the recovery");
}

fn pass_over(s: &mut Session, recovered: usize) {
    tell(
        s,
        WorkerMsg::MetaRetryFinished {
            recovered,
            still_failed: 1,
            permanent: 0,
            restricted: 0,
            cancelled: false,
            gave_up: false,
        },
    );
}

#[test]
fn recovery_backs_off_and_starts_over_on_progress() {
    let mut s = mixed();
    s.settings.auto_recover_metadata = true;
    let mut waits: Vec<u64> = Vec::new();
    for _ in 0..7 {
        pass_over(&mut s, 0);
        waits.push(s.retry.backoff);
    }
    assert_eq!(waits, vec![30, 60, 120, 240, 300, 300, 300]);
    assert_eq!(s.retry.next_at, Some(1_000 + 300_000));
    pass_over(&mut s, 1);
    assert_eq!(s.retry.backoff, 15);
    assert_eq!(
        s.logs.last().unwrap(),
        "⏳ 1 track(s) still missing metadata — retrying in 15s."
    );
    // Not yet due, then due.
    let (targets, waiting) = s.tick_recovery(15_999);
    assert!(targets.is_empty() && waiting);
    let (targets, waiting) = s.tick_recovery(16_000);
    assert_eq!(targets.len(), 1);
    assert!(!waiting && s.retrying());
    // All there: recovery is over.
    s.tracks[1].meta = MetaState::Loaded;
    pass_over(&mut s, 1);
    assert_eq!(s.retry.next_at, None);
    assert_eq!(s.logs.last().unwrap(), "✓ Metadata recovery complete — every track resolved.");
}

#[test]
fn the_end_of_a_load_starts_recovery() {
    let mut s = mixed();
    s.settings.auto_recover_metadata = true;
    s.meta_loading = true;
    let started = tell(
        &mut s,
        WorkerMsg::MetaLoadFinished {
            cancelled: false,
            failed: 3,
            rate_limited: 1,
            permanent: 1,
            restricted: 1,
        },
    );
    assert_eq!(started, vec![1]);
    assert!(!s.meta_loading);
    assert!(s.logs[0].starts_with("1 of 3 failed track(s) are permanently unavailable"));
    assert!(s.logs[1].starts_with("1 of 3 failed track(s) were refused"));
    assert_eq!(
        s.logs[2],
        "→ Recovering missing metadata automatically (1 track(s) remaining)"
    );
    // Switched off, or cancelled, it does not.
    let mut s = mixed();
    s.settings.auto_recover_metadata = false;
    let quiet = WorkerMsg::MetaLoadFinished {
        cancelled: false,
        failed: 0,
        rate_limited: 0,
        permanent: 0,
        restricted: 0,
    };
    assert!(tell(&mut s, quiet).is_empty());
    assert!(s.logs.is_empty());
    assert_eq!(s.set_auto_recover(true).len(), 1);
}

#[test]
fn fetched_metadata_fills_its_row() {
    let mut s = mixed();
    s.settings.max_track_us = 20_000_000;
    let meta = TrackMetadata {
        id: "b".into(),
        title: "Song".into(),
        uploader: "Artist".into(),
        duration: 90,
        thumbnail: None,
        url: "".into(),
    };
    tell(&mut s, WorkerMsg::TrackMeta(1, Ok(meta)));
    assert_eq!(s.tracks[1].title, "Song");
    assert_eq!(s.tracks[1].url, "https://x/b", "an empty address changes nothing");
    assert_eq!(s.tracks[1].play_us, 20_000_000);
    assert_eq!(s.tracks[1].meta, MetaState::Loaded);
    // A row that is gone for good is deselected; any other failure keeps it.
    tell(&mut s, WorkerMsg::TrackMeta(4, Err(MetaFailure::permanent("x".into(), "y".into()))));
    assert!(!s.tracks[4].selected);
    tell(&mut s, WorkerMsg::TrackMeta(0, Err(MetaFailure::transient("x".into()))));
    assert!(s.tracks[0].selected);
    // A row that is not there is ignored.
    tell(&mut s, WorkerMsg::TrackMeta(99, Err(MetaFailure::transient("x".into()))));
    tell(&mut s, WorkerMsg::MetaRetrying(99));
    tell(&mut s, WorkerMsg::TrackStatus(99, TrackStatus::Pending));
    assert_eq!(s.tracks.len(), 5);
}

#[test]
fn a_loaded_playlist_replaces_the_list() {
    let mut s = session();
    s.url = "https://soundcloud.com/a/sets/b".into();
    assert!(s.can_load());
    s.start_load_playlist();
    assert_eq!(s.state, AppState::LoadingPlaylist);
    assert!(s.meta_loading && !s.can_load());
    let work = vec!["clip_0000.mp4".to_string(), "batch_r1_0000.mkv".to_string()];
    let tracks = vec![row("a", MetaState::Loading)];
    s.handle(WorkerMsg::Playlist(Ok(("Set".into(), tracks))), 0, false, &work);
    assert_eq!(s.state, AppState::Idle);
    assert_eq!(s.list_heading().as_deref(), Some("Set  (1 tracks)"));
    assert_eq!(s.logs[0], "Found a previous conversion in progress.");
    assert_eq!(s.logs[1], "1 rendered clip(s) found — they will be reused on Resume.");
    assert_eq!(s.logs.len(), 3);

    let mut s = session();
    s.start_load_playlist();
    s.handle(WorkerMsg::Playlist(Err("no such set".into())), 0, false, &[]);
    assert_eq!(s.error.as_deref(), Some("no such set"));
    assert!(!s.meta_loading);
}

#[test]
fn the_log_is_shortened_when_it_grows_too_long() {
    let mut s = session();
    s.settings.debug_mode = true;
    for i in 0..3_000 {
        s.log(&format!("{i}"));
    }
    assert_eq!(s.logs.len(), 3_000);
    let effects = s.handle(WorkerMsg::Log("last".into()), 0, false, &[]);
    assert_eq!(effects.log_file_line.as_deref(), Some("last"));
    assert_eq!(s.logs.len(), 2_001);
    assert_eq!(s.logs[0], "1000");
    assert_eq!(s.logs.last().unwrap(), "last");
}

#[test]
fn a_conversion_takes_the_selected_rows() {
    let mut s = mixed();
    s.tracks[1].selected = false;
    s.tracks[0].status = TrackStatus::Failed("old".into());
    s.playlist_title = Some("Set".into());
    let order = s.on_convert_clicked(&["clip_0000.mp4".to_string()]).unwrap();
    assert_eq!(order.mode, ExportMode::Separate);
    let at: Vec<usize> = order.selected.iter().map(|(i, _)| *i).collect();
    assert_eq!(at, vec![0, 2, 3, 4]);
    assert_eq!(order.playlist_name, "Set");
    assert_eq!(order.encoder.kind, EncoderKind::Cpu);
    assert_eq!(s.tracks[0].status, TrackStatus::Pending);
    assert_eq!(s.state, AppState::Converting);
    assert_eq!(s.progress.as_ref().unwrap().phase, "Starting...");

    let mut s = mixed();
    s.select_all(false);
    assert!(s.start_convert().is_none());
    assert_eq!(s.error.as_deref(), Some("No tracks selected."));
}

#[test]
fn an_interrupted_export_is_asked_about() {
    let work = vec!["batch_r1_0000.mkv".to_string()];
    let mut s = mixed();
    s.settings.export_mode = ExportMode::Combined;
    assert!(s.on_convert_clicked(&work).is_none());
    assert!(s.resume_prompt);
    assert!(s.resume_answered(ResumeChoice::Undecided, Ok("".into())).is_none());
    assert!(s.resume_prompt);
    assert!(s.resume_answered(ResumeChoice::Cancel, Ok("".into())).is_none());
    assert!(!s.resume_prompt);
    let order = s.resume_answered(ResumeChoice::StartOver, Err("locked".into())).unwrap();
    assert_eq!(order.mode, ExportMode::Combined);
    assert_eq!(
        s.logs.last().unwrap(),
        "Could not delete work directory (locked); starting anyway."
    );
    assert!(!work_has_resumable_artifacts(&["clip_x.txt".to_string()]));
}

#[test]
fn a_conversion_ends_with_a_summary() {
    let mut s = mixed();
    s.start_convert();
    tell(&mut s, WorkerMsg::EncoderActive("CPU".into()));
    tell(
        &mut s,
        WorkerMsg::Progress(Progress { phase: "half".into(), done: 1, of: 2 }),
    );
    tell(&mut s, WorkerMsg::Finished { ok: 2, failed: 1, cancelled: false });
    assert_eq!(s.state, AppState::Idle);
    assert!(s.active_encoder.is_none());
    let p = s.progress.as_ref().unwrap();
    assert_eq!(p.phase, "Done — 2 video(s) created, 1 failed");
    assert_eq!((p.done, p.of), (1, 1));
    for (mode, ok, failed, cancelled, text) in [
        (ExportMode::Separate, 2, 0, false, "Done — 2 video(s) created 🎉"),
        (ExportMode::Separate, 1, 0, true, "Cancelled — 1 video(s) created, 0 failed"),
        (ExportMode::Combined, 1, 0, false, "Done — 1 playlist video created 🎉"),
        (
            ExportMode::Combined,
            1,
            2,
            false,
            "Done — 1 playlist video created (2 track(s) skipped) 🎉",
        ),
        (
            ExportMode::Combined,
            0,
            2,
            false,
            "Failed — no playlist video created (2 track(s) failed)",
        ),
        (ExportMode::Combined, 0, 0, true, "Cancelled — no playlist video created"),
    ] {
        s.active_export_mode = mode;
        assert_eq!(s.completion_message(ok, failed, cancelled), text);
    }
}

#[test]
fn cancelling_gives_up_a_load_but_waits_for_a_conversion() {
    let mut s = session();
    s.start_load_playlist();
    let order = s.cancel_work();
    assert!(order.load && !order.retry);
    assert_eq!(s.state, AppState::Idle);
    assert_eq!(s.logs, vec!["Cancelling..."]);
    let mut s = mixed();
    s.start_convert();
    assert!(!s.cancel_work().load);
    assert_eq!(s.state, AppState::Converting);
}

#[test]
fn a_missing_tool_opens_the_setup_once() {
    let mut s = session();
    s.handle(WorkerMsg::Tools { ffmpeg: Some("6".into()), ytdlp: None }, 0, true, &[]);
    assert!(matches!(s.setup, SetupUi::Prompt));
    assert_eq!(
        s.setup_chosen(SetupAction::Install),
        SetupOrder::Install { ffmpeg: false, ytdlp: true }
    );
    for i in 0..400 {
        tell(&mut s, WorkerMsg::SetupProgress(format!("{i}")));
    }
    let SetupUi::Installing(log) = &s.setup else { panic!("being installed") };
    assert_eq!(log.len(), 201);
    tell(
        &mut s,
        WorkerMsg::SetupDone { success: false, message: "no".into(), needs_elevation: true },
    );
    assert!(matches!(s.setup, SetupUi::Failed { needs_elevation: true, .. }));
    assert_eq!(s.setup_chosen(SetupAction::Elevate), SetupOrder::Elevate);
    s.setup_chosen(SetupAction::Dismiss);
    s.handle(WorkerMsg::Tools { ffmpeg: None, ytdlp: None }, 0, false, &[]);
    assert!(matches!(s.setup, SetupUi::Hidden), "turned away for this session");
    let mut s = session();
    s.handle(WorkerMsg::Tools { ffmpeg: None, ytdlp: None }, 0, false, &[]);
    assert!(matches!(s.setup, SetupUi::NoWinget));
    tell(
        &mut s,
        WorkerMsg::SetupDone { success: true, message: "yes".into(), needs_elevation: false },
    );
    assert!(matches!(s.setup, SetupUi::Success(_)));
}

fn benchmark(n: u64) -> WorkerMsg {
    WorkerMsg::BenchmarkDone(Ok(BenchmarkResult {
        encoder: format!("E{n}"),
        elapsed_us: 3_000_000,
        size_bytes: 2_097_152,
    }))
}

#[test]
fn the_newest_benchmarks_are_kept() {
    let mut s = session();
    assert!(s.start_benchmark().is_some());
    assert!(s.start_benchmark().is_none(), "one at a time");
    for i in 0..8 {
        tell(&mut s, benchmark(i));
    }
    assert!(!s.benchmarking);
    assert_eq!(s.benchmarks.len(), 6);
    assert_eq!(s.benchmarks[0].encoder, "E7");
    tell(&mut s, WorkerMsg::BenchmarkDone(Err("no disk".into())));
    assert_eq!(s.error.as_deref(), Some("Benchmark failed: no disk"));
    // Two minutes of video at ten times real time take twelve seconds.
    s.tracks = vec![row("a", MetaState::Loaded), row("b", MetaState::Loaded)];
    let (rows, note) = s.benchmark_table();
    assert_eq!(rows[0].time, "3.0s");
    assert_eq!(rows[0].fps, "300");
    assert_eq!(rows[0].size, "2.0 MB");
    assert_eq!(rows[0].estimate.as_deref(), Some("0:12"));
    assert_eq!(
        note.as_deref(),
        Some("Estimate for the 2 selected track(s) (~2:00) at each encoder's measured rate.")
    );
    s.tracks.clear();
    let (rows, note) = s.benchmark_table();
    assert!(rows[0].estimate.is_none() && note.is_none());
}

#[test]
fn cookies_are_checked_only_with_a_browser() {
    let mut s = session();
    assert!(!s.start_cookie_check());
    assert_eq!(s.cookie_status, Some(CookieStatus::Disabled));
    assert!(!s.offers_cookies_file());
    s.settings.cookie_browser = CookieBrowser::Firefox;
    s.cookies_changed();
    assert_eq!(s.cookie_line().text, "Not checked yet — press Check");
    assert!(s.can_check_cookies() && s.start_cookie_check());
    assert_eq!(s.cookie_line().text, "Checking...");
    assert_eq!(
        s.logs.last().unwrap(),
        "Checking Firefox cookies (--cookies-from-browser firefox)..."
    );
    tell(
        &mut s,
        WorkerMsg::CookieStatus(CookieStatus::DecryptFailed {
            browser: "Firefox".into(),
            app_bound: false,
        }),
    );
    assert_eq!(s.logs.last().unwrap(), "Cookie check (Firefox): ✗ Cannot access cookies");
    assert!(s.offers_cookies_file());
    assert!(matches!(s.cookie_line().tone, Tone::Bad));
    s.settings.cookies_path = "/c.txt".into();
    assert!(s.cookies_file_warning(false, None).unwrap().contains("does not exist"));
    assert!(s.cookies_file_warning(true, Some("[]")).unwrap().contains("Netscape"));
    assert_eq!(s.cookies_file_warning(true, Some("# Netscape HTTP Cookie File\n")), None);
}

#[test]
fn a_changed_limit_applies_to_every_row() {
    let mut s = mixed();
    s.tracks[0].duration = 200;
    s.set_full_length(true);
    assert_eq!(s.tracks[0].play_us, 200_000_000);
    assert_eq!(s.tracks[1].play_us, 60_000_000, "an unknown length changes nothing");
    s.settings.max_track_us = 30_000_000;
    s.apply_global_max();
    assert!(s.tracks.iter().all(|t| t.play_us == 30_000_000));
    s.set_full_length(false);
    assert_eq!(s.settings.max_track_us, 60_000_000);
}

#[test]
fn the_retry_panel_follows_the_pass() {
    let mut s = mixed();
    assert!(matches!(s.retry_panel(0), RetryPanel::Nothing));
    s.start_retry_metadata(false);
    tell(&mut s, WorkerMsg::MetaRetryProgress { remaining: 1, total: 2 });
    let RetryPanel::Pass { done, of, count, .. } = s.retry_panel(0) else { panic!("a pass runs") };
    assert_eq!((done, of, count.as_str()), (1, 2, "1 / 2 remaining"));
    s.settings.auto_recover_metadata = true;
    pass_over(&mut s, 1);
    let RetryPanel::Recovery { done, of, count, note, waiting } = s.retry_panel(2_500) else {
        panic!("a pass is waited for");
    };
    assert_eq!((done, of, waiting), (1, 5, true));
    assert_eq!(count, "1 / 5 recovered");
    assert_eq!(note, "1 remaining — retrying in 13s...");
    s.cancel_retry();
    let RetryPanel::Summary { heading, counts, hint } = s.retry_panel(0) else {
        panic!("the pass is over");
    };
    assert_eq!(heading, "Metadata retry complete.");
    assert_eq!(counts.len(), 2);
    assert!(hint.unwrap().starts_with("Use Retry Failed Metadata"));
}

#[test]
fn the_retry_button_counts_what_it_would_retry() {
    let mut s = mixed();
    let b = s.retry_button().unwrap();
    assert_eq!(b.label, "⟳ Retry Failed Metadata (2)");
    assert!(b.enabled);
    assert!(b.hint.contains("1 track(s) are permanently unavailable"), "{}", b.hint);
    assert!(b.hint.contains("1 track(s) were refused"), "{}", b.hint);
    s.tracks.truncate(1);
    let b = s.retry_button().unwrap();
    assert!(!b.enabled);
    assert_eq!(b.hint, "All tracks have metadata.");
    s.meta_loading = true;
    assert!(s.retry_button().is_none());
    assert!(!s.can_convert(), "the tools are not there");
    assert_eq!(s.convert_label(), "▶  Convert 1 track(s)");
}

#[test]
fn encoders_can_be_picked_once_they_are_known() {
    let mut s = session();
    let hover = |s: &Session, i: usize| s.encoder_options()[i].hover.clone();
    assert_eq!(hover(&s, 2).as_deref(), Some("Detecting encoders..."));
    assert!(s.encoder_options()[0].enabled && s.encoder_options()[1].enabled);
    tell(
        &mut s,
        WorkerMsg::Encoders(EncoderSupport { amf: Availability::Available, ..Default::default() }),
    );
    assert!(s.encoder_options()[4].enabled);
    assert_eq!(hover(&s, 2).as_deref(), Some("not yet detected"));
    assert_eq!(s.encoder_outcome(), ("AMD AMF (h264_amf)".to_string(), None));
    assert_eq!(s.resolve_encoder().kind, EncoderKind::Amf);
    s.recheck_tools();
    assert_eq!(s.resolve_encoder().kind, EncoderKind::Cpu);
}

#[test]
fn rows_say_what_is_known_of_them() {
    let s = mixed();
    let lines = row_text(&s.tracks[3]);
    assert_eq!(lines[1].text, "Reason: gone");
    assert_eq!(lines[1].tone, Tone::Warn);
    assert_eq!(row_text(&s.tracks[1])[0].text, "metadata unavailable: 403");
    assert_eq!(row_text(&s.tracks[2])[1].text, "refused");
    let mut loaded = row("x", MetaState::Loaded);
    loaded.uploader = "Artist".into();
    loaded.duration = 61;
    assert_eq!(row_text(&loaded)[0].text, "Artist   ·   1:01");
    assert_eq!(play_limit(&loaded, 0), 61_000_000);
    assert_eq!(play_limit(&loaded, 5), 5);
    assert_eq!(status_label(&TrackStatus::Done("/a.mp4".into())).hover.as_deref(), Some("/a.mp4"));
    let long = TrackStatus::Failed("ä".repeat(601));
    let text = failure_text(&long).unwrap();
    assert_eq!(text, format!("Reason:\n{} [...]", "ä".repeat(600)));
    assert_eq!(failure_text(&TrackStatus::Pending), None);
}

#[test]
fn badges_and_labels() {
    assert_eq!(tool_badge("ffmpeg", &None, false).text, "ffmpeg: checking...");
    assert_eq!(tool_badge("ffmpeg", &Some("6".into()), true).text, "ffmpeg ✓");
    assert_eq!(tool_badge("ffmpeg", &None, true).text, "ffmpeg ✗ not found");
    assert_eq!(missing_line("yt-dlp", true).text, "✗ yt-dlp — not found");
    assert_eq!(clips_label(40), "40 clips (default)");
    assert_eq!(batches_label(8), "8 batches");
    assert_eq!(transition_option(0), "None (hard cut)");
    assert_eq!(transition_option(3_000_000), "3 seconds");
    assert_eq!(
        session().backoff_text(),
        "Shared rate-limit cooldown: 5s → 10s → 20s → 40s → 60s → 60s  (one cooldown pauses every worker)"
    );
}
