use soundcloud2mp4::config::settings::{
    batch_combine_chunk_presets, combine_chunk_presets, exponential_backoff,
    looks_like_netscape_cookies, qualities, resolutions, CookieBrowser, ExportMode, Settings,
};
use soundcloud2mp4::downloader::cookies::CookieSource;
use soundcloud2mp4::video::encoder::cache_path;

#[test]
fn exponential_backoff_doubles_and_caps() {
    let ladder = exponential_backoff(5, 60, 6);
    assert_eq!(ladder, vec![5, 10, 20, 40, 60, 60]);
}

#[test]
fn exponential_backoff_respects_a_small_cap() {
    let ladder = exponential_backoff(10, 10, 4);
    assert_eq!(ladder, vec![10, 10, 10, 10]);
}

#[test]
fn exponential_backoff_max_below_initial_is_lifted_to_initial() {
    // A nonsensical max < initial must not produce a shrinking ladder.
    let ladder = exponential_backoff(30, 5, 3);
    assert_eq!(ladder, vec![30, 30, 30]);
}

#[test]
fn exponential_backoff_edge_counts() {
    assert!(exponential_backoff(5, 60, 0).is_empty());
    assert_eq!(exponential_backoff(5, 60, 1), vec![5]);
}

#[test]
fn exponential_backoff_survives_the_largest_values() {
    assert_eq!(exponential_backoff(u64::MAX, u64::MAX, 2), vec![u64::MAX, u64::MAX]);
    assert_eq!(exponential_backoff(0, 0, 2), vec![1, 1]);
}

#[test]
fn default_settings_produce_the_documented_ladder() {
    let s = Settings::default();
    assert_eq!(s.retry_backoff(), vec![5, 10, 20, 40, 60, 60]);
    assert_eq!(s.metadata_retry_attempts(), 6);
    assert!(s.auto_metadata_retry);
    assert!(s.auto_cookie_refresh);
}

#[test]
fn retry_knobs_are_clamped_on_read() {
    let mut s = Settings::default();
    s.metadata_retry_max_attempts = 999;
    s.retry_initial_delay_secs = 0;
    s.retry_max_delay_secs = 100_000;
    assert_eq!(s.metadata_retry_attempts(), 10);
    assert!(s.retry_initial_delay() >= 1);
    assert!(s.retry_max_delay() <= 600);
}

#[test]
fn retry_pacing_is_never_more_aggressive_than_the_initial_load() {
    // Even a hand-edited config cannot exceed the initial load's 4 workers
    // or drop below the minimum delay.
    let s = Settings { retry_concurrency: 99, retry_delay_ms: 0, ..Settings::default() };
    assert_eq!(s.retry_workers(), 4);
    assert_eq!(s.retry_delay(), 250);

    let d = Settings::default();
    assert_eq!(d.retry_workers(), 2);
    assert_eq!(d.retry_delay(), 500);

    // The rate-limit ladder defaults to the exponential 5s→10s→20s→40s→60s→60s.
    assert_eq!(d.retry_backoff(), vec![5, 10, 20, 40, 60, 60]);

    // The ladder always has one rung per attempt and is never empty.
    assert_eq!(d.retry_backoff().len(), d.metadata_retry_attempts() as usize);
    let clamped = Settings { metadata_retry_max_attempts: 0, ..Settings::default() };
    assert!(!clamped.retry_backoff().is_empty());
}

#[test]
fn batch_sizes_are_clamped_on_read() {
    let s = Settings {
        combine_chunk_size: 0,
        batch_combine_chunk_size: 9_999,
        ..Settings::default()
    };
    assert_eq!(s.combine_chunk(), 2);
    assert_eq!(s.batch_combine_chunk(), 64);
    let d = Settings::default();
    assert_eq!(d.combine_chunk(), 40);
    assert_eq!(d.batch_combine_chunk(), 4);
}

#[test]
fn resolution_and_bitrate_are_read_from_text() {
    let mut s = Settings::default();
    s.default_resolution = "1280x720".to_string();
    s.default_quality = "192".to_string();
    assert_eq!(s.resolution(), (1280, 720));
    assert_eq!(s.bitrate_k(), 192);
    // Anything unreadable falls back to the largest of each.
    s.default_resolution = "huge".to_string();
    s.default_quality = "loud".to_string();
    assert_eq!(s.resolution(), (1920, 1080));
    assert_eq!(s.bitrate_k(), 320);
}

#[test]
fn offered_values_and_labels() {
    assert_eq!(qualities(), vec!["64", "128", "192", "256", "320"]);
    assert!(resolutions().contains(&"1920x1080".to_string()));
    assert_eq!(combine_chunk_presets(), vec![16, 24, 32, 40, 64]);
    assert_eq!(batch_combine_chunk_presets(), vec![2, 4, 8, 16]);
    assert_eq!(ExportMode::Separate.label(), "Separate videos");
    assert_eq!(ExportMode::Combined.label(), "One long playlist video");
    assert_eq!(ExportMode::default(), ExportMode::Separate);
    assert_eq!(CookieBrowser::all().len(), 4);
    assert_eq!(CookieBrowser::NoBrowser.label(), "None");
}

/// The browser dropdown must reach every yt-dlp call, and a cookies file that is
/// not there must never disable it.
#[test]
fn cookie_source_resolves_from_the_browser_setting() {
    let anon = Settings { cookie_browser: CookieBrowser::NoBrowser, ..Settings::default() };
    assert_eq!(anon.cookie_source(None), CookieSource::Anonymous);
    assert!(anon.cookie_source(None).is_none());

    for browser in [CookieBrowser::Chrome, CookieBrowser::Edge, CookieBrowser::Firefox] {
        let s = Settings { cookie_browser: browser, ..Settings::default() };
        assert_eq!(s.cookie_source(None), CookieSource::Browser(browser));
        assert_eq!(
            s.cookie_source(None).describe(),
            format!("--cookies-from-browser {}", browser.ytdlp_name().unwrap())
        );
    }

    // A path that does not exist is ignored rather than fatal — yt-dlp aborts
    // on a bad --cookies, which would break every load.
    let stale = Settings {
        cookie_browser: CookieBrowser::Firefox,
        cookies_path: "C:\\nope\\missing-cookies.txt".into(),
        ..Settings::default()
    };
    assert!(stale.cookies_missing(false));
    assert_eq!(
        stale.cookie_source(None),
        CookieSource::Browser(CookieBrowser::Firefox),
        "a missing file must fall back to the browser, not disable cookies"
    );
}

/// A leftover cookies file must never quietly override a browser the user just
/// picked — and a JSON export (the usual mistake) must be rejected rather than
/// handed to yt-dlp, which aborts on it and would break every request.
#[test]
fn a_stale_or_json_cookies_file_cannot_hijack_the_browser_choice() {
    // What a browser extension typically exports, and what yt-dlp wants.
    assert!(!looks_like_netscape_cookies(
        r#"[{"domain":".soundcloud.com","name":"oauth_token","value":"x"}]"#
    ));
    assert!(!looks_like_netscape_cookies("{\"cookies\": []}"));
    assert!(!looks_like_netscape_cookies("some~opaque~token~blob"));
    assert!(looks_like_netscape_cookies(
        "# Netscape HTTP Cookie File\n.soundcloud.com\tTRUE\t/\tTRUE\t0\tk\tv\n"
    ));
    // Header-less but structurally valid is still accepted.
    assert!(looks_like_netscape_cookies(".soundcloud.com\tTRUE\t/\tTRUE\t0\tk\tv\n"));

    let json = r#"[{"name":"oauth_token","value":"x"}]"#;

    // Browser selected + bad file present: the browser must win.
    let with_browser = Settings {
        cookie_browser: CookieBrowser::Firefox,
        cookies_path: "/c/json_export.txt".into(),
        ..Settings::default()
    };
    assert_eq!(
        with_browser.cookie_source(Some(json)),
        CookieSource::Browser(CookieBrowser::Firefox),
        "a leftover file must not override an explicit browser choice"
    );

    // No browser + bad file: run anonymously rather than feed yt-dlp garbage.
    let file_only = Settings {
        cookie_browser: CookieBrowser::NoBrowser,
        cookies_path: "/c/json_export.txt".into(),
        ..Settings::default()
    };
    assert!(file_only.cookies_wrong_format(Some(json)));
    assert!(!file_only.cookies_missing(true), "it exists, it is just the wrong format");
    assert_eq!(
        file_only.cookie_source(Some(json)),
        CookieSource::Anonymous,
        "a JSON export must be ignored, not passed to --cookies"
    );

    // A genuine Netscape file is used.
    let good = "# Netscape HTTP Cookie File\n.soundcloud.com\tTRUE\t/\tTRUE\t0\tk\tv\n";
    let valid = Settings {
        cookie_browser: CookieBrowser::NoBrowser,
        cookies_path: "/c/netscape.txt".into(),
        ..Settings::default()
    };
    assert!(!valid.cookies_wrong_format(Some(good)));
    assert_eq!(valid.cookie_source(Some(good)), CookieSource::File("/c/netscape.txt".into()));
}

#[test]
fn the_netscape_header_is_read_in_any_case() {
    // Only the header line makes this one a cookies file: its first line is
    // lowered before it is compared.
    assert!(looks_like_netscape_cookies("# NETSCAPE HTTP COOKIE FILE\n"));
    assert!(!looks_like_netscape_cookies("# some other file\n"));
    assert!(!looks_like_netscape_cookies(""));
}

#[test]
fn log_files_are_named_only_in_debug_mode() {
    let mut s = Settings::default();
    s.debug_mode = false;
    assert_eq!(s.tool_log("yt-dlp.log"), None);
    s.debug_mode = true;
    assert_eq!(s.tool_log("yt-dlp.log").unwrap(), vec!["soundcloud2mp4", "logs", "yt-dlp.log"]);
}

#[test]
fn everything_is_kept_below_the_directory_of_the_application() {
    assert_eq!(Settings::app_dir(), vec!["soundcloud2mp4"]);
    assert_eq!(Settings::config_path(), vec!["soundcloud2mp4", "config.json"]);
    assert_eq!(Settings::debug_dir(), vec!["soundcloud2mp4", "debug"]);
    assert_eq!(Settings::logs_dir(), vec!["soundcloud2mp4", "logs"]);
    assert_eq!(Settings::metadata_cache_dir(), vec!["soundcloud2mp4", "metadata"]);
    assert_eq!(cache_path(), vec!["soundcloud2mp4", "encoders.json"]);
    assert_eq!(Settings::videos_dir(), vec!["SoundCloud Videos"]);
    assert_eq!(Settings::defaults_with("/v").output_folder, "/v");
}
