use soundcloud2mp4::config::settings::CookieBrowser;
use soundcloud2mp4::downloader::cookies::{
    extract_count, parse_probe, probe, probe_args, CookieSource, CookieStatus,
};

#[test]
fn reads_the_success_line() {
    let out = "[generic] Extracting URL: file:///x\nExtracting cookies from firefox\n\
               Extracted 2652 cookies from firefox\nERROR: unable to download webpage";
    assert_eq!(
        parse_probe(out, "Firefox"),
        CookieStatus::Available { count: 2652, source: "Firefox".into() }
    );
    assert!(parse_probe(out, "Firefox").ok());
}

/// The Chromium-on-Windows case: Chrome, Edge and Brave all hit this, so
/// the advice must not be "close the browser".
#[test]
fn app_bound_encryption_is_reported_as_such() {
    let out = "Extracting cookies from chrome\n\
               ERROR: Failed to decrypt with DPAPI. See  \
               https://github.com/yt-dlp/yt-dlp/issues/10927  for more info";
    let status = parse_probe(out, "Chrome");
    assert_eq!(
        status,
        CookieStatus::DecryptFailed { browser: "Chrome".into(), app_bound: true }
    );
    assert!(!status.ok());
    assert_eq!(status.headline(), "✗ Cannot access cookies");
    let detail = status.detail().unwrap();
    assert!(detail.contains("app-bound"), "{detail}");
    assert!(detail.contains("will not help"), "must not advise closing: {detail}");
    assert!(detail.contains("Firefox"), "should point at what does work: {detail}");
}

/// A plain lock/permission problem *is* worth closing the browser for, and
/// gets the requested wording.
#[test]
fn a_locked_database_suggests_closing_the_browser() {
    let out = "Extracting cookies from chrome\nERROR: database is locked";
    let status = parse_probe(out, "Chrome");
    assert_eq!(
        status,
        CookieStatus::DecryptFailed { browser: "Chrome".into(), app_bound: false }
    );
    let detail = status.detail().unwrap();
    assert!(detail.contains("Close the browser and try again"), "{detail}");
    assert!(detail.contains("export cookies manually"), "{detail}");
}

#[test]
fn a_missing_browser_is_named() {
    let out = "Extracting cookies from opera\n\
               ERROR: could not find opera cookies database in \"C:\\...\\Opera Stable\"";
    let status = parse_probe(out, "Chrome");
    assert_eq!(status, CookieStatus::BrowserNotFound { browser: "Chrome".into() });
    assert_eq!(status.headline(), "✗ Chrome cookies unavailable. Browser not found.");
}

#[test]
fn unrecognised_output_keeps_yt_dlps_own_wording() {
    let status = parse_probe("ERROR: something new and strange", "Edge");
    let CookieStatus::ProbeFailed { detail } = &status else {
        panic!("expected ProbeFailed, got {status:?}");
    };
    assert!(detail.contains("something new and strange"), "{detail}");
    assert!(status.detail().unwrap().contains("Close the browser"));
}

#[test]
fn source_produces_the_right_flag_and_never_leaks_values() {
    let none = CookieSource::Anonymous;
    assert!(none.is_none());
    assert_eq!(none.describe(), "no cookies (anonymous)");

    let browser = CookieSource::Browser(CookieBrowser::Firefox);
    assert_eq!(browser.describe(), "--cookies-from-browser firefox");

    let file = CookieSource::File("c.txt".into());
    assert_eq!(file.describe(), "--cookies c.txt");

    // Selecting "None" as a browser degrades to running logged out rather
    // than passing a bogus flag.
    assert_eq!(
        CookieSource::Browser(CookieBrowser::NoBrowser).describe(),
        "--cookies-from-browser none"
    );
    let mut args: Vec<String> = Vec::new();
    CookieSource::Browser(CookieBrowser::NoBrowser).apply(&mut args);
    assert_eq!(args.len(), 0, "None must add no flag");
}

#[test]
fn flags_are_added_after_what_is_there() {
    let mut args = vec!["-J".to_string()];
    CookieSource::Browser(CookieBrowser::Edge).apply(&mut args);
    assert_eq!(args, vec!["-J", "--cookies-from-browser", "edge"]);
    let mut args: Vec<String> = Vec::new();
    CookieSource::File("c.txt".into()).apply(&mut args);
    assert_eq!(args, vec!["--cookies", "c.txt"]);
    let mut args: Vec<String> = Vec::new();
    CookieSource::Anonymous.apply(&mut args);
    assert!(args.is_empty());
}

#[test]
fn every_browser_maps_to_the_name_yt_dlp_expects() {
    assert_eq!(CookieBrowser::NoBrowser.ytdlp_name(), None);
    assert_eq!(CookieBrowser::Chrome.ytdlp_name(), Some("chrome"));
    assert_eq!(CookieBrowser::Edge.ytdlp_name(), Some("edge"));
    assert_eq!(CookieBrowser::Firefox.ytdlp_name(), Some("firefox"));
}

#[test]
fn a_probe_without_a_browser_runs_nothing() {
    assert_eq!(probe_args(CookieBrowser::NoBrowser), None);
    assert_eq!(
        probe(CookieBrowser::NoBrowser, Err("never run".into())),
        CookieStatus::Disabled
    );
    assert!(probe_args(CookieBrowser::Firefox).unwrap().contains(&"firefox".to_string()));
}

#[test]
fn a_probe_reads_both_streams_in_any_case() {
    // The decisive words are matched on the lowered text.
    let status = probe(
        CookieBrowser::Chrome,
        Ok(("".into(), "ERROR: FAILED TO DECRYPT WITH DPAPI".into())),
    );
    assert_eq!(status, CookieStatus::DecryptFailed { browser: "Chrome".into(), app_bound: true });
    let ok = probe(
        CookieBrowser::Firefox,
        Ok(("Extracted 3 cookies from firefox".into(), "".into())),
    );
    assert_eq!(ok, CookieStatus::Available { count: 3, source: "Firefox".into() });
    let failed = probe(CookieBrowser::Edge, Err("could not start".into()));
    assert!(!failed.ok());
}

#[test]
fn the_count_is_read_only_from_the_success_line() {
    assert_eq!(extract_count("Extracted 12 cookies from edge"), Some(12));
    assert_eq!(extract_count("no cookies here"), None);
    assert_eq!(extract_count("Extracted many cookies"), None);
}

#[test]
fn headlines_say_what_was_found() {
    assert_eq!(CookieStatus::Disabled.headline(), "Not using cookies");
    assert_eq!(CookieStatus::Disabled.detail(), None);
    assert_eq!(
        CookieStatus::Available { count: 7, source: "Edge".into() }.headline(),
        "✓ Cookies available (7 cookies)"
    );
}
