use soundcloud2mp4::downloader::cookies::CookieSource;
use soundcloud2mp4::downloader::failure::{
    EXPIRED_COOKIES_REASON, NO_DATA_REASON, RESTRICTED_REASON,
};
use soundcloud2mp4::downloader::ytdlp::{
    annotate_download_failure, classify_failure, download_args, fetch_playlist,
    fetch_track_info, fetch_track_info_detailed, is_transient_failure, looks_like_soundcloud_url,
    parse_flat_playlist, permanent_failure_reason, playlist_args, playlist_run_line,
    retry_decision, tail_text, track_info_args, FailureKind, FinishedRun, RetryDecision,
};
use soundcloud2mp4::models::track::MetaFailure;

#[test]
fn rejects_non_soundcloud_urls() {
    assert!(!looks_like_soundcloud_url("not a url"));
    assert!(!looks_like_soundcloud_url("https://example.com/sets/x"));
    assert!(looks_like_soundcloud_url(
        "https://soundcloud.com/example_user/sets/example-playlist"
    ));
}

#[test]
fn addresses_are_recognised_in_any_case() {
    assert!(looks_like_soundcloud_url("  HTTPS://SoundCloud.COM/a/sets/b "));
}

#[test]
fn rate_limit_and_server_errors_are_transient() {
    for stderr in [
        // The two signatures SoundCloud rate limiting actually produces.
        // Both are seen on large playlist loads; neither mentions 429 and
        // one of them looks exactly like a permissions error.
        "ERROR: [soundcloud:user] p: Unable to download JSON metadata: \
         HTTP Error 403: Forbidden (caused by <HTTPError 403: Forbidden>)",
        "ERROR: 'NoneType' object is not subscriptable",
        "ERROR: unable to download API page: HTTP Error 429: Too Many Requests",
        "ERROR: Unable to download webpage: HTTP Error 503: Service Unavailable",
        "ERROR: unable to download: The read operation timed out",
        "ERROR: [soundcloud] Unable to connect: Connection reset by peer",
        // Unrecognised errors get the benefit of the doubt.
        "ERROR: something nobody has seen before",
    ] {
        assert!(is_transient_failure(stderr), "should be transient: {stderr}");
    }
}

#[test]
fn missing_or_private_tracks_are_not_transient() {
    for stderr in [
        "ERROR: [soundcloud] 123: Track is private and cannot be accessed",
        "ERROR: [soundcloud] Unable to extract track: track not found",
        "ERROR: Unsupported URL: https://soundcloud.com/x",
        "ERROR: [soundcloud] 9: HTTP Error 404: Not Found",
        "ERROR: This track has been removed by the uploader",
    ] {
        assert!(!is_transient_failure(stderr), "should be permanent: {stderr}");
    }
}

#[test]
fn empty_playlist_is_an_error() {
    let err = parse_flat_playlist(r#"{"title":"x","entries":[]}"#).unwrap_err();
    assert!(err.contains("no tracks"));
}

#[test]
fn a_flat_playlist_is_read_entry_by_entry() {
    let (title, entries) = parse_flat_playlist(
        r#"{"title":"example-playlist","entries":[
            {"id":"1000000001","url":"https://soundcloud.com/example_user/track-one"},
            {"id":1000000002,"webpage_url":"https://soundcloud.com/example_user/track-two","title":"Two"}
        ]}"#,
    )
    .unwrap();
    assert_eq!(title, "example-playlist");
    assert_eq!(entries.len(), 2);
    assert_eq!(entries[0].id, "1000000001");
    assert_eq!(entries[0].url, "https://soundcloud.com/example_user/track-one");
    // A flat entry has no title: this is why there is a second metadata pass.
    assert_eq!(entries[0].title, None);
    assert_eq!(entries[1].id, "1000000002");
    assert_eq!(entries[1].title.as_deref(), Some("Two"));
}

#[test]
fn what_is_no_json_is_no_playlist() {
    assert!(parse_flat_playlist("<html>").is_err());
}

#[test]
fn retry_decision_maps_every_failure_kind() {
    assert_eq!(RetryDecision::from_failure_kind(FailureKind::Retryable), RetryDecision::Retry);
    assert_eq!(
        RetryDecision::from_failure_kind(FailureKind::Restricted),
        RetryDecision::RefreshCookiesAndRetry
    );
    assert_eq!(
        RetryDecision::from_failure_kind(FailureKind::Permanent),
        RetryDecision::PermanentFailure
    );
}

#[test]
fn transient_signatures_all_decide_retry() {
    // Every category that can be retried must resolve to Retry — they are all
    // the unrecognised-error default.
    for stderr in [
        "ERROR: HTTP Error 429: Too Many Requests",
        "ERROR: Too Many Requests",
        "ERROR: You are being rate limited, please slow down",
        "ERROR: The service is temporarily unavailable",
        "ERROR: Connection reset by peer",
        "ERROR: Connection aborted",
        "ERROR: [Errno 32] Broken pipe",
        "ERROR: The read operation timed out",
        "ERROR: Network is unreachable",
        "ERROR: TLS handshake failed",
        "ERROR: Unable to download: [SSL] handshake failure",
        "ERROR: Temporary failure in name resolution",
        "ERROR: getaddrinfo failed: DNS lookup failed",
        "ERROR: HTTP Error 500: Internal Server Error",
        "ERROR: HTTP Error 502: Bad Gateway",
        "ERROR: HTTP Error 503: Service Unavailable",
        "ERROR: HTTP Error 504: Gateway Timeout",
        "ERROR: unable to connect to proxy",
        // The two SoundCloud throttle signatures (403 / NoneType).
        "ERROR: HTTP Error 403: Forbidden",
        "ERROR: 'NoneType' object is not subscriptable",
    ] {
        assert_eq!(retry_decision(stderr), RetryDecision::Retry, "should retry: {stderr}");
    }
}

#[test]
fn auth_and_cookie_signatures_decide_cookie_refresh() {
    for stderr in [
        "ERROR: [soundcloud] 1: This video is DRM protected",
        "ERROR: [soundcloud] 1: This video is DRM-protected",
        "ERROR: This track requires authentication",
        "ERROR: Authentication required to access this track",
        "ERROR: Login required to view this track",
        "ERROR: HTTP Error 401: Unauthorized",
        "ERROR: The provided cookies are no longer valid",
        "ERROR: Your cookies have expired, please log in again",
    ] {
        assert_eq!(
            retry_decision(stderr),
            RetryDecision::RefreshCookiesAndRetry,
            "should refresh cookies: {stderr}"
        );
    }
}

#[test]
fn dead_track_signatures_decide_permanent() {
    for stderr in [
        "ERROR: [soundcloud] 9: HTTP Error 404: Not Found",
        "ERROR: HTTP Error 410: Gone",
        "ERROR: This track is private",
        "ERROR: This track has been removed by the uploader",
        "ERROR: This track was deleted",
        "ERROR: This track is unavailable in your country",
        "ERROR: Unsupported URL: https://soundcloud.com/x",
        "ERROR: track not found",
    ] {
        assert_eq!(
            retry_decision(stderr),
            RetryDecision::PermanentFailure,
            "should be permanent: {stderr}"
        );
    }
}

/// Errors that really do mean the track is gone.
#[test]
fn dead_tracks_are_classified_permanently_unavailable_with_a_reason() {
    let cases = [
        (
            "ERROR: [soundcloud] 1234567890: Unable to download JSON metadata: \
             HTTP Error 404: Not Found (caused by <HTTPError 404: Not Found>)",
            "Track no longer exists",
        ),
        (
            "ERROR: [soundcloud] 123: Track is private and cannot be accessed",
            "Track is private",
        ),
        (
            "ERROR: This track has been removed by the uploader",
            "Track was removed by the uploader",
        ),
        (
            "ERROR: Unsupported URL: https://soundcloud.com/x",
            "Not a supported SoundCloud page",
        ),
        (
            "ERROR: [soundcloud] 9: This track is unavailable in your country",
            "Track is not available in your country",
        ),
    ];
    for (stderr, expected) in cases {
        assert_eq!(
            permanent_failure_reason(stderr),
            Some(expected),
            "wrong reason for: {stderr}"
        );
        assert!(!is_transient_failure(stderr), "should not be retried: {stderr}");
    }
}

/// `This video is DRM protected` must **not** be treated as permanent: it is
/// yt-dlp's fallback after the plain formats fail to resolve anonymously.
#[test]
fn drm_message_is_restricted_access_not_a_permanent_verdict() {
    for stderr in [
        "ERROR: [soundcloud] 1234567890: This video is DRM protected",
        "ERROR: [soundcloud] 1234567891: This video is DRM-protected",
    ] {
        let (kind, reason) = classify_failure(stderr);
        assert_eq!(kind, FailureKind::Restricted, "{stderr}");
        assert_eq!(reason, Some(RESTRICTED_REASON));
        // Crucially: not permanent, so nothing declares the track unrecoverable.
        assert_eq!(permanent_failure_reason(stderr), None, "{stderr}");
    }

    // The wording states what was observed rather than asserting a cause, and
    // never claims the track cannot be downloaded.
    let reason = RESTRICTED_REASON.to_lowercase();
    assert!(reason.contains("restricted access"), "{reason}");
    assert!(reason.contains("authentication") && reason.contains("extractor"), "{reason}");
    assert!(!reason.contains("drm"), "must not repeat the DRM claim: {reason}");
    assert!(!reason.contains("cannot"), "must not assert impossibility: {reason}");
}

/// Metadata for these tracks resolves, so they appear as ordinary selectable
/// rows — but the audio is still withheld anonymously and the failure resurfaces
/// at download time. That message must be equally accurate.
#[test]
fn restricted_download_failures_point_at_cookies_not_drm() {
    let raw = "yt-dlp exited with code 1\n\nstderr:\n\
               ERROR: [soundcloud] 1234567890: This video is DRM protected";
    let annotated = annotate_download_failure(raw);
    assert!(annotated.starts_with(raw), "the original error must be preserved");
    assert!(
        annotated.contains("SoundCloud Authentication"),
        "should name the setting: {annotated}"
    );
    assert!(
        annotated.contains("may be fine") || annotated.contains("withholding"),
        "should not imply the track is gone: {annotated}"
    );

    // An ordinary failure is passed through untouched.
    let other = "yt-dlp exited with code 1\n\nstderr:\nERROR: HTTP Error 503";
    assert_eq!(annotate_download_failure(other), other);
}

/// A restricted track is skipped by the automatic pass (an identical anonymous
/// request would fail identically) but still offered by the manual button,
/// since the user may have supplied cookies in the meantime.
#[test]
fn restricted_tracks_are_manually_retryable_but_not_auto_retried() {
    let restricted = MetaFailure::restricted("drm".into(), RESTRICTED_REASON.into());
    assert!(restricted.is_restricted());
    assert!(!restricted.is_permanent(), "must not be reported as unavailable");
    assert!(!restricted.is_auto_retryable(), "automatic pass would just re-fail");

    let throttled = MetaFailure::transient("403".into());
    assert!(throttled.is_auto_retryable());

    let dead = MetaFailure::permanent("404".into(), "Track no longer exists".into());
    assert!(dead.is_permanent());
    assert!(!dead.is_auto_retryable());

    // What each button acts on.
    let rows = [&restricted, &throttled, &dead];
    let auto: Vec<_> = rows.iter().filter(|f| f.is_auto_retryable()).collect();
    let manual: Vec<_> = rows.iter().filter(|f| !f.is_permanent()).collect();
    assert_eq!(auto.len(), 1, "only the throttled row is auto-retried");
    assert_eq!(manual.len(), 2, "manual retry also offers the restricted row");
}

/// SoundCloud reports throttling as 403, never 429. Treating 403 as permanent
/// would mark hundreds of healthy tracks unavailable and disable the back-off.
#[test]
fn throttling_is_never_mistaken_for_a_dead_track() {
    for stderr in [
        "ERROR: [soundcloud:user] p: Unable to download JSON metadata: \
         HTTP Error 403: Forbidden (caused by <HTTPError 403: Forbidden>)",
        "ERROR: 'NoneType' object is not subscriptable",
        "ERROR: unable to download API page: HTTP Error 429: Too Many Requests",
        "ERROR: Unable to download webpage: HTTP Error 503: Service Unavailable",
        "ERROR: something nobody has seen before",
    ] {
        assert_eq!(
            permanent_failure_reason(stderr),
            None,
            "throttling must stay retryable: {stderr}"
        );
    }
}

/// A permanent failure must be excluded from the retry work list, which is
/// what stops the "press retry forever" loop.
#[test]
fn permanent_failures_are_excluded_from_the_retry_work_list() {
    let rows = [
        Err(MetaFailure::permanent("404".into(), "Track no longer exists".into())),
        Err(MetaFailure::transient("HTTP Error 403: Forbidden".into())),
        Err(MetaFailure::permanent("private".into(), "Track is private".into())),
        Ok(()),
    ];
    let retryable = rows.iter().filter(|r| matches!(r, Err(e) if !e.is_permanent())).count();
    let permanent = rows.iter().filter(|r| matches!(r, Err(e) if e.is_permanent())).count();
    assert_eq!(retryable, 1, "only the throttled row may be retried");
    assert_eq!(permanent, 2);

    // The row text names the cause rather than a yt-dlp stack trace.
    let dead = MetaFailure::permanent(
        "yt-dlp failed (metadata fetch):\nERROR: HTTP Error 404: Not Found".into(),
        "Track no longer exists".into(),
    );
    assert_eq!(dead.headline(), "Track no longer exists");
    // A retryable failure still shows the raw first line.
    let throttled = MetaFailure::transient("HTTP Error 403: Forbidden\nsecond line".into());
    assert_eq!(throttled.headline(), "HTTP Error 403: Forbidden");
    assert_eq!(MetaFailure::transient("".into()).headline(), "unknown error");
}

#[test]
fn expired_cookies_have_a_reason_of_their_own() {
    let (kind, reason) = classify_failure("ERROR: Your cookies have EXPIRED, please log in again");
    assert_eq!(kind, FailureKind::Restricted);
    assert_eq!(reason, Some(EXPIRED_COOKIES_REASON));
}

fn run(success: bool, stdout: &str, stderr: &str) -> FinishedRun {
    FinishedRun {
        success,
        code: Some(if success { 0 } else { 1 }),
        stdout: stdout.into(),
        stderr: stderr.into(),
    }
}

#[test]
fn a_track_answer_is_read_or_judged() {
    let good = r#"{"id":"1","title":"t","uploader":"u","url":"https://x","duration":12}"#;
    let meta = fetch_track_info_detailed(Ok(run(true, good, "")), false).unwrap();
    assert_eq!(meta.title, "t");
    assert_eq!(meta.duration, 12);

    // A malformed answer is never asked for again, be it broken or incomplete.
    let broken = fetch_track_info_detailed(Ok(run(true, "{", "")), false).unwrap_err();
    assert!(broken.message.starts_with("invalid yt-dlp JSON: "));
    assert!(!broken.transient() && !broken.cancelled);
    assert_eq!(broken.decision(), RetryDecision::PermanentFailure);
    assert_eq!(broken.permanent_reason(), Some(NO_DATA_REASON));
    let incomplete =
        fetch_track_info_detailed(Ok(run(true, r#"{"duration":10}"#, "")), false).unwrap_err();
    assert_eq!(incomplete.decision(), RetryDecision::PermanentFailure);
    assert_eq!(incomplete.permanent_reason(), Some(NO_DATA_REASON));

    let gone = fetch_track_info_detailed(
        Ok(run(false, "", "ERROR: HTTP Error 404: Not Found")),
        false,
    )
    .unwrap_err();
    assert_eq!(gone.permanent_reason(), Some("Track no longer exists"));
    assert_eq!(gone.exit_code, Some(1));
    assert_eq!(gone.code_str(), "1");

    let not_started = fetch_track_info_detailed(Err("no such program".into()), false).unwrap_err();
    assert!(not_started.transient());
    assert_eq!(not_started.exit_code, None);
    assert!(!not_started.cancelled);

    let stopped = fetch_track_info_detailed(Err("cancelled".into()), true).unwrap_err();
    assert!(stopped.cancelled);
}

#[test]
fn a_plain_fetch_keeps_the_message() {
    let err = fetch_track_info(Ok(run(false, "", "ERROR: boom")), false).unwrap_err();
    assert!(err.contains("boom"), "{err}");
}

#[test]
fn a_failed_playlist_run_shows_the_end_of_its_output() {
    let err = fetch_playlist(false, "", "ERROR: boom").unwrap_err();
    assert!(err.contains("boom"), "{err}");
    let (title, entries) = fetch_playlist(
        true,
        r#"{"title":"x","entries":[{"id":"1","url":"https://soundcloud.com/a/1"}]}"#,
        "",
    )
    .unwrap();
    assert_eq!((title.as_str(), entries.len()), ("x", 1));
    assert!(!playlist_run_line(true, "{}", "").is_empty());
}

#[test]
fn the_tail_of_a_text_is_its_last_lines() {
    assert_eq!(tail_text("a\nb\nc\n", 2), "b\nc");
    assert_eq!(tail_text("ab", 5), "ab");
    assert_eq!(tail_text("ab", 0), "");
}

#[test]
fn arguments_end_with_the_address() {
    let url = "https://soundcloud.com/a/sets/b";
    for args in [
        playlist_args(&CookieSource::Anonymous, url),
        track_info_args(&CookieSource::Anonymous, url),
        download_args(320, &CookieSource::Anonymous, "/w/track.%(ext)s", url),
    ] {
        assert_eq!(args.last().map(|s| s.as_str()), Some(url), "{args:?}");
    }
    let args = download_args(192, &CookieSource::File("c.txt".into()), "/w/track.%(ext)s", url);
    let joined = args.join(" ");
    assert!(joined.contains("--cookies c.txt"), "{joined}");
    assert!(joined.contains("192K"), "{joined}");
    assert!(joined.contains("/w/track.%(ext)s"), "{joined}");
}
