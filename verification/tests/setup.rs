use soundcloud2mp4::platform::Platform;
use soundcloud2mp4::setup::{
    install_missing, manual_instructions, refreshed_path, run_winget, winget_args, ytdlp_label,
    Tool, ToolOutcome,
};

#[test]
fn manual_instructions_mention_both_tools() {
    for platform in [Platform::Windows, Platform::MacOs, Platform::Other] {
        let text = manual_instructions(platform);
        assert!(text.contains("ffmpeg"), "{text}");
        assert!(text.contains("yt-dlp"), "{text}");
    }
}

#[test]
fn install_missing_reports_when_tools_absent() {
    // Neither tool is to be installed, and neither is there: nothing was asked
    // for, so it succeeds vacuously.
    let bogus = ToolOutcome { wanted: false, error: None, found: false };
    let done = install_missing(&bogus, &bogus, Platform::Other);
    assert!(done.success, "with no installs requested it should report success");
}

#[test]
fn a_failed_install_says_how_to_do_it_by_hand() {
    let failed = ToolOutcome {
        wanted: true,
        error: Some(("no package".into(), true)),
        found: false,
    };
    let fine = ToolOutcome { wanted: true, error: None, found: true };
    let done = install_missing(&failed, &fine, Platform::Windows);
    assert!(!done.success && done.needs_elevation);
    assert!(done.message.starts_with("ffmpeg: no package"), "{}", done.message);
    assert!(done.message.contains("yt-dlp"), "{}", done.message);
    let lost = ToolOutcome { wanted: true, error: None, found: false };
    let done = install_missing(&fine, &lost, Platform::Windows);
    assert!(!done.success && !done.needs_elevation);
    assert!(done.message.contains("still not detected"), "{}", done.message);
    assert!(install_missing(&fine, &fine, Platform::Windows).success);
}

#[test]
fn winget_runs_are_judged() {
    assert!(winget_args(Tool::Ffmpeg).contains(&Tool::Ffmpeg.id().to_string()));
    let ok = run_winget(Tool::YtDlp, &Ok((true, "done".into(), "".into())));
    assert_eq!(ok.result, Ok(()));
    // The words are matched in any case.
    let denied = run_winget(
        Tool::YtDlp,
        &Ok((false, "ADMINISTRATOR privileges are required".into(), "".into())),
    );
    assert!(denied.result.unwrap_err().1);
    let other = run_winget(Tool::YtDlp, &Ok((false, "no package".into(), "".into())));
    assert!(!other.result.unwrap_err().1);
    assert!(run_winget(Tool::Ffmpeg, &Err("not started".into())).result.is_err());
}

#[test]
fn the_path_is_taken_where_there_is_one() {
    assert_eq!(refreshed_path(Some(" C:\\a;C:\\b \n")).0, Some("C:\\a;C:\\b".to_string()));
    assert_eq!(refreshed_path(Some("  ")).0, None);
    assert_eq!(refreshed_path(None).0, None);
    assert_eq!(ytdlp_label(&None), None);
    assert!(ytdlp_label(&Some("2024.01.01".into())).unwrap().contains("2024.01.01"));
}
