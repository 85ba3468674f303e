use serde_json::Value;
use soundcloud2mp4::downloader::metadata::{read_downloaded, resolve_metadata};

fn json(text: &str) -> Value {
    serde_json::from_str(text).unwrap()
}

#[test]
fn title_falls_back_to_track_then_id() {
    let v = json(
        r#"{"id": "123", "track": "From Track Field", "uploader": "u", "webpage_url": "https://x"}"#,
    );
    assert_eq!(resolve_metadata(&v).unwrap().title, "From Track Field");

    let v = json(r#"{"id": "123", "uploader": "u", "webpage_url": "https://x"}"#);
    assert_eq!(resolve_metadata(&v).unwrap().title, "123");
}

#[test]
fn uploader_fallback_chain() {
    for key in ["uploader", "artist", "creator", "channel", "uploader_id"] {
        let v = json(&format!(
            r#"{{"id": "1", "title": "t", "{key}": "someone", "url": "https://x"}}"#
        ));
        assert_eq!(resolve_metadata(&v).unwrap().uploader, "someone", "key={key}");
    }
}

#[test]
fn duration_falls_back_to_duration_ms_then_zero() {
    let with_ms = json(
        r#"{"id": "1", "title": "t", "uploader": "u", "url": "https://x", "duration_ms": 215500.0}"#,
    );
    assert_eq!(resolve_metadata(&with_ms).unwrap().duration, 216);
    let base = json(r#"{"id": "1", "title": "t", "uploader": "u", "url": "https://x"}"#);
    assert_eq!(resolve_metadata(&base).unwrap().duration, 0);
}

#[test]
fn thumbnail_falls_back_to_thumbnails_array_and_may_be_absent() {
    let v = json(
        r#"{"id": "1", "title": "t", "uploader": "u", "url": "https://x",
            "thumbnails": [{"url": "https://a/small.jpg"}, {"url": "https://a/original.jpg"}]}"#,
    );
    assert_eq!(
        resolve_metadata(&v).unwrap().thumbnail.as_deref(),
        Some("https://a/original.jpg")
    );
    let v = json(r#"{"id": "1", "title": "t", "uploader": "u", "url": "https://x"}"#);
    assert_eq!(resolve_metadata(&v).unwrap().thumbnail, None);
}

#[test]
fn missing_fields_are_reported_not_defaulted() {
    let v = json(r#"{"duration": 10}"#);
    let err = resolve_metadata(&v).unwrap_err();
    assert!(err.contains("id"), "{err}");
    assert!(err.contains("title"), "{err}");
    assert!(err.contains("uploader"), "{err}");
    assert!(!err.contains("Unknown"), "{err}");
}

#[test]
fn numeric_id_is_accepted() {
    let v = json(r#"{"id": 1000000001, "title": "t", "uploader": "u", "url": "https://x"}"#);
    assert_eq!(resolve_metadata(&v).unwrap().id, "1000000001");
}

#[test]
fn an_answer_in_full_resolves_to_its_fields() {
    let v = json(
        r#"{"id": "1", "title": "track-one", "uploader": "example_user", "duration": 29.6,
            "thumbnail": "https://a/t.jpg", "webpage_url": "https://soundcloud.com/e/track-one"}"#,
    );
    let meta = resolve_metadata(&v).unwrap();
    assert_eq!(meta.title, "track-one");
    assert_eq!(meta.uploader, "example_user");
    assert_eq!(meta.duration, 30);
    assert_eq!(meta.thumbnail.as_deref(), Some("https://a/t.jpg"));
    assert_eq!(meta.url, "https://soundcloud.com/e/track-one");
}

#[test]
fn numbers_are_read_in_any_spelling() {
    for (text, expected) in [
        ("215", 215),
        ("215.4", 215),
        ("2.155e2", 216),
        ("-5", 0),
        ("1e400", 0),
    ] {
        let v = serde_json::from_str::<Value>(&format!(
            r#"{{"id": "1", "title": "t", "uploader": "u", "url": "x", "duration": {text}}}"#
        ));
        if let Ok(v) = v {
            assert_eq!(resolve_metadata(&v).unwrap().duration, expected, "{text}");
        }
    }
}

#[test]
fn what_is_no_object_resolves_to_nothing() {
    for text in ["null", "[]", "\"text\"", "5", "true"] {
        assert!(resolve_metadata(&json(text)).is_err(), "{text}");
    }
}

fn names(list: &[&str]) -> Vec<String> {
    list.iter().map(|s| s.to_string()).collect()
}

#[test]
fn missing_thumbnail_file_fails_when_metadata_lists_one() {
    let info = r#"{"id":"1","title":"t","uploader":"u","url":"https://x","thumbnail":"https://a/t.jpg"}"#;
    let err = read_downloaded(Some(info), &names(&["track.info.json", "track.mp3"])).unwrap_err();
    assert!(err.contains("missing thumbnail"), "{err}");
}

#[test]
fn absent_thumbnail_in_metadata_is_allowed_without_cover_file() {
    let info = r#"{"id":"1","title":"t","uploader":"u","url":"https://x"}"#;
    let dl = read_downloaded(Some(info), &names(&["track.info.json", "track.mp3"]))
        .expect("no-artwork track should pass validation");
    assert!(dl.cover.is_none());
}

#[test]
fn missing_audio_is_reported() {
    let info = r#"{"id":"1","title":"t","uploader":"u","url":"https://x"}"#;
    let err = read_downloaded(Some(info), &names(&["track.info.json"])).unwrap_err();
    assert!(err.contains("missing audio"), "{err}");
}

#[test]
fn a_complete_download_names_its_files() {
    let info = r#"{"id":"1","title":"t","uploader":"u","url":"https://x","thumbnail":"https://a/t.jpg"}"#;
    let dl =
        read_downloaded(Some(info), &names(&["track.info.json", "track.jpg", "track.mp3"])).unwrap();
    assert_eq!(dl.audio, "track.mp3");
    assert_eq!(dl.cover.as_deref(), Some("track.jpg"));
    assert_eq!(dl.meta.title, "t");
}

#[test]
fn a_download_without_readable_info_is_refused() {
    assert!(read_downloaded(None, &names(&["track.mp3"])).is_err());
    assert!(read_downloaded(Some("{not json"), &names(&["track.mp3"])).is_err());
    assert!(read_downloaded(Some("{}"), &names(&["track.mp3"])).is_err());
}
