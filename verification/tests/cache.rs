use soundcloud2mp4::downloader::ytdlp::FlatEntry;
use soundcloud2mp4::models::cache::{CachedMeta, CachedRender, PlaylistCache};
use soundcloud2mp4::models::track::{MetaFailure, MetaState, TrackMetadata};

fn entry(id: &str) -> FlatEntry {
    FlatEntry {
        id: id.into(),
        url: format!("https://soundcloud.com/a/{id}"),
        title: Some(format!("T{id}")),
    }
}

fn meta(id: &str) -> TrackMetadata {
    TrackMetadata {
        id: id.into(),
        title: format!("Song {id}"),
        uploader: "Artist".into(),
        duration: 100 + id.len() as u64,
        thumbnail: Some("https://a/x.jpg".into()),
        url: format!("https://soundcloud.com/a/{id}"),
    }
}

#[test]
fn normalization_and_hash_are_stable() {
    assert_eq!(
        PlaylistCache::normalize_url("https://SoundCloud.com/a/Set/ "),
        "https://soundcloud.com/a/set"
    );
    // Trailing slash / case do not change the file identity.
    assert_eq!(
        PlaylistCache::hash_url("https://soundcloud.com/a/set"),
        PlaylistCache::hash_url("https://SoundCloud.com/a/set/")
    );
    // Different playlists get different files.
    assert_ne!(
        PlaylistCache::hash_url("https://soundcloud.com/a/one"),
        PlaylistCache::hash_url("https://soundcloud.com/a/two")
    );
}

#[test]
fn letters_beyond_ascii_are_lowered_too() {
    assert_eq!(PlaylistCache::normalize_url("HTTPS://X/ÄÖ/"), "https://x/äö");
}

#[test]
fn the_hash_is_sixteen_hexadecimal_digits() {
    // FNV-1a of the empty text is its offset basis.
    assert_eq!(PlaylistCache::hash_url(""), "cbf29ce484222325");
    assert_eq!(PlaylistCache::hash_url("a"), "af63dc4c8601ec8c");
    assert_eq!(
        PlaylistCache::path_for("a"),
        vec!["soundcloud2mp4", "metadata", "af63dc4c8601ec8c.json"]
    );
}

#[test]
fn records_and_classifies_metadata() {
    let mut c = PlaylistCache::new("https://soundcloud.com/a/set", "Set");
    c.sync_entries("Set", &[entry("1"), entry("2"), entry("3")]);
    assert_eq!(c.tracks.len(), 3);
    assert!(c.tracks.iter().all(|t| t.needs_recovery()));

    c.record_meta(0, &meta("1"));
    assert!(c.tracks[0].is_complete());
    assert!(!c.tracks[0].needs_recovery());
    assert_eq!(c.tracks[0].chapter_title.as_deref(), Some("Artist - Song 1"));
    assert_eq!(c.complete_count(), 1);

    c.record_meta_failure(1, &MetaFailure::permanent("gone".into(), "deleted".into()));
    assert!(!c.tracks[1].needs_recovery(), "permanent is not auto-recovered");

    c.record_meta_failure(2, &MetaFailure::transient("rate limited".into()));
    assert!(c.tracks[2].needs_recovery(), "transient stays recoverable");
}

#[test]
fn a_loaded_track_is_never_demoted_by_a_later_failure() {
    let mut c = PlaylistCache::new("https://soundcloud.com/a/set", "Set");
    c.sync_entries("Set", &[entry("1")]);
    c.record_meta(0, &meta("1"));
    c.record_meta_failure(0, &MetaFailure::transient("spurious".into()));
    assert!(c.tracks[0].is_complete(), "good metadata must survive a later failure");
}

#[test]
fn sync_carries_over_known_tracks_when_membership_changes() {
    let mut c = PlaylistCache::new("https://soundcloud.com/a/set", "Set");
    c.sync_entries("Set", &[entry("1"), entry("2")]);
    c.record_meta(0, &meta("1"));
    // Track 2 removed, track 3 added; track 1 moves to index 1.
    c.sync_entries("Set", &[entry("9"), entry("1")]);
    assert_eq!(c.tracks.len(), 2);
    assert_eq!(c.tracks[1].id, "1");
    assert!(c.tracks[1].is_complete(), "known metadata carried over");
    assert_eq!(c.tracks[1].index, 1, "index updated to new position");
    assert!(c.tracks[0].needs_recovery(), "newly added track needs fetch");
}

#[test]
fn syncing_twice_changes_nothing_more() {
    let list = [entry("1"), entry("2")];
    let mut c = PlaylistCache::new("https://soundcloud.com/a/set", "Set");
    c.sync_entries("Set", &list);
    c.record_meta(1, &meta("2"));
    let once: Vec<(usize, String, bool)> =
        c.tracks.iter().map(|t| (t.index, t.id.clone(), t.is_complete())).collect();
    c.sync_entries("Set", &list);
    let twice: Vec<(usize, String, bool)> =
        c.tracks.iter().map(|t| (t.index, t.id.clone(), t.is_complete())).collect();
    assert_eq!(once, twice);
}

#[test]
fn a_track_that_is_listed_twice_keeps_its_metadata_in_both_rows() {
    let e = FlatEntry { id: "1".into(), url: "u".into(), title: None };
    let m = TrackMetadata {
        id: "1".into(),
        title: "T".into(),
        uploader: "A".into(),
        duration: 5,
        thumbnail: None,
        url: "u".into(),
    };
    let list = [e.clone(), e];
    let mut c = PlaylistCache::new("https://soundcloud.com/a/set", "S");
    c.sync_entries("S", &list);
    c.record_meta(0, &m);
    c.record_meta(1, &m);
    c.record_render(0, CachedRender::Done, Some("clip_0000.mp4".into()));
    c.sync_entries("S", &list);
    assert_eq!(c.tracks.len(), 2);
    for (i, t) in c.tracks.iter().enumerate() {
        assert_eq!(t.index, i);
        assert!(t.is_complete());
        assert_eq!(t.chapter_title.as_deref(), Some("A - T"));
    }
    // Each row keeps what only it knows.
    assert_eq!(c.tracks[0].clip_file.as_deref(), Some("clip_0000.mp4"));
    assert_eq!(c.tracks[1].clip_file, None);
}

#[test]
fn what_one_row_of_a_track_knows_serves_the_others() {
    let mut c = PlaylistCache::new("https://soundcloud.com/a/set", "Set");
    c.sync_entries("Set", &[entry("1"), entry("2"), entry("1")]);
    c.record_meta(0, &meta("1"));
    c.record_meta_failure(2, &MetaFailure::transient("429".into()));
    // The unresolved row takes over what the resolved one knows, and so does a row
    // that is listed once more.
    c.sync_entries("Set", &[entry("1"), entry("1"), entry("2"), entry("1")]);
    for i in [0, 1, 3] {
        assert!(c.tracks[i].is_complete(), "row {i}");
        assert_eq!(c.tracks[i].title, "Song 1");
    }
    assert!(c.tracks[2].needs_recovery());
    // Of several unresolved rows, none is made up.
    c.sync_entries("Set", &[entry("2"), entry("2")]);
    assert!(c.tracks.iter().all(|t| t.needs_recovery()));
}

#[test]
fn a_cache_is_taken_only_for_its_own_playlist() {
    let url = "https://soundcloud.com/test/roundtrip";
    let mut c = PlaylistCache::new(url, "RT");
    c.sync_entries("RT", &[entry("1"), entry("2")]);
    c.record_meta(0, &meta("1"));
    c.record_render(0, CachedRender::Done, Some("clip_0000.mp4".into()));

    let loaded = PlaylistCache::load(Some(c.clone()), url).expect("its own file is taken");
    assert_eq!(loaded.tracks.len(), 2);
    assert!(loaded.tracks[0].is_complete());
    assert_eq!(loaded.tracks[0].chapter_title.as_deref(), Some("Artist - Song 1"));
    assert_eq!(loaded.tracks[0].clip_file.as_deref(), Some("clip_0000.mp4"));
    assert_eq!(loaded.tracks[0].render, CachedRender::Done);
    assert!(loaded.tracks[1].needs_recovery());

    // A different playlist never resolves to this file, nor does one of another
    // version or none at all.
    assert!(PlaylistCache::load(Some(c.clone()), "https://soundcloud.com/test/other").is_none());
    let mut old = c.clone();
    old.version = 0;
    assert!(PlaylistCache::load(Some(old), url).is_none());
    assert!(PlaylistCache::load(None, url).is_none());
    let fresh = PlaylistCache::load_or_new(None, url, "RT");
    assert_eq!(fresh.tracks.len(), 0);
    assert_eq!(fresh.playlist_title, "RT");
}

#[test]
fn hydrated_track_reflects_cached_state() {
    let mut c = PlaylistCache::new("https://soundcloud.com/a/set", "Set");
    c.sync_entries("Set", &[entry("1"), entry("2"), entry("3")]);
    c.record_meta(0, &meta("1"));
    c.record_meta_failure(1, &MetaFailure::permanent("gone".into(), "deleted".into()));
    // index 2 stays Missing.
    let loaded = c.tracks[0].to_track(0);
    assert_eq!(loaded.meta, MetaState::Loaded);
    assert_eq!(loaded.uploader, "Artist");
    let permanent = c.tracks[1].to_track(0);
    assert!(matches!(permanent.meta, MetaState::Failed(_)));
    assert!(!permanent.selected, "permanent failures are auto-deselected");
    let missing = c.tracks[2].to_track(0);
    assert_eq!(missing.meta, MetaState::Loading, "missing shows as still loading");
}

#[test]
fn the_limit_applies_to_hydrated_tracks() {
    let mut c = PlaylistCache::new("https://soundcloud.com/a/set", "Set");
    c.sync_entries("Set", &[entry("1")]);
    c.record_meta(0, &meta("1"));
    assert_eq!(c.tracks[0].to_track(0).play_us, 101_000_000);
    assert_eq!(c.tracks[0].to_track(20_000_000).play_us, 20_000_000);
}

#[test]
fn records_out_of_range_are_ignored() {
    let mut c = PlaylistCache::new("https://soundcloud.com/a/set", "Set");
    c.record_meta(0, &meta("1"));
    c.record_meta_failure(3, &MetaFailure::transient("x".into()));
    c.record_render(9, CachedRender::Failed { reason: "y".into() }, None);
    assert_eq!(c.tracks.len(), 0);
}

#[test]
fn a_refused_track_is_remembered_as_refused() {
    let mut c = PlaylistCache::new("https://soundcloud.com/a/set", "Set");
    c.sync_entries("Set", &[entry("1")]);
    c.record_meta_failure(0, &MetaFailure::restricted("drm".into(), "refused".into()));
    assert_eq!(
        c.tracks[0].meta,
        CachedMeta::Failed { permanent: false, restricted: true, reason: Some("refused".into()) }
    );
    assert!(!c.tracks[0].needs_recovery());
    let row = c.tracks[0].to_track(0);
    let MetaState::Failed(f) = row.meta else { panic!("a failure was recorded") };
    assert!(f.is_restricted());
    assert!(row.selected);
}
