use aura::snapshot::{
    accept_loaded, covers_dir, file_uri, mini_dir, playable_uri, snapshot_path, MiniSnapshot,
    MiniTrack, SNAPSHOT_VERSION,
};

fn track(id: &str, source: &str) -> MiniTrack {
    MiniTrack {
        id: id.to_string(),
        title: "t".to_string(),
        source: source.to_string(),
        ..Default::default()
    }
}

#[test]
fn local_path_becomes_a_file_uri_with_forward_slashes() {
    let mut item = track("1", "kuwo");
    item.local_path = Some(r"C:\Users\me\My Music\a.flac".to_string());
    assert_eq!(playable_uri(&item, None).unwrap(), "file:///C:/Users/me/My Music/a.flac");
}

#[test]
fn cache_id_matches_the_frontend_format() {
    assert_eq!(track("12345", "kuwo").cache_id(), "kuwo:12345");
}

#[test]
fn local_tracks_do_not_participate_in_the_audio_cache() {
    let mut item = track("12345", "localmusic");
    item.local_path = Some("/tmp/a.mp3".to_string());
    assert_eq!(item.cache_id(), "");
}

#[test]
fn remote_url_is_the_last_resort() {
    let mut item = track("nope-not-cached", "qq");
    item.url = Some("http://127.0.0.1:1/stream/x?sig=1".to_string());
    assert_eq!(playable_uri(&item, None).unwrap(), "http://127.0.0.1:1/stream/x?sig=1");
}

#[test]
fn a_track_with_nothing_playable_is_skipped() {
    assert!(playable_uri(&track("x", "qq"), None).is_none());
}

#[test]
fn the_disk_cache_comes_before_the_direct_link() {
    let mut item = track("9", "qq");
    item.url = Some("https://x/y.mp3".to_string());
    assert_eq!(
        playable_uri(&item, Some("/home/me/Listen1/Cache/k.mp3")).unwrap(),
        "file:///home/me/Listen1/Cache/k.mp3"
    );
    assert_eq!(file_uri(r"\\srv\a"), "file:///srv/a");
}

#[test]
fn normalize_clamps_index_position_volume_and_loop_mode() {
    let mut snap = MiniSnapshot {
        index: 99,
        position_ms: 0,
        volume_permille: 4500,
        loop_mode: 7,
        tracks: vec![track("a", "qq"), track("b", "qq")],
        ..Default::default()
    };
    snap.normalize();
    assert_eq!(snap.index, 1);
    assert_eq!(snap.position_ms, 0);
    assert_eq!(snap.volume_permille, 1000);
    assert_eq!(snap.loop_mode, 0);

    let mut empty = MiniSnapshot {
        index: 5,
        ..Default::default()
    };
    empty.normalize();
    assert_eq!(empty.index, 0);
    assert!(empty.current().is_none());
}

#[test]
fn an_unknown_snapshot_version_is_ignored_rather_than_half_read() {
    let future = MiniSnapshot {
        version: 9999,
        ..Default::default()
    };
    assert!(accept_loaded(future).is_none());
    let current = MiniSnapshot {
        version: SNAPSHOT_VERSION,
        index: -4,
        ..Default::default()
    };
    assert_eq!(accept_loaded(current).map(|s| s.index), Some(0));
}

#[test]
fn mini_files_live_under_listen1() {
    assert_eq!(mini_dir("/home/me"), "/home/me/Listen1/mini");
    assert_eq!(mini_dir("/home/me/"), "/home/me/Listen1/mini");
    assert_eq!(snapshot_path("/home/me"), "/home/me/Listen1/mini/snapshot.json");
    assert_eq!(covers_dir("/home/me"), "/home/me/Listen1/mini/covers");
}
