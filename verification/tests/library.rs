use aura::local_music::{
    clean_text, cover_cache_key, identity_numbers, cover_extension, cover_file_name, decode_text_bytes,
    filename_title, first_tag_text, infer_mime_type, is_audio_file, merge_meta, should_descend,
    SidecarMeta,
};

#[test]
fn maps_mime_to_extension() {
    assert_eq!(cover_extension("image/png"), "png");
    assert_eq!(cover_extension("IMAGE/WebP"), "webp");
    assert_eq!(cover_extension("image/bmp"), "bmp");
    assert_eq!(cover_extension("application/octet-stream"), "jpg");
    assert_eq!(cover_extension(""), "jpg");
}

#[test]
fn sniffs_common_image_headers() {
    assert_eq!(infer_mime_type(&[0x89, b'P', b'N', b'G']), "image/png");
    assert_eq!(infer_mime_type(&[0xff, 0xd8, 0xff, 0xe0]), "image/jpeg");
    assert_eq!(infer_mime_type(b"RIFF____WEBPVP8 "), "image/webp");
    assert_eq!(infer_mime_type(b"nonsense"), "application/octet-stream");
}

#[test]
fn cache_key_is_stable_per_path_and_differs_across_paths() {
    let once = cover_cache_key("/music/a.flac", None, None);
    assert_eq!(once, cover_cache_key("/music/a.flac", None, None));
    assert_ne!(once, cover_cache_key("/music/b.flac", None, None));
    assert_eq!(once.len(), 16);
}

#[test]
fn a_new_length_or_time_gives_a_new_cover_name() {
    let a = cover_cache_key("/music/a.flac", Some(10), Some(5));
    assert_ne!(a, cover_cache_key("/music/a.flac", Some(11), Some(5)));
    assert_ne!(a, cover_cache_key("/music/a.flac", Some(10), Some(6)));
    assert!(a.chars().all(|c| c.is_ascii_hexdigit() && !c.is_ascii_uppercase()));
    assert_eq!(cover_file_name("abc", " image/PNG "), "abc.png");
}

#[test]
fn texts_lose_byte_order_marks_and_blanks() {
    assert_eq!(clean_text(Some("\u{feff} 标题 ".to_string())).as_deref(), Some("标题"));
    assert_eq!(clean_text(Some("\u{feff}  \u{feff}".to_string())), None);
    assert_eq!(clean_text(Some(" \u{feff}x".to_string())).as_deref(), Some("\u{feff}x"));
    assert_eq!(clean_text(None), None);
    assert_eq!(
        first_tag_text(&[None, Some("  ".to_string()), Some("B".to_string()), Some("C".to_string())]).as_deref(),
        Some("B")
    );
    assert_eq!(first_tag_text(&[]), None);
}

#[test]
fn lyrics_files_decode_as_utf8_or_gb18030() {
    assert_eq!(decode_text_bytes("[00:01]歌".as_bytes()), "[00:01]歌");
    assert_eq!(decode_text_bytes(&[0xb8, 0xe8]), "歌");
}

#[test]
fn only_audio_extensions_are_listed() {
    assert!(is_audio_file("/m/a.MP3"));
    assert!(is_audio_file("/m/a.opus"));
    assert!(!is_audio_file("/m/a.txt"));
    assert!(!is_audio_file("/m/.mp3"));
    assert!(!is_audio_file("/m/noext"));
    assert!(should_descend("Albums"));
    assert!(!should_descend(".git"));
    assert_eq!(filename_title("/m/Song Name.flac").as_deref(), Some("Song Name"));
}

#[test]
fn tags_win_over_the_side_file_and_the_file_name() {
    let side = SidecarMeta {
        title: Some("Side Title".to_string()),
        artist: Some(" Side Artist ".to_string()),
        album: None,
        lyrics: Some("[00:01]side".to_string()),
        cover_url: Some("https://c/x.jpg".to_string()),
        cover_data_url: Some("  ".to_string()),
    };
    let m = merge_meta("/m/file.mp3", None, Some("Tag Artist".to_string()), None, None, Some("\u{feff}[00:01]lrc".to_string()), side.clone());
    assert_eq!(m.title.as_deref(), Some("Side Title"));
    assert_eq!(m.artist.as_deref(), Some("Tag Artist"));
    assert_eq!(m.album, None);
    assert_eq!(m.lyrics.as_deref(), Some("[00:01]lrc"));
    assert_eq!(m.cover.as_deref(), Some("https://c/x.jpg"));
    let bare = merge_meta("/m/file.mp3", None, None, None, None, None, SidecarMeta::default());
    assert_eq!(bare.title.as_deref(), Some("file"));
    assert_eq!(bare.lyrics, None);
}

#[test]
fn covers_are_keyed_by_length_and_modification_time() {
    assert_eq!(identity_numbers(None, Some(5)), Vec::<u64>::new());
    assert_eq!(identity_numbers(Some(10), None), vec![10]);
    assert_eq!(identity_numbers(Some(10), Some(5)), vec![10, 5]);
}
