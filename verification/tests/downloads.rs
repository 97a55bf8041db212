use aura::download::{
    choose_download_extension, clean_meta, cleaned_metadata, cover_data_url, cover_source,
    extension_from_content_type, extension_from_url, http_failure, infer_picture_mime,
    metadata_outcome, normalize_download_url, numbered_name, sanitize_file_name, saved_name,
    target_dir, with_extension, CoverSource, DownloadMetadata, PictureMime,
};

#[test]
fn stream_urls_are_unwrapped_before_downloading() {
    assert_eq!(
        normalize_download_url(" http://127.0.0.1:9/stream/https%3A%2F%2Fa.b%2Fc.mp3?no_cache_write=1 "),
        "https://a.b/c.mp3"
    );
    assert_eq!(normalize_download_url("stream://localhost/https%3A%2F%2Fa.b%2Fc.mp3"), "https://a.b/c.mp3");
    assert_eq!(normalize_download_url("https%3A%2F%2Fa.b%2Fc.mp3"), "https://a.b/c.mp3");
    assert_eq!(normalize_download_url("file://C:\\Music\\a.mp3"), "file:///C:/Music/a.mp3");
    assert_eq!(normalize_download_url("https://a.b/c%3Ad.mp3"), "https://a.b/c:d.mp3");
    assert_eq!(normalize_download_url("a%3Ab"), "a%3Ab");
}

#[test]
fn file_names_lose_forbidden_characters() {
    assert_eq!(sanitize_file_name("a/b:c*?.mp3"), "a_b_c__.mp3");
    assert_eq!(sanitize_file_name("  ..name.. "), "name");
    assert_eq!(sanitize_file_name("\u{7}x"), "_x");
    assert_eq!(sanitize_file_name(" . "), "Listen1 Track");
}

#[test]
fn extensions_come_from_the_url_then_the_type() {
    assert_eq!(extension_from_url("https://x/a.MP3?x=1").as_deref(), Some("mp3"));
    assert_eq!(extension_from_url("https://x/a"), None);
    assert_eq!(extension_from_content_type("audio/x-flac; q=1"), Some("flac"));
    assert_eq!(extension_from_content_type("Audio/Flac"), None);
    assert_eq!(choose_download_extension(Some("m4s".into()), None).as_deref(), Some("m4a"));
    assert_eq!(choose_download_extension(Some("mp4".into()), Some("m4a".into())).as_deref(), Some("m4a"));
    assert_eq!(choose_download_extension(Some("mp4".into()), None).as_deref(), Some("mp4"));
    assert_eq!(choose_download_extension(None, Some("ogg".into())).as_deref(), Some("ogg"));
    assert_eq!(choose_download_extension(None, None), None);
}

#[test]
fn names_get_an_extension_and_a_number_when_taken() {
    assert_eq!(with_extension("song", Some("flac")), "song.flac");
    assert_eq!(with_extension("song", Some("")), "song.mp3");
    assert_eq!(with_extension("song", None), "song.mp3");
    assert_eq!(with_extension("song.ogg", Some("flac")), "song.ogg");
    assert_eq!(numbered_name("song.flac", 2), "song (2).flac");
    assert_eq!(numbered_name("song", 1), "song (1)");
    assert_eq!(saved_name("/m/song (1).flac", "song.flac"), "song (1).flac");
    assert_eq!(saved_name("/", "song.flac"), "song.flac");
}

#[test]
fn metadata_is_cleaned_and_written_when_there_is_any() {
    assert_eq!(clean_meta(Some("  x ".into())).as_deref(), Some("x"));
    assert_eq!(clean_meta(Some("   ".into())), None);
    assert!(cleaned_metadata(None).is_none());
    assert!(cleaned_metadata(Some(DownloadMetadata { title: Some(" ".into()), ..Default::default() })).is_none());
    let m = cleaned_metadata(Some(DownloadMetadata { artist: Some(" A ".into()), ..Default::default() })).unwrap();
    assert_eq!(m.artist.as_deref(), Some("A"));
    assert_eq!(metadata_outcome(Ok(()), false), Ok(true));
    assert_eq!(metadata_outcome(Err("tag".into()), true), Ok(true));
    assert_eq!(metadata_outcome(Err("tag".into()), false), Err("tag".to_string()));
}

#[test]
fn downloads_go_to_the_chosen_or_music_folder() {
    assert_eq!(target_dir(Some("/d"), "/home/me"), "/d");
    assert_eq!(target_dir(Some(" "), "/home/me"), "/home/me/Music");
    assert_eq!(target_dir(None, "/home/me/"), "/home/me/Music");
    assert_eq!(http_failure(404), "download failed: HTTP 404");
}

#[test]
fn picture_types_come_from_the_header_or_the_bytes() {
    assert!(matches!(infer_picture_mime(b"x", Some("image/PNG; q=1")), Some(PictureMime::Png)));
    assert!(matches!(infer_picture_mime(b"x", Some("image/avif")), Some(PictureMime::Unknown(ref u)) if u == "image/avif"));
    assert!(matches!(infer_picture_mime(&[0xff, 0xd8, 0xff], Some("text/html")), Some(PictureMime::Jpeg)));
    assert!(matches!(infer_picture_mime(b"GIF89a", None), Some(PictureMime::Gif)));
    assert!(infer_picture_mime(b"nope", None).is_none());
}

#[test]
fn covers_become_base64_data_urls() {
    assert_eq!(cover_data_url(b"Man", &PictureMime::Png), "data:image/png;base64,TWFu");
    assert_eq!(cover_data_url(b"Ma", &PictureMime::Jpeg), "data:image/jpeg;base64,TWE=");
    assert_eq!(cover_data_url(b"M", &PictureMime::Unknown("x/y".into())), "data:x/y;base64,TQ==");
}

#[test]
fn data_url_covers_are_read_in_place() {
    match cover_source("data:image/png;base64,TWFu") {
        CoverSource::Embedded { bytes, mime } => {
            assert_eq!(bytes, b"Man".to_vec());
            assert!(matches!(mime, PictureMime::Png));
        }
        other => panic!("unexpected {other:?}"),
    }
    assert!(matches!(cover_source("data:image/png;base64,!!"), CoverSource::Invalid { .. }));
    assert!(matches!(cover_source("data:nocomma"), CoverSource::Nothing));
    assert!(matches!(cover_source("  "), CoverSource::Nothing));
    assert!(matches!(cover_source("https://c/x.jpg"), CoverSource::Fetch));
}

#[test]
fn saved_names_are_never_empty_nor_forbidden() {
    for raw in ["", "   ", "...", "a<b>c:d\"e/f\\g|h?i*j", "\u{0}\u{1f}\u{7f}\u{9f}", "歌 名.mp3"] {
        let name = sanitize_file_name(raw);
        assert!(!name.is_empty());
        assert!(!name.chars().any(|c| "<>:\"/\\|?*".contains(c) || c.is_control()));
    }
}

#[test]
fn only_canonical_base64_covers_are_read() {
    match cover_source("data:image/png;base64,TWE=") {
        CoverSource::Embedded { bytes, .. } => assert_eq!(bytes, b"Ma".to_vec()),
        other => panic!("unexpected {other:?}"),
    }
    assert!(matches!(cover_source("data:image/png;base64,TWF="), CoverSource::Invalid { .. }));
    assert!(matches!(cover_source("data:image/png;base64,TWE"), CoverSource::Invalid { .. }));
    assert!(matches!(cover_source("data:image/png;base64,TW E="), CoverSource::Invalid { .. }));
}
