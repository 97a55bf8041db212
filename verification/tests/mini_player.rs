use aura::mini::mini_supported_on;
use aura::mini::{
    cover_place, fmt_seconds, focus_lite, image_extension, is_lite_active, lite_action,
    mini_supported, precache_id, request_close, CoverPlace, Drag, Fallback, Icon, LiteAction,
    LoadFlags, NoopMediaControls, MediaControls, NowPlaying, PaintKey,
};

const ALL: [Icon; 13] = [
    Icon::Prev,
    Icon::Next,
    Icon::Play,
    Icon::Pause,
    Icon::Minimize,
    Icon::Close,
    Icon::FullMode,
    Icon::LoopSequence,
    Icon::LoopOne,
    Icon::Shuffle,
    Icon::Volume,
    Icon::Muted,
    Icon::Note,
];

#[test]
fn every_icon_has_a_private_use_glyph_and_a_fallback() {
    for icon in ALL {
        let glyph = icon.glyph() as u32;
        assert!((0xE000..=0xF8FF).contains(&glyph), "{icon:?} {glyph:#X}");
        let _ = icon.fallback();
    }
}

#[test]
fn glyphs_are_distinct() {
    let mut seen = Vec::new();
    for icon in ALL {
        let glyph = icon.glyph();
        assert!(!seen.contains(&glyph), "{icon:?}");
        seen.push(glyph);
    }
}

#[test]
fn fallbacks_group_the_icons_by_shape() {
    assert_eq!(Icon::Play.fallback(), Fallback::TriangleRight);
    assert_eq!(Icon::Prev.fallback(), Fallback::TriangleLeft);
    assert_eq!(Icon::Pause.fallback(), Fallback::TwoBars);
    assert_eq!(Icon::Shuffle.fallback(), Fallback::Frame);
    assert_eq!(Icon::Note.fallback(), Fallback::Dot);
    assert_eq!(Icon::Close.glyph(), '\u{E8BB}');
}

#[test]
fn default_key_differs_from_a_playing_one() {
    let idle = PaintKey::default();
    let playing = PaintKey {
        playing: true,
        ..PaintKey::default()
    };
    assert_ne!(idle, playing);
    assert!(idle.differs(&playing));
    assert!(!idle.differs(&PaintKey::default()));
}

#[test]
fn drag_defaults_to_none() {
    assert_eq!(Drag::default(), Drag::Nothing);
}

#[test]
fn whole_seconds_read_as_minutes_and_seconds() {
    assert_eq!(fmt_seconds(0), "00:00");
    assert_eq!(fmt_seconds(59), "00:59");
    assert_eq!(fmt_seconds(60), "01:00");
    assert_eq!(fmt_seconds(215), "03:35");
    assert_eq!(fmt_seconds(3600), "60:00");
    assert_eq!(fmt_seconds(4335), "72:15");
}

#[test]
fn without_a_native_window_the_lite_calls_do_nothing() {
    assert!(!is_lite_active());
    assert!(!mini_supported());
    request_close();
    focus_lite();
    lite_action(LiteAction::Next);
    let controls = NoopMediaControls;
    controls.set_now_playing(&NowPlaying { title: "t", artist: "a", album: "b", cover_path: None });
    controls.set_playing(true);
    controls.clear();
}

#[test]
fn ended_and_failed_are_consume_once() {
    let mut f = LoadFlags::new();
    f.ended = true;
    f.failed = true;
    assert!(f.take_ended(false));
    assert!(!f.take_ended(false));
    assert!(f.take_failed());
    assert!(!f.take_failed());
}

#[test]
fn an_empty_queue_before_loading_is_not_an_ending() {
    let mut f = LoadFlags::new();
    assert!(!f.active);
    assert!(!f.take_ended(true));
    assert!(!f.take_ended(true));
}

#[test]
fn load_clears_stale_flags_and_bumps_generation() {
    let mut f = LoadFlags::new();
    f.ended = true;
    f.failed = true;
    let before = f.generation;
    let generation = f.begin_load();
    assert!(!f.take_ended(true));
    assert!(!f.take_failed());
    assert!(generation > before);
    assert!(f.busy);
}

#[test]
fn a_finished_source_ends_once_and_stale_loads_are_ignored() {
    let mut f = LoadFlags::new();
    let first = f.begin_load();
    let second = f.begin_load();
    f.finish_load(first, Some(5000));
    assert!(f.busy && !f.active && f.duration_ms == 0);
    f.finish_load(second, Some(5000));
    assert!(!f.busy && f.active && f.duration_ms == 5000);
    assert!(!f.take_ended(false));
    assert!(f.take_ended(true));
    assert!(!f.take_ended(true));
    let third = f.begin_load();
    f.finish_load(third, None);
    assert!(f.take_failed());
}

#[test]
fn cover_extensions_come_from_the_url_path() {
    assert_eq!(image_extension("https://x/a.PNG?w=1"), "png");
    assert_eq!(image_extension("https://x/a.webp#frag"), "webp");
    assert_eq!(image_extension("https://x/a.bmp"), "bmp");
    assert_eq!(image_extension("https://x/a?f=.png"), "jpg");
}

#[test]
fn covers_are_local_or_downloaded() {
    assert!(matches!(cover_place("   "), CoverPlace::Nothing));
    match cover_place("file:///tmp/a%20b.jpg") {
        CoverPlace::Local { path } => assert_eq!(path, "tmp/a b.jpg"),
        _ => panic!("expected a local cover"),
    }
    match cover_place(" https://x/a.png ") {
        CoverPlace::Download { url, file_name } => {
            assert_eq!(url, "https://x/a.png");
            assert!(file_name.ends_with(".png"));
            assert_eq!(file_name.len(), 20);
        }
        _ => panic!("expected a download"),
    }
}

#[test]
fn only_complete_ids_are_cached_ahead() {
    assert_eq!(precache_id(" qq:1 ").as_deref(), Some("qq:1"));
    assert_eq!(precache_id("qq:"), None);
    assert_eq!(precache_id("  "), None);
}

#[test]
fn only_windows_has_the_native_mini_player() {
    assert!(mini_supported_on("windows"));
    assert!(!mini_supported_on("linux"));
    assert!(!mini_supported_on("macos"));
    assert!(!mini_supported_on("Windows"));
}
