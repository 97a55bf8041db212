use aura::window::{
    cookie_line, expired_cookie, float_settings, float_visible, lyric_update_script,
    FloatingLyricSettingsState, FloatingLyricState,
};

#[test]
fn payloads_are_kept_until_replaced() {
    let mut lyric = FloatingLyricState::new();
    assert_eq!(lyric.get(), None);
    lyric.set("a".to_string());
    lyric.set("b".to_string());
    assert_eq!(lyric.get().as_deref(), Some("b"));
    let mut settings = FloatingLyricSettingsState::new();
    settings.set("{}".to_string());
    assert_eq!(settings.get().as_deref(), Some("{}"));
}

#[test]
fn settings_default_where_the_payload_is_silent() {
    let none = float_settings(None);
    assert!(!none.enabled && none.hide_when_main_visible && !none.locked);
    let garbage = float_settings(Some("not json"));
    assert_eq!(garbage, none);
    let s = float_settings(Some(r#"{"enableLyricFloatingWindow":true,"hideLyricFloatingWindowWhenMainVisible":false,"lyricWindow":{"locked":true}}"#));
    assert!(s.enabled && !s.hide_when_main_visible && s.locked);
    let wrong_type = float_settings(Some(r#"{"enableLyricFloatingWindow":"yes"}"#));
    assert!(!wrong_type.enabled);
}

#[test]
fn the_float_hides_beside_a_visible_main_window_when_asked() {
    let s = float_settings(Some(r#"{"enableLyricFloatingWindow":true}"#));
    assert!(!float_visible(s, true));
    assert!(float_visible(s, false));
    let off = float_settings(None);
    assert!(!float_visible(off, false));
}

#[test]
fn lyric_payloads_are_quoted_into_the_script() {
    assert_eq!(
        lyric_update_script("a\"b").as_deref(),
        Some("window.dispatchEvent(new CustomEvent('listen1-native-lyric-update', { detail: \"a\\\"b\" }));")
    );
}

#[test]
fn login_cookies_are_written_for_the_jar() {
    assert_eq!(cookie_line("a", "1", Some("/"), Some(".x.com"), true), "a=1; Path=/; Domain=.x.com; Secure");
    assert_eq!(cookie_line("a", "1", None, None, false), "a=1");
    assert_eq!(expired_cookie("MUSIC_U"), "MUSIC_U=; Max-Age=0; Path=/");
}

#[test]
fn lyric_scripts_escape_like_json() {
    assert_eq!(
        lyric_update_script("\u{1}\n\t\"\\é\u{8}\u{c}\r\u{1f}").as_deref(),
        Some(
            "window.dispatchEvent(new CustomEvent('listen1-native-lyric-update', { detail: \
             \"\\u0001\\n\\t\\\"\\\\é\\b\\f\\r\\u001f\" }));"
        )
    );
}
