use aura::headers::HeaderMap;
use aura::proxy::{
    charset_from_content_type, cookie_value, decode_text_response, inject_headers,
    method_from_upper, proxy_plan, request_method, HttpMethod, ProxyConfig, ProxyPlan,
    DESKTOP_UA, MOBILE_UA,
};

fn header(map: &HeaderMap, name: &str) -> Option<String> {
    map.get(name).cloned()
}

#[test]
fn netease_gets_referer_origin_and_desktop_agent() {
    let mut h = HeaderMap::new();
    inject_headers("https://music.163.com/api/x", &mut h);
    assert_eq!(header(&h, "Referer").as_deref(), Some("http://music.163.com/"));
    assert_eq!(header(&h, "Origin").as_deref(), Some("http://music.163.com/"));
    assert_eq!(header(&h, "User-Agent").as_deref(), Some(DESKTOP_UA));
}

#[test]
fn qq_c_host_gets_its_own_origin() {
    let mut h = HeaderMap::new();
    inject_headers("https://c.y.qq.com/base/x", &mut h);
    assert_eq!(header(&h, "Referer").as_deref(), Some("https://y.qq.com/"));
    assert_eq!(header(&h, "Origin").as_deref(), Some("https://y.qq.com"));
}

#[test]
fn kugou_always_gets_the_mobile_agent() {
    let mut h = HeaderMap::new();
    h.insert("User-Agent".to_string(), "mine".to_string());
    inject_headers("https://www.kugou.com/song/x", &mut h);
    assert_eq!(header(&h, "User-Agent").as_deref(), Some(MOBILE_UA));
    assert_eq!(header(&h, "Referer").as_deref(), Some("https://www.kugou.com/"));
}

#[test]
fn bilibili_gets_no_default_origin() {
    let mut h = HeaderMap::new();
    inject_headers("https://upos.bilivideo.com/x.m4s", &mut h);
    assert_eq!(header(&h, "Referer").as_deref(), Some("https://www.bilibili.com/"));
    assert_eq!(header(&h, "Origin"), None);
    let mut cn = HeaderMap::new();
    inject_headers("https://a.bilivideo.cn/x", &mut cn);
    assert_eq!(header(&cn, "Origin").as_deref(), Some("https://www.bilibili.com/"));
}

#[test]
fn caller_headers_win_except_the_kugou_agent() {
    let mut h = HeaderMap::new();
    h.insert("Referer".to_string(), "custom".to_string());
    h.insert("User-Agent".to_string(), "mine".to_string());
    inject_headers("https://music.163.com/x", &mut h);
    assert_eq!(header(&h, "Referer").as_deref(), Some("custom"));
    assert_eq!(header(&h, "User-Agent").as_deref(), Some("mine"));
    assert_eq!(header(&h, "Origin").as_deref(), Some("http://music.163.com/"));
}

#[test]
fn unknown_sites_only_get_an_agent() {
    let mut h = HeaderMap::new();
    inject_headers("https://example.org/a", &mut h);
    assert_eq!(h.entries().len(), 1);
    assert_eq!(header(&h, "User-Agent").as_deref(), Some(DESKTOP_UA));
}

#[test]
fn header_map_replaces_and_keeps_one_entry_per_name() {
    let mut h = HeaderMap::new();
    h.insert("a".to_string(), "1".to_string());
    h.insert("a".to_string(), "2".to_string());
    h.insert_default("a".to_string(), "3".to_string());
    h.insert_default("b".to_string(), "4".to_string());
    assert_eq!(h.entries().len(), 2);
    assert_eq!(header(&h, "a").as_deref(), Some("2"));
    assert_eq!(header(&h, "b").as_deref(), Some("4"));
    assert_eq!(header(&h, "A"), None);
}

#[test]
fn proxy_modes_map_to_plans() {
    let mut c = ProxyConfig::default();
    assert_eq!(c.mode, "system");
    assert!(matches!(proxy_plan(&c), ProxyPlan::System));
    c.mode = String::new();
    assert!(matches!(proxy_plan(&c), ProxyPlan::Direct));
    c.mode = "direct".to_string();
    assert!(matches!(proxy_plan(&c), ProxyPlan::Direct));
    c.mode = "manual".to_string();
    assert!(matches!(proxy_plan(&c), ProxyPlan::System));
    c.host = Some("127.0.0.1".to_string());
    c.port = Some(7890);
    match proxy_plan(&c) {
        ProxyPlan::Manual { url } => assert_eq!(url, "http://127.0.0.1:7890"),
        other => panic!("unexpected {other:?}"),
    }
    c.protocol = Some("socks5".to_string());
    match proxy_plan(&c) {
        ProxyPlan::Manual { url } => assert_eq!(url, "socks5://127.0.0.1:7890"),
        other => panic!("unexpected {other:?}"),
    }
}

#[test]
fn methods_are_matched_after_upper_casing() {
    assert_eq!(request_method(None), HttpMethod::Get);
    assert_eq!(request_method(Some("post")), HttpMethod::Post);
    assert_eq!(request_method(Some("Patch")), HttpMethod::Patch);
    assert_eq!(request_method(Some("delete")), HttpMethod::Delete);
    assert_eq!(request_method(Some("put")), HttpMethod::Put);
    assert_eq!(request_method(Some("options")), HttpMethod::Get);
    assert_eq!(method_from_upper("post"), HttpMethod::Get);
}

#[test]
fn cookie_values_are_found_by_exact_name() {
    assert_eq!(cookie_value("a=1; MUSIC_U=abc; b=2", "MUSIC_U").as_deref(), Some("abc"));
    assert_eq!(cookie_value("a=1;b=x=y", "b").as_deref(), Some("x=y"));
    assert_eq!(cookie_value("a=1", "A"), None);
    assert_eq!(cookie_value("", "a"), None);
}

#[test]
fn charsets_are_read_in_any_case_and_unquoted() {
    assert_eq!(charset_from_content_type("text/html; charset=GBK").as_deref(), Some("GBK"));
    assert_eq!(charset_from_content_type("text/html;CharSet=\"utf-8\"").as_deref(), Some("utf-8"));
    assert_eq!(charset_from_content_type("text/html"), None);
}

#[test]
fn response_text_falls_back_by_charset_then_gb18030() {
    let h = HeaderMap::new();
    assert_eq!(decode_text_response(&h, "你好".as_bytes()), "你好");
    let gbk: &[u8] = &[0xc4, 0xe3, 0xba, 0xc3];
    assert_eq!(decode_text_response(&h, gbk), "你好");
    let mut big5 = HeaderMap::new();
    big5.insert("content-type".to_string(), "text/plain; charset=big5".to_string());
    let big5_bytes: &[u8] = &[0xa7, 0x41, 0xa6, 0x6e];
    assert_eq!(decode_text_response(&big5, big5_bytes), "你好");
}
