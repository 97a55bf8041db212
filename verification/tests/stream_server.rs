use aura::stream::file_url_to_windows_path;
use aura::stream::{
    content_range_covers_whole, file_url_to_path, forwarded_range, local_content_type,
    local_file_plan, parse_range_header, protocol_target, range_starts_at_zero,
    should_cache_stream_response, should_fetch_full_for_cache, should_store, status_text,
    stream_target, stream_url, tag_cache_state, full_body_stream_response, StreamResponse,
    StreamTarget,
};
use aura::request::{head_complete, parse_request_head, parse_request_text, response_head, stream_route, StreamRoute};

#[test]
fn serves_local_covers_as_images() {
    assert_eq!(local_content_type("a/cover.JPG"), "image/jpeg");
    assert_eq!(local_content_type("a/cover.png"), "image/png");
    assert_eq!(local_content_type("a/cover.webp"), "image/webp");
    assert_eq!(local_content_type("a/song.flac"), "audio/flac");
    assert_eq!(local_content_type("a/song.mp3"), "audio/mpeg");
}

#[test]
fn no_content_range_is_a_whole_body() {
    assert!(content_range_covers_whole(None));
    assert!(content_range_covers_whole(Some("")));
    assert!(content_range_covers_whole(Some("   ")));
}

#[test]
fn full_span_206_is_a_whole_body() {
    assert!(content_range_covers_whole(Some("bytes 0-5242879/5242880")));
    assert!(content_range_covers_whole(Some("  bytes  0-1023/1024  ")));
}

#[test]
fn partial_span_is_not_a_whole_body() {
    assert!(!content_range_covers_whole(Some("bytes 0-1023/5242880")));
    assert!(!content_range_covers_whole(Some("bytes 1024-5242879/5242880")));
    assert!(!content_range_covers_whole(Some("bytes 0-1023/*")));
    assert!(!content_range_covers_whole(Some("bytes */5242880")));
    assert!(!content_range_covers_whole(Some("garbage")));
    assert!(!content_range_covers_whole(Some("bytes 0-0/0")));
}

#[test]
fn partial_content_status_is_cacheable() {
    let body = vec![7u8; 2048];
    assert!(should_cache_stream_response(206, "audio/mp4", &body));
    assert!(should_cache_stream_response(200, "audio/mpeg", &body));
    assert!(!should_cache_stream_response(302, "audio/mpeg", &body));
    assert!(!should_cache_stream_response(200, "audio/mpeg", &body[..512]));
    assert!(!should_cache_stream_response(200, "application/json", &body));
}

#[test]
fn bilibili_hosts_keep_forwarding_range() {
    assert!(!should_fetch_full_for_cache(
        "https://cn-hk-eq-01.bilivideo.com/upgcxcode/x.m4s?deadline=1"
    ));
    assert!(should_fetch_full_for_cache("https://m701.music.126.net/x.mp3"));
}

#[test]
fn range_forms_and_clipping() {
    assert_eq!(parse_range_header("bytes=0-", 100), Some((0, 99)));
    assert_eq!(parse_range_header("bytes=10-19", 100), Some((10, 19)));
    assert_eq!(parse_range_header("bytes=90-500", 100), Some((90, 99)));
    assert_eq!(parse_range_header("bytes=-30", 100), Some((70, 99)));
    assert_eq!(parse_range_header("bytes=-300", 100), Some((0, 99)));
    assert_eq!(parse_range_header(" bytes=5-6, 8-9 ", 100), Some((5, 6)));
    assert_eq!(parse_range_header("bytes=+5-6", 100), Some((5, 6)));
}

#[test]
fn unsatisfiable_or_malformed_ranges_are_none() {
    assert_eq!(parse_range_header("bytes=0-", 0), None);
    assert_eq!(parse_range_header("bytes=100-", 100), None);
    assert_eq!(parse_range_header("bytes=20-10", 100), None);
    assert_eq!(parse_range_header("bytes=-0", 100), None);
    assert_eq!(parse_range_header("items=0-1", 100), None);
    assert_eq!(parse_range_header("bytes=a-b", 100), None);
    assert_eq!(parse_range_header("bytes=5", 100), None);
}

#[test]
fn only_a_range_from_byte_zero_starts_at_zero() {
    assert!(range_starts_at_zero(Some("bytes=0-")));
    assert!(range_starts_at_zero(Some(" bytes= 0 -100")));
    assert!(!range_starts_at_zero(Some("bytes=1-")));
    assert!(!range_starts_at_zero(Some("bytes=00-")));
    assert!(!range_starts_at_zero(None));
}

#[test]
fn first_zero_range_is_widened_except_for_bilibili() {
    assert_eq!(forwarded_range(Some("bytes=0-"), "https://m701.music.126.net/x.mp3"), None);
    assert_eq!(
        forwarded_range(Some("bytes=0-"), "https://x.bilivideo.com/a.m4s"),
        Some("bytes=0-".to_string())
    );
    assert_eq!(
        forwarded_range(Some("bytes=100-"), "https://m701.music.126.net/x.mp3"),
        Some("bytes=100-".to_string())
    );
    assert_eq!(forwarded_range(None, "https://m701.music.126.net/x.mp3"), None);
}

#[test]
fn storing_needs_a_whole_audio_body_and_no_opt_out() {
    let body = vec![1u8; 4096];
    assert!(should_store(false, None, 200, "audio/mpeg", &body));
    assert!(!should_store(true, None, 200, "audio/mpeg", &body));
    assert!(!should_store(false, Some("bytes 0-99/4096"), 206, "audio/mpeg", &body));
    assert!(should_store(false, Some("bytes 0-4095/4096"), 206, "audio/mpeg", &body));
}

#[test]
fn error_pages_are_not_cached() {
    let mut body = b"<!DOCTYPE html><HTML>".to_vec();
    body.resize(2048, b' ');
    assert!(!should_cache_stream_response(200, "audio/mpeg", &body));
    let mut json = b"{\"error\": 1}".to_vec();
    json.resize(2048, b' ');
    assert!(!should_cache_stream_response(200, "audio/mpeg", &json));
    assert!(!should_cache_stream_response(200, "Text/Plain", &vec![0u8; 2048]));
}

#[test]
fn unknown_extensions_are_octet_streams() {
    assert_eq!(local_content_type("/music/a.OGG"), "audio/ogg");
    assert_eq!(local_content_type("/music/noext"), "application/octet-stream");
    assert_eq!(local_content_type("/music/a.xyz"), "application/octet-stream");
}

#[test]
fn status_lines_read_their_reason() {
    assert_eq!(status_text(206), "Partial Content");
    assert_eq!(status_text(405), "Method Not Allowed");
    assert_eq!(status_text(418), "OK");
}

#[test]
fn empty_responses_may_be_read_by_any_page() {
    let r = StreamResponse::empty(404);
    assert_eq!(r.status, 404);
    assert_eq!(r.headers, vec![("Access-Control-Allow-Origin".to_string(), "*".to_string())]);
    assert!(r.body.is_empty());
}

#[test]
fn full_body_response_lists_its_headers() {
    let r = full_body_stream_response(206, "audio/mp4", Some("bytes 0-2/3"), vec![1, 2, 3], "miss");
    assert_eq!(r.status, 206);
    assert_eq!(r.body, vec![1, 2, 3]);
    let names: Vec<&str> = r.headers.iter().map(|(n, _)| n.as_str()).collect();
    assert_eq!(
        names,
        vec![
            "Content-Type",
            "Content-Length",
            "Cache-Control",
            "Access-Control-Allow-Origin",
            "Access-Control-Expose-Headers",
            "X-Listen1-Cache",
            "Content-Range",
            "Accept-Ranges"
        ]
    );
    assert_eq!(r.headers[1].1, "3");
    assert_eq!(r.headers[5].1, "miss");
    let plain = full_body_stream_response(200, "audio/mp4", Some(""), vec![], "hit");
    assert_eq!(plain.headers.len(), 6);
}

#[test]
fn local_file_plan_serves_the_requested_range() {
    let plan = local_file_plan("/m/a.flac", 1000, Some("bytes=100-199"));
    assert_eq!(plan.status, 206);
    assert_eq!(plan.start, 100);
    assert_eq!(plan.read_len, 100);
    assert_eq!(plan.headers[0], ("Content-Type".to_string(), "audio/flac".to_string()));
    assert_eq!(plan.headers[2], ("Content-Length".to_string(), "100".to_string()));
    assert_eq!(plan.headers[5], ("X-Listen1-Cache".to_string(), "local".to_string()));
    assert_eq!(plan.headers[6], ("Content-Range".to_string(), "bytes 100-199/1000".to_string()));

    let whole = local_file_plan("/m/a.flac", 1000, None);
    assert_eq!((whole.status, whole.start, whole.read_len), (200, 0, 1000));
    assert_eq!(whole.headers.len(), 6);

    let empty = local_file_plan("/m/a.flac", 0, Some("bytes=0-"));
    assert_eq!((empty.status, empty.start, empty.read_len), (200, 0, 0));
}

#[test]
fn stored_responses_are_re_marked() {
    let headers = vec![
        ("Content-Type".to_string(), "audio/mpeg".to_string()),
        ("x-listen1-cache".to_string(), "miss".to_string()),
    ];
    let tagged = tag_cache_state(&headers, "hit");
    assert_eq!(
        tagged,
        vec![
            ("Content-Type".to_string(), "audio/mpeg".to_string()),
            ("X-Listen1-Cache".to_string(), "hit".to_string()),
        ]
    );
}

#[test]
fn stream_targets_are_decoded_and_flagged() {
    match stream_target("/stream/https%3A%2F%2Fa.b%2Fc.mp3?no_cache_write=1&cache_key=qq%3A42") {
        StreamTarget::Remote { url, no_cache_write, cache_id } => {
            assert_eq!(url, "https://a.b/c.mp3");
            assert!(no_cache_write);
            assert_eq!(cache_id.as_deref(), Some("qq:42"));
        }
        other => panic!("unexpected {other:?}"),
    }
    match stream_target("/stream/file%3A%2F%2F%2Ftmp%2Fa.mp3") {
        StreamTarget::Local { url } => assert_eq!(url, "file:///tmp/a.mp3"),
        other => panic!("unexpected {other:?}"),
    }
    assert!(matches!(stream_target("/other/x"), StreamTarget::Missing));
    assert!(matches!(stream_target("/stream/"), StreamTarget::Missing));
    assert!(matches!(stream_target("/stream/%FF"), StreamTarget::Undecodable));
    match stream_target("/stream/x?no_cache_write=yes") {
        StreamTarget::Remote { no_cache_write, cache_id, .. } => {
            assert!(!no_cache_write);
            assert_eq!(cache_id, None);
        }
        other => panic!("unexpected {other:?}"),
    }
}

#[test]
fn protocol_uris_name_their_target() {
    match protocol_target("http://stream.localhost/https%3A%2F%2Fa.b%2Fc.mp3?x=1", Some("cache_key=k")) {
        StreamTarget::Remote { url, no_cache_write, cache_id } => {
            assert_eq!(url, "https://a.b/c.mp3");
            assert!(!no_cache_write);
            assert_eq!(cache_id.as_deref(), Some("k"));
        }
        other => panic!("unexpected {other:?}"),
    }
    assert!(matches!(protocol_target("stream://localhost/", None), StreamTarget::Missing));
    assert!(matches!(protocol_target("https://elsewhere/", None), StreamTarget::Missing));
}

#[test]
fn file_urls_become_unix_paths() {
    assert_eq!(file_url_to_path("file:///tmp/a%20b.mp3"), "/tmp/a%20b.mp3");
    assert_eq!(file_url_to_path("file://tmp/a%20b.mp3"), "tmp/a b.mp3");
    assert_eq!(file_url_to_path("/x/%E4%BD%A0.mp3"), "/x/你.mp3");
    assert_eq!(file_url_to_path("/x/%FF.mp3"), "/x/%FF.mp3");
}

#[test]
fn stream_urls_are_percent_encoded() {
    assert_eq!(
        stream_url("http://127.0.0.1:9/stream/", "https://a.b/c d.mp3", Some(true)),
        "http://127.0.0.1:9/stream/https%3A%2F%2Fa.b%2Fc%20d.mp3?no_cache_write=1"
    );
    assert_eq!(stream_url("b/", "你", None), "b/%E4%BD%A0");
    assert_eq!(stream_url("b/", "a-_.~z", Some(false)), "b/a-_.~z");
}

#[test]
fn request_heads_are_read_line_by_line() {
    let head = parse_request_text("GET  /stream/abc HTTP/1.1\r\nHost: x\r\nrange: bytes=0-\r\nRANGE : bytes=5-\r\n\r\nRange: bytes=9-\r\n");
    assert_eq!(head.method, "GET");
    assert_eq!(head.target, "/stream/abc");
    assert_eq!(head.range.as_deref(), Some("bytes=5-"));
    let bare = parse_request_head(b"OPTIONS * HTTP/1.1\r\n\r\n");
    assert_eq!(bare.method, "OPTIONS");
    assert_eq!(bare.target, "*");
    assert_eq!(bare.range, None);
    let nothing = parse_request_text("");
    assert_eq!((nothing.method.as_str(), nothing.target.as_str()), ("", ""));
}

#[test]
fn a_head_is_complete_at_the_blank_line_or_too_large() {
    assert!(!head_complete(b"GET / HTTP/1.1\r\n"));
    assert!(head_complete(b"GET / HTTP/1.1\r\n\r\n"));
    assert!(head_complete(&vec![b'a'; 65537]));
    assert!(!head_complete(&vec![b'a'; 65536]));
}

#[test]
fn only_get_and_head_are_served() {
    assert_eq!(stream_route("OPTIONS"), StreamRoute::Preflight);
    assert_eq!(stream_route("GET"), StreamRoute::Get);
    assert_eq!(stream_route("HEAD"), StreamRoute::Head);
    assert_eq!(stream_route("POST"), StreamRoute::NotAllowed);
    assert_eq!(stream_route("get"), StreamRoute::NotAllowed);
}

#[test]
fn response_heads_close_and_sanitize() {
    let headers = vec![("X-A".to_string(), "1\r\nInjected: 2".to_string())];
    assert_eq!(
        response_head(404, &headers, 0),
        "HTTP/1.1 404 Not Found\r\nX-A: 1  Injected: 2\r\nContent-Length: 0\r\nAccess-Control-Allow-Headers: Range\r\nConnection: close\r\n\r\n"
    );
    let with_length = vec![("content-LENGTH".to_string(), "7".to_string())];
    assert_eq!(
        response_head(200, &with_length, 3),
        "HTTP/1.1 200 OK\r\ncontent-LENGTH: 7\r\nAccess-Control-Allow-Headers: Range\r\nConnection: close\r\n\r\n"
    );
}

#[test]
fn handed_out_urls_come_back_unchanged() {
    for (url, flag) in [
        ("https://a.b/c d.mp3?sig=1&t=2", Some(true)),
        ("https://x.y/你好.flac#frag", None),
        ("http://h/%41?x=%", Some(false)),
    ] {
        let full = stream_url("/stream/", url, flag);
        match stream_target(&full) {
            StreamTarget::Remote { url: back, no_cache_write, cache_id } => {
                assert_eq!(back, url);
                assert_eq!(no_cache_write, flag == Some(true));
                assert_eq!(cache_id, None);
            }
            other => panic!("unexpected {other:?}"),
        }
    }
    match stream_target(&stream_url("/stream/", "file:///music/a b.flac", Some(true))) {
        StreamTarget::Local { url } => assert_eq!(url, "file:///music/a b.flac"),
        other => panic!("unexpected {other:?}"),
    }
}

#[test]
fn windows_file_urls_become_decoded_paths() {
    assert_eq!(file_url_to_windows_path("file:///C:/Music/a%20b.flac"), "C:/Music/a b.flac");
    assert_eq!(file_url_to_windows_path("file://server/share/%E4%BD%A0.mp3"), "server/share/你.mp3");
    assert_eq!(file_url_to_windows_path("C:/x/%FF.mp3"), "C:/x/%FF.mp3");
}
