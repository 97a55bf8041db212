//! The local audio stream server: byte ranges, what may be cached, the
//! responses it builds and the requests it reads.
use vstd::prelude::*;
use crate::text::{
    chars_of, contains, contains_str, eq_str, lower, lower_vec, trim, trim_slice, split_once,
    split_once_slice, strip_prefix, strip_prefix_slice, first_piece, first_piece_slice,
    parse_u64, parse_u64_exec, ascii_view, ascii_chars, opt_view, opt_text, decimal,
    decimal_string, pair, pairs_view, push_str,
};
use crate::text::{starts_with, starts_with_str, find_map_pieces, find_char_exec, string_of, opt_str};
use crate::path::{path_extension, extension_range};
use crate::url::{url_decode, url_encode, decode_component, encode_component};
use crate::headers::Pairs;

verus! {

/// What `parse_range_header` makes of the two sides of the first range of a
/// `Range` value, for a resource of `len > 0` bytes.
pub open spec fn range_bounds(start_raw: Seq<char>, end_raw: Seq<char>, len: u64) -> Option<(u64, u64)> {
    if start_raw.len() == 0 {
        match parse_u64(end_raw) {
            Some(n) => if n == 0 {
                None
            } else {
                Some(((if n >= len { 0 } else { len - n }) as u64, (len - 1) as u64))
            },
            None => None,
        }
    } else {
        match parse_u64(start_raw) {
            None => None,
            Some(start) => if start >= len {
                None
            } else {
                let end: Option<u64> = if end_raw.len() == 0 {
                    Some((len - 1) as u64)
                } else {
                    match parse_u64(end_raw) {
                        Some(e) => Some(if e < len - 1 { e } else { (len - 1) as u64 }),
                        None => None,
                    }
                };
                match end {
                    Some(e) => if start <= e {
                        Some((start, e))
                    } else {
                        None
                    },
                    None => None,
                }
            },
        }
    }
}

/// The byte range that a `Range` header asks of a resource of `len` bytes:
/// `bytes=` and the first range of its list, as `start-end`, `start-` or
/// `-suffix`, the end clipped to the last byte; `None` where the header is
/// malformed or the range is not satisfiable.
pub open spec fn requested_range(range: Seq<char>, len: u64) -> Option<(u64, u64)> {
    if len == 0 {
        None
    } else {
        match strip_prefix(trim(range), "bytes="@) {
            None => None,
            Some(value) => match split_once(trim(first_piece(value, ',')), '-') {
                None => None,
                Some(parts) => range_bounds(parts.0, parts.1, len),
            },
        }
    }
}

/// The byte range that `range` asks of a resource of `len` bytes.
pub fn parse_range_header(range: &str, len: u64) -> (r: Option<(u64, u64)>)
    ensures
        r == requested_range(range@, len),
        r matches Some((start, end)) ==> start <= end < len,
{
    if len == 0 {
        return None;
    }
    let v = chars_of(range);
    let t = trim_slice(v.as_slice());
    let value = match strip_prefix_slice(t, "bytes=") {
        Some(value) => value,
        None => return None,
    };
    let first = trim_slice(first_piece_slice(value, ','));
    let (start_raw, end_raw) = match split_once_slice(first, '-') {
        Some(parts) => parts,
        None => return None,
    };
    if start_raw.len() == 0 {
        let n = match parse_u64_exec(end_raw) {
            Some(n) => n,
            None => return None,
        };
        if n == 0 {
            return None;
        }
        let start = if n >= len {
            0
        } else {
            len - n
        };
        return Some((start, len - 1));
    }
    let start = match parse_u64_exec(start_raw) {
        Some(s) => s,
        None => return None,
    };
    if start >= len {
        return None;
    }
    let end = if end_raw.len() == 0 {
        len - 1
    } else {
        match parse_u64_exec(end_raw) {
            Some(e) => if e < len - 1 {
                e
            } else {
                len - 1
            },
            None => return None,
        }
    };
    if start > end {
        return None;
    }
    Some((start, end))
}

/// Whether a `Range` header asks for the resource from its first byte on:
/// the start of its first range, trimmed, is "0".
pub open spec fn starts_at_zero(range: Option<Seq<char>>) -> bool {
    match range {
        None => false,
        Some(r) => match strip_prefix(trim(r), "bytes="@) {
            None => false,
            Some(value) => match split_once(trim(first_piece(value, ',')), '-') {
                None => false,
                Some(parts) => trim(parts.0) == "0"@,
            },
        },
    }
}

pub fn range_starts_at_zero(range: Option<&str>) -> (r: bool)
    ensures
        r == starts_at_zero(opt_text(range)),
{
    let range = match range {
        Some(range) => range,
        None => return false,
    };
    let v = chars_of(range);
    let value = match strip_prefix_slice(trim_slice(v.as_slice()), "bytes=") {
        Some(value) => value,
        None => return false,
    };
    match split_once_slice(trim_slice(first_piece_slice(value, ',')), '-') {
        Some((start, _)) => eq_str(trim_slice(start), "0"),
        None => false,
    }
}

/// `end.saturating_add(1) == total`.
pub open spec fn ends_at(end: u64, total: u64) -> bool {
    (if end == u64::MAX {
        end as int
    } else {
        end + 1
    }) == total
}

/// What a `Content-Range` value says of the body: `Some((start, end, total))`
/// for `bytes start-end/total` (the unit word optional, white space around
/// each number allowed).
pub open spec fn content_span(value: Seq<char>) -> Option<(u64, u64, u64)> {
    let spec_part = trim(
        match strip_prefix(value, "bytes"@) {
            Some(rest) => rest,
            None => value,
        },
    );
    match split_once(spec_part, '/') {
        None => None,
        Some(rt) => match parse_u64(trim(rt.1)) {
            None => None,
            Some(total) => match split_once(trim(rt.0), '-') {
                None => None,
                Some(se) => match (parse_u64(trim(se.0)), parse_u64(trim(se.1))) {
                    (Some(start), Some(end)) => Some((start, end, total)),
                    _ => None,
                },
            },
        },
    }
}

/// Whether a response body is the whole resource: there is no
/// `Content-Range` (or an empty one), or it spans from byte 0 to the last
/// byte of a non-empty total.
pub open spec fn covers_whole(content_range: Option<Seq<char>>) -> bool {
    match content_range {
        None => true,
        Some(c) => {
            let value = trim(c);
            if value.len() == 0 {
                true
            } else {
                match content_span(value) {
                    Some(span) => span.2 > 0 && span.0 == 0 && ends_at(span.1, span.2),
                    None => false,
                }
            }
        },
    }
}

fn content_span_exec(value: &[char]) -> (r: Option<(u64, u64, u64)>)
    ensures
        r == content_span(value@),
{
    let spec_part = trim_slice(
        match strip_prefix_slice(value, "bytes") {
            Some(rest) => rest,
            None => value,
        },
    );
    let (range_part, total_part) = match split_once_slice(spec_part, '/') {
        Some(p) => p,
        None => return None,
    };
    let total = match parse_u64_exec(trim_slice(total_part)) {
        Some(t) => t,
        None => return None,
    };
    let (start_raw, end_raw) = match split_once_slice(trim_slice(range_part), '-') {
        Some(p) => p,
        None => return None,
    };
    match (parse_u64_exec(trim_slice(start_raw)), parse_u64_exec(trim_slice(end_raw))) {
        (Some(start), Some(end)) => Some((start, end, total)),
        _ => None,
    }
}

/// Whether the body of a response with this `Content-Range` is the whole
/// resource, so that it can be stored as it is.
pub fn content_range_covers_whole(content_range: Option<&str>) -> (r: bool)
    ensures
        r == covers_whole(opt_text(content_range)),
{
    let c = match content_range {
        Some(c) => c,
        None => return true,
    };
    let v = chars_of(c);
    let value = trim_slice(v.as_slice());
    if value.len() == 0 {
        return true;
    }
    match content_span_exec(value) {
        Some((start, end, total)) => total > 0 && start == 0 && end.saturating_add(1) == total,
        None => false,
    }
}

/// Hosts whose audio must be fetched with the listener's own `Range`: the
/// Bilibili family.
pub open spec fn forwards_range(url: Seq<char>) -> bool {
    let v = lower(url);
    ||| contains(v, ".bilivideo.com/"@)
    ||| contains(v, ".bilivideo.cn"@)
    ||| contains(v, ".mcdn.bilivideo"@)
    ||| contains(v, ".bilibili.com/"@)
    ||| contains(v, ".hdslb.com/"@)
}

/// Whether a first `bytes=0-` request for `url` may be widened to the whole
/// resource, so that the cache gets all of it.
pub fn should_fetch_full_for_cache(url: &str) -> (r: bool)
    ensures
        r == !forwards_range(url@),
{
    let u = chars_of(url);
    let v = lower_vec(u.as_slice());
    let v = v.as_slice();
    !(contains_str(v, ".bilivideo.com/") || contains_str(v, ".bilivideo.cn") || contains_str(
        v,
        ".mcdn.bilivideo",
    ) || contains_str(v, ".bilibili.com/") || contains_str(v, ".hdslb.com/"))
}

/// A Content-Type that announces text rather than audio.
pub open spec fn texty_type(content_type: Seq<char>) -> bool {
    let v = lower(content_type);
    contains(v, "text/"@) || contains(v, "html"@) || contains(v, "json"@) || contains(v, "xml"@)
}

/// The first bytes of a body look like an HTML page or a JSON error: one of
/// the markers occurs, in any ASCII case, among its first 128 bytes. (The
/// markers are ASCII, so it does not matter how the other bytes decode.)
pub open spec fn error_page_prefix(bytes: Seq<u8>) -> bool {
    let n = if bytes.len() < 128 { bytes.len() as int } else { 128 };
    let v = lower(ascii_view(bytes.take(n)));
    contains(v, "<html"@) || contains(v, "<!doctype"@) || contains(v, "\"code\""@) || contains(
        v,
        "\"error\""@,
    )
}

/// Whether a fetched body is audio worth storing: status 200 or 206, at least
/// 1 KiB, not announced as text, and not starting like an error page.
pub open spec fn cacheable_response(status: u16, content_type: Seq<char>, bytes: Seq<u8>) -> bool {
    (status == 200 || status == 206) && bytes.len() >= 1024 && !texty_type(content_type)
        && !error_page_prefix(bytes)
}

pub fn should_cache_stream_response(status: u16, content_type: &str, bytes: &[u8]) -> (r: bool)
    ensures
        r == cacheable_response(status, content_type@, bytes@),
{
    if !(status == 200 || status == 206) || bytes.len() < 1024 {
        return false;
    }
    let c = chars_of(content_type);
    let normalized = lower_vec(c.as_slice());
    let normalized = normalized.as_slice();
    if contains_str(normalized, "text/") || contains_str(normalized, "html") || contains_str(
        normalized,
        "json",
    ) || contains_str(normalized, "xml") {
        return false;
    }
    let n: usize = if bytes.len() < 128 {
        bytes.len()
    } else {
        128
    };
    let head = &bytes[0..n];
    assert(head@ =~= bytes@.take(n as int));
    let prefix = ascii_chars(head);
    let prefix = lower_vec(prefix.as_slice());
    let prefix = prefix.as_slice();
    !contains_str(prefix, "<html") && !contains_str(prefix, "<!doctype") && !contains_str(
        prefix,
        "\"code\"",
    ) && !contains_str(prefix, "\"error\"")
}

/// The Content-Type of a local file, by its extension in any case: the audio
/// formats the player reads and the image formats that covers are stored in.
pub open spec fn local_mime(ext: Seq<char>) -> Seq<char> {
    if ext == "aac"@ || ext == "m4a"@ || ext == "mp4"@ {
        "audio/mp4"@
    } else if ext == "flac"@ {
        "audio/flac"@
    } else if ext == "mp3"@ {
        "audio/mpeg"@
    } else if ext == "ogg"@ || ext == "oga"@ || ext == "opus"@ {
        "audio/ogg"@
    } else if ext == "wav"@ {
        "audio/wav"@
    } else if ext == "aif"@ || ext == "aiff"@ {
        "audio/aiff"@
    } else if ext == "webm"@ {
        "audio/webm"@
    } else if ext == "jpg"@ || ext == "jpeg"@ {
        "image/jpeg"@
    } else if ext == "png"@ {
        "image/png"@
    } else if ext == "webp"@ {
        "image/webp"@
    } else if ext == "gif"@ {
        "image/gif"@
    } else if ext == "bmp"@ {
        "image/bmp"@
    } else {
        "application/octet-stream"@
    }
}

/// The lower-cased extension of a path, empty where it has none.
pub open spec fn lower_extension(path: Seq<char>) -> Seq<char> {
    match path_extension(path) {
        Some(e) => lower(e),
        None => Seq::<char>::empty(),
    }
}

/// The Content-Type under which the local file `path` is served.
pub fn local_content_type(path: &str) -> (r: &'static str)
    ensures
        r@ == local_mime(lower_extension(path@)),
{
    let v = chars_of(path);
    let ext: Vec<char> = match extension_range(v.as_slice()) {
        Some((a, b)) => lower_vec(&v.as_slice()[a..b]),
        None => Vec::new(),
    };
    let e = ext.as_slice();
    if eq_str(e, "aac") || eq_str(e, "m4a") || eq_str(e, "mp4") {
        "audio/mp4"
    } else if eq_str(e, "flac") {
        "audio/flac"
    } else if eq_str(e, "mp3") {
        "audio/mpeg"
    } else if eq_str(e, "ogg") || eq_str(e, "oga") || eq_str(e, "opus") {
        "audio/ogg"
    } else if eq_str(e, "wav") {
        "audio/wav"
    } else if eq_str(e, "aif") || eq_str(e, "aiff") {
        "audio/aiff"
    } else if eq_str(e, "webm") {
        "audio/webm"
    } else if eq_str(e, "jpg") || eq_str(e, "jpeg") {
        "image/jpeg"
    } else if eq_str(e, "png") {
        "image/png"
    } else if eq_str(e, "webp") {
        "image/webp"
    } else if eq_str(e, "gif") {
        "image/gif"
    } else if eq_str(e, "bmp") {
        "image/bmp"
    } else {
        "application/octet-stream"
    }
}

/// Each audio format is served under its own media type, whatever the case of
/// the file's extension: AAC in an MP4 container (`.m4a`, `.mp4`, `.aac`) as
/// `audio/mp4`, MP3 as `audio/mpeg`, FLAC as `audio/flac`, Ogg and Opus as
/// `audio/ogg`, WAV as `audio/wav`.
pub proof fn lemma_audio_content_types(path: Seq<char>)
    ensures
        lower_extension(path) == "m4a"@ ==> local_mime(lower_extension(path)) == "audio/mp4"@,
        lower_extension(path) == "mp4"@ ==> local_mime(lower_extension(path)) == "audio/mp4"@,
        lower_extension(path) == "aac"@ ==> local_mime(lower_extension(path)) == "audio/mp4"@,
        lower_extension(path) == "mp3"@ ==> local_mime(lower_extension(path)) == "audio/mpeg"@,
        lower_extension(path) == "flac"@ ==> local_mime(lower_extension(path)) == "audio/flac"@,
        lower_extension(path) == "ogg"@ ==> local_mime(lower_extension(path)) == "audio/ogg"@,
        lower_extension(path) == "opus"@ ==> local_mime(lower_extension(path)) == "audio/ogg"@,
        lower_extension(path) == "wav"@ ==> local_mime(lower_extension(path)) == "audio/wav"@,
{
    reveal_strlit("aac");
    reveal_strlit("m4a");
    reveal_strlit("mp4");
    reveal_strlit("flac");
    reveal_strlit("mp3");
    reveal_strlit("ogg");
    reveal_strlit("oga");
    reveal_strlit("opus");
    reveal_strlit("wav");
    let e = lower_extension(path);
    if e == "mp3"@ {
        assert(e[0] != "aac"@[0]);
        assert(e[1] != "m4a"@[1]);
        assert(e[2] != "mp4"@[2]);
        assert(e.len() != "flac"@.len());
    }
    if e == "flac"@ {
        assert(e.len() != "aac"@.len());
        assert(e.len() != "m4a"@.len());
        assert(e.len() != "mp4"@.len());
    }
    if e == "ogg"@ {
        assert(e[0] != "aac"@[0]);
        assert(e[0] != "m4a"@[0]);
        assert(e[0] != "mp4"@[0]);
        assert(e[0] != "mp3"@[0]);
        assert(e.len() != "flac"@.len());
    }
    if e == "opus"@ {
        assert(e[0] != "flac"@[0]);
        assert(e.len() != "aac"@.len());
        assert(e.len() != "m4a"@.len());
        assert(e.len() != "mp4"@.len());
        assert(e.len() != "mp3"@.len());
    }
    if e == "wav"@ {
        assert(e[0] != "aac"@[0]);
        assert(e[0] != "m4a"@[0]);
        assert(e[0] != "mp4"@[0]);
        assert(e[0] != "mp3"@[0]);
        assert(e[0] != "ogg"@[0]);
        assert(e[0] != "oga"@[0]);
        assert(e.len() != "flac"@.len());
        assert(e.len() != "opus"@.len());
    }
}

/// Every file that the music library lists as audio is served under an
/// `audio/` media type.
pub proof fn lemma_listed_audio_is_served_as_audio(path: Seq<char>)
    requires
        crate::local_music::is_audio_path(path),
    ensures
        local_mime(lower_extension(path)).take(6) == "audio/"@,
{
    reveal_strlit("audio/");
    reveal_strlit("audio/mp4");
    reveal_strlit("audio/flac");
    reveal_strlit("audio/mpeg");
    reveal_strlit("audio/ogg");
    reveal_strlit("audio/wav");
    reveal_strlit("audio/aiff");
    reveal_strlit("audio/webm");
    let m = local_mime(lower_extension(path));
    assert(m == "audio/mp4"@ || m == "audio/flac"@ || m == "audio/mpeg"@ || m == "audio/ogg"@
        || m == "audio/wav"@ || m == "audio/aiff"@ || m == "audio/webm"@);
    assert(m.take(6) =~= "audio/"@);
}

/// Each image format that covers are stored in is served under its own
/// media type, whatever the case of the file's extension.
pub proof fn lemma_image_content_types(path: Seq<char>)
    ensures
        lower_extension(path) == "jpg"@ ==> local_mime(lower_extension(path)) == "image/jpeg"@,
        lower_extension(path) == "jpeg"@ ==> local_mime(lower_extension(path)) == "image/jpeg"@,
        lower_extension(path) == "png"@ ==> local_mime(lower_extension(path)) == "image/png"@,
        lower_extension(path) == "webp"@ ==> local_mime(lower_extension(path)) == "image/webp"@,
{
    reveal_strlit("aac");
    reveal_strlit("m4a");
    reveal_strlit("mp4");
    reveal_strlit("flac");
    reveal_strlit("mp3");
    reveal_strlit("ogg");
    reveal_strlit("oga");
    reveal_strlit("opus");
    reveal_strlit("wav");
    reveal_strlit("aif");
    reveal_strlit("aiff");
    reveal_strlit("webm");
    reveal_strlit("jpg");
    reveal_strlit("jpeg");
    reveal_strlit("png");
    reveal_strlit("webp");
    let e = lower_extension(path);
    if e == "jpg"@ {
        assert(e[0] != "aac"@[0]);
        assert(e[0] != "m4a"@[0]);
        assert(e[0] != "mp4"@[0]);
        assert(e[0] != "mp3"@[0]);
        assert(e[0] != "ogg"@[0]);
        assert(e[0] != "oga"@[0]);
        assert(e[0] != "wav"@[0]);
        assert(e[0] != "aif"@[0]);
        assert(e.len() != "flac"@.len());
        assert(e.len() != "opus"@.len());
        assert(e.len() != "aiff"@.len());
        assert(e.len() != "webm"@.len());
    }
    if e == "jpeg"@ {
        assert(e[0] != "flac"@[0]);
        assert(e[0] != "opus"@[0]);
        assert(e[0] != "aiff"@[0]);
        assert(e[0] != "webm"@[0]);
        assert(e.len() != "aac"@.len());
        assert(e.len() != "m4a"@.len());
        assert(e.len() != "mp4"@.len());
        assert(e.len() != "mp3"@.len());
        assert(e.len() != "ogg"@.len());
        assert(e.len() != "oga"@.len());
        assert(e.len() != "wav"@.len());
        assert(e.len() != "aif"@.len());
    }
    if e == "png"@ {
        assert(e[0] != "aac"@[0]);
        assert(e[0] != "m4a"@[0]);
        assert(e[0] != "mp4"@[0]);
        assert(e[0] != "mp3"@[0]);
        assert(e[0] != "ogg"@[0]);
        assert(e[0] != "oga"@[0]);
        assert(e[0] != "wav"@[0]);
        assert(e[0] != "aif"@[0]);
        assert(e[0] != "jpg"@[0]);
        assert(e.len() != "flac"@.len());
        assert(e.len() != "opus"@.len());
        assert(e.len() != "aiff"@.len());
        assert(e.len() != "webm"@.len());
        assert(e.len() != "jpeg"@.len());
    }
    if e == "webp"@ {
        assert(e[0] != "flac"@[0]);
        assert(e[0] != "opus"@[0]);
        assert(e[0] != "aiff"@[0]);
        assert(e[3] != "webm"@[3]);
        assert(e[0] != "jpeg"@[0]);
        assert(e.len() != "aac"@.len());
        assert(e.len() != "m4a"@.len());
        assert(e.len() != "mp4"@.len());
        assert(e.len() != "mp3"@.len());
        assert(e.len() != "ogg"@.len());
        assert(e.len() != "oga"@.len());
        assert(e.len() != "wav"@.len());
        assert(e.len() != "aif"@.len());
        assert(e.len() != "jpg"@.len());
        assert(e.len() != "png"@.len());
    }
}

/// The reason phrase of a status line; any status not listed reads "OK".
pub open spec fn reason_phrase(status: u16) -> Seq<char> {
    if status == 204 {
        "No Content"@
    } else if status == 206 {
        "Partial Content"@
    } else if status == 400 {
        "Bad Request"@
    } else if status == 404 {
        "Not Found"@
    } else if status == 405 {
        "Method Not Allowed"@
    } else if status == 500 {
        "Internal Server Error"@
    } else if status == 502 {
        "Bad Gateway"@
    } else {
        "OK"@
    }
}

pub fn status_text(status: u16) -> (r: &'static str)
    ensures
        r@ == reason_phrase(status),
{
    match status {
        200 => "OK",
        204 => "No Content",
        206 => "Partial Content",
        400 => "Bad Request",
        404 => "Not Found",
        405 => "Method Not Allowed",
        500 => "Internal Server Error",
        502 => "Bad Gateway",
        _ => "OK",
    }
}

/// The headers that a page may read off a stream response.
pub const CACHE_EXPOSE_HEADERS: &'static str = "Content-Length, Content-Range, Accept-Ranges, X-Listen1-Cache";

pub fn cache_expose_headers() -> (r: &'static str)
    ensures
        r@ == CACHE_EXPOSE_HEADERS@,
{
    CACHE_EXPOSE_HEADERS
}

/// A response of the stream server.
pub struct StreamResponse {
    pub status: u16,
    pub headers: Vec<(String, String)>,
    pub body: Vec<u8>,
}

impl StreamResponse {
    /// A response with no body that any page may read.
    pub fn empty(status: u16) -> (r: Self)
        ensures
            r.status == status,
            pairs_view(r.headers@) == seq![("Access-Control-Allow-Origin"@, "*"@)],
            r.body@.len() == 0,
    {
        let headers = vec![pair("Access-Control-Allow-Origin", "*")];
        assert(pairs_view(headers@) =~= seq![("Access-Control-Allow-Origin"@, "*"@)]);
        StreamResponse { status, headers, body: Vec::new() }
    }
}

/// The headers of a response that carries a fetched body as it is.
pub open spec fn full_body_headers(
    content_type: Seq<char>,
    body_len: nat,
    content_range: Option<Seq<char>>,
    cache_state: Seq<char>,
) -> Pairs {
    let base = seq![
        ("Content-Type"@, content_type),
        ("Content-Length"@, decimal(body_len)),
        ("Cache-Control"@, "public, max-age=86400"@),
        ("Access-Control-Allow-Origin"@, "*"@),
        ("Access-Control-Expose-Headers"@, CACHE_EXPOSE_HEADERS@),
        ("X-Listen1-Cache"@, cache_state),
    ];
    match content_range {
        Some(c) => if c.len() > 0 {
            base + seq![("Content-Range"@, c), ("Accept-Ranges"@, "bytes"@)]
        } else {
            base
        },
        None => base,
    }
}

/// The response that passes a fetched body on.
pub fn full_body_stream_response(
    status: u16,
    content_type: &str,
    content_range: Option<&str>,
    body: Vec<u8>,
    cache_state: &str,
) -> (r: StreamResponse)
    ensures
        r.status == status,
        pairs_view(r.headers@) == full_body_headers(
            content_type@,
            body@.len(),
            opt_text(content_range),
            cache_state@,
        ),
        r.body@ == body@,
{
    let length = decimal_string(body.len() as u64);
    let mut headers = vec![
        pair("Content-Type", content_type),
        pair("Content-Length", length.as_str()),
        pair("Cache-Control", "public, max-age=86400"),
        pair("Access-Control-Allow-Origin", "*"),
        pair("Access-Control-Expose-Headers", cache_expose_headers()),
        pair("X-Listen1-Cache", cache_state),
    ];
    let ghost base = pairs_view(headers@);
    match content_range {
        Some(c) => {
            if !c.is_empty() {
                headers.push(pair("Content-Range", c));
                headers.push(pair("Accept-Ranges", "bytes"));
                assert(pairs_view(headers@) =~= base + seq![
                    ("Content-Range"@, c@),
                    ("Accept-Ranges"@, "bytes"@),
                ]);
            }
        },
        None => {},
    }
    assert(base =~= seq![
        ("Content-Type"@, content_type@),
        ("Content-Length"@, decimal(body@.len())),
        ("Cache-Control"@, "public, max-age=86400"@),
        ("Access-Control-Allow-Origin"@, "*"@),
        ("Access-Control-Expose-Headers"@, CACHE_EXPOSE_HEADERS@),
        ("X-Listen1-Cache"@, cache_state@),
    ]);
    StreamResponse { status, headers, body }
}

/// Status, first byte and last byte of a file response: 206 and the requested
/// range where the `Range` header asks for a satisfiable one, else 200 and the
/// whole file.
pub open spec fn file_span(len: u64, range: Option<Seq<char>>) -> (u16, u64, u64) {
    let requested = match range {
        Some(r) => requested_range(r, len),
        None => None,
    };
    match requested {
        Some(se) => (206u16, se.0, se.1),
        None => (200u16, 0u64, (if len == 0 { 0 } else { len - 1 }) as u64),
    }
}

/// How many bytes a file response carries.
pub open spec fn span_len(len: u64, start: u64, end: u64) -> nat {
    if len == 0 {
        0
    } else {
        (end - start + 1) as nat
    }
}

/// `bytes start-end/len`.
pub open spec fn content_range_value(start: u64, end: u64, len: u64) -> Seq<char> {
    "bytes "@ + decimal(start as nat) + "-"@ + decimal(end as nat) + "/"@ + decimal(len as nat)
}

/// The headers of a file response.
pub open spec fn file_headers(
    content_type: Seq<char>,
    len: u64,
    range: Option<Seq<char>>,
    cache_state: Seq<char>,
) -> Pairs {
    let (status, start, end) = file_span(len, range);
    let base = seq![
        ("Content-Type"@, content_type),
        ("Accept-Ranges"@, "bytes"@),
        ("Content-Length"@, decimal(span_len(len, start, end))),
        ("Access-Control-Allow-Origin"@, "*"@),
        ("Access-Control-Expose-Headers"@, CACHE_EXPOSE_HEADERS@),
        ("X-Listen1-Cache"@, cache_state),
    ];
    if status == 206 {
        base.push(("Content-Range"@, content_range_value(start, end, len)))
    } else {
        base
    }
}

/// What a response from a file of `len` bytes is made of: its status and
/// headers, and which bytes of the file form its body.
pub struct FilePlan {
    pub status: u16,
    pub start: u64,
    pub read_len: u64,
    pub headers: Vec<(String, String)>,
}

/// The response to a request with header `range` for a file of `len` bytes
/// served as `content_type`, marked with `cache_state`.
pub fn file_response_plan(
    content_type: &str,
    len: u64,
    range: Option<&str>,
    cache_state: &str,
) -> (r: FilePlan)
    ensures
        r.status == file_span(len, opt_text(range)).0,
        r.start == file_span(len, opt_text(range)).1,
        r.read_len == span_len(len, r.start, file_span(len, opt_text(range)).2),
        r.start + r.read_len <= len,
        pairs_view(r.headers@) == file_headers(content_type@, len, opt_text(range), cache_state@),
{
    let requested = match range {
        Some(v) => parse_range_header(v, len),
        None => None,
    };
    let (status, start, end): (u16, u64, u64) = match requested {
        Some((s, e)) => (206, s, e),
        None => (200, 0, if len == 0 {
            0
        } else {
            len - 1
        }),
    };
    let read_len: u64 = if len == 0 {
        0
    } else {
        end - start + 1
    };
    let length = decimal_string(read_len);
    let mut headers = vec![
        pair("Content-Type", content_type),
        pair("Accept-Ranges", "bytes"),
        pair("Content-Length", length.as_str()),
        pair("Access-Control-Allow-Origin", "*"),
        pair("Access-Control-Expose-Headers", cache_expose_headers()),
        pair("X-Listen1-Cache", cache_state),
    ];
    let ghost base = pairs_view(headers@);
    if status == 206 {
        let mut value = String::new();
        push_str(&mut value, "bytes ");
        let a = decimal_string(start);
        push_str(&mut value, a.as_str());
        push_str(&mut value, "-");
        let b = decimal_string(end);
        push_str(&mut value, b.as_str());
        push_str(&mut value, "/");
        let c = decimal_string(len);
        push_str(&mut value, c.as_str());
        headers.push(pair("Content-Range", value.as_str()));
        assert(pairs_view(headers@) =~= base.push(
            ("Content-Range"@, content_range_value(start, end, len)),
        ));
    }
    FilePlan { status, start, read_len, headers }
}

/// The response plan for a local file, served with the type its extension
/// names and marked "local".
pub fn local_file_plan(path: &str, len: u64, range: Option<&str>) -> (r: FilePlan)
    ensures
        r.status == file_span(len, opt_text(range)).0,
        r.start == file_span(len, opt_text(range)).1,
        r.read_len == span_len(len, r.start, file_span(len, opt_text(range)).2),
        r.start + r.read_len <= len,
        pairs_view(r.headers@) == file_headers(
            local_mime(lower_extension(path@)),
            len,
            opt_text(range),
            "local"@,
        ),
{
    let content_type = local_content_type(path);
    file_response_plan(content_type, len, range, "local")
}

/// The headers without any `X-Listen1-Cache` (named in any ASCII case).
pub open spec fn without_cache_tag(h: Pairs) -> Pairs
    decreases h.len(),
{
    if h.len() == 0 {
        h
    } else {
        let rest = without_cache_tag(h.drop_last());
        if lower(h.last().0) == "x-listen1-cache"@ {
            rest
        } else {
            rest.push(h.last())
        }
    }
}

/// The headers of a stored response, re-marked with the cache state of this
/// answer.
pub fn tag_cache_state(headers: &Vec<(String, String)>, state: &str) -> (r: Vec<(String, String)>)
    ensures
        pairs_view(r@) == without_cache_tag(pairs_view(headers@)).push(("X-Listen1-Cache"@, state@)),
{
    let mut out: Vec<(String, String)> = Vec::new();
    let mut i: usize = 0;
    while i < headers.len()
        invariant
            i <= headers@.len(),
            pairs_view(out@) == without_cache_tag(pairs_view(headers@).take(i as int)),
        decreases headers@.len() - i,
    {
        let ghost h = pairs_view(headers@);
        assert(h.take(i + 1).drop_last() =~= h.take(i as int));
        let name = chars_of(headers[i].0.as_str());
        let lowered = lower_vec(name.as_slice());
        if !eq_str(lowered.as_slice(), "x-listen1-cache") {
            let kept = (headers[i].0.clone(), headers[i].1.clone());
            out.push(kept);
            assert(pairs_view(out@) =~= without_cache_tag(h.take(i as int)).push(h[i as int]));
        }
        i += 1;
    }
    assert(pairs_view(headers@).take(headers@.len() as int) =~= pairs_view(headers@));
    out.push(pair("X-Listen1-Cache", state));
    assert(pairs_view(out@) =~= without_cache_tag(pairs_view(headers@)).push(
        ("X-Listen1-Cache"@, state@),
    ));
    out
}

/// Where a request for the stream server or the stream protocol leads.
#[derive(Debug)]
pub enum StreamTarget {
    /// No URL in the request.
    Missing,
    /// The URL is not percent-encoded UTF-8.
    Undecodable,
    /// A file of this machine.
    Local { url: String },
    /// A resource on the network, fetched by the proxy.
    Remote { url: String, no_cache_write: bool, cache_id: Option<String> },
}

/// A query part that turns off storing the response.
pub open spec fn flag_piece(p: Seq<char>) -> Option<Seq<char>> {
    if p == "no_cache_write=1"@ || p == "no_cache_write=true"@ {
        Some(p)
    } else {
        None
    }
}

/// Whether a query holds `no_cache_write=1` or `no_cache_write=true`.
pub open spec fn no_cache_flag(query: Seq<char>) -> bool {
    find_map_pieces(query, '&', |p: Seq<char>| flag_piece(p)) is Some
}

/// The still encoded value of the first `cache_key=` part of a query.
pub open spec fn cache_key_param(query: Seq<char>) -> Option<Seq<char>> {
    find_map_pieces(query, '&', |p: Seq<char>| strip_prefix(p, "cache_key="@))
}

/// The decoded `cache_key` of a query; `None` where it is absent or does not
/// decode.
pub open spec fn query_cache_id(query: Seq<char>) -> Option<Seq<char>> {
    match cache_key_param(query) {
        Some(v) => url_decode(v),
        None => None,
    }
}

fn no_cache_flag_exec(q: &[char]) -> (r: bool)
    ensures
        r == no_cache_flag(q@),
{
    let mut pos: usize = 0;
    assert(q@.skip(0) =~= q@);
    loop
        invariant
            pos <= q@.len(),
            no_cache_flag(q@) == no_cache_flag(q@.skip(pos as int)),
        decreases q@.len() - pos,
    {
        let rest = &q[pos..q.len()];
        assert(rest@ =~= q@.skip(pos as int));
        let i = find_char_exec(rest, '&', 0);
        let part = &rest[0..i];
        assert(part@ =~= rest@.take(i as int));
        proof {
            assert(no_cache_flag(rest@) == (flag_piece(rest@.take(i as int)) is Some || (i
                < rest@.len() && no_cache_flag(rest@.skip(i + 1)))));
        }
        if eq_str(part, "no_cache_write=1") || eq_str(part, "no_cache_write=true") {
            return true;
        }
        if i < rest.len() {
            assert(q@.skip(pos + i + 1) =~= rest@.skip(i + 1));
            pos = pos + i + 1;
        } else {
            return false;
        }
    }
}

fn cache_key_param_exec(q: &[char]) -> (r: Option<&[char]>)
    ensures
        opt_view(r) == cache_key_param(q@),
{
    let mut pos: usize = 0;
    assert(q@.skip(0) =~= q@);
    loop
        invariant
            pos <= q@.len(),
            cache_key_param(q@) == cache_key_param(q@.skip(pos as int)),
        decreases q@.len() - pos,
    {
        let rest = &q[pos..q.len()];
        assert(rest@ =~= q@.skip(pos as int));
        let i = find_char_exec(rest, '&', 0);
        let part = &rest[0..i];
        assert(part@ =~= rest@.take(i as int));
        proof {
            assert(cache_key_param(rest@) == (if strip_prefix(rest@.take(i as int), "cache_key="@) is Some {
                strip_prefix(rest@.take(i as int), "cache_key="@)
            } else if i < rest@.len() {
                cache_key_param(rest@.skip(i + 1))
            } else {
                None
            }));
        }
        match strip_prefix_slice(part, "cache_key=") {
            Some(v) => {
                return Some(v);
            },
            None => {},
        }
        if i < rest.len() {
            assert(q@.skip(pos + i + 1) =~= rest@.skip(i + 1));
            pos = pos + i + 1;
        } else {
            return None;
        }
    }
}

/// The query of a request target: what follows its first `?`.
pub open spec fn target_query(target: Seq<char>) -> Seq<char> {
    match split_once(target, '?') {
        Some(pq) => pq.1,
        None => Seq::<char>::empty(),
    }
}

/// Whether `r` is where the decoded URL `u` leads, with the flags of `query`.
pub open spec fn leads_to(r: StreamTarget, u: Seq<char>, query: Option<Seq<char>>) -> bool {
    if starts_with(u, "file://"@) {
        r matches StreamTarget::Local { url } && url@ == u
    } else {
        r matches StreamTarget::Remote { url, no_cache_write, cache_id } && url@ == u
            && no_cache_write == (match query {
            Some(q) => no_cache_flag(q),
            None => false,
        }) && opt_str(cache_id) == (match query {
            Some(q) => query_cache_id(q),
            None => None,
        })
    }
}

/// Whether `r` is where a request whose still encoded URL is `encoded` leads.
pub open spec fn target_for(r: StreamTarget, encoded: Seq<char>, query: Option<Seq<char>>) -> bool {
    if encoded.len() == 0 {
        r is Missing
    } else {
        match url_decode(encoded) {
            None => r is Undecodable,
            Some(u) => leads_to(r, u, query),
        }
    }
}

fn target_of(encoded: &[char], query: Option<&[char]>) -> (r: StreamTarget)
    ensures
        target_for(r, encoded@, opt_view(query)),
{
    if encoded.len() == 0 {
        return StreamTarget::Missing;
    }
    let text = string_of(encoded);
    let url = match decode_component(text.as_str()) {
        Some(u) => u,
        None => return StreamTarget::Undecodable,
    };
    let uv = chars_of(url.as_str());
    if starts_with_str(uv.as_slice(), "file://") {
        return StreamTarget::Local { url };
    }
    let (no_cache_write, cache_id) = match query {
        Some(q) => {
            let flag = no_cache_flag_exec(q);
            let id = match cache_key_param_exec(q) {
                Some(v) => {
                    let raw = string_of(v);
                    decode_component(raw.as_str())
                },
                None => None,
            };
            (flag, id)
        },
        None => (false, None),
    };
    StreamTarget::Remote { url, no_cache_write, cache_id }
}

/// The still encoded URL of a stream server request: the path of the target
/// after `/stream/`, empty where the path does not start so.
pub open spec fn server_encoded_url(target: Seq<char>) -> Seq<char> {
    match strip_prefix(first_piece(target, '?'), "/stream/"@) {
        Some(e) => e,
        None => Seq::<char>::empty(),
    }
}

/// Where a request for `target` on the stream server leads.
pub fn stream_target(target: &str) -> (r: StreamTarget)
    ensures
        target_for(r, server_encoded_url(target@), Some(target_query(target@))),
{
    let v = chars_of(target);
    let v = v.as_slice();
    let path = first_piece_slice(v, '?');
    let query: &[char] = match split_once_slice(v, '?') {
        Some((_, q)) => q,
        None => &v[0..0],
    };
    assert(query@ =~= target_query(target@));
    let encoded: &[char] = match strip_prefix_slice(path, "/stream/") {
        Some(e) => e,
        None => &v[0..0],
    };
    assert(encoded@ =~= server_encoded_url(target@));
    target_of(encoded, Some(query))
}

/// The still encoded URL of a stream protocol URI: what follows
/// `http://stream.localhost/` or `stream://localhost/` in the URI without its
/// query, empty where it starts with neither.
pub open spec fn protocol_encoded_url(uri: Seq<char>) -> Seq<char> {
    let path = first_piece(uri, '?');
    match strip_prefix(path, "http://stream.localhost/"@) {
        Some(e) => e,
        None => match strip_prefix(path, "stream://localhost/"@) {
            Some(e) => e,
            None => Seq::<char>::empty(),
        },
    }
}

/// Where a request of the stream protocol for `uri`, whose query is `query`,
/// leads.
pub fn protocol_target(uri: &str, query: Option<&str>) -> (r: StreamTarget)
    ensures
        target_for(r, protocol_encoded_url(uri@), opt_text(query)),
{
    let v = chars_of(uri);
    let v = v.as_slice();
    let path = first_piece_slice(v, '?');
    let encoded: &[char] = match strip_prefix_slice(path, "http://stream.localhost/") {
        Some(e) => e,
        None => match strip_prefix_slice(path, "stream://localhost/") {
            Some(e) => e,
            None => &v[0..0],
        },
    };
    assert(encoded@ =~= protocol_encoded_url(uri@));
    match query {
        Some(q) => {
            let qv = chars_of(q);
            target_of(encoded, Some(qv.as_slice()))
        },
        None => target_of(encoded, None),
    }
}

/// The `Range` to send upstream: none for a first `bytes=0-` request to a host
/// that lets the whole resource be fetched for the cache, else the listener's.
pub fn forwarded_range(range: Option<&str>, url: &str) -> (r: Option<String>)
    ensures
        opt_str(r) == (if starts_at_zero(opt_text(range)) && !forwards_range(url@) {
            None
        } else {
            opt_text(range)
        }),
{
    let fetch_full = range_starts_at_zero(range) && should_fetch_full_for_cache(url);
    if fetch_full {
        return None;
    }
    match range {
        Some(v) => Some(v.to_owned()),
        None => None,
    }
}

/// Whether a fetched response goes into the cache.
pub fn should_store(
    no_cache_write: bool,
    content_range: Option<&str>,
    status: u16,
    content_type: &str,
    bytes: &[u8],
) -> (r: bool)
    ensures
        r == (!no_cache_write && covers_whole(opt_text(content_range)) && cacheable_response(
            status,
            content_type@,
            bytes@,
        )),
{
    !no_cache_write && content_range_covers_whole(content_range) && should_cache_stream_response(
        status,
        content_type,
        bytes,
    )
}

/// The path of a file URL, as read on Unix: `file:///p` is `/p` as written;
/// `file://p` and anything else are percent-decoded where they decode.
pub open spec fn file_url_path(url: Seq<char>) -> Seq<char> {
    match strip_prefix(url, "file:///"@) {
        Some(p) => seq!['/'] + p,
        None => {
            let raw = match strip_prefix(url, "file://"@) {
                Some(p) => p,
                None => url,
            };
            match url_decode(raw) {
                Some(d) => d,
                None => raw,
            }
        },
    }
}

pub fn file_url_to_path(url: &str) -> (r: String)
    ensures
        r@ == file_url_path(url@),
{
    let v = chars_of(url);
    let v = v.as_slice();
    match strip_prefix_slice(v, "file:///") {
        Some(p) => {
            let mut s = String::new();
            crate::text::push_char(&mut s, '/');
            crate::text::push_chars(&mut s, p);
            assert(s@ =~= seq!['/'] + p@);
            s
        },
        None => {
            let raw: &[char] = match strip_prefix_slice(v, "file://") {
                Some(p) => p,
                None => v,
            };
            let raw_text = string_of(raw);
            match decode_component(raw_text.as_str()) {
                Some(d) => d,
                None => raw_text,
            }
        },
    }
}

/// The path of a file URL, as read on Windows: what follows `file:///` (or
/// `file://`, or the whole text), percent-decoded where it decodes.
pub open spec fn windows_file_url_path(url: Seq<char>) -> Seq<char> {
    let raw = match strip_prefix(url, "file:///"@) {
        Some(p) => p,
        None => match strip_prefix(url, "file://"@) {
            Some(p) => p,
            None => url,
        },
    };
    match url_decode(raw) {
        Some(d) => d,
        None => raw,
    }
}

pub fn file_url_to_windows_path(url: &str) -> (r: String)
    ensures
        r@ == windows_file_url_path(url@),
{
    let v = chars_of(url);
    let v = v.as_slice();
    let raw: &[char] = match strip_prefix_slice(v, "file:///") {
        Some(p) => p,
        None => match strip_prefix_slice(v, "file://") {
            Some(p) => p,
            None => v,
        },
    };
    let raw_text = string_of(raw);
    match decode_component(raw_text.as_str()) {
        Some(d) => d,
        None => raw_text,
    }
}

/// The URL under which the stream server at `base` serves `url`.
pub open spec fn stream_url_text(base: Seq<char>, url: Seq<char>, no_cache_write: Option<bool>) -> Seq<char> {
    base + url_encode(url) + (if no_cache_write == Some(true) {
        "?no_cache_write=1"@
    } else {
        Seq::<char>::empty()
    })
}

pub fn stream_url(base: &str, url: &str, no_cache_write: Option<bool>) -> (r: String)
    ensures
        r@ == stream_url_text(base@, url@, no_cache_write),
{
    let encoded = encode_component(url);
    let mut s = String::new();
    push_str(&mut s, base);
    push_str(&mut s, encoded.as_str());
    if no_cache_write == Some(true) {
        push_str(&mut s, "?no_cache_write=1");
    }
    s
}

/// The query part of a URL handed out with `no_cache_write`.
pub open spec fn handed_out_suffix(no_cache_write: Option<bool>) -> Seq<char> {
    if no_cache_write == Some(true) {
        "?no_cache_write=1"@
    } else {
        Seq::<char>::empty()
    }
}

proof fn lemma_query_flags(q: Seq<char>, flag: bool)
    requires
        q == (if flag { "no_cache_write=1"@ } else { Seq::<char>::empty() }),
    ensures
        no_cache_flag(q) == flag,
        query_cache_id(q) is None,
{
    reveal_strlit("no_cache_write=1");
    reveal_strlit("no_cache_write=true");
    reveal_strlit("cache_key=");
    crate::text::lemma_find_char(q, '&', 0, q.len() as int);
    assert(q.take(q.len() as int) =~= q);
    if flag {
        assert(q != "no_cache_write=true"@) by {
            assert(q.len() != "no_cache_write=true"@.len());
        }
        assert(!starts_with(q, "cache_key="@)) by {
            assert(q.subrange(0, 10)[0] != "cache_key="@[0]);
        }
    } else {
        assert(q != "no_cache_write=1"@) by {
            assert(q.len() != "no_cache_write=1"@.len());
        }
        assert(q != "no_cache_write=true"@) by {
            assert(q.len() != "no_cache_write=true"@.len());
        }
    }
}

/// The stream server gives back the URL it handed out: a request for the
/// path of `stream_url_text("/stream/", u, flag)` leads to `u` itself, a
/// local file for a `file://` URL, else fetched without a cache id and
/// without storing exactly when the URL was handed out so.
pub proof fn lemma_stream_url_served(u: Seq<char>, flag: Option<bool>, r: StreamTarget)
    requires
        u.len() > 0,
        target_for(
            r,
            server_encoded_url(stream_url_text("/stream/"@, u, flag)),
            Some(target_query(stream_url_text("/stream/"@, u, flag))),
        ),
    ensures
        starts_with(u, "file://"@) ==> (r matches StreamTarget::Local { url } && url@ == u),
        !starts_with(u, "file://"@) ==> (r matches StreamTarget::Remote { url, no_cache_write, cache_id }
            && url@ == u && no_cache_write == (flag == Some(true)) && cache_id is None),
{
    reveal_strlit("/stream/");
    reveal_strlit("?no_cache_write=1");
    reveal_strlit("no_cache_write=1");
    let p = "/stream/"@;
    let e = url_encode(u);
    let sfx = handed_out_suffix(flag);
    let t = stream_url_text(p, u, flag);
    crate::url::lemma_url_encode_shape(u);
    crate::url::lemma_url_round_trip(u);
    assert(t == p + e + sfx);
    let j: int = (p.len() + e.len()) as int;
    assert forall|k: int| 0 <= k < j implies t[k] != '?' by {
        if k < p.len() {
            assert(t[k] == p[k]);
        } else {
            assert(t[k] == e[k - p.len()]);
        }
    }
    if flag == Some(true) {
        assert(t[j] == '?');
        crate::text::lemma_find_char(t, '?', 0, j);
        assert(target_query(t) =~= "no_cache_write=1"@);
        lemma_query_flags(target_query(t), true);
    } else {
        assert(t =~= p + e);
        crate::text::lemma_find_char(t, '?', 0, j);
        assert(target_query(t) =~= Seq::<char>::empty());
        lemma_query_flags(target_query(t), false);
    }
    assert(first_piece(t, '?') =~= p + e);
    assert((p + e).subrange(0, p.len() as int) =~= p);
    assert((p + e).skip(p.len() as int) =~= e);
    assert(server_encoded_url(t) == e);
}

} // verus!
