//! Saving a song to the music folder: which URL is really fetched, what the
//! file is called, and what becomes of its metadata.
use vstd::prelude::*;
use base64::Engine;
use vstd::utf8::encode_utf8;
use crate::text::{
    chars_of, contains, contains_str, eq_str, lower, lower_vec, trim, trim_slice, starts_with,
    starts_with_str, strip_prefix, strip_prefix_slice, first_piece, first_piece_slice,
    first_occurrence, first_occurrence_exec, strip_char_both, strip_char_slice, string_of,
    push_str, push_char, push_chars, opt_str, opt_text, opt_view, decimal, decimal_string,
};
use crate::path::{last_index, path_extension, path_stem, file_name, extension_range, stem_range, file_name_range, last_index_exec};
use crate::url::{url_decode, decode_component};
use crate::cache::{utf8_len, join_path, join};

verus! {

/// What the front end says about a song to download.
#[derive(Debug, Clone)]
pub struct DownloadMetadata {
    pub title: Option<String>,
    pub artist: Option<String>,
    pub album: Option<String>,
    pub lyrics: Option<String>,
    pub cover_url: Option<String>,
}

impl Default for DownloadMetadata {
    fn default() -> (r: Self)
        ensures
            r.title is None,
            r.artist is None,
            r.album is None,
            r.lyrics is None,
            r.cover_url is None,
    {
        DownloadMetadata { title: None, artist: None, album: None, lyrics: None, cover_url: None }
    }
}

/// Where a download went, and whether its metadata could be written.
#[derive(Debug)]
pub struct DownloadResult {
    pub path: String,
    pub file_name: String,
    pub metadata_written: bool,
    pub metadata_error: Option<String>,
}

/// A URL percent-decoded once, or as it is where it does not decode.
pub open spec fn decode_once(v: Seq<char>) -> Seq<char> {
    match url_decode(v) {
        Some(d) => d,
        None => v,
    }
}

fn decode_once_exec(v: &[char]) -> (r: String)
    ensures
        r@ == decode_once(v@),
{
    let s = string_of(v);
    match decode_component(s.as_str()) {
        Some(d) => d,
        None => s,
    }
}

/// Every backslash made a forward slash.
pub open spec fn forward_slashes(s: Seq<char>) -> Seq<char> {
    s.map_values(|c: char| if c == '\\' { '/' } else { c })
}

fn forward_slashes_exec(v: &[char]) -> (r: String)
    ensures
        r@ == forward_slashes(v@),
{
    let mut out: Vec<char> = Vec::new();
    let mut i: usize = 0;
    while i < v.len()
        invariant
            i <= v@.len(),
            out@ == forward_slashes(v@.take(i as int)),
        decreases v@.len() - i,
    {
        let c = v[i];
        out.push(
            if c == '\\' {
                '/'
            } else {
                c
            },
        );
        i += 1;
        assert(out@ =~= forward_slashes(v@.take(i as int)));
    }
    assert(v@.take(v@.len() as int) =~= v@);
    string_of(out.as_slice())
}

/// `file://` followed by what looks like a drive letter: the second byte of
/// the rest is `:` and there are more than two bytes.
pub open spec fn drive_after_scheme(rest: Seq<char>) -> bool {
    let b = encode_utf8(rest);
    b.len() > 2 && b[1] == 58
}

/// The URL encoded inside a stream URL of this app, if it is one.
pub open spec fn wrapped_target(n: Seq<char>) -> Option<Seq<char>> {
    match first_occurrence(n, "/stream/"@) {
        Some(i) => Some(first_piece(n.skip(i + "/stream/"@.len()), '?')),
        None => match strip_prefix(n, "http://stream.localhost/"@) {
            Some(r) => Some(r),
            None => strip_prefix(n, "stream://localhost/"@),
        },
    }
}

/// The URL that a download really fetches: trimmed; decoded once where it
/// was passed percent-encoded; the wrapped URL where it is one of this app's
/// stream URLs; a Windows file URL with three slashes; forward slashes only.
pub open spec fn normalized_download_url(url: Seq<char>) -> Seq<char> {
    let t = trim(url);
    let n = if contains(t, "%3A"@) || contains(t, "%3a"@) {
        let d = decode_once(t);
        if contains(d, "://"@) {
            d
        } else {
            t
        }
    } else {
        t
    };
    match wrapped_target(n) {
        Some(e) => decode_once(e),
        None => if starts_with(n, "file://"@) && drive_after_scheme(n.skip(7)) {
            forward_slashes("file:///"@ + n.skip(7))
        } else {
            forward_slashes(n)
        },
    }
}

fn wrapped_target_exec(n: &[char]) -> (r: Option<&[char]>)
    ensures
        opt_view(r) == wrapped_target(n@),
{
    let marker = chars_of("/stream/");
    match first_occurrence_exec(n, marker.as_slice()) {
        Some(i) => {
            let m = marker.len();
            assert(crate::text::occurs_at(n@, marker@, i as int));
            assert(i + m <= n.len());
            let rest = &n[i + m..n.len()];
            assert(rest@ =~= n@.skip(i + "/stream/"@.len()));
            Some(first_piece_slice(rest, '?'))
        },
        None => match strip_prefix_slice(n, "http://stream.localhost/") {
            Some(r) => Some(r),
            None => strip_prefix_slice(n, "stream://localhost/"),
        },
    }
}

pub fn normalize_download_url(url: &str) -> (r: String)
    ensures
        r@ == normalized_download_url(url@),
{
    let v = chars_of(url);
    let t = trim_slice(v.as_slice());
    let decoded_holder: Vec<char>;
    let n: &[char] = if contains_str(t, "%3A") || contains_str(t, "%3a") {
        let d = decode_once_exec(t);
        let dv = chars_of(d.as_str());
        if contains_str(dv.as_slice(), "://") {
            decoded_holder = dv;
            decoded_holder.as_slice()
        } else {
            t
        }
    } else {
        t
    };
    match wrapped_target_exec(n) {
        Some(e) => decode_once_exec(e),
        None => {
            if starts_with_str(n, "file://") {
                proof {
                    reveal_strlit("file://");
                }
                let rest = &n[7..n.len()];
                assert(rest@ =~= n@.skip(7));
                let rest_text = string_of(rest);
                let b = rest_text.as_str().as_bytes();
                if b.len() > 2 && b[1] == 58 {
                    let mut full: Vec<char> = chars_of("file:///");
                    let ghost head = full@;
                    let mut k: usize = 0;
                    while k < rest.len()
                        invariant
                            k <= rest@.len(),
                            full@ == head + rest@.take(k as int),
                        decreases rest@.len() - k,
                    {
                        full.push(rest[k]);
                        k += 1;
                        assert(full@ =~= head + rest@.take(k as int));
                    }
                    assert(rest@.take(rest@.len() as int) =~= rest@);
                    return forward_slashes_exec(full.as_slice());
                }
            }
            forward_slashes_exec(n)
        },
    }
}

/// `char::is_control`: the control characters U+0000 to U+001F and U+007F
/// to U+009F.
pub open spec fn is_control(c: char) -> bool {
    (c as u32) <= 0x1f || (0x7f <= (c as u32) && (c as u32) <= 0x9f)
}

/// A character of a file name as written: the characters that Windows does
/// not allow and the control characters become `_`.
pub open spec fn file_name_char(c: char) -> char {
    if c == '<' || c == '>' || c == ':' || c == '"' || c == '/' || c == '\\' || c == '|' || c
        == '?' || c == '*' || is_control(c) {
        '_'
    } else {
        c
    }
}

/// A safe file name for `value`: forbidden characters replaced, white space
/// and dots trimmed from both ends; "Listen1 Track" where nothing is left.
pub open spec fn sanitized_name(value: Seq<char>) -> Seq<char> {
    let t = trim(strip_char_both(trim(value.map_values(|c: char| file_name_char(c))), '.'));
    if t.len() == 0 {
        "Listen1 Track"@
    } else {
        t
    }
}

pub fn sanitize_file_name(value: &str) -> (r: String)
    ensures
        r@ == sanitized_name(value@),
{
    let v = chars_of(value);
    let mut cleaned: Vec<char> = Vec::new();
    let mut i: usize = 0;
    while i < v.len()
        invariant
            i <= v@.len(),
            v@ == value@,
            cleaned@ == v@.take(i as int).map_values(|c: char| file_name_char(c)),
        decreases v@.len() - i,
    {
        let c = v[i];
        let u = c as u32;
        let bad = c == '<' || c == '>' || c == ':' || c == '"' || c == '/' || c == '\\' || c == '|'
            || c == '?' || c == '*' || u <= 0x1f || (0x7f <= u && u <= 0x9f);
        cleaned.push(
            if bad {
                '_'
            } else {
                c
            },
        );
        i += 1;
        assert(cleaned@ =~= v@.take(i as int).map_values(|c: char| file_name_char(c)));
    }
    assert(v@.take(v@.len() as int) =~= v@);
    let t = trim_slice(strip_char_slice(trim_slice(cleaned.as_slice()), '.'));
    if t.len() == 0 {
        "Listen1 Track".to_owned()
    } else {
        string_of(t)
    }
}

/// A character that a saved file name never holds: those Windows forbids in
/// file names, and the control characters.
pub open spec fn forbidden_in_name(c: char) -> bool {
    c == '<' || c == '>' || c == ':' || c == '"' || c == '/' || c == '\\' || c == '|' || c == '?'
        || c == '*' || is_control(c)
}

pub open spec fn safe_name_chars(s: Seq<char>) -> bool {
    forall|i: int| 0 <= i < s.len() ==> !forbidden_in_name(#[trigger] s[i])
}

proof fn lemma_safe_sub(s: Seq<char>, a: int, b: int)
    requires
        safe_name_chars(s),
        0 <= a <= b <= s.len(),
    ensures
        safe_name_chars(s.subrange(a, b)),
{
    assert forall|i: int| 0 <= i < s.subrange(a, b).len() implies !forbidden_in_name(
        #[trigger] s.subrange(a, b)[i],
    ) by {
        assert(s.subrange(a, b)[i] == s[a + i]);
    }
}

proof fn lemma_safe_trims(s: Seq<char>, c: char)
    requires
        safe_name_chars(s),
    ensures
        safe_name_chars(crate::text::trim_start(s)),
        safe_name_chars(crate::text::trim_end(s)),
        safe_name_chars(crate::text::strip_char_start(s, c)),
        safe_name_chars(crate::text::strip_char_end(s, c)),
    decreases s.len(),
{
    if s.len() > 0 {
        lemma_safe_sub(s, 1, s.len() as int);
        lemma_safe_sub(s, 0, s.len() - 1);
        assert(s.drop_first() == s.subrange(1, s.len() as int));
        assert(s.drop_last() == s.subrange(0, s.len() - 1));
        lemma_safe_trims(s.drop_first(), c);
        lemma_safe_trims(s.drop_last(), c);
    }
}

/// A saved file name is never empty, and holds none of the characters that
/// Windows forbids in file names nor a control character.
pub proof fn lemma_sanitized_name_is_safe(value: Seq<char>)
    ensures
        sanitized_name(value).len() > 0,
        safe_name_chars(sanitized_name(value)),
{
    let m = value.map_values(|c: char| file_name_char(c));
    assert(safe_name_chars(m)) by {
        assert forall|i: int| 0 <= i < m.len() implies !forbidden_in_name(#[trigger] m[i]) by {
            assert(m[i] == file_name_char(value[i]));
        }
    }
    let t1 = trim(m);
    lemma_safe_trims(m, '.');
    lemma_safe_trims(crate::text::trim_start(m), '.');
    let t2 = strip_char_both(t1, '.');
    lemma_safe_trims(t1, '.');
    lemma_safe_trims(crate::text::strip_char_start(t1, '.'), '.');
    lemma_safe_trims(t2, '.');
    lemma_safe_trims(crate::text::trim_start(t2), '.');
    reveal_strlit("Listen1 Track");
    let d = "Listen1 Track"@;
    assert(safe_name_chars(d)) by {
        assert forall|i: int| 0 <= i < d.len() implies !forbidden_in_name(#[trigger] d[i]) by {
            assert(d[i] as u32 >= 0x20 && d[i] as u32 <= 0x7a);
        }
    }
}

/// The extension of the file that a URL names, lower-cased, where it is at
/// most 8 bytes long.
pub open spec fn download_url_ext(url: Seq<char>) -> Option<Seq<char>> {
    let path = first_piece(url, '?');
    let segment = path.skip(last_index(path, '/') + 1);
    match path_extension(segment) {
        Some(e) => if utf8_len(lower(e)) <= 8 {
            Some(lower(e))
        } else {
            None
        },
        None => None,
    }
}

pub fn extension_from_url(url: &str) -> (r: Option<String>)
    ensures
        opt_str(r) == download_url_ext(url@),
{
    let v = chars_of(url);
    let path = first_piece_slice(v.as_slice(), '?');
    let start: usize = match last_index_exec(path, '/') {
        Some(k) => {
            assert(k < path.len());
            k + 1
        },
        None => 0,
    };
    let segment = &path[start..path.len()];
    assert(segment@ =~= path@.skip(last_index(path@, '/') + 1));
    match extension_range(segment) {
        Some((a, b)) => {
            let ext = lower_vec(&segment[a..b]);
            if crate::cache::utf8_len_at_most(ext.as_slice(), 8) {
                Some(string_of(ext.as_slice()))
            } else {
                None
            }
        },
        None => None,
    }
}

/// The extension for an audio Content-Type (its media type, parameters
/// dropped, compared exactly).
pub open spec fn content_type_ext(content_type: Seq<char>) -> Option<Seq<char>> {
    let v = trim(first_piece(content_type, ';'));
    if v == "audio/flac"@ || v == "audio/x-flac"@ {
        Some("flac"@)
    } else if v == "audio/mpeg"@ || v == "audio/mp3"@ {
        Some("mp3"@)
    } else if v == "audio/mp4"@ || v == "audio/x-m4a"@ {
        Some("m4a"@)
    } else if v == "audio/aac"@ {
        Some("aac"@)
    } else if v == "audio/ogg"@ || v == "application/ogg"@ {
        Some("ogg"@)
    } else if v == "audio/opus"@ {
        Some("opus"@)
    } else if v == "audio/wav"@ || v == "audio/x-wav"@ {
        Some("wav"@)
    } else if v == "audio/aiff"@ || v == "audio/x-aiff"@ {
        Some("aiff"@)
    } else if v == "audio/webm"@ {
        Some("webm"@)
    } else {
        None
    }
}

pub fn extension_from_content_type(content_type: &str) -> (r: Option<&'static str>)
    ensures
        opt_text(r) == content_type_ext(content_type@),
{
    let c = chars_of(content_type);
    let v = trim_slice(first_piece_slice(c.as_slice(), ';'));
    if eq_str(v, "audio/flac") || eq_str(v, "audio/x-flac") {
        Some("flac")
    } else if eq_str(v, "audio/mpeg") || eq_str(v, "audio/mp3") {
        Some("mp3")
    } else if eq_str(v, "audio/mp4") || eq_str(v, "audio/x-m4a") {
        Some("m4a")
    } else if eq_str(v, "audio/aac") {
        Some("aac")
    } else if eq_str(v, "audio/ogg") || eq_str(v, "application/ogg") {
        Some("ogg")
    } else if eq_str(v, "audio/opus") {
        Some("opus")
    } else if eq_str(v, "audio/wav") || eq_str(v, "audio/x-wav") {
        Some("wav")
    } else if eq_str(v, "audio/aiff") || eq_str(v, "audio/x-aiff") {
        Some("aiff")
    } else if eq_str(v, "audio/webm") {
        Some("webm")
    } else {
        None
    }
}

/// Each audio media type gives the extension of its format, whatever
/// parameters follow it and whatever white space stands around it: MPEG audio
/// (`audio/mpeg`, `audio/mp3`) is saved as `.mp3`, MP4 audio (`audio/mp4`,
/// `audio/x-m4a`) as `.m4a`, FLAC as `.flac`, and so on.
pub proof fn lemma_audio_type_extensions(content_type: Seq<char>)
    ensures
        trim(first_piece(content_type, ';')) == "audio/flac"@
            ==> content_type_ext(content_type) == Some("flac"@),
        trim(first_piece(content_type, ';')) == "audio/x-flac"@
            ==> content_type_ext(content_type) == Some("flac"@),
        trim(first_piece(content_type, ';')) == "audio/mpeg"@
            ==> content_type_ext(content_type) == Some("mp3"@),
        trim(first_piece(content_type, ';')) == "audio/mp3"@
            ==> content_type_ext(content_type) == Some("mp3"@),
        trim(first_piece(content_type, ';')) == "audio/mp4"@
            ==> content_type_ext(content_type) == Some("m4a"@),
        trim(first_piece(content_type, ';')) == "audio/x-m4a"@
            ==> content_type_ext(content_type) == Some("m4a"@),
        trim(first_piece(content_type, ';')) == "audio/aac"@
            ==> content_type_ext(content_type) == Some("aac"@),
        trim(first_piece(content_type, ';')) == "audio/ogg"@
            ==> content_type_ext(content_type) == Some("ogg"@),
        trim(first_piece(content_type, ';')) == "application/ogg"@
            ==> content_type_ext(content_type) == Some("ogg"@),
        trim(first_piece(content_type, ';')) == "audio/opus"@
            ==> content_type_ext(content_type) == Some("opus"@),
        trim(first_piece(content_type, ';')) == "audio/wav"@
            ==> content_type_ext(content_type) == Some("wav"@),
        trim(first_piece(content_type, ';')) == "audio/x-wav"@
            ==> content_type_ext(content_type) == Some("wav"@),
        trim(first_piece(content_type, ';')) == "audio/aiff"@
            ==> content_type_ext(content_type) == Some("aiff"@),
        trim(first_piece(content_type, ';')) == "audio/x-aiff"@
            ==> content_type_ext(content_type) == Some("aiff"@),
        trim(first_piece(content_type, ';')) == "audio/webm"@
            ==> content_type_ext(content_type) == Some("webm"@),
{
    reveal_strlit("audio/flac");
    reveal_strlit("audio/x-flac");
    reveal_strlit("audio/mpeg");
    reveal_strlit("audio/mp3");
    reveal_strlit("audio/mp4");
    reveal_strlit("audio/x-m4a");
    reveal_strlit("audio/aac");
    reveal_strlit("audio/ogg");
    reveal_strlit("application/ogg");
    reveal_strlit("audio/opus");
    reveal_strlit("audio/wav");
    reveal_strlit("audio/x-wav");
    reveal_strlit("audio/aiff");
    reveal_strlit("audio/x-aiff");
    reveal_strlit("audio/webm");
    reveal_strlit("flac");
    reveal_strlit("mp3");
    reveal_strlit("m4a");
    reveal_strlit("aac");
    reveal_strlit("ogg");
    reveal_strlit("opus");
    reveal_strlit("wav");
    reveal_strlit("aiff");
    reveal_strlit("webm");
    let v = trim(first_piece(content_type, ';'));
    if v == "audio/mpeg"@ {
        assert(v[6] != "audio/flac"@[6]);
        assert(v.len() != "audio/x-flac"@.len());
    }
    if v == "audio/mp3"@ {
        assert(v.len() != "audio/flac"@.len());
        assert(v.len() != "audio/x-flac"@.len());
    }
    if v == "audio/mp4"@ {
        assert(v.len() != "audio/flac"@.len());
        assert(v.len() != "audio/x-flac"@.len());
        assert(v.len() != "audio/mpeg"@.len());
        assert(v[8] != "audio/mp3"@[8]);
    }
    if v == "audio/x-m4a"@ {
        assert(v.len() != "audio/flac"@.len());
        assert(v.len() != "audio/x-flac"@.len());
        assert(v.len() != "audio/mpeg"@.len());
        assert(v.len() != "audio/mp3"@.len());
    }
    if v == "audio/aac"@ {
        assert(v.len() != "audio/flac"@.len());
        assert(v.len() != "audio/x-flac"@.len());
        assert(v.len() != "audio/mpeg"@.len());
        assert(v[6] != "audio/mp3"@[6]);
        assert(v[6] != "audio/mp4"@[6]);
        assert(v.len() != "audio/x-m4a"@.len());
    }
    if v == "audio/ogg"@ {
        assert(v.len() != "audio/flac"@.len());
        assert(v.len() != "audio/x-flac"@.len());
        assert(v.len() != "audio/mpeg"@.len());
        assert(v[6] != "audio/mp3"@[6]);
        assert(v[6] != "audio/mp4"@[6]);
        assert(v.len() != "audio/x-m4a"@.len());
        assert(v[6] != "audio/aac"@[6]);
    }
    if v == "application/ogg"@ {
        assert(v.len() != "audio/flac"@.len());
        assert(v.len() != "audio/x-flac"@.len());
        assert(v.len() != "audio/mpeg"@.len());
        assert(v.len() != "audio/mp3"@.len());
        assert(v.len() != "audio/mp4"@.len());
        assert(v.len() != "audio/x-m4a"@.len());
        assert(v.len() != "audio/aac"@.len());
    }
    if v == "audio/opus"@ {
        assert(v[6] != "audio/flac"@[6]);
        assert(v.len() != "audio/x-flac"@.len());
        assert(v[6] != "audio/mpeg"@[6]);
        assert(v.len() != "audio/mp3"@.len());
        assert(v.len() != "audio/mp4"@.len());
        assert(v.len() != "audio/x-m4a"@.len());
        assert(v.len() != "audio/aac"@.len());
        assert(v.len() != "audio/ogg"@.len());
        assert(v.len() != "application/ogg"@.len());
    }
    if v == "audio/wav"@ {
        assert(v.len() != "audio/flac"@.len());
        assert(v.len() != "audio/x-flac"@.len());
        assert(v.len() != "audio/mpeg"@.len());
        assert(v[6] != "audio/mp3"@[6]);
        assert(v[6] != "audio/mp4"@[6]);
        assert(v.len() != "audio/x-m4a"@.len());
        assert(v[6] != "audio/aac"@[6]);
        assert(v[6] != "audio/ogg"@[6]);
        assert(v.len() != "application/ogg"@.len());
        assert(v.len() != "audio/opus"@.len());
    }
    if v == "audio/x-wav"@ {
        assert(v.len() != "audio/flac"@.len());
        assert(v.len() != "audio/x-flac"@.len());
        assert(v.len() != "audio/mpeg"@.len());
        assert(v.len() != "audio/mp3"@.len());
        assert(v.len() != "audio/mp4"@.len());
        assert(v[8] != "audio/x-m4a"@[8]);
        assert(v.len() != "audio/aac"@.len());
        assert(v.len() != "audio/ogg"@.len());
        assert(v.len() != "application/ogg"@.len());
        assert(v.len() != "audio/opus"@.len());
    }
    if v == "audio/aiff"@ {
        assert(v[6] != "audio/flac"@[6]);
        assert(v.len() != "audio/x-flac"@.len());
        assert(v[6] != "audio/mpeg"@[6]);
        assert(v.len() != "audio/mp3"@.len());
        assert(v.len() != "audio/mp4"@.len());
        assert(v.len() != "audio/x-m4a"@.len());
        assert(v.len() != "audio/aac"@.len());
        assert(v.len() != "audio/ogg"@.len());
        assert(v.len() != "application/ogg"@.len());
        assert(v[6] != "audio/opus"@[6]);
        assert(v.len() != "audio/wav"@.len());
        assert(v.len() != "audio/x-wav"@.len());
    }
    if v == "audio/x-aiff"@ {
        assert(v.len() != "audio/flac"@.len());
        assert(v[8] != "audio/x-flac"@[8]);
        assert(v.len() != "audio/mpeg"@.len());
        assert(v.len() != "audio/mp3"@.len());
        assert(v.len() != "audio/mp4"@.len());
        assert(v.len() != "audio/x-m4a"@.len());
        assert(v.len() != "audio/aac"@.len());
        assert(v.len() != "audio/ogg"@.len());
        assert(v.len() != "application/ogg"@.len());
        assert(v.len() != "audio/opus"@.len());
        assert(v.len() != "audio/wav"@.len());
        assert(v.len() != "audio/x-wav"@.len());
    }
    if v == "audio/webm"@ {
        assert(v[6] != "audio/flac"@[6]);
        assert(v.len() != "audio/x-flac"@.len());
        assert(v[6] != "audio/mpeg"@[6]);
        assert(v.len() != "audio/mp3"@.len());
        assert(v.len() != "audio/mp4"@.len());
        assert(v.len() != "audio/x-m4a"@.len());
        assert(v.len() != "audio/aac"@.len());
        assert(v.len() != "audio/ogg"@.len());
        assert(v.len() != "application/ogg"@.len());
        assert(v[6] != "audio/opus"@[6]);
        assert(v.len() != "audio/wav"@.len());
        assert(v.len() != "audio/x-wav"@.len());
        assert(v[6] != "audio/aiff"@[6]);
        assert(v.len() != "audio/x-aiff"@.len());
    }
}

/// The extension a download is saved with: the URL's (a DASH `m4s` segment
/// saved as `m4a`, and `mp4`/`aac` as `m4a` where the type says so), else the
/// type's.
pub open spec fn chosen_ext(url_ext: Option<Seq<char>>, type_ext: Option<Seq<char>>) -> Option<Seq<char>> {
    match url_ext {
        Some(u) => if u == "m4s"@ {
            Some("m4a"@)
        } else if (u == "mp4"@ || u == "aac"@) && type_ext == Some("m4a"@) {
            Some("m4a"@)
        } else {
            Some(u)
        },
        None => type_ext,
    }
}

/// The URL's extension wins over the media type's, but for a DASH segment
/// (`m4s`), always saved as `m4a`, and for `mp4`/`aac` files whose type says
/// MP4 audio, also saved as `m4a`; without a URL extension the type's is used.
pub proof fn lemma_url_extension_wins(u: Seq<char>, t: Option<Seq<char>>)
    ensures
        chosen_ext(Some("m4s"@), t) == Some("m4a"@),
        chosen_ext(Some("mp4"@), Some("m4a"@)) == Some("m4a"@),
        chosen_ext(Some("aac"@), Some("m4a"@)) == Some("m4a"@),
        u != "m4s"@ && t != Some("m4a"@) ==> chosen_ext(Some(u), t) == Some(u),
        u != "m4s"@ && u != "mp4"@ && u != "aac"@ ==> chosen_ext(Some(u), t) == Some(u),
        chosen_ext(None, t) == t,
{
    reveal_strlit("m4s");
    reveal_strlit("mp4");
    reveal_strlit("aac");
    reveal_strlit("m4a");
    assert("mp4"@[1] != "m4s"@[1]);
    assert("aac"@[0] != "m4s"@[0]);
}

pub fn choose_download_extension(url_ext: Option<String>, type_ext: Option<String>) -> (r: Option<String>)
    ensures
        opt_str(r) == chosen_ext(opt_str(url_ext), opt_str(type_ext)),
{
    let type_m4a = match &type_ext {
        Some(t) => {
            let tv = chars_of(t.as_str());
            eq_str(tv.as_slice(), "m4a")
        },
        None => false,
    };
    match url_ext {
        Some(u) => {
            let uv = chars_of(u.as_str());
            let uv = uv.as_slice();
            if eq_str(uv, "m4s") {
                Some("m4a".to_owned())
            } else if (eq_str(uv, "mp4") || eq_str(uv, "aac")) && type_m4a {
                Some("m4a".to_owned())
            } else {
                Some(u)
            }
        },
        None => type_ext,
    }
}

/// An optional text trimmed, and dropped where blank.
pub open spec fn cleaned(value: Option<Seq<char>>) -> Option<Seq<char>> {
    match value {
        Some(v) => if trim(v).len() > 0 {
            Some(trim(v))
        } else {
            None
        },
        None => None,
    }
}

pub fn clean_meta(value: Option<String>) -> (r: Option<String>)
    ensures
        opt_str(r) == cleaned(opt_str(value)),
{
    match value {
        Some(v) => {
            let c = chars_of(v.as_str());
            let t = trim_slice(c.as_slice());
            if t.len() > 0 {
                Some(string_of(t))
            } else {
                None
            }
        },
        None => None,
    }
}

/// A file name given the extension of the download where it has none:
/// `.ext`, or `.mp3` where no extension is known.
pub open spec fn with_extension_spec(file_name: Seq<char>, ext: Option<Seq<char>>) -> Seq<char> {
    if path_extension(file_name) is Some {
        file_name
    } else {
        match ext {
            Some(e) => if e.len() > 0 {
                file_name + "."@ + e
            } else {
                file_name + ".mp3"@
            },
            None => file_name + ".mp3"@,
        }
    }
}

pub fn with_extension(file_name: &str, ext: Option<&str>) -> (r: String)
    ensures
        r@ == with_extension_spec(file_name@, opt_text(ext)),
{
    let v = chars_of(file_name);
    if extension_range(v.as_slice()).is_some() {
        return file_name.to_owned();
    }
    let mut s = file_name.to_owned();
    match ext {
        Some(e) => {
            if !e.is_empty() {
                push_str(&mut s, ".");
                push_str(&mut s, e);
            } else {
                push_str(&mut s, ".mp3");
            }
        },
        None => push_str(&mut s, ".mp3"),
    }
    s
}

/// The `i`-th alternative name for `file_name` where that name is taken:
/// `stem (i).ext`, or `stem (i)` without an extension.
pub open spec fn numbered_name_spec(file_name: Seq<char>, i: u64) -> Seq<char> {
    let stem = match path_stem(file_name) {
        Some(s) => s,
        None => "Listen1 Track"@,
    };
    let base = stem + " ("@ + decimal(i as nat) + ")"@;
    match path_extension(file_name) {
        Some(e) => base + "."@ + e,
        None => base,
    }
}

pub fn numbered_name(file_name: &str, i: u64) -> (r: String)
    ensures
        r@ == numbered_name_spec(file_name@, i),
{
    let v = chars_of(file_name);
    let v = v.as_slice();
    let mut s = String::new();
    match stem_range(v) {
        Some((a, b)) => push_chars(&mut s, &v[a..b]),
        None => push_str(&mut s, "Listen1 Track"),
    }
    push_str(&mut s, " (");
    let n = decimal_string(i);
    push_str(&mut s, n.as_str());
    push_str(&mut s, ")");
    match extension_range(v) {
        Some((a, b)) => {
            push_str(&mut s, ".");
            push_chars(&mut s, &v[a..b]);
        },
        None => {},
    }
    s
}

/// Whether the tags or the side file are worth writing: at least one field
/// is there.
pub open spec fn has_metadata(
    title: Option<Seq<char>>,
    artist: Option<Seq<char>>,
    album: Option<Seq<char>>,
    lyrics: Option<Seq<char>>,
    cover_url: Option<Seq<char>>,
) -> bool {
    title is Some || artist is Some || album is Some || lyrics is Some || cover_url is Some
}

/// The metadata with each field trimmed and blank ones dropped, or `None`
/// where nothing is left to write.
pub fn cleaned_metadata(metadata: Option<DownloadMetadata>) -> (r: Option<DownloadMetadata>)
    ensures
        match metadata {
            None => r is None,
            Some(m) => {
                let t = cleaned(opt_str(m.title));
                let ar = cleaned(opt_str(m.artist));
                let al = cleaned(opt_str(m.album));
                let l = cleaned(opt_str(m.lyrics));
                let c = cleaned(opt_str(m.cover_url));
                if has_metadata(t, ar, al, l, c) {
                    r matches Some(n) && opt_str(n.title) == t && opt_str(n.artist) == ar
                        && opt_str(n.album) == al && opt_str(n.lyrics) == l && opt_str(n.cover_url)
                        == c
                } else {
                    r is None
                }
            },
        },
{
    let m = match metadata {
        Some(m) => m,
        None => return None,
    };
    let title = clean_meta(m.title);
    let artist = clean_meta(m.artist);
    let album = clean_meta(m.album);
    let lyrics = clean_meta(m.lyrics);
    let cover_url = clean_meta(m.cover_url);
    if title.is_none() && artist.is_none() && album.is_none() && lyrics.is_none()
        && cover_url.is_none() {
        return None;
    }
    Some(DownloadMetadata { title, artist, album, lyrics, cover_url })
}

/// What a download reports of its metadata: written where the tags were
/// saved; where they could not be, still written if the side file was, else
/// the tag error.
pub open spec fn metadata_outcome_spec(tags: Result<(), Seq<char>>, sidecar_written: bool) -> Result<bool, Seq<char>> {
    match tags {
        Ok(_) => Ok(true),
        Err(e) => if sidecar_written {
            Ok(true)
        } else {
            Err(e)
        },
    }
}

pub fn metadata_outcome(tags: Result<(), String>, sidecar_written: bool) -> (r: Result<bool, String>)
    ensures
        match r {
            Ok(b) => metadata_outcome_spec(
                match tags {
                    Ok(_) => Ok(()),
                    Err(e) => Err(e@),
                },
                sidecar_written,
            ) == Ok::<bool, Seq<char>>(b),
            Err(e) => metadata_outcome_spec(
                match tags {
                    Ok(_) => Ok(()),
                    Err(e) => Err(e@),
                },
                sidecar_written,
            ) == Err::<bool, Seq<char>>(e@),
        },
{
    match tags {
        Ok(()) => Ok(true),
        Err(e) => if sidecar_written {
            Ok(true)
        } else {
            Err(e)
        },
    }
}

/// The folder a download goes to: the chosen one unless it is blank, else
/// `Music` in the home directory.
pub open spec fn target_dir_spec(directory: Option<Seq<char>>, home: Seq<char>) -> Seq<char> {
    match directory {
        Some(d) => if trim(d).len() > 0 {
            d
        } else {
            join_path(home, "Music"@)
        },
        None => join_path(home, "Music"@),
    }
}

pub fn target_dir(directory: Option<&str>, home: &str) -> (r: String)
    ensures
        r@ == target_dir_spec(opt_text(directory), home@),
{
    match directory {
        Some(d) => {
            let v = chars_of(d);
            if trim_slice(v.as_slice()).len() > 0 {
                d.to_owned()
            } else {
                join(home, "Music")
            }
        },
        None => join(home, "Music"),
    }
}

/// The name reported for a saved file: the file name of its path, or the
/// name that was asked for where the path has none.
pub open spec fn saved_name_spec(path: Seq<char>, asked: Seq<char>) -> Seq<char> {
    match file_name(path) {
        Some(n) => n,
        None => asked,
    }
}

pub fn saved_name(path: &str, asked: &str) -> (r: String)
    ensures
        r@ == saved_name_spec(path@, asked@),
{
    let v = chars_of(path);
    match file_name_range(v.as_slice()) {
        Some((a, b)) => string_of(&v.as_slice()[a..b]),
        None => asked.to_owned(),
    }
}

/// The error of a download whose response is not a success.
pub fn http_failure(status: u16) -> (r: String)
    ensures
        r@ == "download failed: HTTP "@ + decimal(status as nat),
{
    let mut s = String::new();
    push_str(&mut s, "download failed: HTTP ");
    let n = decimal_string(status as u64);
    push_str(&mut s, n.as_str());
    s
}

/// The type of a cover picture (the kinds that `lofty::picture::MimeType`
/// tells apart).
#[derive(Debug, Clone)]
pub enum PictureMime {
    Png,
    Jpeg,
    Tiff,
    Bmp,
    Gif,
    Unknown(String),
}

impl PictureMime {
    /// `MimeType::as_str`.
    pub open spec fn text(self) -> Seq<char> {
        match self {
            PictureMime::Jpeg => "image/jpeg"@,
            PictureMime::Png => "image/png"@,
            PictureMime::Tiff => "image/tiff"@,
            PictureMime::Bmp => "image/bmp"@,
            PictureMime::Gif => "image/gif"@,
            PictureMime::Unknown(u) => u@,
        }
    }

    pub fn as_str(&self) -> (r: &str)
        ensures
            r@ == self.text(),
    {
        match self {
            PictureMime::Jpeg => "image/jpeg",
            PictureMime::Png => "image/png",
            PictureMime::Tiff => "image/tiff",
            PictureMime::Bmp => "image/bmp",
            PictureMime::Gif => "image/gif",
            PictureMime::Unknown(u) => u.as_str(),
        }
    }
}

/// Whether `r` is what `MimeType::from_str(s)` gives: the known image types
/// in any case, anything else kept as it was written. (`from_str` lower-cases
/// with `str::to_lowercase`; no character outside ASCII lower-cases into these
/// ASCII names, so comparing the ASCII lower-casing decides the same way.)
pub open spec fn mime_of(r: PictureMime, s: Seq<char>) -> bool {
    let l = lower(s);
    if l == "image/jpeg"@ || l == "image/jpg"@ {
        r is Jpeg
    } else if l == "image/png"@ {
        r is Png
    } else if l == "image/tiff"@ {
        r is Tiff
    } else if l == "image/bmp"@ {
        r is Bmp
    } else if l == "image/gif"@ {
        r is Gif
    } else {
        r matches PictureMime::Unknown(u) && u@ == s
    }
}

/// `lofty::picture::MimeType::from_str`.
#[verifier::external_body]
fn mime_from_str(s: &str) -> (r: PictureMime)
    ensures
        mime_of(r, s@),
{
    match lofty::picture::MimeType::from_str(s) {
        lofty::picture::MimeType::Png => PictureMime::Png,
        lofty::picture::MimeType::Jpeg => PictureMime::Jpeg,
        lofty::picture::MimeType::Tiff => PictureMime::Tiff,
        lofty::picture::MimeType::Bmp => PictureMime::Bmp,
        lofty::picture::MimeType::Gif => PictureMime::Gif,
        lofty::picture::MimeType::Unknown(u) => PictureMime::Unknown(u),
        _ => PictureMime::Unknown(s.to_owned()),
    }
}

/// The picture type read off a download: the media type that the server
/// names where it is an image type, else the magic bytes of PNG, JPEG, GIF
/// and BMP.
pub open spec fn picture_mime_of(r: Option<PictureMime>, bytes: Seq<u8>, content_type: Option<Seq<char>>) -> bool {
    let named = match content_type {
        Some(c) => {
            let v = trim(first_piece(c, ';'));
            if starts_with(v, "image/"@) {
                Some(v)
            } else {
                None
            }
        },
        None => None,
    };
    match named {
        Some(v) => r matches Some(m) && mime_of(m, v),
        None => if bytes.len() >= 4 && bytes[0] == 0x89 && bytes[1] == 80 && bytes[2] == 78
            && bytes[3] == 71 {
            r matches Some(PictureMime::Png)
        } else if bytes.len() >= 3 && bytes[0] == 0xff && bytes[1] == 0xd8 && bytes[2] == 0xff {
            r matches Some(PictureMime::Jpeg)
        } else if bytes.len() >= 4 && bytes[0] == 71 && bytes[1] == 73 && bytes[2] == 70
            && bytes[3] == 56 {
            r matches Some(PictureMime::Gif)
        } else if bytes.len() >= 2 && bytes[0] == 66 && bytes[1] == 77 {
            r matches Some(PictureMime::Bmp)
        } else {
            r is None
        },
    }
}

pub fn infer_picture_mime(bytes: &[u8], content_type: Option<&str>) -> (r: Option<PictureMime>)
    ensures
        picture_mime_of(r, bytes@, opt_text(content_type)),
{
    match content_type {
        Some(c) => {
            let cv = chars_of(c);
            let v = trim_slice(first_piece_slice(cv.as_slice(), ';'));
            if starts_with_str(v, "image/") {
                let text = string_of(v);
                return Some(mime_from_str(text.as_str()));
            }
        },
        None => {},
    }
    let n = bytes.len();
    if n >= 4 && bytes[0] == 0x89 && bytes[1] == 80 && bytes[2] == 78 && bytes[3] == 71 {
        Some(PictureMime::Png)
    } else if n >= 3 && bytes[0] == 0xff && bytes[1] == 0xd8 && bytes[2] == 0xff {
        Some(PictureMime::Jpeg)
    } else if n >= 4 && bytes[0] == 71 && bytes[1] == 73 && bytes[2] == 70 && bytes[3] == 56 {
        Some(PictureMime::Gif)
    } else if n >= 2 && bytes[0] == 66 && bytes[1] == 77 {
        Some(PictureMime::Bmp)
    } else {
        None
    }
}

/// A digit of the standard base64 alphabet.
pub open spec fn b64_digit(v: int) -> char {
    if v < 26 {
        (65 + v) as char
    } else if v < 52 {
        (71 + v) as char
    } else if v < 62 {
        (v - 4) as char
    } else if v == 62 {
        '+'
    } else {
        '/'
    }
}

/// Standard base64 with padding (RFC 4648): each three bytes become four
/// digits; a last one or two bytes are padded with `=`.
pub open spec fn base64_of(b: Seq<u8>) -> Seq<char>
    decreases b.len(),
{
    if b.len() == 0 {
        seq![]
    } else if b.len() == 1 {
        seq![b64_digit(b[0] as int / 4), b64_digit((b[0] as int % 4) * 16), '=', '=']
    } else if b.len() == 2 {
        seq![
            b64_digit(b[0] as int / 4),
            b64_digit((b[0] as int % 4) * 16 + b[1] as int / 16),
            b64_digit((b[1] as int % 16) * 4),
            '=',
        ]
    } else {
        seq![
            b64_digit(b[0] as int / 4),
            b64_digit((b[0] as int % 4) * 16 + b[1] as int / 16),
            b64_digit((b[1] as int % 16) * 4 + b[2] as int / 64),
            b64_digit(b[2] as int % 64),
        ] + base64_of(b.skip(3))
    }
}

/// The text of the error that `general_purpose::STANDARD.decode` gives for a
/// text that is not base64.
pub uninterp spec fn base64_error(text: Seq<char>) -> Seq<char>;

/// Whether `text` is the standard base64 of some bytes.
pub open spec fn is_base64(text: Seq<char>) -> bool {
    exists|b: Seq<u8>| #[trigger] base64_of(b) == text
}

/// `base64::engine::general_purpose::STANDARD.encode`; it panics only where
/// the output length overflows `usize`.
#[verifier::external_body]
fn base64_encode(bytes: &[u8]) -> (r: String)
    requires
        bytes@.len() <= usize::MAX / 2,
    ensures
        r@ == base64_of(bytes@),
{
    base64::engine::general_purpose::STANDARD.encode(bytes)
}

/// `base64::engine::general_purpose::STANDARD.decode`, the error as its text.
/// The engine requires canonical padding and refuses trailing bits, so it
/// accepts exactly the texts that its encoder writes, and gives back the
/// bytes they encode.
#[verifier::external_body]
fn base64_decode(text: &str) -> (r: Result<Vec<u8>, String>)
    ensures
        r is Ok <==> is_base64(text@),
        r matches Ok(b) ==> base64_of(b@) == text@,
        r matches Err(e) ==> e@ == base64_error(text@),
{
    match base64::engine::general_purpose::STANDARD.decode(text) {
        Ok(bytes) => Ok(bytes),
        Err(e) => Err(e.to_string()),
    }
}

/// A cover as a `data:` URL.
pub open spec fn cover_data_url_text(bytes: Seq<u8>, mime: PictureMime) -> Seq<char> {
    "data:"@ + mime.text() + ";base64,"@ + base64_of(bytes)
}

pub fn cover_data_url(bytes: &[u8], mime: &PictureMime) -> (r: String)
    requires
        bytes@.len() <= usize::MAX / 2,
    ensures
        r@ == cover_data_url_text(bytes@, *mime),
{
    let mut s = String::new();
    push_str(&mut s, "data:");
    push_str(&mut s, mime.as_str());
    push_str(&mut s, ";base64,");
    let b = base64_encode(bytes);
    push_str(&mut s, b.as_str());
    s
}

/// Where the cover of a download comes from.
#[derive(Debug)]
pub enum CoverSource {
    /// No cover: no URL, or a `data:` URL without data.
    Nothing,
    /// A URL to fetch.
    Fetch,
    /// A cover carried by a `data:` URL.
    Embedded { bytes: Vec<u8>, mime: PictureMime },
    /// A `data:` URL whose data is not base64.
    Invalid { error: String },
}

/// Where a cover URL leads: nothing for a blank one; a `data:` URL is read
/// in place (its type from the header up to the first `;`, its body base64);
/// any other URL is fetched.
pub open spec fn cover_source_of(r: CoverSource, url: Seq<char>) -> bool {
    if trim(url).len() == 0 {
        r is Nothing
    } else if starts_with(url, "data:"@) {
        match crate::text::split_once(url, ',') {
            None => r is Nothing,
            Some(hb) => {
                let mime_text = first_piece(hb.0.skip("data:"@.len() as int), ';');
                if is_base64(hb.1) {
                    r matches CoverSource::Embedded { bytes, mime } && base64_of(bytes@) == hb.1
                        && mime_of(mime, mime_text)
                } else {
                    r matches CoverSource::Invalid { error } && error@ == base64_error(hb.1)
                }
            },
        }
    } else {
        r is Fetch
    }
}

pub fn cover_source(url: &str) -> (r: CoverSource)
    ensures
        cover_source_of(r, url@),
{
    let v = chars_of(url);
    let v = v.as_slice();
    if trim_slice(v).len() == 0 {
        return CoverSource::Nothing;
    }
    if !starts_with_str(v, "data:") {
        return CoverSource::Fetch;
    }
    match crate::text::split_once_slice(v, ',') {
        None => CoverSource::Nothing,
        Some((header, body)) => {
            let after = match strip_prefix_slice(header, "data:") {
                Some(a) => a,
                None => header,
            };
            proof {
                reveal_strlit("data:");
                crate::text::lemma_find_char_bounds(v@, ',', 0);
                let i = crate::text::find_char(v@, ',', 0);
                assert(v@.subrange(0, 5) == "data:"@);
                assert forall|k: int| 0 <= k < 5 implies v@[k] != ',' by {
                    assert(v@[k] == v@.subrange(0, 5)[k]);
                }
                assert(i >= 5);
                assert(header@ =~= v@.take(i));
                assert(header@.subrange(0, 5) =~= v@.subrange(0, 5));
            }
            let mime_text = string_of(first_piece_slice(after, ';'));
            let mime = mime_from_str(mime_text.as_str());
            let body_text = string_of(body);
            match base64_decode(body_text.as_str()) {
                Ok(bytes) => CoverSource::Embedded { bytes, mime },
                Err(error) => CoverSource::Invalid { error },
            }
        },
    }
}

} // verus!
