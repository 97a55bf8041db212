//! The local music library: which files are songs, how their text metadata
//! is cleaned and merged, and where their embedded covers are stored.
use vstd::prelude::*;
use std::hash::Hash;
use std::hash::Hasher;
use crate::text::{
    chars_of, eq_str, lower, lower_vec, trim, trim_slice, strip_char_both, strip_char_slice,
    string_of, opt_str, push_str, starts_with, starts_with_str,
};
use crate::path::{path_extension, path_stem, extension_range, stem_range};
use crate::cache::{hex16, hex16_string};
use crate::codec::{decodable_len, utf8_decoding, gb18030_decoding, decode_utf8_lossy, decode_gb18030};

verus! {

/// A text of a tag or a side file, without byte order marks and white space
/// at its ends; `None` where nothing is left.
pub open spec fn clean_text_spec(value: Option<Seq<char>>) -> Option<Seq<char>> {
    match value {
        Some(v) => {
            let t = trim(strip_char_both(v, '\u{feff}'));
            if t.len() > 0 {
                Some(t)
            } else {
                None
            }
        },
        None => None,
    }
}

pub fn clean_text(value: Option<String>) -> (r: Option<String>)
    ensures
        opt_str(r) == clean_text_spec(opt_str(value)),
{
    match value {
        Some(v) => {
            let c = chars_of(v.as_str());
            let t = trim_slice(strip_char_slice(c.as_slice(), '\u{feff}'));
            if t.len() > 0 {
                Some(string_of(t))
            } else {
                None
            }
        },
        None => None,
    }
}

/// The first value that is not blank once cleaned, among the values that
/// each tag of a file gives for one field.
pub open spec fn first_clean(values: Seq<Option<Seq<char>>>) -> Option<Seq<char>>
    decreases values.len(),
{
    if values.len() == 0 {
        None
    } else {
        match clean_text_spec(values[0]) {
            Some(v) => Some(v),
            None => first_clean(values.skip(1)),
        }
    }
}

pub fn first_tag_text(values: &[Option<String>]) -> (r: Option<String>)
    ensures
        opt_str(r) == first_clean(values@.map_values(|v: Option<String>| opt_str(v))),
{
    let ghost all = values@.map_values(|v: Option<String>| opt_str(v));
    let mut i: usize = 0;
    let n = values.len();
    assert(all.skip(0) =~= all);
    while i < n
        invariant
            i <= n,
            n == values@.len(),
            all == values@.map_values(|v: Option<String>| opt_str(v)),
            first_clean(all) == first_clean(all.skip(i as int)),
        decreases n - i,
    {
        let v: Option<String> = match &values[i] {
            Some(t) => Some(t.clone()),
            None => None,
        };
        assert(opt_str(v) == all[i as int]);
        assert(all.skip(i as int)[0] == all[i as int]);
        assert(all.skip(i as int).skip(1) =~= all.skip(i + 1));
        match clean_text(v) {
            Some(t) => {
                return Some(t);
            },
            None => {},
        }
        i += 1;
    }
    None
}

/// The type of a picture read off its first bytes.
pub open spec fn sniffed_mime(b: Seq<u8>) -> Seq<char> {
    if b.len() >= 4 && b[0] == 0x89 && b[1] == 80 && b[2] == 78 && b[3] == 71 {
        "image/png"@
    } else if b.len() >= 3 && b[0] == 0xff && b[1] == 0xd8 && b[2] == 0xff {
        "image/jpeg"@
    } else if b.len() >= 4 && b[0] == 71 && b[1] == 73 && b[2] == 70 && b[3] == 56 {
        "image/gif"@
    } else if b.len() >= 2 && b[0] == 66 && b[1] == 77 {
        "image/bmp"@
    } else if b.len() >= 12 && b[0] == 82 && b[1] == 73 && b[2] == 70 && b[3] == 70 && b[8] == 87
        && b[9] == 69 && b[10] == 66 && b[11] == 80 {
        "image/webp"@
    } else {
        "application/octet-stream"@
    }
}

pub fn infer_mime_type(bytes: &[u8]) -> (r: &'static str)
    ensures
        r@ == sniffed_mime(bytes@),
{
    let b = bytes;
    let n = b.len();
    if n >= 4 && b[0] == 0x89 && b[1] == 80 && b[2] == 78 && b[3] == 71 {
        "image/png"
    } else if n >= 3 && b[0] == 0xff && b[1] == 0xd8 && b[2] == 0xff {
        "image/jpeg"
    } else if n >= 4 && b[0] == 71 && b[1] == 73 && b[2] == 70 && b[3] == 56 {
        "image/gif"
    } else if n >= 2 && b[0] == 66 && b[1] == 77 {
        "image/bmp"
    } else if n >= 12 && b[0] == 82 && b[1] == 73 && b[2] == 70 && b[3] == 70 && b[8] == 87 && b[9]
        == 69 && b[10] == 66 && b[11] == 80 {
        "image/webp"
    } else {
        "application/octet-stream"
    }
}

/// The extension a cover is stored with, by its type (trimmed, any case);
/// `jpg` for any type not listed.
pub open spec fn cover_ext(mime: Seq<char>) -> Seq<char> {
    let v = lower(trim(mime));
    if v == "image/png"@ {
        "png"@
    } else if v == "image/webp"@ {
        "webp"@
    } else if v == "image/gif"@ {
        "gif"@
    } else if v == "image/bmp"@ || v == "image/x-ms-bmp"@ {
        "bmp"@
    } else {
        "jpg"@
    }
}

pub fn cover_extension(mime: &str) -> (r: &'static str)
    ensures
        r@ == cover_ext(mime@),
{
    let c = chars_of(mime);
    let v = lower_vec(trim_slice(c.as_slice()));
    let v = v.as_slice();
    if eq_str(v, "image/png") {
        "png"
    } else if eq_str(v, "image/webp") {
        "webp"
    } else if eq_str(v, "image/gif") {
        "gif"
    } else if eq_str(v, "image/bmp") || eq_str(v, "image/x-ms-bmp") {
        "bmp"
    } else {
        "jpg"
    }
}

proof fn lemma_plain_type_text(s: Seq<char>)
    requires
        s.len() > 0,
        forall|i: int| 0 <= i < s.len() ==> !('A' <= #[trigger] s[i] <= 'Z'),
        !crate::text::is_ws(s[0]),
        !crate::text::is_ws(s.last()),
    ensures
        lower(trim(s)) == s,
{
    assert(crate::text::trim_start(s) == s);
    assert(crate::text::trim_end(s) == s);
    assert(lower(s) =~= s);
}

/// A cover is recognised by its first bytes (PNG, JPEG, GIF, BMP and WebP
/// signatures) and stored with the extension of the format they show.
pub proof fn lemma_cover_follows_signature(b: Seq<u8>)
    ensures
        b.len() >= 4 && b[0] == 0x89 && b[1] == 0x50 && b[2] == 0x4e && b[3] == 0x47 ==> {
            &&& sniffed_mime(b) == "image/png"@
            &&& cover_ext(sniffed_mime(b)) == "png"@
        },
        b.len() >= 3 && b[0] == 0xff && b[1] == 0xd8 && b[2] == 0xff ==> {
            &&& sniffed_mime(b) == "image/jpeg"@
            &&& cover_ext(sniffed_mime(b)) == "jpg"@
        },
        b.len() >= 4 && b[0] == 0x47 && b[1] == 0x49 && b[2] == 0x46 && b[3] == 0x38 ==> {
            &&& sniffed_mime(b) == "image/gif"@
            &&& cover_ext(sniffed_mime(b)) == "gif"@
        },
        b.len() >= 2 && b[0] == 0x42 && b[1] == 0x4d ==> {
            &&& sniffed_mime(b) == "image/bmp"@
            &&& cover_ext(sniffed_mime(b)) == "bmp"@
        },
        b.len() >= 12 && b[0] == 0x52 && b[1] == 0x49 && b[2] == 0x46 && b[3] == 0x46 && b[8]
            == 0x57 && b[9] == 0x45 && b[10] == 0x42 && b[11] == 0x50 ==> {
            &&& sniffed_mime(b) == "image/webp"@
            &&& cover_ext(sniffed_mime(b)) == "webp"@
        },
{
    reveal_strlit("image/png");
    reveal_strlit("image/jpeg");
    reveal_strlit("image/gif");
    reveal_strlit("image/bmp");
    reveal_strlit("image/x-ms-bmp");
    reveal_strlit("image/webp");
    lemma_plain_type_text("image/png"@);
    lemma_plain_type_text("image/jpeg"@);
    lemma_plain_type_text("image/gif"@);
    lemma_plain_type_text("image/bmp"@);
    lemma_plain_type_text("image/webp"@);
    let (p, j, g, m, w) = ("image/png"@, "image/jpeg"@, "image/gif"@, "image/bmp"@, "image/webp"@);
    assert(j.len() != p.len() && j.len() != g.len() && j.len() != m.len());
    assert(j[6] != w[6] && j[6] != "image/x-ms-bmp"@[6]);
    assert(g[6] != p[6] && g[6] != w[6]);
    assert(m[6] != p[6] && m[6] != w[6] && m[6] != g[6]);
    assert(w[6] != p[6]);
}

/// `DefaultHasher` over a path and then some numbers. `u64::hash` feeds the
/// hasher native-endian bytes, so the value depends on the machine and
/// nothing is stated of it.
#[verifier::external_body]
fn file_identity_hash(path: &str, numbers: &[u64]) -> (r: u64) {
    let mut hasher = std::collections::hash_map::DefaultHasher::new();
    path.hash(&mut hasher);
    for n in numbers {
        n.hash(&mut hasher);
    }
    hasher.finish()
}

/// The numbers that identify the version of a song file besides its path:
/// its length and, where it is known too, its modification time (seconds);
/// none where the length is unknown.
pub open spec fn identity_numbers_spec(len: Option<u64>, modified_secs: Option<u64>) -> Seq<u64> {
    match len {
        None => seq![],
        Some(l) => match modified_secs {
            None => seq![l],
            Some(m) => seq![l, m],
        },
    }
}

pub fn identity_numbers(len: Option<u64>, modified_secs: Option<u64>) -> (r: Vec<u64>)
    ensures
        r@ == identity_numbers_spec(len, modified_secs),
{
    let mut numbers: Vec<u64> = Vec::new();
    match len {
        Some(l) => {
            numbers.push(l);
            match modified_secs {
                Some(m) => numbers.push(m),
                None => {},
            }
        },
        None => {},
    }
    numbers
}

/// The name under which the embedded cover of a song is stored: sixteen hex
/// digits of a hash of its path and of `identity_numbers(len, modified_secs)`
/// (so that a new cover gets a new name). The hash value depends on the
/// machine's byte order, so only its form is stated.
pub fn cover_cache_key(path: &str, len: Option<u64>, modified_secs: Option<u64>) -> (r: String)
    ensures
        exists|h: u64| r@ == hex16(h),
{
    let numbers = identity_numbers(len, modified_secs);
    let h = file_identity_hash(path, numbers.as_slice());
    hex16_string(h)
}

/// `key.ext`.
pub fn cover_file_name(key: &str, mime: &str) -> (r: String)
    ensures
        r@ == key@ + "."@ + cover_ext(mime@),
{
    let mut s = key.to_owned();
    push_str(&mut s, ".");
    push_str(&mut s, cover_extension(mime));
    s
}

/// The text of a lyrics file: UTF-8 where it decodes without error, else
/// GB18030.
pub open spec fn decoded_text(bytes: Seq<u8>) -> Seq<char> {
    let (utf8, had_errors) = utf8_decoding(bytes);
    if !had_errors {
        utf8
    } else {
        gb18030_decoding(bytes)
    }
}

pub fn decode_text_bytes(bytes: &[u8]) -> (r: String)
    requires
        decodable_len(bytes@.len() as int),
    ensures
        r@ == decoded_text(bytes@),
{
    let (text, had_errors) = decode_utf8_lossy(bytes);
    if !had_errors {
        text
    } else {
        decode_gb18030(bytes)
    }
}

/// A song's title from its file name: the stem of the path.
pub fn filename_title(path: &str) -> (r: Option<String>)
    ensures
        opt_str(r) == path_stem(path@),
{
    let v = chars_of(path);
    match stem_range(v.as_slice()) {
        Some((a, b)) => Some(string_of(&v.as_slice()[a..b])),
        None => None,
    }
}

/// The extensions of the audio files that the library lists, lower-case.
pub open spec fn audio_ext(e: Seq<char>) -> bool {
    e == "mp3"@ || e == "flac"@ || e == "ogg"@ || e == "oga"@ || e == "opus"@ || e == "wav"@ || e
        == "aif"@ || e == "aiff"@ || e == "m4a"@ || e == "mp4"@ || e == "aac"@ || e == "webm"@
}

/// Whether a path names an audio file, by its extension in any case.
pub open spec fn is_audio_path(path: Seq<char>) -> bool {
    match path_extension(path) {
        Some(e) => audio_ext(lower(e)),
        None => false,
    }
}

pub fn is_audio_file(path: &str) -> (r: bool)
    ensures
        r == is_audio_path(path@),
{
    let v = chars_of(path);
    match extension_range(v.as_slice()) {
        Some((a, b)) => {
            let e = lower_vec(&v.as_slice()[a..b]);
            let e = e.as_slice();
            eq_str(e, "mp3") || eq_str(e, "flac") || eq_str(e, "ogg") || eq_str(e, "oga") || eq_str(
                e,
                "opus",
            ) || eq_str(e, "wav") || eq_str(e, "aif") || eq_str(e, "aiff") || eq_str(e, "m4a")
                || eq_str(e, "mp4") || eq_str(e, "aac") || eq_str(e, "webm")
        },
        None => false,
    }
}

/// Whether a scan goes into a folder: not into hidden ones.
pub fn should_descend(name: &str) -> (r: bool)
    ensures
        r == !starts_with(name@, "."@),
{
    let v = chars_of(name);
    !starts_with_str(v.as_slice(), ".")
}

/// What a side file written at download time says.
#[derive(Debug, Clone)]
pub struct SidecarMeta {
    pub title: Option<String>,
    pub artist: Option<String>,
    pub album: Option<String>,
    pub lyrics: Option<String>,
    pub cover_url: Option<String>,
    pub cover_data_url: Option<String>,
}

impl Default for SidecarMeta {
    fn default() -> (r: Self)
        ensures
            r.title is None && r.artist is None && r.album is None && r.lyrics is None
                && r.cover_url is None && r.cover_data_url is None,
    {
        SidecarMeta {
            title: None,
            artist: None,
            album: None,
            lyrics: None,
            cover_url: None,
            cover_data_url: None,
        }
    }
}

/// The text metadata that the library shows for a song.
#[derive(Debug, Clone)]
pub struct TextMeta {
    pub title: Option<String>,
    pub artist: Option<String>,
    pub album: Option<String>,
    pub lyrics: Option<String>,
    pub cover: Option<String>,
}

/// The first of two optional texts that is there.
pub open spec fn or_else(a: Option<Seq<char>>, b: Option<Seq<char>>) -> Option<Seq<char>> {
    match a {
        Some(v) => Some(v),
        None => b,
    }
}

/// What the library shows for a song: each field from the file's tags where
/// they have it, else from the side file (lyrics: the tags, then the `.lrc`
/// file, then the side file); the title falls back to the file name; the
/// cover link comes from the side file (its data URL first).
pub open spec fn merged_meta_ok(
    r: TextMeta,
    path: Seq<char>,
    tag_title: Option<Seq<char>>,
    tag_artist: Option<Seq<char>>,
    tag_album: Option<Seq<char>>,
    tag_lyrics: Option<Seq<char>>,
    lrc: Option<Seq<char>>,
    side: SidecarMeta,
) -> bool {
    &&& opt_str(r.title) == or_else(
        or_else(tag_title, clean_text_spec(opt_str(side.title))),
        path_stem(path),
    )
    &&& opt_str(r.artist) == or_else(tag_artist, clean_text_spec(opt_str(side.artist)))
    &&& opt_str(r.album) == or_else(tag_album, clean_text_spec(opt_str(side.album)))
    &&& opt_str(r.lyrics) == or_else(
        or_else(tag_lyrics, clean_text_spec(lrc)),
        clean_text_spec(opt_str(side.lyrics)),
    )
    &&& opt_str(r.cover) == or_else(
        clean_text_spec(opt_str(side.cover_data_url)),
        clean_text_spec(opt_str(side.cover_url)),
    )
}

fn first_of(a: Option<String>, b: Option<String>) -> (r: Option<String>)
    ensures
        opt_str(r) == or_else(opt_str(a), opt_str(b)),
{
    match a {
        Some(v) => Some(v),
        None => b,
    }
}

/// Merges what the tags of a song give (each already the first non-blank
/// value among its tags; `None` for all where the tags could not be read)
/// with its `.lrc` text and its side file.
pub fn merge_meta(
    path: &str,
    tag_title: Option<String>,
    tag_artist: Option<String>,
    tag_album: Option<String>,
    tag_lyrics: Option<String>,
    lrc: Option<String>,
    side: SidecarMeta,
) -> (r: TextMeta)
    ensures
        merged_meta_ok(
            r,
            path@,
            opt_str(tag_title),
            opt_str(tag_artist),
            opt_str(tag_album),
            opt_str(tag_lyrics),
            opt_str(lrc),
            side,
        ),
{
    let side_title = clean_text(side.title);
    let title = first_of(first_of(tag_title, side_title), filename_title(path));
    let artist = first_of(tag_artist, clean_text(side.artist));
    let album = first_of(tag_album, clean_text(side.album));
    let lyrics = first_of(first_of(tag_lyrics, clean_text(lrc)), clean_text(side.lyrics));
    let cover = first_of(clean_text(side.cover_data_url), clean_text(side.cover_url));
    TextMeta { title, artist, album, lyrics, cover }
}

} // verus!
