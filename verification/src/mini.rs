//! The platform-neutral half of the native mini player: its icons, what
//! decides a repaint, the time read-out, the media-control interface, the
//! tray's actions, and the flags that the audio engine hands to the UI.
use vstd::prelude::*;
use crate::text::{
    decimal2, decimal2_string, push_str, chars_of, lower, lower_vec, ends_with, ends_with_str,
    trim, trim_slice, eq_str, strip_prefix, strip_prefix_slice, string_of, opt_str, find_char,
};
use crate::url::{url_decode, decode_component};
use crate::cache::{cache_key_spec, cache_key_for};

verus! {

/// An icon that the mini player draws.
#[derive(Clone, Copy, Debug, PartialEq, Eq, Structural)]
pub enum Icon {
    Prev,
    Next,
    Play,
    Pause,
    Minimize,
    Close,
    FullMode,
    LoopSequence,
    LoopOne,
    Shuffle,
    Volume,
    Muted,
    Note,
}

/// The shape drawn in place of an icon when the icon font is missing.
#[derive(Clone, Copy, Debug, PartialEq, Eq, Structural)]
pub enum Fallback {
    TriangleRight,
    TriangleLeft,
    TwoBars,
    Bar,
    Cross,
    Frame,
    Dot,
}

impl Icon {
    /// The code point of the icon in Segoe Fluent Icons / Segoe MDL2 Assets.
    pub open spec fn glyph_spec(self) -> char {
        match self {
            Icon::Prev => '\u{E100}',
            Icon::Next => '\u{E101}',
            Icon::Play => '\u{E102}',
            Icon::Pause => '\u{E103}',
            Icon::Minimize => '\u{E921}',
            Icon::Close => '\u{E8BB}',
            Icon::FullMode => '\u{E740}',
            Icon::LoopSequence => '\u{E1CD}',
            Icon::LoopOne => '\u{E1CC}',
            Icon::Shuffle => '\u{E14B}',
            Icon::Volume => '\u{E767}',
            Icon::Muted => '\u{E74F}',
            Icon::Note => '\u{E8D6}',
        }
    }

    pub fn glyph(self) -> (r: char)
        ensures
            r == self.glyph_spec(),
    {
        match self {
            Icon::Prev => '\u{E100}',
            Icon::Next => '\u{E101}',
            Icon::Play => '\u{E102}',
            Icon::Pause => '\u{E103}',
            Icon::Minimize => '\u{E921}',
            Icon::Close => '\u{E8BB}',
            Icon::FullMode => '\u{E740}',
            Icon::LoopSequence => '\u{E1CD}',
            Icon::LoopOne => '\u{E1CC}',
            Icon::Shuffle => '\u{E14B}',
            Icon::Volume => '\u{E767}',
            Icon::Muted => '\u{E74F}',
            Icon::Note => '\u{E8D6}',
        }
    }

    pub open spec fn fallback_spec(self) -> Fallback {
        match self {
            Icon::Play | Icon::Next | Icon::Volume | Icon::Muted => Fallback::TriangleRight,
            Icon::Prev => Fallback::TriangleLeft,
            Icon::Pause => Fallback::TwoBars,
            Icon::Minimize => Fallback::Bar,
            Icon::Close => Fallback::Cross,
            Icon::FullMode | Icon::LoopSequence | Icon::LoopOne | Icon::Shuffle => Fallback::Frame,
            Icon::Note => Fallback::Dot,
        }
    }

    /// The shape drawn for the icon when the font is missing.
    pub fn fallback(self) -> (r: Fallback)
        ensures
            r == self.fallback_spec(),
    {
        match self {
            Icon::Play | Icon::Next | Icon::Volume | Icon::Muted => Fallback::TriangleRight,
            Icon::Prev => Fallback::TriangleLeft,
            Icon::Pause => Fallback::TwoBars,
            Icon::Minimize => Fallback::Bar,
            Icon::Close => Fallback::Cross,
            Icon::FullMode | Icon::LoopSequence | Icon::LoopOne | Icon::Shuffle => Fallback::Frame,
            Icon::Note => Fallback::Dot,
        }
    }
}

/// Every icon's glyph lies in the Private Use Area.
pub proof fn lemma_glyphs_are_private_use(icon: Icon)
    ensures
        0xE000 <= (icon.glyph_spec() as u32) <= 0xF8FF,
{
}

/// No two icons share a glyph.
pub proof fn lemma_glyphs_are_distinct(a: Icon, b: Icon)
    requires
        a != b,
    ensures
        a.glyph_spec() != b.glyph_spec(),
{
}

/// What the mouse is dragging (`Nothing`: no drag in progress).
#[derive(Clone, Copy, Debug, PartialEq, Eq, Structural)]
pub enum Drag {
    Nothing,
    Progress,
    Volume,
}

impl Default for Drag {
    fn default() -> (r: Self)
        ensures
            r == Drag::Nothing,
    {
        Drag::Nothing
    }
}

/// What a frame shows, reduced to integers: a repaint is asked for only
/// when it changes.
#[derive(Clone, Copy, Debug, PartialEq, Eq, Structural)]
pub struct PaintKey {
    pub quarter: i64,
    pub duration: i64,
    pub playing: bool,
    pub busy: bool,
    pub index: i64,
    pub lyric: i64,
    pub volume: i64,
    pub muted: bool,
    pub loop_mode: u8,
    pub scroll: i32,
    pub sliding: bool,
    pub notice: bool,
}

impl Default for PaintKey {
    /// Every number zero, every flag off.
    fn default() -> (r: Self)
        ensures
            r == (PaintKey {
                quarter: 0,
                duration: 0,
                playing: false,
                busy: false,
                index: 0,
                lyric: 0,
                volume: 0,
                muted: false,
                loop_mode: 0,
                scroll: 0,
                sliding: false,
                notice: false,
            }),
    {
        PaintKey {
            quarter: 0,
            duration: 0,
            playing: false,
            busy: false,
            index: 0,
            lyric: 0,
            volume: 0,
            muted: false,
            loop_mode: 0,
            scroll: 0,
            sliding: false,
            notice: false,
        }
    }
}

impl PaintKey {
    /// Whether the frame changed.
    pub fn differs(&self, other: &PaintKey) -> (r: bool)
        ensures
            r == (*self != *other),
    {
        *self != *other
    }
}

/// `mm:ss` of a whole number of seconds; minutes keep counting past an hour.
pub open spec fn clock_text(total: u64) -> Seq<char> {
    decimal2((total / 60) as nat) + ":"@ + decimal2((total % 60) as nat)
}

pub fn fmt_seconds(total: u64) -> (r: String)
    ensures
        r@ == clock_text(total),
{
    let mut s = decimal2_string(total / 60);
    push_str(&mut s, ":");
    let sec = decimal2_string(total % 60);
    push_str(&mut s, sec.as_str());
    s
}

/// What the system's media controls show of the song playing.
pub struct NowPlaying<'a> {
    pub title: &'a str,
    pub artist: &'a str,
    pub album: &'a str,
    pub cover_path: Option<&'a str>,
}

/// The system's media controls (SMTC, MPRIS, the Now Playing centre).
pub trait MediaControls {
    fn set_now_playing(&self, info: &NowPlaying<'_>);

    fn set_playing(&self, playing: bool);

    /// Takes the entry away when the mini player closes.
    fn clear(&self);
}

/// The media controls of a platform that has none yet.
pub struct NoopMediaControls;

impl MediaControls for NoopMediaControls {
    fn set_now_playing(&self, _info: &NowPlaying<'_>) {
    }

    fn set_playing(&self, _playing: bool) {
    }

    fn clear(&self) {
    }
}

/// A transport action that the tray menu sends to the mini player.
#[derive(Copy, Clone, Debug, PartialEq, Eq, Structural)]
pub enum LiteAction {
    PlayPause,
    Prev,
    Next,
}

/// Whether the native mini window is open: it exists on Windows only, so
/// never here.
pub fn is_lite_active() -> (r: bool)
    ensures
        !r,
{
    false
}

/// Asks the native mini window to close; there is none here.
pub fn request_close() {
}

/// Brings the native mini window to the front; there is none here.
pub fn focus_lite() {
}

/// Hands a tray action to the native mini window; there is none here.
pub fn lite_action(_action: LiteAction) {
}

/// The flags that the audio engine's loader sets and the UI takes.
pub struct LoadFlags {
    pub ended: bool,
    pub failed: bool,
    pub busy: bool,
    /// A source was appended and has not ended yet.
    pub active: bool,
    /// Counts loads, so that a slow loader can tell that it is stale.
    pub generation: u64,
    pub duration_ms: i64,
}

impl LoadFlags {
    /// Nothing loaded.
    pub fn new() -> (r: Self)
        ensures
            !r.ended && !r.failed && !r.busy && !r.active,
            r.generation == 0,
            r.duration_ms == 0,
    {
        LoadFlags { ended: false, failed: false, busy: false, active: false, generation: 0, duration_ms: 0 }
    }

    /// A new load starts: what the previous song left is cleared, and the
    /// load gets the next generation, which it returns.
    pub fn begin_load(&mut self) -> (r: u64)
        ensures
            !final(self).ended && !final(self).failed && !final(self).active,
            final(self).busy,
            final(self).duration_ms == 0,
            final(self).generation == (if old(self).generation == u64::MAX {
                0
            } else {
                old(self).generation + 1
            }),
            r == final(self).generation,
    {
        self.ended = false;
        self.failed = false;
        self.duration_ms = 0;
        self.active = false;
        self.busy = true;
        self.generation = self.generation.wrapping_add(1);
        self.generation
    }

    /// A loader of generation `generation` is done: a stale one changes
    /// nothing; a current one either starts its source (`Some(duration)`) or
    /// reports a failure.
    pub fn finish_load(&mut self, generation: u64, outcome: Option<i64>)
        ensures
            generation != old(self).generation ==> *final(self) == *old(self),
            generation == old(self).generation ==> match outcome {
                Some(d) => *final(self) == (LoadFlags {
                    duration_ms: d,
                    active: true,
                    busy: false,
                    ..*old(self)
                }),
                None => *final(self) == (LoadFlags { busy: false, failed: true, ..*old(self) }),
            },
    {
        if generation != self.generation {
            return;
        }
        match outcome {
            Some(d) => {
                self.duration_ms = d;
                self.active = true;
                self.busy = false;
            },
            None => {
                self.busy = false;
                self.failed = true;
            },
        }
    }

    /// The loader could not be started.
    pub fn spawn_failed(&mut self)
        ensures
            *final(self) == (LoadFlags { busy: false, failed: true, ..*old(self) }),
    {
        self.busy = false;
        self.failed = true;
    }

    /// Takes "it ended": an active source whose queue ran empty has ended;
    /// an empty queue before any source is not an ending. Taking clears it.
    pub fn take_ended(&mut self, queue_empty: bool) -> (r: bool)
        ensures
            (*final(self), r) == take_ended_spec(*old(self), queue_empty),
            r == (old(self).ended || (old(self).active && queue_empty)),
            !final(self).ended,
            final(self).active == (old(self).active && !queue_empty),
            final(self).failed == old(self).failed,
            final(self).busy == old(self).busy,
            final(self).generation == old(self).generation,
            final(self).duration_ms == old(self).duration_ms,
    {
        if self.active && queue_empty {
            self.active = false;
            self.ended = true;
        }
        let r = self.ended;
        self.ended = false;
        r
    }

    /// Takes "it failed". Taking clears it.
    pub fn take_failed(&mut self) -> (r: bool)
        ensures
            r == old(self).failed,
            *final(self) == (LoadFlags { failed: false, ..*old(self) }),
    {
        let r = self.failed;
        self.failed = false;
        r
    }
}

/// What taking "it ended" does to the flags, and what it reports: an active
/// source whose queue ran empty has ended; taking clears the flag.
pub open spec fn take_ended_spec(f: LoadFlags, queue_empty: bool) -> (LoadFlags, bool) {
    (
        LoadFlags { ended: false, active: f.active && !queue_empty, ..f },
        f.ended || (f.active && queue_empty),
    )
}

/// One ending advances the queue once: in every state, a second take right
/// after a first one reports nothing.
pub proof fn lemma_ended_is_taken_once(f: LoadFlags, queue_empty: bool)
    ensures
        !take_ended_spec(take_ended_spec(f, queue_empty).0, queue_empty).1,
{
}

/// Nothing has ended before a source is appended: in the flags that
/// `begin_load` leaves (and that a stale loader does not change), taking "it
/// ended" reports nothing, whatever the queue says.
pub proof fn lemma_no_ending_before_a_source(f: LoadFlags, queue_empty: bool)
    requires
        !f.ended,
        !f.active,
    ensures
        !take_ended_spec(f, queue_empty).1,
{
}

/// Whether the native mini player exists on the operating system `os` (a
/// name of `std::env::consts::OS`): only Windows has one.
pub fn mini_supported_on(os: &str) -> (r: bool)
    ensures
        r == (os@ == "windows"@),
{
    let v = chars_of(os);
    eq_str(v.as_slice(), "windows")
}

/// Whether the native mini player exists in this build, which has no native
/// window: it does not.
pub fn mini_supported() -> (r: bool)
    ensures
        !r,
{
    false
}

/// Index of the first `?` or `#` in `s`, or its length.
pub open spec fn query_start(s: Seq<char>) -> int {
    let q = find_char(s, '?', 0);
    let h = find_char(s, '#', 0);
    if q < h {
        q
    } else {
        h
    }
}

/// The extension a downloaded cover is stored with: by the end of its URL
/// path (query and fragment dropped, any case), `jpg` where it is not PNG,
/// WebP or BMP.
pub open spec fn image_ext(url: Seq<char>) -> Seq<char> {
    let path = lower(url.take(query_start(url)));
    if ends_with(path, ".png"@) {
        "png"@
    } else if ends_with(path, ".webp"@) {
        "webp"@
    } else if ends_with(path, ".bmp"@) {
        "bmp"@
    } else {
        "jpg"@
    }
}

pub fn image_extension(url: &str) -> (r: &'static str)
    ensures
        r@ == image_ext(url@),
{
    let v = chars_of(url);
    let v = v.as_slice();
    let q = crate::text::find_char_exec(v, '?', 0);
    let h = crate::text::find_char_exec(v, '#', 0);
    let end = if q < h {
        q
    } else {
        h
    };
    let head = &v[0..end];
    assert(head@ =~= v@.take(end as int));
    let path = lower_vec(head);
    let path = path.as_slice();
    if ends_with_str(path, ".png") {
        "png"
    } else if ends_with_str(path, ".webp") {
        "webp"
    } else if ends_with_str(path, ".bmp") {
        "bmp"
    } else {
        "jpg"
    }
}

/// A cover is stored with the extension that its URL's path ends in, in any
/// case and whatever query or fragment follows: `.png` as `png`, `.webp` as
/// `webp`, `.bmp` as `bmp`.
pub proof fn lemma_cover_ext_from_path(url: Seq<char>)
    ensures
        ends_with(lower(url.take(query_start(url))), ".png"@) ==> image_ext(url) == "png"@,
        ends_with(lower(url.take(query_start(url))), ".webp"@) ==> image_ext(url) == "webp"@,
        ends_with(lower(url.take(query_start(url))), ".bmp"@) ==> image_ext(url) == "bmp"@,
{
    reveal_strlit(".png");
    reveal_strlit(".webp");
    reveal_strlit(".bmp");
    let path = lower(url.take(query_start(url)));
    if ends_with(path, ".webp"@) {
        assert(path.subrange(path.len() - 5, path.len() as int)[4] == path[path.len() - 1]);
        if ends_with(path, ".png"@) {
            assert(path.subrange(path.len() - 4, path.len() as int)[3] == path[path.len() - 1]);
        }
    }
    if ends_with(path, ".bmp"@) {
        assert(path.subrange(path.len() - 4, path.len() as int)[3] == path[path.len() - 1]);
        assert(path.subrange(path.len() - 4, path.len() as int)[1] == path[path.len() - 3]);
        if ends_with(path, ".png"@) {
            assert(path[path.len() - 3] == 'p');
        }
        if ends_with(path, ".webp"@) {
            assert(path.subrange(path.len() - 5, path.len() as int)[2] == path[path.len() - 3]);
        }
    }
}

/// Where the cover at `url` is found for the mini player: nothing for a
/// blank URL; a file URL is its path, decoded where it decodes; any other URL
/// is downloaded (`None` here).
pub enum CoverPlace {
    Nothing,
    Local { path: String },
    Download { url: String, file_name: String },
}

/// Whether `r` is where the cover at `url` is found.
pub open spec fn cover_place_ok(r: CoverPlace, url: Seq<char>) -> bool {
    let u = trim(url);
    if u.len() == 0 {
        r is Nothing
    } else {
        let stripped = match strip_prefix(u, "file:///"@) {
            Some(s) => Some(s),
            None => strip_prefix(u, "file://"@),
        };
        match stripped {
            Some(s) => r matches CoverPlace::Local { path } && path@ == (match url_decode(s) {
                Some(d) => d,
                None => s,
            }),
            None => r matches CoverPlace::Download { url: du, file_name } && du@ == u
                && file_name@ == cache_key_spec(None, u) + "."@ + image_ext(u),
        }
    }
}

pub fn cover_place(url: &str) -> (r: CoverPlace)
    ensures
        cover_place_ok(r, url@),
{
    let v = chars_of(url);
    let u = trim_slice(v.as_slice());
    if u.len() == 0 {
        return CoverPlace::Nothing;
    }
    let stripped = match strip_prefix_slice(u, "file:///") {
        Some(s) => Some(s),
        None => strip_prefix_slice(u, "file://"),
    };
    match stripped {
        Some(s) => {
            let raw = string_of(s);
            let path = match decode_component(raw.as_str()) {
                Some(d) => d,
                None => raw,
            };
            CoverPlace::Local { path }
        },
        None => {
            let text = string_of(u);
            let mut file_name = cache_key_for(None, text.as_str());
            push_str(&mut file_name, ".");
            push_str(&mut file_name, image_extension(text.as_str()));
            CoverPlace::Download { url: text, file_name }
        },
    }
}

/// The largest song that is cached ahead of playing: 100 MiB.
pub const MAX_PRECACHE_BYTES: u64 = 104857600;

/// The cache id that a song is cached ahead under: trimmed; none where it is
/// blank or has no song part (`platform:`).
pub fn precache_id(cache_id: &str) -> (r: Option<String>)
    ensures
        ({
            let t = trim(cache_id@);
            if t.len() == 0 || ends_with(t, ":"@) {
                r is None
            } else {
                opt_str(r) == Some(t)
            }
        }),
{
    let v = chars_of(cache_id);
    let t = trim_slice(v.as_slice());
    if t.len() == 0 || ends_with_str(t, ":") {
        None
    } else {
        Some(string_of(t))
    }
}

} // verus!
