//! The hand-over snapshot between the full player and the lite player: the
//! queue, the current position, the volume and the loop mode, with every
//! track's lyrics and local cover path.
//!
//! Positions and durations are whole milliseconds; the volume is in
//! thousandths (0 to 1000).
use vstd::prelude::*;
use crate::text::{chars_of, opt_text, push_char, push_chars, push_str, string_of, strip_char_start, trim, trim_slice};

verus! {

/// Snapshot format version. A snapshot with another version is ignored.
pub const SNAPSHOT_VERSION: u32 = 1;

/// Volume of a snapshot that does not say, in thousandths.
pub const DEFAULT_VOLUME: u32 = 900;

/// The loop modes: play in order, repeat one, shuffle.
pub const LOOP_SEQUENCE: u8 = 0;
pub const LOOP_ONE: u8 = 1;
pub const LOOP_SHUFFLE: u8 = 2;

pub fn clone_opt(o: &Option<String>) -> (r: Option<String>)
    ensures
        r == *o,
{
    match o {
        Some(s) => Some(s.clone()),
        None => None,
    }
}

/// One track of the queue.
pub struct MiniTrack {
    pub id: String,
    pub title: String,
    pub artist: String,
    pub album: String,
    pub source: String,
    /// Length as the full player knew it; 0 when unknown.
    pub duration_ms: u64,
    /// Signed direct link, a fallback when nothing local is there.
    pub url: Option<String>,
    /// A local file: local music, or audio cached before the hand-over.
    pub local_path: Option<String>,
    pub cover_path: Option<String>,
    pub lyric: Option<String>,
    pub tlyric: Option<String>,
}

impl Clone for MiniTrack {
    fn clone(&self) -> (r: Self)
        ensures
            r == *self,
    {
        MiniTrack {
            id: self.id.clone(),
            title: self.title.clone(),
            artist: self.artist.clone(),
            album: self.album.clone(),
            source: self.source.clone(),
            duration_ms: self.duration_ms,
            url: clone_opt(&self.url),
            local_path: clone_opt(&self.local_path),
            cover_path: clone_opt(&self.cover_path),
            lyric: clone_opt(&self.lyric),
            tlyric: clone_opt(&self.tlyric),
        }
    }
}

impl Default for MiniTrack {
    fn default() -> (r: Self)
        ensures
            r.id@.len() == 0 && r.title@.len() == 0 && r.artist@.len() == 0 && r.album@.len() == 0
                && r.source@.len() == 0,
            r.duration_ms == 0,
            r.url is None && r.local_path is None && r.cover_path is None && r.lyric is None
                && r.tlyric is None,
    {
        MiniTrack {
            id: String::new(),
            title: String::new(),
            artist: String::new(),
            album: String::new(),
            source: String::new(),
            duration_ms: 0,
            url: None,
            local_path: None,
            cover_path: None,
            lyric: None,
            tlyric: None,
        }
    }
}

/// The key of a track in the audio cache, `source:id`; empty for a track
/// without an id and for a local track, which the cache does not hold.
pub open spec fn cache_id_spec(t: MiniTrack) -> Seq<char> {
    if t.id@.len() == 0 || t.local_path is Some {
        Seq::empty()
    } else {
        t.source@ + seq![':'] + t.id@
    }
}

impl MiniTrack {
    pub fn cache_id(&self) -> (r: String)
        ensures
            r@ == cache_id_spec(*self),
    {
        if self.id.as_str().is_empty() || self.local_path.is_some() {
            return String::new();
        }
        let mut r = self.source.clone();
        push_char(&mut r, ':');
        push_str(&mut r, self.id.as_str());
        r
    }
}

/// `p` with back slashes turned into forward slashes.
pub open spec fn forward_slashes(p: Seq<char>) -> Seq<char> {
    p.map_values(|c: char| if c == '\\' { '/' } else { c })
}

/// The `file:///` address of a local path.
pub open spec fn file_uri_spec(p: Seq<char>) -> Seq<char> {
    "file:///"@ + strip_char_start(forward_slashes(p), '/')
}

/// The `file:///` address of a local path: back slashes become forward
/// slashes, leading slashes are dropped, and nothing is percent-encoded.
pub fn file_uri(path: &str) -> (r: String)
    ensures
        r@ == file_uri_spec(path@),
{
    let v = chars_of(path);
    let mut w: Vec<char> = Vec::new();
    let mut i: usize = 0;
    while i < v.len()
        invariant
            i <= v@.len(),
            w@ == forward_slashes(v@.subrange(0, i as int)),
        decreases v@.len() - i,
    {
        let c = v[i];
        if c == '\\' {
            w.push('/');
        } else {
            w.push(c);
        }
        i += 1;
        assert(w@ =~= forward_slashes(v@.subrange(0, i as int)));
    }
    assert(v@.subrange(0, v@.len() as int) =~= v@);
    let mut a: usize = 0;
    assert(w@.subrange(0, w@.len() as int) =~= w@);
    while a < w.len() && w[a] == '/'
        invariant
            a <= w@.len(),
            strip_char_start(w@.subrange(a as int, w@.len() as int), '/') == strip_char_start(w@, '/'),
        decreases w@.len() - a,
    {
        proof {
            let t = w@.subrange(a as int, w@.len() as int);
            assert(t.drop_first() =~= w@.subrange(a + 1, w@.len() as int));
        }
        a += 1;
    }
    proof {
        let t = w@.subrange(a as int, w@.len() as int);
        assert(w@.subrange(0, w@.len() as int) =~= w@);
    }
    let mut r = String::new();
    push_str(&mut r, "file:///");
    push_chars(&mut r, &w.as_slice()[a..w.len()]);
    r
}

pub open spec fn trimmed_nonempty(o: Option<String>) -> Option<Seq<char>> {
    match o {
        Some(s) => if trim(s@).len() > 0 {
            Some(trim(s@))
        } else {
            None
        },
        None => None,
    }
}

/// Where a track plays from, the least perishable first: its local file, else
/// the cached audio (`cached` is what the cache holds under the track's
/// `cache_id`, when it has one), else its direct link. `None` when there is
/// nothing to play.
pub open spec fn playable_uri_spec(t: MiniTrack, cached: Option<Seq<char>>) -> Option<Seq<char>> {
    match trimmed_nonempty(t.local_path) {
        Some(p) => Some(file_uri_spec(p)),
        None => if cache_id_spec(t).len() > 0 && cached is Some {
            Some(file_uri_spec(cached.unwrap()))
        } else {
            trimmed_nonempty(t.url)
        },
    }
}

/// Whether `playable_uri` looks at the audio cache for this track: it has no
/// local file and it has a cache key.
pub open spec fn needs_cache_lookup_spec(t: MiniTrack) -> bool {
    trimmed_nonempty(t.local_path) is None && cache_id_spec(t).len() > 0
}

fn trimmed_of(o: &Option<String>) -> (r: Option<String>)
    ensures
        match r {
            Some(s) => trimmed_nonempty(*o) == Some(s@),
            None => trimmed_nonempty(*o) is None,
        },
{
    match o {
        Some(s) => {
            let v = chars_of(s.as_str());
            let t = trim_slice(v.as_slice());
            if t.len() > 0 {
                Some(string_of(t))
            } else {
                None
            }
        },
        None => None,
    }
}

impl MiniTrack {
    /// Whether the audio cache must be asked before `playable_uri`.
    pub fn needs_cache_lookup(&self) -> (b: bool)
        ensures
            b == needs_cache_lookup_spec(*self),
    {
        let local = trimmed_of(&self.local_path);
        let id = self.cache_id();
        local.is_none() && !id.as_str().is_empty()
    }
}

/// Where `track` plays from; `cached` is the audio cache's file for the
/// track's `cache_id`, if it holds one.
pub fn playable_uri(track: &MiniTrack, cached: Option<&str>) -> (r: Option<String>)
    ensures
        match r {
            Some(s) => playable_uri_spec(*track, opt_text(cached)) == Some(s@),
            None => playable_uri_spec(*track, opt_text(cached)) is None,
        },
{
    match trimmed_of(&track.local_path) {
        Some(p) => {
            return Some(file_uri(p.as_str()));
        },
        None => {},
    }
    let id = track.cache_id();
    if !id.as_str().is_empty() {
        match cached {
            Some(path) => {
                return Some(file_uri(path));
            },
            None => {},
        }
    }
    trimmed_of(&track.url)
}

/// What the full player hands to the lite player, and back.
pub struct MiniSnapshot {
    pub version: u32,
    /// Unix seconds of the hand-over.
    pub saved_at: i64,
    /// Current track. Out of range or negative means the first one.
    pub index: i64,
    pub position_ms: u64,
    /// 0 to 1000.
    pub volume_permille: u32,
    pub muted: bool,
    /// `LOOP_SEQUENCE`, `LOOP_ONE` or `LOOP_SHUFFLE`.
    pub loop_mode: u8,
    pub tracks: Vec<MiniTrack>,
}

/// Two snapshots with the same fields and the same queue.
pub open spec fn same_snapshot(a: MiniSnapshot, b: MiniSnapshot) -> bool {
    &&& a.version == b.version
    &&& a.saved_at == b.saved_at
    &&& a.index == b.index
    &&& a.position_ms == b.position_ms
    &&& a.volume_permille == b.volume_permille
    &&& a.muted == b.muted
    &&& a.loop_mode == b.loop_mode
    &&& a.tracks@ == b.tracks@
}

impl Clone for MiniSnapshot {
    fn clone(&self) -> (r: Self)
        ensures
            same_snapshot(r, *self),
    {
        let mut tracks: Vec<MiniTrack> = Vec::new();
        let mut i: usize = 0;
        while i < self.tracks.len()
            invariant
                i <= self.tracks@.len(),
                tracks@ == self.tracks@.subrange(0, i as int),
            decreases self.tracks@.len() - i,
        {
            tracks.push(self.tracks[i].clone());
            i += 1;
            assert(tracks@ =~= self.tracks@.subrange(0, i as int));
        }
        assert(self.tracks@.subrange(0, self.tracks@.len() as int) =~= self.tracks@);
        let r = MiniSnapshot {
            version: self.version,
            saved_at: self.saved_at,
            index: self.index,
            position_ms: self.position_ms,
            volume_permille: self.volume_permille,
            muted: self.muted,
            loop_mode: self.loop_mode,
            tracks,
        };
        r
    }
}

impl Default for MiniSnapshot {
    fn default() -> (r: Self)
        ensures
            r.version == SNAPSHOT_VERSION && r.saved_at == 0 && r.index == 0 && r.position_ms == 0
                && r.volume_permille == DEFAULT_VOLUME && !r.muted && r.loop_mode == LOOP_SEQUENCE
                && r.tracks@.len() == 0,
    {
        MiniSnapshot {
            version: SNAPSHOT_VERSION,
            saved_at: 0,
            index: 0,
            position_ms: 0,
            volume_permille: DEFAULT_VOLUME,
            muted: false,
            loop_mode: LOOP_SEQUENCE,
            tracks: Vec::new(),
        }
    }
}

/// A snapshot with its index in range (0 for an empty queue), its volume at
/// most 1000 and a known loop mode.
pub open spec fn normalized(s: MiniSnapshot) -> bool {
    &&& (s.tracks@.len() == 0 ==> s.index == 0)
    &&& (s.tracks@.len() > 0 ==> 0 <= s.index < s.tracks@.len())
    &&& s.volume_permille <= 1000
    &&& s.loop_mode <= 2
}

/// What `normalize` makes of `s`.
pub open spec fn normalize_spec(s: MiniSnapshot) -> MiniSnapshot {
    MiniSnapshot {
        index: if s.tracks@.len() == 0 {
            0
        } else if s.index < 0 {
            0
        } else if s.index >= s.tracks@.len() {
            (s.tracks@.len() - 1) as i64
        } else {
            s.index
        },
        volume_permille: if s.volume_permille > 1000 {
            1000
        } else {
            s.volume_permille
        },
        loop_mode: if s.loop_mode > 2 {
            LOOP_SEQUENCE
        } else {
            s.loop_mode
        },
        ..s
    }
}

/// The current track: `tracks[max(index, 0)]`, if there is one.
pub open spec fn current_spec(s: MiniSnapshot) -> Option<MiniTrack> {
    let i = if s.index < 0 {
        0
    } else {
        s.index as int
    };
    if i < s.tracks@.len() {
        Some(s.tracks@[i])
    } else {
        None
    }
}

impl MiniSnapshot {
    /// Clamps the index into the queue, the volume to 1000 and an unknown
    /// loop mode to `LOOP_SEQUENCE`.
    pub fn normalize(&mut self)
        requires
            old(self).tracks@.len() <= i64::MAX,
        ensures
            *final(self) == normalize_spec(*old(self)),
            normalized(*final(self)),
    {
        let n = self.tracks.len();
        if n == 0 {
            self.index = 0;
        } else {
            let last = (n - 1) as i64;
            if self.index < 0 {
                self.index = 0;
            } else if self.index > last {
                self.index = last;
            }
        }
        if self.volume_permille > 1000 {
            self.volume_permille = 1000;
        }
        if self.loop_mode > 2 {
            self.loop_mode = LOOP_SEQUENCE;
        }
    }

    pub fn current(&self) -> (r: Option<&MiniTrack>)
        ensures
            match r {
                Some(t) => current_spec(*self) == Some(*t),
                None => current_spec(*self) is None,
            },
    {
        let len = self.tracks.len() as u64;
        let i: u64 = if self.index < 0 {
            0
        } else {
            self.index as u64
        };
        if i < len {
            Some(&self.tracks[i as usize])
        } else {
            None
        }
    }
}

/// A snapshot read back from disk: `None` unless it has the current format
/// version; normalized otherwise.
pub fn accept_loaded(snapshot: MiniSnapshot) -> (r: Option<MiniSnapshot>)
    requires
        snapshot.tracks@.len() <= i64::MAX,
    ensures
        snapshot.version != SNAPSHOT_VERSION ==> r is None,
        snapshot.version == SNAPSHOT_VERSION ==> r == Some(normalize_spec(snapshot)),
{
    if snapshot.version != SNAPSHOT_VERSION {
        return None;
    }
    let mut s = snapshot;
    s.normalize();
    Some(s)
}

/// Normalizing twice changes nothing more than normalizing once.
pub proof fn lemma_normalize_idempotent(s: MiniSnapshot)
    ensures
        normalize_spec(normalize_spec(s)) == normalize_spec(s),
        normalized(normalize_spec(s)),
{
}

/// The data folder of the mini player: `Listen1/mini` in the home folder,
/// outside the audio cache so that clearing the cache keeps it.
pub open spec fn mini_dir_spec(home: Seq<char>) -> Seq<char> {
    crate::cache::join_path(crate::cache::join_path(home, "Listen1"@), "mini"@)
}

pub fn mini_dir(home: &str) -> (r: String)
    ensures
        r@ == mini_dir_spec(home@),
{
    let base = crate::cache::join(home, "Listen1");
    crate::cache::join(base.as_str(), "mini")
}

/// The snapshot file handed from the full player to the mini player.
pub fn snapshot_path(home: &str) -> (r: String)
    ensures
        r@ == crate::cache::join_path(mini_dir_spec(home@), "snapshot.json"@),
{
    let dir = mini_dir(home);
    crate::cache::join(dir.as_str(), "snapshot.json")
}

/// The folder of the covers downloaded for the mini player.
pub fn covers_dir(home: &str) -> (r: String)
    ensures
        r@ == crate::cache::join_path(mini_dir_spec(home@), "covers"@),
{
    let dir = mini_dir(home);
    crate::cache::join(dir.as_str(), "covers")
}

} // verus!
