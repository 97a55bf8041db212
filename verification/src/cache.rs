//! The on-disk audio cache: where it lives, how entries are keyed and named,
//! how they are classified, which of them are evicted, and the responses
//! served from them.
use vstd::prelude::*;
use std::hash::Hash;
use std::hash::Hasher;
use crate::text::{
    chars_of, trim, trim_slice, first_piece, first_piece_slice, push_char, push_str, string_of,
    opt_text,
};
use crate::path::{last_index, path_extension, extension_range, last_index_exec};
use crate::stream::{FilePlan, file_response_plan, file_span, span_len, file_headers};
use crate::text::pairs_view;
use crate::headers::{map_of, distinct_keys, lemma_map_of_push, lemma_map_of_absent, lemma_map_of_index, lemma_map_of_update, lemma_map_of_remove, lemma_map_of_len};

verus! {

/// 2 GiB.
pub const DEFAULT_MAX_BYTES: u64 = 2147483648;

/// The cache settings that the front end chooses.
#[derive(Debug, Clone)]
pub struct CacheConfig {
    pub enabled: bool,
    pub directory: Option<String>,
    pub max_bytes: u64,
}

impl Default for CacheConfig {
    /// Enabled, in the default directory, 2 GiB.
    fn default() -> (r: Self)
        ensures
            r.enabled,
            r.directory is None,
            r.max_bytes == DEFAULT_MAX_BYTES,
    {
        CacheConfig { enabled: true, directory: None, max_bytes: DEFAULT_MAX_BYTES }
    }
}

/// The settings as stored: a zero limit means the default limit.
pub fn effective_config(config: CacheConfig) -> (r: CacheConfig)
    ensures
        r.enabled == config.enabled,
        r.directory == config.directory,
        r.max_bytes == (if config.max_bytes == 0 {
            DEFAULT_MAX_BYTES
        } else {
            config.max_bytes
        }),
{
    let max_bytes = if config.max_bytes == 0 {
        DEFAULT_MAX_BYTES
    } else {
        config.max_bytes
    };
    CacheConfig { enabled: config.enabled, directory: config.directory, max_bytes }
}

/// `PathBuf::join` on Unix: an absolute `b` replaces `a`; otherwise a `/` is
/// put between them where `a` does not already end with one.
pub open spec fn join_path(a: Seq<char>, b: Seq<char>) -> Seq<char> {
    if b.len() > 0 && b[0] == '/' {
        b
    } else if a.len() == 0 || a.last() == '/' {
        a + b
    } else {
        a + seq!['/'] + b
    }
}

pub fn join(a: &str, b: &str) -> (r: String)
    ensures
        r@ == join_path(a@, b@),
{
    let av = chars_of(a);
    let bv = chars_of(b);
    if bv.len() > 0 && bv[0] == '/' {
        return b.to_owned();
    }
    let mut s = a.to_owned();
    if !(av.len() == 0 || av[av.len() - 1] == '/') {
        push_char(&mut s, '/');
    }
    push_str(&mut s, b);
    s
}

/// The default cache directory under the home directory.
pub open spec fn default_cache_dir_of(home: Seq<char>) -> Seq<char> {
    join_path(join_path(home, "Listen1"@), "Cache"@)
}

pub fn default_cache_dir_path(home: &str) -> (r: String)
    ensures
        r@ == default_cache_dir_of(home@),
{
    let base = join(home, "Listen1");
    join(base.as_str(), "Cache")
}

/// The directory in use: the configured one unless it is blank.
pub open spec fn cache_dir_of(directory: Option<Seq<char>>, home: Seq<char>) -> Seq<char> {
    match directory {
        Some(d) => if trim(d).len() > 0 {
            d
        } else {
            default_cache_dir_of(home)
        },
        None => default_cache_dir_of(home),
    }
}

pub fn active_cache_dir(config: &CacheConfig, home: &str) -> (r: String)
    ensures
        r@ == cache_dir_of(crate::text::opt_str(config.directory), home@),
{
    match &config.directory {
        Some(d) => {
            let v = chars_of(d.as_str());
            if trim_slice(v.as_slice()).len() > 0 {
                d.clone()
            } else {
                default_cache_dir_path(home)
            }
        },
        None => default_cache_dir_path(home),
    }
}

/// What `DefaultHasher::new()` gives after each text of `parts` was hashed
/// into it in turn (`str::hash`), then `finish()`. The hasher starts from
/// fixed keys, so the value does not depend on the process.
pub uninterp spec fn default_hash(parts: Seq<Seq<char>>) -> u64;

/// Hashes the texts in turn with a fresh `DefaultHasher`.
#[verifier::external_body]
fn hash_texts(parts: &[&str]) -> (r: u64)
    ensures
        r == default_hash(parts@.map_values(|p: &str| p@)),
{
    let mut hasher = std::collections::hash_map::DefaultHasher::new();
    for part in parts {
        part.hash(&mut hasher);
    }
    hasher.finish()
}

pub open spec fn pow16(k: nat) -> nat
    decreases k,
{
    if k == 0 {
        1
    } else {
        16 * pow16((k - 1) as nat)
    }
}

/// A lower-case hexadecimal digit for `d < 16`.
pub open spec fn hex_lower(d: int) -> char {
    if d < 10 {
        (48 + d) as char
    } else {
        (87 + d) as char
    }
}

/// `format!("{:016x}", n)`: sixteen lower-case hexadecimal digits.
pub open spec fn hex16(n: u64) -> Seq<char> {
    Seq::new(16, |i: int| hex_lower((n as int / pow16((15 - i) as nat) as int) % 16))
}

pub fn hex16_string(n: u64) -> (r: String)
    ensures
        r@ == hex16(n),
{
    let mut s = String::new();
    let mut d: u64 = 0x1000_0000_0000_0000;
    let mut i: usize = 0;
    assert(pow16(15) == 0x1000_0000_0000_0000) by {
        reveal_with_fuel(pow16, 16);
    }
    while i < 16
        invariant
            i <= 16,
            i < 16 ==> d == pow16((15 - i) as nat),
            d > 0,
            s@ == hex16(n).take(i as int),
        decreases 16 - i,
    {
        let digit = ((n / d) % 16) as u8;
        let c = if digit < 10 {
            crate::text::char_from_ascii(48 + digit)
        } else {
            crate::text::char_from_ascii(87 + digit)
        };
        assert(c == hex_lower((n as int / pow16((15 - i) as nat) as int) % 16));
        push_char(&mut s, c);
        assert(s@ =~= hex16(n).take(i + 1));
        if i < 15 {
            assert(pow16((15 - i) as nat) == 16 * pow16((14 - i) as nat));
            d = d / 16;
        }
        i += 1;
    }
    assert(hex16(n).take(16) =~= hex16(n));
    s
}

/// The cache key: the hash of a stable id (`platform:song`) where one is given
/// and not blank, else the hash of the whole URL.
pub open spec fn cache_key_spec(cache_id: Option<Seq<char>>, url: Seq<char>) -> Seq<char> {
    let id = match cache_id {
        Some(c) => trim(c),
        None => Seq::<char>::empty(),
    };
    if id.len() > 0 {
        hex16(default_hash(seq!["id:"@, id]))
    } else {
        hex16(default_hash(seq![url]))
    }
}

pub fn cache_key_for(cache_id: Option<&str>, url: &str) -> (r: String)
    ensures
        r@ == cache_key_spec(opt_text(cache_id), url@),
{
    let id: Option<String> = match cache_id {
        Some(c) => {
            let v = chars_of(c);
            let t = trim_slice(v.as_slice());
            if t.len() > 0 {
                Some(string_of(t))
            } else {
                None
            }
        },
        None => None,
    };
    match id {
        Some(id) => {
            let parts = [ "id:", id.as_str() ];
            let h = hash_texts(&parts);
            assert(parts@.map_values(|p: &str| p@) =~= seq!["id:"@, id@]);
            hex16_string(h)
        },
        None => {
            let parts = [url];
            let h = hash_texts(&parts);
            assert(parts@.map_values(|p: &str| p@) =~= seq![url@]);
            hex16_string(h)
        },
    }
}

/// Bytes of UTF-8 that a character takes.
pub open spec fn utf8_width(c: char) -> nat {
    let u = c as u32;
    if u < 0x80 {
        1
    } else if u < 0x800 {
        2
    } else if u < 0x10000 {
        3
    } else {
        4
    }
}

/// Bytes of UTF-8 that a text takes (`str::len`).
pub open spec fn utf8_len(s: Seq<char>) -> nat
    decreases s.len(),
{
    if s.len() == 0 {
        0
    } else {
        utf8_len(s.drop_last()) + utf8_width(s.last())
    }
}

/// Whether `v` takes at most `limit` bytes of UTF-8.
pub fn utf8_len_at_most(v: &[char], limit: usize) -> (r: bool)
    ensures
        r == (utf8_len(v@) <= limit),
{
    let mut total: usize = 0;
    let mut i: usize = 0;
    while i < v.len()
        invariant
            i <= v@.len(),
            total == utf8_len(v@.take(i as int)),
            total <= limit,
        decreases v@.len() - i,
    {
        let u = v[i] as u32;
        let w: usize = if u < 0x80 {
            1
        } else if u < 0x800 {
            2
        } else if u < 0x10000 {
            3
        } else {
            4
        };
        assert(v@.take(i + 1).drop_last() =~= v@.take(i as int));
        if w > limit - total {
            proof {
                lemma_utf8_len_prefix(v@, i + 1);
            }
            return false;
        }
        total = total + w;
        i += 1;
    }
    assert(v@.take(v@.len() as int) =~= v@);
    true
}

proof fn lemma_utf8_len_prefix(s: Seq<char>, k: int)
    requires
        0 <= k <= s.len(),
    ensures
        utf8_len(s.take(k)) <= utf8_len(s),
    decreases s.len() - k,
{
    if k < s.len() {
        lemma_utf8_len_prefix(s, k + 1);
        assert(s.take(k + 1).drop_last() =~= s.take(k));
    } else {
        assert(s.take(k) =~= s);
    }
}

/// The extension of the file that a URL names, as stored in the cache: the
/// extension of its last path segment (query dropped) where it is at most
/// 8 bytes long, else "audio".
pub open spec fn url_extension(url: Seq<char>) -> Seq<char> {
    let path = first_piece(url, '?');
    let segment = path.skip(last_index(path, '/') + 1);
    match path_extension(segment) {
        Some(e) => if utf8_len(e) <= 8 {
            e
        } else {
            "audio"@
        },
        None => "audio"@,
    }
}

pub fn extension_from_url(url: &str) -> (r: String)
    ensures
        r@ == url_extension(url@),
{
    let v = chars_of(url);
    let path = first_piece_slice(v.as_slice(), '?');
    let start: usize = match crate::path::last_index_exec(path, '/') {
        Some(k) => {
            assert(k < path.len());
            k + 1
        },
        None => 0,
    };
    let segment = &path[start..path.len()];
    assert(segment@ =~= path@.skip(last_index(path@, '/') + 1));
    match extension_range(segment) {
        Some((a, b)) => {
            let ext = &segment[a..b];
            if utf8_len_at_most(ext, 8) {
                string_of(ext)
            } else {
                "audio".to_owned()
            }
        },
        None => "audio".to_owned(),
    }
}

/// How likely a cached song is to be played again.
#[derive(Debug, Clone, Copy, PartialEq, Eq, Structural)]
pub enum CacheCategory {
    Hot,
    Warm,
    Cold,
}

impl CacheCategory {
    pub open spec fn name(self) -> Seq<char> {
        match self {
            CacheCategory::Hot => "hot"@,
            CacheCategory::Warm => "warm"@,
            CacheCategory::Cold => "cold"@,
        }
    }

    pub fn as_str(&self) -> (r: &'static str)
        ensures
            r@ == self.name(),
    {
        match self {
            CacheCategory::Hot => "hot",
            CacheCategory::Warm => "warm",
            CacheCategory::Cold => "cold",
        }
    }
}

/// Fourteen days, in seconds.
pub const HOT_MAX_AGE_SECS: u64 = 1209600;

/// Forty-five days, in seconds.
pub const COLD_MIN_AGE_SECS: u64 = 3888000;

/// The category of an entry played `hits` times and last played `age_secs`
/// ago: hot with at least 8 plays within 14 days, cold when its score is low
/// (`score_low`, the score being a float kept outside this crate) or after 45
/// days, warm otherwise. (`age_secs / 86400.0 <= 14.0` holds exactly when
/// `age_secs <= 1209600`, and `>= 45.0` exactly when `age_secs >= 3888000`.)
pub open spec fn category_spec(hits: u64, age_secs: u64, score_low: bool) -> CacheCategory {
    if hits >= 8 && age_secs <= HOT_MAX_AGE_SECS {
        CacheCategory::Hot
    } else if score_low || age_secs >= COLD_MIN_AGE_SECS {
        CacheCategory::Cold
    } else {
        CacheCategory::Warm
    }
}

pub fn category_for(hits: u64, age_secs: u64, score_low: bool) -> (r: CacheCategory)
    ensures
        r == category_spec(hits, age_secs, score_low),
{
    if hits >= 8 && age_secs <= HOT_MAX_AGE_SECS {
        CacheCategory::Hot
    } else if score_low || age_secs >= COLD_MIN_AGE_SECS {
        CacheCategory::Cold
    } else {
        CacheCategory::Warm
    }
}

/// The sum of the sizes.
pub open spec fn sum_sizes(s: Seq<u64>) -> nat
    decreases s.len(),
{
    if s.len() == 0 {
        0
    } else {
        sum_sizes(s.drop_last()) + s.last() as nat
    }
}

pub proof fn lemma_sum_sizes_prefix(s: Seq<u64>, k: int)
    requires
        0 <= k <= s.len(),
    ensures
        sum_sizes(s.take(k)) <= sum_sizes(s),
    decreases s.len() - k,
{
    if k < s.len() {
        lemma_sum_sizes_prefix(s, k + 1);
        assert(s.take(k + 1).drop_last() =~= s.take(k));
    } else {
        assert(s.take(k) =~= s);
    }
}

/// How many entries, taken in eviction order (lowest score first), must go so
/// that the rest fits in `max_bytes`: the fewest that do it, or all of them.
pub fn eviction_count(sizes: &[u64], max_bytes: u64) -> (r: usize)
    requires
        sum_sizes(sizes@) <= u64::MAX,
    ensures
        r <= sizes@.len(),
        r == sizes@.len() || sum_sizes(sizes@) - sum_sizes(sizes@.take(r as int)) <= max_bytes,
        forall|k: int| 0 <= k < r ==> sum_sizes(sizes@) - sum_sizes(#[trigger] sizes@.take(k)) > max_bytes,
{
    let mut total: u64 = 0;
    let mut i: usize = 0;
    while i < sizes.len()
        invariant
            i <= sizes@.len(),
            total == sum_sizes(sizes@.take(i as int)),
            sum_sizes(sizes@) <= u64::MAX,
        decreases sizes@.len() - i,
    {
        proof {
            assert(sizes@.take(i + 1).drop_last() =~= sizes@.take(i as int));
            lemma_sum_sizes_prefix(sizes@, i + 1);
        }
        total = total + sizes[i];
        i += 1;
    }
    assert(sizes@.take(sizes@.len() as int) =~= sizes@);
    let mut removed: u64 = 0;
    let mut r: usize = 0;
    assert(sizes@.take(0) =~= Seq::<u64>::empty());
    while r < sizes.len() && total - removed > max_bytes
        invariant
            r <= sizes@.len(),
            total == sum_sizes(sizes@),
            removed == sum_sizes(sizes@.take(r as int)),
            removed <= total,
            forall|k: int| 0 <= k < r ==> sum_sizes(sizes@) - sum_sizes(#[trigger] sizes@.take(k)) > max_bytes,
        decreases sizes@.len() - r,
    {
        proof {
            assert(sizes@.take(r + 1).drop_last() =~= sizes@.take(r as int));
            lemma_sum_sizes_prefix(sizes@, r + 1);
        }
        removed = removed + sizes[r];
        r += 1;
    }
    r
}

/// An entry of the cache index.
#[derive(Debug)]
pub struct CacheEntry {
    pub url: String,
    pub file_name: String,
    pub content_type: String,
    pub size: u64,
    pub hits: u64,
    pub created_at: u64,
    pub last_access_at: u64,
    pub category: CacheCategory,
}

impl Clone for CacheEntry {
    fn clone(&self) -> (r: Self)
        ensures
            r == *self,
    {
        CacheEntry {
            url: self.url.clone(),
            file_name: self.file_name.clone(),
            content_type: self.content_type.clone(),
            size: self.size,
            hits: self.hits,
            created_at: self.created_at,
            last_access_at: self.last_access_at,
            category: self.category,
        }
    }
}

/// `a.saturating_add(1)`.
pub open spec fn plus_one(a: u64) -> u64 {
    if a == u64::MAX {
        a
    } else {
        (a + 1) as u64
    }
}

/// The entry recorded for a file just stored: one more play than before (one
/// for a new entry), the first creation time kept, last played now.
pub open spec fn recorded_spec(
    previous: Option<CacheEntry>,
    url: Seq<char>,
    file_name: Seq<char>,
    content_type: Seq<char>,
    size: u64,
    now: u64,
    score_low: bool,
) -> (u64, u64, CacheCategory) {
    let hits = match previous {
        Some(p) => plus_one(p.hits),
        None => 1u64,
    };
    let created_at = match previous {
        Some(p) => p.created_at,
        None => now,
    };
    (hits, created_at, category_spec(hits, 0, score_low))
}

pub fn recorded_entry(
    previous: Option<&CacheEntry>,
    url: &str,
    file_name: String,
    content_type: &str,
    size: u64,
    now: u64,
    score_low: bool,
) -> (r: CacheEntry)
    ensures
        r.url@ == url@,
        r.file_name@ == file_name@,
        r.content_type@ == content_type@,
        r.size == size,
        r.last_access_at == now,
        (r.hits, r.created_at, r.category) == recorded_spec(
            match previous {
                Some(p) => Some(*p),
                None => None,
            },
            url@,
            file_name@,
            content_type@,
            size,
            now,
            score_low,
        ),
{
    let hits = match previous {
        Some(p) => p.hits.saturating_add(1),
        None => 1,
    };
    let created_at = match previous {
        Some(p) => p.created_at,
        None => now,
    };
    CacheEntry {
        url: url.to_owned(),
        file_name,
        content_type: content_type.to_owned(),
        size,
        hits,
        created_at,
        last_access_at: now,
        category: category_for(hits, 0, score_low),
    }
}

/// The cache index: entries by key.
pub struct CacheIndex {
    entries: Vec<(String, CacheEntry)>,
}

pub open spec fn listing_of(v: Seq<(String, CacheEntry)>) -> Seq<(Seq<char>, CacheEntry)> {
    v.map_values(|e: (String, CacheEntry)| (e.0@, e.1))
}

impl View for CacheIndex {
    type V = Map<Seq<char>, CacheEntry>;

    closed spec fn view(&self) -> Map<Seq<char>, CacheEntry> {
        map_of(listing_of(self.entries@))
    }
}

/// How many of the entries are in `category`.
pub open spec fn count_category(s: Seq<(Seq<char>, CacheEntry)>, category: CacheCategory) -> nat
    decreases s.len(),
{
    if s.len() == 0 {
        0
    } else {
        count_category(s.drop_last(), category) + (if s.last().1.category == category {
            1nat
        } else {
            0nat
        })
    }
}

/// Every entry is in exactly one of the three categories.
pub proof fn lemma_categories_partition(s: Seq<(Seq<char>, CacheEntry)>)
    ensures
        count_category(s, CacheCategory::Hot) + count_category(s, CacheCategory::Warm)
            + count_category(s, CacheCategory::Cold) == s.len(),
    decreases s.len(),
{
    if s.len() > 0 {
        lemma_categories_partition(s.drop_last());
    }
}

/// The sum of the sizes of the entries.
pub open spec fn listing_bytes(s: Seq<(Seq<char>, CacheEntry)>) -> nat
    decreases s.len(),
{
    if s.len() == 0 {
        0
    } else {
        listing_bytes(s.drop_last()) + s.last().1.size as nat
    }
}

impl CacheIndex {
    #[verifier::type_invariant]
    spec fn keys_distinct(&self) -> bool {
        distinct_keys(listing_of(self.entries@))
    }

    /// The entries, each key once, in the order they were first stored.
    pub closed spec fn listing(&self) -> Seq<(Seq<char>, CacheEntry)> {
        listing_of(self.entries@)
    }

    pub fn new() -> (r: Self)
        ensures
            r@ == Map::<Seq<char>, CacheEntry>::empty(),
            r.listing().len() == 0,
    {
        let r = CacheIndex { entries: Vec::new() };
        assert(listing_of(r.entries@) =~= Seq::<(Seq<char>, CacheEntry)>::empty());
        r
    }

    fn position(&self, key: &String) -> (r: Option<usize>)
        ensures
            match r {
                Some(i) => i < self.entries@.len() && self.entries@[i as int].0@ == key@,
                None => forall|i: int|
                    0 <= i < self.entries@.len() ==> self.entries@[i].0@ != key@,
            },
    {
        let mut i: usize = 0;
        while i < self.entries.len()
            invariant
                i <= self.entries@.len(),
                forall|j: int| 0 <= j < i ==> self.entries@[j].0@ != key@,
            decreases self.entries@.len() - i,
        {
            if self.entries[i].0 == *key {
                return Some(i);
            }
            i += 1;
        }
        None
    }

    /// The entry stored under `key`.
    pub fn get(&self, key: &str) -> (r: Option<&CacheEntry>)
        ensures
            match r {
                Some(e) => self@.contains_key(key@) && self@[key@] == *e,
                None => !self@.contains_key(key@),
            },
    {
        proof {
            use_type_invariant(self);
        }
        let k = key.to_owned();
        let ghost s = listing_of(self.entries@);
        match self.position(&k) {
            Some(i) => {
                proof {
                    lemma_map_of_index(s, i as int);
                }
                Some(&self.entries[i].1)
            },
            None => {
                proof {
                    assert forall|j: int| 0 <= j < s.len() implies s[j].0 != key@ by {
                        assert(s[j].0 == self.entries@[j].0@);
                    }
                    lemma_map_of_absent(s, key@);
                }
                None
            },
        }
    }

    /// Stores `entry` under `key`, replacing what was there.
    pub fn insert(&mut self, key: String, entry: CacheEntry)
        ensures
            final(self)@ == old(self)@.insert(key@, entry),
    {
        proof {
            use_type_invariant(&*self);
        }
        let ghost s = listing_of(self.entries@);
        match self.position(&key) {
            Some(i) => {
                proof {
                    lemma_map_of_update(s, i as int, entry);
                }
                let mut entries: Vec<(String, CacheEntry)> = Vec::new();
                std::mem::swap(&mut entries, &mut self.entries);
                let k = entries[i].0.clone();
                entries.set(i, (k, entry));
                assert(listing_of(entries@) =~= s.update(i as int, (s[i as int].0, entry)));
                self.entries = entries;
            },
            None => {
                let mut entries: Vec<(String, CacheEntry)> = Vec::new();
                std::mem::swap(&mut entries, &mut self.entries);
                let ghost kv = key@;
                entries.push((key, entry));
                proof {
                    assert(listing_of(entries@) =~= s.push((kv, entry)));
                    lemma_map_of_push(s, (kv, entry));
                }
                self.entries = entries;
            },
        }
    }

    /// Takes the entry stored under `key` out.
    pub fn remove(&mut self, key: &str) -> (r: Option<CacheEntry>)
        ensures
            final(self)@ == old(self)@.remove(key@),
            match r {
                Some(e) => old(self)@.contains_key(key@) && old(self)@[key@] == e,
                None => !old(self)@.contains_key(key@),
            },
    {
        proof {
            use_type_invariant(&*self);
        }
        let ghost s = listing_of(self.entries@);
        let k = key.to_owned();
        match self.position(&k) {
            Some(i) => {
                proof {
                    lemma_map_of_index(s, i as int);
                    lemma_map_of_remove(s, i as int);
                }
                let mut entries: Vec<(String, CacheEntry)> = Vec::new();
                std::mem::swap(&mut entries, &mut self.entries);
                let (_, e) = entries.remove(i);
                assert(listing_of(entries@) =~= s.remove(i as int));
                self.entries = entries;
                Some(e)
            },
            None => {
                proof {
                    assert forall|j: int| 0 <= j < s.len() implies s[j].0 != key@ by {
                        assert(s[j].0 == self.entries@[j].0@);
                    }
                    lemma_map_of_absent(s, key@);
                    assert(self@.remove(key@) =~= self@);
                }
                None
            },
        }
    }

    /// How many entries there are.
    pub fn len(&self) -> (r: usize)
        ensures
            r == self@.dom().len(),
            r == self.listing().len(),
            map_of(self.listing()) == self@,
            distinct_keys(self.listing()),
    {
        proof {
            use_type_invariant(self);
            lemma_map_of_len(listing_of(self.entries@));
        }
        self.entries.len()
    }

    /// The sum of the entry sizes, saturated at `u64::MAX`.
    pub fn total_size(&self) -> (r: u64)
        ensures
            r == (if listing_bytes(self.listing()) <= u64::MAX {
                listing_bytes(self.listing())
            } else {
                u64::MAX as nat
            }),
    {
        let ghost s = listing_of(self.entries@);
        let mut total: u64 = 0;
        let mut saturated = false;
        let mut i: usize = 0;
        while i < self.entries.len()
            invariant
                i <= self.entries@.len(),
                s == listing_of(self.entries@),
                !saturated ==> total == listing_bytes(s.take(i as int)),
                saturated ==> total == u64::MAX && listing_bytes(s.take(i as int)) > u64::MAX,
            decreases self.entries@.len() - i,
        {
            assert(s.take(i + 1).drop_last() =~= s.take(i as int));
            let size = self.entries[i].1.size;
            if saturated || size > u64::MAX - total {
                saturated = true;
                total = u64::MAX;
            } else {
                total = total + size;
            }
            i += 1;
        }
        assert(s.take(s.len() as int) =~= s);
        total
    }

    /// How many entries are in `category`.
    pub fn count(&self, category: CacheCategory) -> (r: usize)
        ensures
            r == count_category(self.listing(), category),
    {
        let ghost s = listing_of(self.entries@);
        let mut n: usize = 0;
        let mut i: usize = 0;
        while i < self.entries.len()
            invariant
                i <= self.entries@.len(),
                s == listing_of(self.entries@),
                n == count_category(s.take(i as int), category),
                n <= i,
            decreases self.entries@.len() - i,
        {
            assert(s.take(i + 1).drop_last() =~= s.take(i as int));
            if self.entries[i].1.category == category {
                n += 1;
            }
            i += 1;
        }
        assert(s.take(s.len() as int) =~= s);
        n
    }

    /// The keys, in the order of the listing.
    pub fn keys(&self) -> (r: Vec<String>)
        ensures
            r@.len() == self.listing().len(),
            forall|i: int| 0 <= i < r@.len() ==> #[trigger] r@[i]@ == self.listing()[i].0,
    {
        let mut r: Vec<String> = Vec::new();
        let mut i: usize = 0;
        while i < self.entries.len()
            invariant
                i <= self.entries@.len(),
                r@.len() == i,
                forall|j: int| 0 <= j < i ==> #[trigger] r@[j]@ == self.entries@[j].0@,
            decreases self.entries@.len() - i,
        {
            r.push(self.entries[i].0.clone());
            i += 1;
        }
        r
    }
}

/// The file name under which a resource is stored: its key, a dot, and the
/// extension its URL names.
pub open spec fn cache_file_name_spec(key: Seq<char>, url: Seq<char>) -> Seq<char> {
    key + "."@ + url_extension(url)
}

pub fn cache_file_name(key: &str, url: &str) -> (r: String)
    ensures
        r@ == cache_file_name_spec(key@, url@),
{
    let mut s = key.to_owned();
    push_str(&mut s, ".");
    let ext = extension_from_url(url);
    push_str(&mut s, ext.as_str());
    s
}

/// The name of the file that a resource is streamed into before it is
/// stored: `key.ext.seq.part`, the sequence number telling apart concurrent
/// downloads of one resource.
pub open spec fn temp_file_name_spec(key: Seq<char>, url: Seq<char>, seq: u64) -> Seq<char> {
    cache_file_name_spec(key, url) + "."@ + crate::text::decimal(seq as nat) + ".part"@
}

pub fn temp_file_name(key: &str, url: &str, seq: u64) -> (r: String)
    ensures
        r@ == temp_file_name_spec(key@, url@, seq),
{
    let mut s = cache_file_name(key, url);
    push_str(&mut s, ".");
    let n = crate::text::decimal_string(seq);
    push_str(&mut s, n.as_str());
    push_str(&mut s, ".part");
    s
}

/// A response served from a stored file: status and headers, and the bytes
/// of the file that form the body.
#[derive(Debug)]
pub struct CachedBytes {
    pub status: u16,
    pub headers: Vec<(String, String)>,
    pub start: u64,
    pub len: u64,
}

/// The response from a stored file of `len` bytes: none for an empty file,
/// else the file response marked "hit".
pub fn cached_file_plan(content_type: &str, len: u64, range: Option<&str>) -> (r: Option<CachedBytes>)
    ensures
        len == 0 ==> r is None,
        len > 0 ==> (r matches Some(c) && c.status == file_span(len, opt_text(range)).0 && c.start
            == file_span(len, opt_text(range)).1 && c.len == span_len(
            len,
            c.start,
            file_span(len, opt_text(range)).2,
        ) && c.start + c.len <= len && pairs_view(c.headers@) == file_headers(
            content_type@,
            len,
            opt_text(range),
            "hit"@,
        )),
{
    if len == 0 {
        return None;
    }
    let plan = file_response_plan(content_type, len, range, "hit");
    Some(CachedBytes { status: plan.status, headers: plan.headers, start: plan.start, len: plan.read_len })
}

/// The entry after a play from the cache: one more play, last played now.
pub open spec fn touched_spec(e: CacheEntry, now: u64, score_low: bool) -> CacheEntry {
    CacheEntry {
        hits: plus_one(e.hits),
        last_access_at: now,
        category: category_spec(plus_one(e.hits), 0, score_low),
        ..e
    }
}

/// What became of a stored file, as seen from the file system.
#[derive(Debug, Clone, Copy)]
pub enum FileState {
    /// The file is gone.
    Missing,
    /// The file is there but cannot be opened or read.
    Unreadable,
    /// The file is there and readable, `len` bytes long.
    Present { len: u64 },
}

/// The outcome of a cache read: the response, if any, and whether the index
/// changed (so that it is written back later).
#[derive(Debug)]
pub struct CacheRead {
    pub response: Option<CachedBytes>,
    pub changed: bool,
}

/// The entry that a read of `key` is served from: the one the index holds
/// there, while the cache is on and its file is there and not empty.
pub open spec fn read_hit(
    config: CacheConfig,
    m: Map<Seq<char>, CacheEntry>,
    key: Seq<char>,
    file: FileState,
) -> Option<CacheEntry> {
    if config.enabled && m.contains_key(key) && (file matches FileState::Present { len } && len > 0) {
        Some(m[key])
    } else {
        None
    }
}

/// Serves `url` from the cache: nothing while the cache is off or the key is
/// unknown; a key whose file is gone is dropped from the index; a readable,
/// non-empty file answers the request and counts as one more play.
pub fn try_read(
    config: &CacheConfig,
    index: &mut CacheIndex,
    url: &str,
    range: Option<&str>,
    cache_id: Option<&str>,
    file: FileState,
    now: u64,
    score_low: bool,
) -> (r: CacheRead)
    ensures
        (r.response is Some) == (read_hit(
            *config,
            old(index)@,
            cache_key_spec(opt_text(cache_id), url@),
            file,
        ) is Some),
        ({
            let key = cache_key_spec(opt_text(cache_id), url@);
            if !config.enabled || !old(index)@.contains_key(key) {
                r.response is None && !r.changed && final(index)@ == old(index)@
            } else {
                let entry = old(index)@[key];
                match file {
                    FileState::Missing => r.response is None && r.changed && final(index)@
                        == old(index)@.remove(key),
                    FileState::Unreadable => r.response is None && !r.changed && final(index)@
                        == old(index)@,
                    FileState::Present { len } => if len == 0 {
                        r.response is None && !r.changed && final(index)@ == old(index)@
                    } else {
                        r.changed && final(index)@ == old(index)@.insert(
                            key,
                            touched_spec(entry, now, score_low),
                        ) && (r.response matches Some(c) && c.status == file_span(
                            len,
                            opt_text(range),
                        ).0 && c.start == file_span(len, opt_text(range)).1 && c.len == span_len(
                            len,
                            c.start,
                            file_span(len, opt_text(range)).2,
                        ) && pairs_view(c.headers@) == file_headers(
                            entry.content_type@,
                            len,
                            opt_text(range),
                            "hit"@,
                        ))
                    },
                }
            }
        }),
{
    if !config.enabled {
        return CacheRead { response: None, changed: false };
    }
    let key = cache_key_for(cache_id, url);
    let entry = match index.get(key.as_str()) {
        Some(e) => e.clone(),
        None => return CacheRead { response: None, changed: false },
    };
    match file {
        FileState::Missing => {
            index.remove(key.as_str());
            CacheRead { response: None, changed: true }
        },
        FileState::Unreadable => CacheRead { response: None, changed: false },
        FileState::Present { len } => {
            let response = cached_file_plan(entry.content_type.as_str(), len, range);
            if response.is_none() {
                return CacheRead { response: None, changed: false };
            }
            let hits = entry.hits.saturating_add(1);
            let touched = CacheEntry {
                hits,
                last_access_at: now,
                category: category_for(hits, 0, score_low),
                ..entry
            };
            index.insert(key, touched);
            CacheRead { response, changed: true }
        },
    }
}

/// Records a file just stored under `key`.
pub fn record_entry(
    index: &mut CacheIndex,
    key: String,
    url: &str,
    file_name: String,
    content_type: &str,
    size: u64,
    now: u64,
    score_low: bool,
)
    ensures
        final(index)@.contains_key(key@),
        final(index)@ == old(index)@.insert(key@, final(index)@[key@]),
        final(index)@[key@].url@ == url@,
        final(index)@[key@].file_name@ == file_name@,
        final(index)@[key@].content_type@ == content_type@,
        final(index)@[key@].size == size,
        final(index)@[key@].last_access_at == now,
        ({
            let e = final(index)@[key@];
            (e.hits, e.created_at, e.category) == recorded_spec(
                if old(index)@.contains_key(key@) {
                    Some(old(index)@[key@])
                } else {
                    None
                },
                url@,
                file_name@,
                content_type@,
                size,
                now,
                score_low,
            )
        }),
{
    let entry = {
        let previous = index.get(key.as_str());
        recorded_entry(previous, url, file_name, content_type, size, now, score_low)
    };
    index.insert(key, entry);
}

/// The numbers that the settings page shows.
#[derive(Debug)]
pub struct CacheStats {
    pub enabled: bool,
    pub directory: String,
    pub max_bytes: u64,
    pub total_bytes: u64,
    pub entry_count: usize,
    pub hot_count: usize,
    pub warm_count: usize,
    pub cold_count: usize,
}

/// The statistics of `index`, kept in `directory` under `config`.
pub fn cache_stats(config: &CacheConfig, directory: String, index: &CacheIndex) -> (r: CacheStats)
    ensures
        r.enabled == config.enabled,
        r.directory@ == directory@,
        r.max_bytes == config.max_bytes,
        r.total_bytes == (if listing_bytes(index.listing()) <= u64::MAX {
            listing_bytes(index.listing())
        } else {
            u64::MAX as nat
        }),
        r.entry_count == index@.dom().len(),
        r.hot_count == count_category(index.listing(), CacheCategory::Hot),
        r.warm_count == count_category(index.listing(), CacheCategory::Warm),
        r.cold_count == count_category(index.listing(), CacheCategory::Cold),
        r.entry_count == index.listing().len(),
        r.hot_count + r.warm_count + r.cold_count == r.entry_count,
{
    proof {
        lemma_categories_partition(index.listing());
    }
    CacheStats {
        enabled: config.enabled,
        directory,
        max_bytes: config.max_bytes,
        total_bytes: index.total_size(),
        entry_count: index.len(),
        hot_count: index.count(CacheCategory::Hot),
        warm_count: index.count(CacheCategory::Warm),
        cold_count: index.count(CacheCategory::Cold),
    }
}

/// The key under which an offline lookup of `cache_id` searches: none for a
/// blank id or while the cache is off.
pub fn lookup_key(cache_id: &str, enabled: bool) -> (r: Option<String>)
    ensures
        (trim(cache_id@).len() == 0 || !enabled) ==> r is None,
        (trim(cache_id@).len() > 0 && enabled) ==> (r matches Some(k) && k@ == cache_key_spec(
            Some(trim(cache_id@)),
            ""@,
        )),
{
    let v = chars_of(cache_id);
    let t = trim_slice(v.as_slice());
    if t.len() == 0 || !enabled {
        return None;
    }
    let id = string_of(t);
    Some(cache_key_for(Some(id.as_str()), ""))
}

/// Where an offline lookup finds the audio of `entry`: nothing for an empty
/// entry, else its file in `dir`.
pub fn lookup_path(dir: &str, entry: &CacheEntry) -> (r: Option<String>)
    ensures
        entry.size == 0 ==> r is None,
        entry.size > 0 ==> (r matches Some(p) && p@ == join_path(dir@, entry.file_name@)),
{
    if entry.size == 0 {
        return None;
    }
    Some(join(dir, entry.file_name.as_str()))
}

/// A stable id keys the cache by itself: every URL of the same song, however
/// its signature changes, maps to one key.
pub proof fn lemma_stable_id_ignores_url(id: Seq<char>, url1: Seq<char>, url2: Seq<char>)
    requires
        trim(id).len() > 0,
    ensures
        cache_key_spec(Some(id), url1) == cache_key_spec(Some(id), url2),
{
}

/// An id is keyed by its trimmed text: trimming it first gives the same key.
pub proof fn lemma_id_is_trimmed(id: Seq<char>, url: Seq<char>)
    ensures
        cache_key_spec(Some(id), url) == cache_key_spec(Some(trim(id)), url),
{
    crate::text::lemma_trim_idem(id);
}

/// A blank id is no id: the key falls back to the URL.
pub proof fn lemma_blank_id_keys_by_url(id: Seq<char>, url: Seq<char>)
    requires
        trim(id).len() == 0,
    ensures
        cache_key_spec(Some(id), url) == cache_key_spec(None, url),
{
}

/// What is stored is served: an entry just put under a key is the one a read
/// of that key is served from, while the cache is on and its file is there
/// and not empty.
pub proof fn lemma_stored_entry_is_served(
    config: CacheConfig,
    m: Map<Seq<char>, CacheEntry>,
    key: Seq<char>,
    e: CacheEntry,
    len: u64,
)
    requires
        config.enabled,
        len > 0,
    ensures
        read_hit(config, m.insert(key, e), key, FileState::Present { len }) == Some(e),
{
}

} // verus!
