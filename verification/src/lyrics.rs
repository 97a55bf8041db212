//! LRC lyrics: parsing, aligning a translation track, and following the
//! playback position.
//!
//! Times are whole milliseconds. A fraction with more than three digits is
//! truncated to milliseconds.
use vstd::prelude::*;
use crate::decimal::{all_digits_slice, millis_of_minutes, millis_of_seconds, number_millis};
use crate::text::{
    all_digits, digits_value, find_char, find_char_exec, is_digit, is_digit_char, is_ws,
    parse_u64, parse_u64_exec, skip_ws, string_of, trim, trim_range, trim_start, opt_str,
    opt_text,
};

verus! {

/// One timed line of lyrics. `translation` is filled in by `merge_translation`.
pub struct LyricLine {
    pub millis: u64,
    pub text: String,
    pub translation: Option<String>,
}

impl Clone for LyricLine {
    fn clone(&self) -> (r: Self)
        ensures
            r.model() == self.model(),
    {
        LyricLine {
            millis: self.millis,
            text: self.text.clone(),
            translation: match &self.translation {
                Some(t) => Some(t.clone()),
                None => None,
            },
        }
    }
}

/// The mathematical content of a `LyricLine`.
pub struct LineModel {
    pub millis: u64,
    pub text: Seq<char>,
    pub translation: Option<Seq<char>>,
}

impl LyricLine {
    pub open spec fn model(self) -> LineModel {
        LineModel { millis: self.millis, text: self.text@, translation: opt_str(self.translation) }
    }
}

pub open spec fn models(v: Seq<LyricLine>) -> Seq<LineModel> {
    v.map_values(|l: LyricLine| l.model())
}

/// How far apart (in milliseconds) a translated line may be from the line it
/// is attached to.
pub const TRANSLATION_TOLERANCE_MS: u64 = 300;

/// Milliseconds spelled by the digits after the decimal separator.
pub open spec fn fraction_millis(d: Seq<char>) -> nat {
    if d.len() == 1 {
        digits_value(d) * 100
    } else if d.len() == 2 {
        digits_value(d) * 10
    } else {
        digits_value(d.take(3))
    }
}

/// Position of the first `.` or `:` in `s` (or `s.len()`).
pub open spec fn sep_index(s: Seq<char>) -> int {
    let a = find_char(s, '.', 0);
    let b = find_char(s, ':', 0);
    if a <= b {
        a
    } else {
        b
    }
}

/// The time that a bracket body such as `mm:ss`, `mm:ss.xx` or `mm:ss.xxx`
/// stands for, in milliseconds. Minutes and seconds are read as numbers the
/// way `f64::from_str` reads finite ones (so `1.5:00` and `00:1e1` are times;
/// `inf` and `nan` are not), each rounded down to whole milliseconds.
/// Anything else (a metadata tag like `ti:title`) is `None`.
pub open spec fn parse_timestamp_spec(body: Seq<char>) -> Option<u64> {
    let c = find_char(body, ':', 0);
    if c >= body.len() {
        None
    } else {
        match millis_of_minutes(trim(body.take(c))) {
            None => None,
            Some(mm) => {
                let rest = trim(body.skip(c + 1));
                let k = sep_index(rest);
                match millis_of_seconds(rest.take(k)) {
                    None => None,
                    Some(ss) => {
                        let frac: Option<nat> = if k >= rest.len() {
                            Some(0)
                        } else {
                            let d = rest.skip(k + 1);
                            if d.len() > 0 && all_digits(d) {
                                Some(fraction_millis(d))
                            } else {
                                None
                            }
                        };
                        match frac {
                            None => None,
                            Some(f) => {
                                let t = mm + ss + f;
                                if t <= u64::MAX {
                                    Some(t as u64)
                                } else {
                                    None
                                }
                            },
                        }
                    },
                }
            },
        }
    }
}

pub proof fn lemma_trim_start_len(s: Seq<char>)
    ensures
        trim_start(s).len() <= s.len(),
    decreases s.len(),
{
    if s.len() > 0 && is_ws(s[0]) {
        lemma_trim_start_len(s.drop_first());
    }
}

/// The leading `[...]` groups of a line: the timestamps among them, in order,
/// and the text that follows them. A `[` without a closing `]` ends the scan.
pub open spec fn scan_stamps(rest: Seq<char>) -> (Seq<u64>, Seq<char>)
    decreases rest.len(),
{
    if rest.len() > 0 && rest[0] == '[' {
        let body = rest.drop_first();
        let end = find_char(body, ']', 0);
        if end >= body.len() {
            (seq![], rest)
        } else {
            proof {
                crate::text::lemma_find_char_bounds(body, ']', 0);
                lemma_trim_start_len(body.skip(end + 1));
            }
            let next = trim_start(body.skip(end + 1));
            let inner = scan_stamps(next);
            match parse_timestamp_spec(body.take(end)) {
                Some(t) => (seq![t] + inner.0, inner.1),
                None => inner,
            }
        }
    } else {
        (seq![], rest)
    }
}

/// The lines that one line of LRC text yields: one per timestamp, all with
/// the same trimmed text.
pub open spec fn line_entries(line: Seq<char>) -> Seq<LineModel> {
    let scanned = scan_stamps(trim_start(line));
    scanned.0.map_values(|t: u64| LineModel { millis: t, text: trim(scanned.1), translation: None })
}

/// The entries of the text lines of `s` from position `i` on, in text order.
pub open spec fn entries_from(s: Seq<char>, i: int) -> Seq<LineModel>
    decreases s.len() + 1 - i,
{
    if i < 0 || i > s.len() {
        seq![]
    } else {
        proof {
            crate::text::lemma_find_char_bounds(s, '\n', i);
        }
        let j = find_char(s, '\n', i);
        line_entries(s.subrange(i, j)) + entries_from(s, j + 1)
    }
}

/// Stable insertion of `e` into `s`: after every element whose time is not
/// later than the time of `e`, counted from the end.
pub open spec fn insert_by_time(s: Seq<LineModel>, e: LineModel) -> Seq<LineModel>
    decreases s.len(),
{
    if s.len() == 0 || s.last().millis <= e.millis {
        s.push(e)
    } else {
        insert_by_time(s.drop_last(), e).push(s.last())
    }
}

/// Stable sort by time.
pub open spec fn sort_by_time(s: Seq<LineModel>) -> Seq<LineModel>
    decreases s.len(),
{
    if s.len() == 0 {
        s
    } else {
        insert_by_time(sort_by_time(s.drop_last()), s.last())
    }
}

proof fn lemma_insert_sorted(s: Seq<LineModel>, e: LineModel)
    requires
        sorted_by_time(s),
    ensures
        sorted_by_time(insert_by_time(s, e)),
        insert_by_time(s, e).len() == s.len() + 1,
        forall|i: int|
            0 <= i < insert_by_time(s, e).len() ==> #[trigger] insert_by_time(s, e)[i] == e
                || exists|j: int| 0 <= j < s.len() && s[j] == insert_by_time(s, e)[i],
    decreases s.len(),
{
    if s.len() == 0 || s.last().millis <= e.millis {
        let r = s.push(e);
        assert forall|i: int| 0 <= i < r.len() implies #[trigger] r[i] == e
            || exists|j: int| 0 <= j < s.len() && s[j] == r[i] by {
            if i < s.len() {
                assert(s[i] == r[i]);
            }
        }
    } else {
        let t = s.drop_last();
        assert(sorted_by_time(t)) by {
            assert forall|i: int, j: int| 0 <= i <= j < t.len() implies t[i].millis <= t[j].millis by {
                assert(t[i] == s[i] && t[j] == s[j]);
            }
        }
        lemma_insert_sorted(t, e);
        let u = insert_by_time(t, e);
        let r = u.push(s.last());
        assert forall|i: int| 0 <= i < u.len() implies (#[trigger] u[i]).millis <= s.last().millis by {
            if u[i] != e {
                let j = choose|j: int| 0 <= j < t.len() && t[j] == u[i];
                assert(t[j] == s[j]);
            }
        }
        assert forall|i: int| 0 <= i < r.len() implies #[trigger] r[i] == e
            || exists|j: int| 0 <= j < s.len() && s[j] == r[i] by {
            if i < u.len() {
                assert(r[i] == u[i]);
                if u[i] != e {
                    let j = choose|j: int| 0 <= j < t.len() && t[j] == u[i];
                    assert(s[j] == t[j]);
                }
            } else {
                assert(r[i] == s[s.len() - 1]);
            }
        }
        assert forall|i: int, j: int| 0 <= i <= j < r.len() implies r[i].millis <= r[j].millis by {
            if j == u.len() {
                if i < u.len() {
                    assert(r[i] == u[i]);
                }
            } else {
                assert(r[i] == u[i] && r[j] == u[j]);
            }
        }
    }
}

/// Sorting by time gives a sequence sorted by time.
pub proof fn lemma_sort_sorted(s: Seq<LineModel>)
    ensures
        sorted_by_time(sort_by_time(s)),
        sort_by_time(s).len() == s.len(),
    decreases s.len(),
{
    if s.len() > 0 {
        lemma_sort_sorted(s.drop_last());
        lemma_insert_sorted(sort_by_time(s.drop_last()), s.last());
    }
}

/// What `parse` gives back for the text `raw`.
pub open spec fn parse_spec(raw: Seq<char>) -> Seq<LineModel> {
    sort_by_time(entries_from(raw, 0))
}

pub open spec fn sorted_by_time(s: Seq<LineModel>) -> bool {
    forall|i: int, j: int| 0 <= i <= j < s.len() ==> s[i].millis <= s[j].millis
}

/// A text with no white space at either end (a `\r` of a Windows line end,
/// spaces before or after the words): trimming leaves it as it is.
pub open spec fn bare_text(t: Seq<char>) -> bool {
    &&& trim(t) == t
    &&& t.len() == 0 || (!is_ws(t[0]) && !is_ws(t.last()))
}

pub open spec fn all_bare(s: Seq<LineModel>) -> bool {
    forall|i: int| 0 <= i < s.len() ==> bare_text(#[trigger] s[i].text)
}

proof fn lemma_text_trim_is_bare(s: Seq<char>)
    ensures
        bare_text(trim(s)),
{
    crate::text::lemma_trim_idem(s);
    crate::text::lemma_trim_bare(s);
}

proof fn lemma_line_entries_bare(line: Seq<char>)
    ensures
        all_bare(line_entries(line)),
{
    let scanned = scan_stamps(trim_start(line));
    lemma_text_trim_is_bare(scanned.1);
    let es = line_entries(line);
    assert forall|i: int| 0 <= i < es.len() implies bare_text(#[trigger] es[i].text) by {
        assert(es[i].text == trim(scanned.1));
    }
}

proof fn lemma_concat_bare(a: Seq<LineModel>, b: Seq<LineModel>)
    requires
        all_bare(a),
        all_bare(b),
    ensures
        all_bare(a + b),
{
    let c = a + b;
    assert forall|k: int| 0 <= k < c.len() implies bare_text(#[trigger] c[k].text) by {
        if k < a.len() {
            assert(c[k] == a[k]);
        } else {
            assert(c[k] == b[k - a.len()]);
        }
    }
}

proof fn lemma_entries_from_bare(s: Seq<char>, i: int)
    ensures
        all_bare(entries_from(s, i)),
    decreases s.len() + 1 - i,
{
    if 0 <= i <= s.len() {
        crate::text::lemma_find_char_bounds(s, '\n', i);
        let j = find_char(s, '\n', i);
        lemma_line_entries_bare(s.subrange(i, j));
        lemma_entries_from_bare(s, j + 1);
        lemma_concat_bare(line_entries(s.subrange(i, j)), entries_from(s, j + 1));
    }
}

proof fn lemma_insert_bare(s: Seq<LineModel>, e: LineModel)
    requires
        all_bare(s),
        bare_text(e.text),
    ensures
        all_bare(insert_by_time(s, e)),
    decreases s.len(),
{
    if s.len() == 0 || s.last().millis <= e.millis {
        let r = s.push(e);
        assert forall|k: int| 0 <= k < r.len() implies bare_text(#[trigger] r[k].text) by {
            if k < s.len() {
                assert(r[k] == s[k]);
            }
        }
    } else {
        let t = s.drop_last();
        assert(all_bare(t)) by {
            assert forall|k: int| 0 <= k < t.len() implies bare_text(#[trigger] t[k].text) by {
                assert(t[k] == s[k]);
            }
        }
        lemma_insert_bare(t, e);
        let u = insert_by_time(t, e);
        let r = u.push(s.last());
        assert(bare_text(s[s.len() - 1].text));
        assert forall|k: int| 0 <= k < r.len() implies bare_text(#[trigger] r[k].text) by {
            if k < u.len() {
                assert(r[k] == u[k]);
            }
        }
    }
}

proof fn lemma_sort_bare(s: Seq<LineModel>)
    requires
        all_bare(s),
    ensures
        all_bare(sort_by_time(s)),
    decreases s.len(),
{
    if s.len() > 0 {
        let t = s.drop_last();
        assert(all_bare(t)) by {
            assert forall|k: int| 0 <= k < t.len() implies bare_text(#[trigger] t[k].text) by {
                assert(t[k] == s[k]);
            }
        }
        lemma_sort_bare(t);
        assert(bare_text(s[s.len() - 1].text));
        lemma_insert_bare(sort_by_time(t), s.last());
    }
}

/// The text of every parsed line is trimmed: the white space after the
/// timestamps and at the end of the line (a `\r` of a Windows line end
/// among it) is not part of the lyric.
pub proof fn lemma_parsed_text_trimmed(raw: Seq<char>)
    ensures
        forall|i: int|
            0 <= i < parse_spec(raw).len() ==> bare_text(#[trigger] parse_spec(raw)[i].text),
{
    lemma_entries_from_bare(raw, 0);
    lemma_sort_bare(entries_from(raw, 0));
}

fn fraction_millis_exec(d: &[char]) -> (r: u64)
    requires
        d@.len() > 0,
        all_digits(d@),
    ensures
        r == fraction_millis(d@),
{
    let n: usize = if d.len() >= 3 {
        3
    } else {
        d.len()
    };
    let head = &d[0..n];
    proof {
        assert(all_digits(head@));
        lemma_digits_value_bound(head@);
    }
    let value = match parse_u64_exec(head) {
        Some(v) => v,
        None => {
            assert(false);
            0
        },
    };
    proof {
        assert(head@ =~= d@.take(3) || n == d@.len());
        if n == d@.len() {
            assert(head@ =~= d@);
        }
    }
    if n == 1 {
        value * 100
    } else if n == 2 {
        value * 10
    } else {
        value
    }
}

pub open spec fn pow10(n: nat) -> nat
    decreases n,
{
    if n == 0 {
        1
    } else {
        10 * pow10((n - 1) as nat)
    }
}

/// A run of `n` digits is worth less than `10^n`.
proof fn lemma_digits_value_pow(s: Seq<char>)
    requires
        all_digits(s),
    ensures
        digits_value(s) < pow10(s.len()),
    decreases s.len(),
{
    if s.len() > 0 {
        let t = s.drop_last();
        assert(all_digits(t)) by {
            assert forall|i: int| 0 <= i < t.len() implies is_digit(#[trigger] t[i]) by {
                assert(t[i] == s[i]);
            }
        }
        lemma_digits_value_pow(t);
        assert(is_digit(s[s.len() - 1]));
        let d = ((s.last() as u32) - ('0' as u32)) as nat;
        assert(d <= 9);
        let a = digits_value(t);
        let p = pow10(t.len());
        assert(a * 10 + d < p * 10) by (nonlinear_arith)
            requires a < p, d <= 9;
    }
}

/// Runs of at most three digits have values below 1000.
proof fn lemma_digits_value_bound(s: Seq<char>)
    requires
        s.len() <= 3,
        all_digits(s),
    ensures
        digits_value(s) < 1000,
        s.len() > 0 ==> parse_u64(s) == Some(digits_value(s) as u64),
{
    lemma_digits_value_pow(s);
    assert(pow10(0) == 1);
    assert(pow10(1) == 10);
    assert(pow10(2) == 100);
    assert(pow10(3) == 1000);
    if s.len() > 0 {
        assert(is_digit(s[0]));
    }
}

/// Parses one bracket body into a time.
pub fn parse_timestamp(body: &[char]) -> (r: Option<u64>)
    ensures
        r == parse_timestamp_spec(body@),
{
    let c = find_char_exec(body, ':', 0);
    if c >= body.len() {
        return None;
    }
    let (ma, mb) = trim_range(body, 0, c);
    assert(body@.take(c as int) =~= body@.subrange(0, c as int));
    let minutes = match number_millis(&body[ma..mb], true) {
        Some(m) => m,
        None => {
            return None;
        },
    };
    let (ra, rb) = trim_range(body, c + 1, body.len());
    assert(body@.skip(c + 1) =~= body@.subrange(c + 1, body@.len() as int));
    let rest = &body[ra..rb];
    let ghost rest_spec = trim(body@.skip(c + 1));
    assert(rest@ == rest_spec);
    let k1 = find_char_exec(rest, '.', 0);
    let k2 = find_char_exec(rest, ':', 0);
    let k = if k1 <= k2 {
        k1
    } else {
        k2
    };
    assert(k == sep_index(rest@));
    assert(rest@.take(k as int) =~= rest@.subrange(0, k as int));
    let seconds = match number_millis(&rest[0..k], false) {
        Some(s) => s,
        None => {
            return None;
        },
    };
    let frac: u64 = if k >= rest.len() {
        0
    } else {
        let d = &rest[k + 1..rest.len()];
        assert(d@ =~= rest@.skip(k + 1));
        if d.len() == 0 || !all_digits_slice(d) {
            return None;
        }
        fraction_millis_exec(d)
    };
    let ab = match minutes.checked_add(seconds) {
        Some(x) => x,
        None => {
            return None;
        },
    };
    match ab.checked_add(frac) {
        Some(t) => Some(t),
        None => None,
    }
}

/// Scans the bracket groups at the start of `line[start..]`, which has no
/// leading white space. Gives the timestamps and where the text begins.
fn scan_stamps_exec(line: &[char], start: usize) -> (r: (Vec<u64>, usize))
    requires
        start <= line@.len(),
        line@.skip(start as int) == trim_start(line@.skip(start as int)),
    ensures
        r.1 <= line@.len(),
        r.0@ == scan_stamps(line@.skip(start as int)).0,
        line@.skip(r.1 as int) == scan_stamps(line@.skip(start as int)).1,
{
    let len = line.len();
    let mut stamps: Vec<u64> = Vec::new();
    let mut p = start;
    let ghost whole = scan_stamps(line@.skip(start as int));
    loop
        invariant
            len == line@.len(),
            p <= len,
            stamps@ + scan_stamps(line@.skip(p as int)).0 == whole.0,
            scan_stamps(line@.skip(p as int)).1 == whole.1,
        ensures
            p <= len,
            stamps@ == whole.0,
            line@.skip(p as int) == whole.1,
        decreases len - p,
    {
        let ghost rest = line@.skip(p as int);
        if p < len && line[p] == '[' {
            let body = &line[p + 1..len];
            assert(body@ =~= rest.drop_first());
            let end = find_char_exec(body, ']', 0);
            if end >= body.len() {
                proof {
                    assert(scan_stamps(rest).0 =~= Seq::<u64>::empty());
                    assert(stamps@ + scan_stamps(rest).0 =~= stamps@);
                }
                break;
            }
            let inner = &body[0..end];
            assert(inner@ =~= body@.take(end as int));
            let ts = parse_timestamp(inner);
            let q = p + 1 + end + 1;
            let np = skip_ws(line, q, len);
            proof {
                assert(line@.subrange(q as int, len as int) =~= body@.skip(end + 1));
                assert(line@.skip(np as int) =~= line@.subrange(np as int, len as int));
            }
            let ghost next = scan_stamps(line@.skip(np as int));
            match ts {
                Some(t) => {
                    proof {
                        assert(scan_stamps(rest).0 == seq![t] + next.0);
                        assert(stamps@.push(t) + next.0 =~= stamps@ + (seq![t] + next.0));
                    }
                    stamps.push(t);
                },
                None => {},
            }
            p = np;
        } else {
            proof {
                assert(scan_stamps(rest).0 =~= Seq::<u64>::empty());
                assert(stamps@ + scan_stamps(rest).0 =~= stamps@);
            }
            break;
        }
    }
    (stamps, p)
}

/// Inserts `e` into `v` by time, after every line that is not later.
fn insert_line(v: &mut Vec<LyricLine>, e: LyricLine)
    ensures
        models(final(v)@) == insert_by_time(models(old(v)@), e.model()),
{
    let mut k = v.len();
    while k > 0 && v[k - 1].millis > e.millis
        invariant
            k <= v@.len(),
            forall|j: int| k <= j < v@.len() ==> v@[j].millis > e.millis,
        decreases k,
    {
        k -= 1;
    }
    let ghost m = models(v@);
    proof {
        lemma_insert_by_time_at(m, e.model(), k as int);
    }
    v.insert(k, e);
    assert(models(v@) =~= m.insert(k as int, e.model()));
}

proof fn lemma_insert_by_time_at(s: Seq<LineModel>, e: LineModel, k: int)
    requires
        0 <= k <= s.len(),
        forall|j: int| k <= j < s.len() ==> s[j].millis > e.millis,
        k == 0 || s[k - 1].millis <= e.millis,
    ensures
        insert_by_time(s, e) == s.insert(k, e),
    decreases s.len(),
{
    if s.len() == 0 {
        assert(s.insert(k, e) =~= s.push(e));
    } else if s.last().millis <= e.millis {
        assert(k == s.len());
        assert(s.insert(k, e) =~= s.push(e));
    } else {
        let t = s.drop_last();
        lemma_insert_by_time_at(t, e, k);
        assert(t.insert(k, e).push(s.last()) =~= s.insert(k, e));
    }
}

/// Parses a whole LRC text: one line per timestamp, sorted by time (lines
/// with equal times keep their text order); lines without a timestamp and
/// metadata tags such as `[ti:...]` are dropped.
pub fn parse(raw: &str) -> (r: Vec<LyricLine>)
    ensures
        models(r@) == parse_spec(raw@),
        sorted_by_time(models(r@)),
{
    proof {
        lemma_sort_sorted(entries_from(raw@, 0));
    }
    let v = crate::text::chars_of(raw);
    let n = v.len();
    let mut out: Vec<LyricLine> = Vec::new();
    let ghost mut acc: Seq<LineModel> = seq![];
    let mut i: usize = 0;
    assert(models(out@) =~= sort_by_time(acc));
    loop
        invariant_except_break
            i <= n,
            acc + entries_from(v@, i as int) == entries_from(v@, 0),
        invariant
            n == v@.len(),
            models(out@) == sort_by_time(acc),
        ensures
            acc == entries_from(v@, 0),
        decreases n - i,
    {
        let j = find_char_exec(v.as_slice(), '\n', i);
        let line = &v[i..j];
        let ll = line.len();
        let a = skip_ws(line, 0, ll);
        proof {
            assert(line@.subrange(0, ll as int) =~= line@);
            assert(line@.skip(a as int) =~= line@.subrange(a as int, ll as int));
            lemma_trim_start_idem(line@);
        }
        let (stamps, tpos) = scan_stamps_exec(line, a);
        let ghost entries = line_entries(line@);
        let ghost acc_before = acc;
        if stamps.len() > 0 {
            let (ta, tb) = trim_range(line, tpos, ll);
            assert(line@.skip(tpos as int) =~= line@.subrange(tpos as int, ll as int));
            let text = string_of(&line[ta..tb]);
            let mut k: usize = 0;
            while k < stamps.len()
                invariant
                    k <= stamps@.len(),
                    entries == stamps@.map_values(
                        |t: u64| LineModel { millis: t, text: text@, translation: None },
                    ),
                    acc == acc_before + entries.take(k as int),
                    models(out@) == sort_by_time(acc),
                decreases stamps@.len() - k,
            {
                let e = LyricLine { millis: stamps[k], text: text.clone(), translation: None };
                proof {
                    assert(e.model() == entries[k as int]);
                }
                insert_line(&mut out, e);
                proof {
                    let old_acc = acc;
                    acc = acc.push(entries[k as int]);
                    assert(acc.drop_last() =~= old_acc);
                    assert(acc =~= acc_before + entries.take(k + 1));
                }
                k += 1;
            }
            assert(entries.take(stamps@.len() as int) =~= entries);
        } else {
            assert(entries =~= Seq::<LineModel>::empty());
            assert(acc =~= acc_before + entries);
        }
        proof {
            assert(v@.subrange(i as int, j as int) =~= line@);
            assert(entries_from(v@, i as int) == entries + entries_from(v@, j + 1));
            assert(acc_before + entries + entries_from(v@, j + 1) =~= acc_before + (entries
                + entries_from(v@, j + 1)));
        }
        if j >= n {
            proof {
                assert(entries_from(v@, j + 1) =~= Seq::<LineModel>::empty());
                assert(acc + entries_from(v@, j + 1) =~= acc);
                assert(acc == entries_from(v@, 0));
            }
            break;
        }
        i = j + 1;
    }
    out
}

proof fn lemma_trim_start_idem(s: Seq<char>)
    ensures
        trim_start(trim_start(s)) == trim_start(s),
    decreases s.len(),
{
    if s.len() > 0 && is_ws(s[0]) {
        lemma_trim_start_idem(s.drop_first());
    }
}

/// Distance between two times, in milliseconds.
pub open spec fn dist(a: u64, b: u64) -> int {
    if a >= b {
        a - b
    } else {
        b - a
    }
}

/// Line `i` is the line that a translation at time `t` attaches to: it is
/// within the tolerance, every earlier line is strictly farther, and no later
/// line is nearer.
pub open spec fn is_best(lines: Seq<LineModel>, t: u64, i: int) -> bool {
    &&& 0 <= i < lines.len()
    &&& dist(lines[i].millis, t) <= TRANSLATION_TOLERANCE_MS
    &&& forall|j: int| 0 <= j < i ==> dist(#[trigger] lines[j].millis, t) > dist(lines[i].millis, t)
    &&& forall|j: int| i < j < lines.len() ==> dist(#[trigger] lines[j].millis, t) >= dist(
        lines[i].millis,
        t,
    )
}

pub open spec fn best_match(lines: Seq<LineModel>, t: u64) -> Option<int> {
    if exists|i: int| is_best(lines, t, i) {
        Some(choose|i: int| is_best(lines, t, i))
    } else {
        None
    }
}

/// `main` after the translations in `tr` have been attached, one after
/// the other: a non-empty translation goes to its best line, unless that line
/// already has one.
pub open spec fn merge_spec(main: Seq<LineModel>, tr: Seq<LineModel>) -> Seq<LineModel>
    decreases tr.len(),
{
    if tr.len() == 0 {
        main
    } else {
        let prev = merge_spec(main, tr.drop_last());
        let c = tr.last();
        if c.text.len() == 0 {
            prev
        } else {
            match best_match(prev, c.millis) {
                Some(i) => if prev[i].translation is None {
                    prev.update(i, LineModel { translation: Some(c.text), ..prev[i] })
                } else {
                    prev
                },
                None => prev,
            }
        }
    }
}

pub proof fn lemma_best_unique(lines: Seq<LineModel>, t: u64, i: int, k: int)
    requires
        is_best(lines, t, i),
        is_best(lines, t, k),
    ensures
        i == k,
{
    if i < k {
        assert(dist(lines[i].millis, t) > dist(lines[k].millis, t));
    } else if k < i {
        assert(dist(lines[k].millis, t) > dist(lines[i].millis, t));
    }
}

/// Times and texts of the main track are kept; only translations change.
pub proof fn lemma_merge_keeps_lines(main: Seq<LineModel>, tr: Seq<LineModel>)
    ensures
        merge_spec(main, tr).len() == main.len(),
        forall|i: int|
            0 <= i < main.len() ==> (#[trigger] merge_spec(main, tr)[i]).millis == main[i].millis
                && merge_spec(main, tr)[i].text == main[i].text,
    decreases tr.len(),
{
    if tr.len() > 0 {
        lemma_merge_keeps_lines(main, tr.drop_last());
    }
}

fn dist_exec(a: u64, b: u64) -> (d: u64)
    ensures
        d == dist(a, b),
{
    if a >= b {
        a - b
    } else {
        b - a
    }
}

/// The line a translation at time `t` attaches to, if any.
fn best_line(lines: &Vec<LyricLine>, t: u64) -> (r: Option<usize>)
    ensures
        match r {
            Some(i) => best_match(models(lines@), t) == Some(i as int),
            None => best_match(models(lines@), t) is None,
        },
{
    let ghost m = models(lines@);
    let mut best: Option<(usize, u64)> = None;
    let mut idx: usize = 0;
    while idx < lines.len()
        invariant
            m == models(lines@),
            idx <= lines@.len(),
            match best {
                None => forall|j: int| 0 <= j < idx ==> dist(#[trigger] m[j].millis, t)
                    > TRANSLATION_TOLERANCE_MS,
                Some((b, d)) => {
                    &&& b < idx
                    &&& d == dist(m[b as int].millis, t)
                    &&& d <= TRANSLATION_TOLERANCE_MS
                    &&& forall|j: int| 0 <= j < b ==> dist(#[trigger] m[j].millis, t) > d
                    &&& forall|j: int| b < j < idx ==> dist(#[trigger] m[j].millis, t) >= d
                },
            },
        decreases lines@.len() - idx,
    {
        let distance = dist_exec(lines[idx].millis, t);
        assert(m[idx as int].millis == lines@[idx as int].millis);
        if distance <= TRANSLATION_TOLERANCE_MS {
            let better = match best {
                None => true,
                Some((_, current)) => distance < current,
            };
            if better {
                best = Some((idx, distance));
            }
        }
        idx += 1;
    }
    match best {
        Some((b, d)) => {
            proof {
                assert(is_best(m, t, b as int));
                if exists|i: int| is_best(m, t, i) {
                    let c = choose|i: int| is_best(m, t, i);
                    lemma_best_unique(m, t, b as int, c);
                }
            }
            Some(b)
        },
        None => {
            proof {
                assert forall|i: int| !is_best(m, t, i) by {
                    if 0 <= i < m.len() {
                        assert(dist(m[i].millis, t) > TRANSLATION_TOLERANCE_MS);
                    }
                }
            }
            None
        },
    }
}

/// Attaches a translation track to the main track. Each non-empty
/// translation goes to the main line nearest in time within 300 ms (the
/// first of equally near ones); a line keeps the first translation it gets.
pub fn merge_translation(main: Vec<LyricLine>, translation: &[LyricLine]) -> (r: Vec<LyricLine>)
    ensures
        models(r@) == merge_spec(models(main@), models(translation@)),
{
    let mut merged = main;
    let ghost m0 = models(merged@);
    let mut k: usize = 0;
    while k < translation.len()
        invariant
            m0 == models(main@),
            k <= translation@.len(),
            models(merged@) == merge_spec(m0, models(translation@).take(k as int)),
        decreases translation@.len() - k,
    {
        let ghost tr = models(translation@).take(k + 1);
        proof {
            assert(tr.drop_last() =~= models(translation@).take(k as int));
            assert(tr.last() == translation@[k as int].model());
        }
        let candidate = &translation[k];
        if candidate.text.as_str().is_empty() {
        } else {
            match best_line(&merged, candidate.millis) {
                Some(index) => {
                    if merged[index].translation.is_none() {
                        let ghost before = models(merged@);
                        let mut line = merged[index].clone();
                        line.translation = Some(candidate.text.clone());
                        merged.set(index, line);
                        assert(models(merged@) =~= before.update(
                            index as int,
                            LineModel { translation: Some(candidate.text@), ..before[index as int] },
                        ));
                    }
                },
                None => {},
            }
        }
        k += 1;
    }
    assert(models(translation@).take(translation@.len() as int) =~= models(translation@));
    merged
}

/// The line to highlight at `position`: the last line of the leading run of
/// lines whose time is not after `position`. `None` before the first line.
pub fn active_index(lines: &[LyricLine], position: u64) -> (r: Option<usize>)
    ensures
        match r {
            Some(i) => {
                &&& i < lines@.len()
                &&& forall|j: int| 0 <= j <= i ==> (#[trigger] lines@[j]).millis <= position
                &&& (i + 1 == lines@.len() || lines@[i + 1].millis > position)
            },
            None => lines@.len() == 0 || lines@[0].millis > position,
        },
{
    let mut found: Option<usize> = None;
    let mut index: usize = 0;
    while index < lines.len()
        invariant
            index <= lines@.len(),
            forall|j: int| 0 <= j < index ==> (#[trigger] lines@[j]).millis <= position,
            found == (if index == 0 {
                None
            } else {
                Some((index - 1) as usize)
            }),
        ensures
            index <= lines@.len(),
            index == lines@.len() || lines@[index as int].millis > position,
            forall|j: int| 0 <= j < index ==> (#[trigger] lines@[j]).millis <= position,
            found == (if index == 0 {
                None
            } else {
                Some((index - 1) as usize)
            }),
        decreases lines@.len() - index,
    {
        if lines[index].millis <= position {
            found = Some(index);
        } else {
            break;
        }
        index += 1;
    }
    found
}

/// Length of the leading run of lines whose time is not after `pos`.
pub open spec fn lead_len(lines: Seq<LineModel>, pos: u64) -> nat
    decreases lines.len(),
{
    if lines.len() == 0 || lines[0].millis > pos {
        0
    } else {
        1 + lead_len(lines.drop_first(), pos)
    }
}

/// The highlighted line at `pos` as an index, `-1` before the first line.
pub open spec fn active_line(lines: Seq<LineModel>, pos: u64) -> int {
    lead_len(lines, pos) - 1
}

proof fn lemma_lead_len(lines: Seq<LineModel>, pos: u64, k: int)
    requires
        0 <= k <= lines.len(),
        forall|j: int| 0 <= j < k ==> (#[trigger] lines[j]).millis <= pos,
        k == lines.len() || lines[k].millis > pos,
    ensures
        lead_len(lines, pos) == k,
    decreases k,
{
    if k > 0 {
        let t = lines.drop_first();
        assert forall|j: int| 0 <= j < k - 1 implies (#[trigger] t[j]).millis <= pos by {
            assert(t[j] == lines[j + 1]);
        }
        lemma_lead_len(t, pos, k - 1);
    }
}

proof fn lemma_lead_len_props(lines: Seq<LineModel>, pos: u64)
    ensures
        lead_len(lines, pos) <= lines.len(),
        forall|j: int| 0 <= j < lead_len(lines, pos) ==> (#[trigger] lines[j]).millis <= pos,
        lead_len(lines, pos) == lines.len() || lines[lead_len(lines, pos) as int].millis > pos,
    decreases lines.len(),
{
    if lines.len() > 0 && lines[0].millis <= pos {
        let t = lines.drop_first();
        lemma_lead_len_props(t, pos);
        assert forall|j: int| 0 <= j < lead_len(lines, pos) implies (#[trigger] lines[j]).millis
            <= pos by {
            if j > 0 {
                assert(lines[j] == t[j - 1]);
            }
        }
        if lead_len(lines, pos) < lines.len() {
            assert(lines[lead_len(lines, pos) as int] == t[lead_len(t, pos) as int]);
        }
    }
}

/// On lines sorted by time, the highlighted line is the last line whose time
/// is not after the position: a line is at or before it exactly when its time
/// has been reached.
pub proof fn lemma_active_line_sorted(lines: Seq<LineModel>, pos: u64)
    requires
        sorted_by_time(lines),
    ensures
        -1 <= active_line(lines, pos) < lines.len(),
        forall|i: int|
            0 <= i < lines.len() ==> ((#[trigger] lines[i]).millis <= pos <==> i <= active_line(
                lines,
                pos,
            )),
{
    lemma_lead_len_props(lines, pos);
    let k = lead_len(lines, pos) as int;
    assert forall|i: int| 0 <= i < lines.len() implies ((#[trigger] lines[i]).millis <= pos <==> i
        <= active_line(lines, pos)) by {
        if i >= k {
            assert(lines[k].millis <= lines[i].millis);
        }
    }
}

/// The index that `active_index` gives, as a number (`-1` for none).
pub fn active_line_exec(lines: &[LyricLine], position: u64) -> (r: i64)
    requires
        lines@.len() <= i64::MAX,
    ensures
        r == active_line(models(lines@), position),
{
    let ghost m = models(lines@);
    assert(m.len() == lines@.len());
    match active_index(lines, position) {
        Some(i) => {
            proof {
                assert forall|j: int| 0 <= j < i + 1 implies (#[trigger] m[j]).millis <= position by {
                    assert(m[j].millis == lines@[j].millis);
                }
                if i + 1 < m.len() {
                    assert(m[i + 1].millis == lines@[i + 1].millis);
                }
                lemma_lead_len(m, position, i + 1);
            }
            i as i64
        },
        None => {
            proof {
                if m.len() > 0 {
                    assert(m[0].millis == lines@[0].millis);
                }
                lemma_lead_len(m, position, 0);
            }
            -1
        },
    }
}

/// What one step of the lyric cursor reports.
pub struct LineStep {
    /// The highlighted line changed.
    pub changed: bool,
    /// Lines moved by, when the change should be animated as a slide. The
    /// first arrival on a line (from "no line yet") is not animated.
    pub slide_rows: Option<i64>,
}

/// The lyric track of the current song and which of its lines is highlighted.
///
/// The parsed lines are kept per song index: `sync` parses only when the index
/// changes, `tick` only follows the position.
pub struct LyricTrack {
    lines: Vec<LyricLine>,
    parsed_for: i64,
    active: i64,
}

/// The state of a `LyricTrack`.
pub struct TrackView {
    pub lines: Seq<LineModel>,
    /// Song index the lines were parsed for; `-1` when none.
    pub parsed_for: int,
    /// Highlighted line; `-1` when none.
    pub active: int,
}

impl View for LyricTrack {
    type V = TrackView;

    closed spec fn view(&self) -> TrackView {
        TrackView { lines: models(self.lines@), parsed_for: self.parsed_for as int, active: self.active as int }
    }
}

/// Whether a translation track counts as present: it is there and not blank.
pub open spec fn has_translation(tlyric: Option<Seq<char>>) -> bool {
    match tlyric {
        Some(t) => trim(t).len() > 0,
        None => false,
    }
}

/// The lines that `sync` installs for a song.
pub open spec fn track_lines(lyric: Option<Seq<char>>, tlyric: Option<Seq<char>>) -> Seq<LineModel> {
    let main = parse_spec(
        match lyric {
            Some(l) => l,
            None => Seq::empty(),
        },
    );
    if has_translation(tlyric) {
        merge_spec(main, parse_spec(tlyric.unwrap()))
    } else {
        main
    }
}

impl LyricTrack {
    pub fn new() -> (t: Self)
        ensures
            t@ == (TrackView { lines: Seq::empty(), parsed_for: -1, active: -1 }),
    {
        let t = LyricTrack { lines: Vec::new(), parsed_for: -1, active: -1 };
        assert(models(t.lines@) =~= Seq::<LineModel>::empty());
        t
    }

    pub fn lines(&self) -> (r: &[LyricLine])
        ensures
            models(r@) == self@.lines,
    {
        self.lines.as_slice()
    }

    pub fn active(&self) -> (r: i64)
        ensures
            r == self@.active,
    {
        self.active
    }

    /// Forgets which song was parsed and which line was highlighted, so that
    /// the next `sync` parses again.
    pub fn reset(&mut self)
        ensures
            final(self)@ == (TrackView { parsed_for: -1, active: -1, ..old(self)@ }),
    {
        self.parsed_for = -1;
        self.active = -1;
    }

    /// Makes the track hold the lines of song `index`. Nothing happens when it
    /// already does; otherwise the lyric is parsed, a non-blank translation is
    /// merged in, and no line is highlighted.
    pub fn sync(&mut self, index: i64, lyric: Option<&str>, tlyric: Option<&str>)
        ensures
            old(self)@.parsed_for == index ==> final(self)@ == old(self)@,
            old(self)@.parsed_for != index ==> final(self)@ == (TrackView {
                lines: track_lines(opt_text(lyric), opt_text(tlyric)),
                parsed_for: index as int,
                active: -1,
            }),
    {
        if self.parsed_for == index {
            return;
        }
        self.parsed_for = index;
        let raw: &str = match lyric {
            Some(l) => l,
            None => "",
        };
        proof {
            reveal_strlit("");
            assert(raw@ == (match opt_text(lyric) {
                Some(l) => l,
                None => Seq::<char>::empty(),
            }));
        }
        let main = parse(raw);
        self.lines = match tlyric {
            Some(t) => {
                let tv = crate::text::chars_of(t);
                let trimmed = crate::text::trim_slice(tv.as_slice());
                if trimmed.len() > 0 {
                    let tr = parse(t);
                    merge_translation(main, tr.as_slice())
                } else {
                    main
                }
            },
            None => main,
        };
        self.active = -1;
    }

    /// Follows the playback position: highlights the line `active_line` picks
    /// and reports whether that changed, and by how many lines when it moved
    /// from one line to another.
    pub fn tick(&mut self, position: u64) -> (r: LineStep)
        requires
            old(self)@.lines.len() <= i64::MAX,
        ensures
            final(self)@ == (TrackView { active: active_line(old(self)@.lines, position), ..old(self)@ }),
            r.changed == (active_line(old(self)@.lines, position) != old(self)@.active),
            r.slide_rows == (if r.changed && old(self)@.active >= 0 {
                Some((active_line(old(self)@.lines, position) - old(self)@.active) as i64)
            } else {
                None
            }),
    {
        let active = active_line_exec(self.lines.as_slice(), position);
        let changed = active != self.active;
        let mut slide_rows: Option<i64> = None;
        if changed {
            if self.active >= 0 {
                slide_rows = Some(active - self.active);
            }
            self.active = active;
        }
        LineStep { changed, slide_rows }
    }
}

} // verus!
