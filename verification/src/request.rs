//! The HTTP/1.1 side of the stream server: when a request head is complete,
//! what it asks for, and the head of the response written back.
use vstd::prelude::*;
use vstd::utf8::valid_utf8;
use vstd::utf8::decode_utf8;
use crate::text::{
    is_ws, trim, trim_start, lower, split_once, find_char, find_char_exec, lemma_find_char_bounds,
    chars_of, eq_str, lower_vec, trim_range, skip_ws, is_ws_char, split_once_slice, trim_slice,
    string_of, opt_str, decimal, decimal_string, pairs_view, push_str, push_char, push_chars,
};
use crate::headers::Pairs;
use crate::stream::{reason_phrase, status_text};

verus! {

/// `String::from_utf8_lossy`: malformed sequences become U+FFFD.
pub uninterp spec fn utf8_lossy(bytes: Seq<u8>) -> Seq<char>;

/// `String::from_utf8_lossy`; on valid UTF-8 it is the decoded text, as its
/// documentation says.
#[verifier::external_body]
fn lossy_text(bytes: &[u8]) -> (r: String)
    ensures
        r@ == utf8_lossy(bytes@),
        valid_utf8(bytes@) ==> r@ == decode_utf8(bytes@),
{
    String::from_utf8_lossy(bytes).into_owned()
}

/// Whether the bytes read so far hold a whole request head: a blank line has
/// arrived, or more than 64 KiB have.
pub open spec fn head_complete_spec(buffer: Seq<u8>) -> bool {
    (exists|i: int| #[trigger] blank_line_at(buffer, i)) || buffer.len() > 65536
}

/// `\r\n\r\n` starts at `i`.
pub open spec fn blank_line_at(b: Seq<u8>, i: int) -> bool {
    0 <= i && i + 4 <= b.len() && b[i] == 13 && b[i + 1] == 10 && b[i + 2] == 13 && b[i + 3] == 10
}

pub fn head_complete(buffer: &[u8]) -> (r: bool)
    ensures
        r == head_complete_spec(buffer@),
{
    if buffer.len() > 65536 {
        return true;
    }
    let mut i: usize = 0;
    while buffer.len() >= 4 && i <= buffer.len() - 4
        invariant
            forall|j: int| 0 <= j < i ==> !#[trigger] blank_line_at(buffer@, j),
            buffer@.len() <= 65536,
        decreases buffer@.len() - i,
    {
        if buffer[i] == 13 && buffer[i + 1] == 10 && buffer[i + 2] == 13 && buffer[i + 3] == 10 {
            assert(blank_line_at(buffer@, i as int));
            return true;
        }
        i += 1;
    }
    assert forall|j: int| !#[trigger] blank_line_at(buffer@, j) by {
        if 0 <= j < i {
        }
    }
    false
}

/// A line without the `\r` of a `\r\n` ending.
pub open spec fn strip_cr(l: Seq<char>) -> Seq<char> {
    if l.len() > 0 && l.last() == '\r' {
        l.drop_last()
    } else {
        l
    }
}

/// `str::lines`: the text split at `\n`, each terminated line without a
/// final `\r`, no line after a final `\n`.
pub open spec fn lines_of(s: Seq<char>) -> Seq<Seq<char>>
    decreases s.len(),
{
    if s.len() == 0 {
        seq![]
    } else {
        let i = find_char(s, '\n', 0);
        if i < s.len() {
            proof {
                lemma_find_char_bounds(s, '\n', 0);
            }
            seq![strip_cr(s.take(i))] + lines_of(s.skip(i + 1))
        } else {
            seq![s]
        }
    }
}

/// `v[span.0..span.1]` is `l`.
pub open spec fn span_is(v: Seq<char>, span: (usize, usize), l: Seq<char>) -> bool {
    span.0 <= span.1 <= v.len() && v.subrange(span.0 as int, span.1 as int) == l
}

/// Bounds in `v` of each of its lines.
fn line_ranges(v: &[char]) -> (r: Vec<(usize, usize)>)
    ensures
        r@.len() == lines_of(v@).len(),
        forall|k: int| 0 <= k < r@.len() ==> span_is(v@, #[trigger] r@[k], lines_of(v@)[k]),
{
    let mut r: Vec<(usize, usize)> = Vec::new();
    let mut pos: usize = 0;
    let ghost mut done: Seq<Seq<char>> = seq![];
    assert(v@.skip(0) =~= v@);
    while pos < v.len()
        invariant
            pos <= v@.len(),
            lines_of(v@) == done + lines_of(v@.skip(pos as int)),
            r@.len() == done.len(),
            forall|k: int| 0 <= k < r@.len() ==> span_is(v@, #[trigger] r@[k], done[k]),
        decreases v@.len() - pos,
    {
        let ghost rest = v@.skip(pos as int);
        let found = crate::text::index_of_from(v, '\n', pos);
        let i: usize = match found {
            Some(i) => i,
            None => v.len(),
        };
        proof {
            assert forall|k: int| 0 <= k < i - pos implies rest[k] != '\n' by {
                assert(rest[k] == v@[pos + k]);
            }
            if i < v@.len() {
                assert(rest[i - pos] == v@[i as int]);
            }
            crate::text::lemma_find_char(rest, '\n', 0, i - pos);
        }
        let ghost old_r = r@;
        if i < v.len() {
            let end = if i > pos && v[i - 1] == '\r' {
                i - 1
            } else {
                i
            };
            let ghost line = strip_cr(rest.take(i - pos));
            assert(v@.subrange(pos as int, end as int) =~= line);
            r.push((pos, end));
            proof {
                assert(lines_of(rest) == seq![line] + lines_of(rest.skip(i - pos + 1)));
                assert(rest.skip(i - pos + 1) =~= v@.skip(i + 1));
                done = done.push(line);
                assert(lines_of(v@) =~= done + lines_of(v@.skip(i + 1)));
                assert forall|k: int| 0 <= k < r@.len() implies span_is(v@, #[trigger] r@[k], done[k]) by {
                    if k < old_r.len() {
                        assert(r@[k] == old_r[k]);
                    }
                }
            }
            pos = i + 1;
        } else {
            assert(v@.subrange(pos as int, v@.len() as int) =~= rest);
            r.push((pos, v.len()));
            proof {
                assert(lines_of(rest) == seq![rest]);
                assert(v@.skip(v@.len() as int) =~= Seq::<char>::empty());
                done = done.push(rest);
                assert(lines_of(v@) =~= done + lines_of(v@.skip(v@.len() as int)));
                assert forall|k: int| 0 <= k < r@.len() implies span_is(v@, #[trigger] r@[k], done[k]) by {
                    if k < old_r.len() {
                        assert(r@[k] == old_r[k]);
                    }
                }
            }
            pos = v.len();
        }
    }
    assert(lines_of(v@.skip(pos as int)) =~= Seq::<Seq<char>>::empty());
    assert(lines_of(v@) =~= done);
    r
}

/// Index of the first white space in `s` at or after `i`, or `s.len()`.
pub open spec fn find_ws(s: Seq<char>, i: int) -> int
    decreases s.len() - i,
{
    if i < 0 || i >= s.len() {
        s.len() as int
    } else if is_ws(s[i]) {
        i
    } else {
        find_ws(s, i + 1)
    }
}

proof fn lemma_find_ws(s: Seq<char>, i: int, j: int)
    requires
        0 <= i <= j <= s.len(),
        forall|k: int| i <= k < j ==> !is_ws(s[k]),
        j == s.len() || is_ws(s[j]),
    ensures
        find_ws(s, i) == j,
    decreases j - i,
{
    if i < j {
        lemma_find_ws(s, i + 1, j);
    }
}

/// The first word of `s.split_whitespace()` and what follows it.
pub open spec fn first_word(s: Seq<char>) -> (Seq<char>, Seq<char>) {
    let t = trim_start(s);
    let j = find_ws(t, 0);
    (t.take(j), t.skip(j))
}

/// `(a, b)` with `v[a..b]` the first word of `v[lo..hi]`.
fn first_word_range(v: &[char], lo: usize, hi: usize) -> (r: (usize, usize))
    requires
        lo <= hi <= v@.len(),
    ensures
        lo <= r.0 <= r.1 <= hi,
        v@.subrange(r.0 as int, r.1 as int) == first_word(v@.subrange(lo as int, hi as int)).0,
        v@.subrange(r.1 as int, hi as int) == first_word(v@.subrange(lo as int, hi as int)).1,
{
    let a = skip_ws(v, lo, hi);
    let mut b = a;
    while b < hi && !is_ws_char(v[b])
        invariant
            lo <= a <= b <= hi <= v@.len(),
            forall|k: int| a <= k < b ==> !is_ws(v@[k]),
        decreases hi - b,
    {
        b += 1;
    }
    let ghost t = v@.subrange(a as int, hi as int);
    proof {
        assert forall|k: int| 0 <= k < b - a implies !is_ws(t[k]) by {
            assert(t[k] == v@[a + k]);
        }
        if b < hi {
            assert(t[b - a] == v@[b as int]);
        }
        lemma_find_ws(t, 0, b - a);
        assert(t.take(b - a) =~= v@.subrange(a as int, b as int));
        assert(t.skip(b - a) =~= v@.subrange(b as int, hi as int));
    }
    (a, b)
}

/// The value of a `Range:` header line; the name in any ASCII case, white
/// space around name and value ignored.
pub open spec fn range_line(l: Seq<char>) -> Option<Seq<char>> {
    match split_once(l, ':') {
        Some(nv) => if lower(trim(nv.0)) == "range"@ {
            Some(trim(nv.1))
        } else {
            None
        },
        None => None,
    }
}

/// The value of the last `Range` line among `hs`.
pub open spec fn range_in(hs: Seq<Seq<char>>) -> Option<Seq<char>>
    decreases hs.len(),
{
    if hs.len() == 0 {
        None
    } else {
        match range_line(hs.last()) {
            Some(v) => Some(v),
            None => range_in(hs.drop_last()),
        }
    }
}

/// Index of the first empty line of `ls` at or after `i`, or `ls.len()`.
pub open spec fn first_empty(ls: Seq<Seq<char>>, i: int) -> int
    decreases ls.len() - i,
{
    if i < 0 || i >= ls.len() {
        ls.len() as int
    } else if ls[i].len() == 0 {
        i
    } else {
        first_empty(ls, i + 1)
    }
}

/// The first line of a request, empty where there is none.
pub open spec fn request_line(text: Seq<char>) -> Seq<char> {
    let ls = lines_of(text);
    if ls.len() > 0 {
        ls[0]
    } else {
        Seq::<char>::empty()
    }
}

/// The method of a request: the first word of its first line.
pub open spec fn request_method_of(text: Seq<char>) -> Seq<char> {
    first_word(request_line(text)).0
}

/// The target of a request: the second word of its first line.
pub open spec fn request_target_of(text: Seq<char>) -> Seq<char> {
    first_word(first_word(request_line(text)).1).0
}

/// The `Range` of a request: the last `Range` line among the header lines,
/// which run from the second line to the first empty one.
pub open spec fn request_range_of(text: Seq<char>) -> Option<Seq<char>> {
    let ls = lines_of(text);
    if ls.len() == 0 {
        None
    } else {
        let hs = ls.skip(1);
        range_in(hs.take(first_empty(hs, 0)))
    }
}

/// What the stream server reads off a request head.
#[derive(Debug)]
pub struct RequestHead {
    pub method: String,
    pub target: String,
    pub range: Option<String>,
}

fn range_line_exec(l: &[char]) -> (r: Option<String>)
    ensures
        opt_str(r) == range_line(l@),
{
    match split_once_slice(l, ':') {
        Some((name, value)) => {
            let n = lower_vec(trim_slice(name));
            if eq_str(n.as_slice(), "range") {
                Some(string_of(trim_slice(value)))
            } else {
                None
            }
        },
        None => None,
    }
}

/// What a request head, given as text, asks for.
pub fn parse_request_text(text: &str) -> (r: RequestHead)
    ensures
        r.method@ == request_method_of(text@),
        r.target@ == request_target_of(text@),
        opt_str(r.range) == request_range_of(text@),
{
    let v = chars_of(text);
    let v = v.as_slice();
    let lines = line_ranges(v);
    let ghost ls = lines_of(v@);
    if lines.len() == 0 {
        let e = &v[0..0];
        let (a, b) = first_word_range(e, 0, 0);
        assert(e@ =~= Seq::<char>::empty());
        assert(first_word(Seq::<char>::empty()).1 =~= Seq::<char>::empty()) by {
            assert(trim_start(Seq::<char>::empty()) =~= Seq::<char>::empty());
        }
        return RequestHead { method: String::new(), target: String::new(), range: None };
    }
    let (l0, l1) = lines[0];
    assert(span_is(v@, lines@[0], ls[0]));
    let (ma, mb) = first_word_range(v, l0, l1);
    let (ta, tb) = first_word_range(v, mb, l1);
    let method = string_of(&v[ma..mb]);
    let target = string_of(&v[ta..tb]);
    let mut range: Option<String> = None;
    let mut k: usize = 1;
    let ghost hs = ls.skip(1);
    while k < lines.len()
        invariant
            1 <= k <= lines@.len(),
            lines@.len() == ls.len(),
            hs == ls.skip(1),
            forall|j: int| 0 <= j < lines@.len() ==> span_is(v@, #[trigger] lines@[j], ls[j]),
            forall|j: int| 1 <= j < k ==> ls[j].len() > 0,
            opt_str(range) == range_in(hs.take(k - 1)),
        ensures
            1 <= k <= lines@.len(),
            k == lines@.len() || ls[k as int].len() == 0,
            forall|j: int| 1 <= j < k ==> ls[j].len() > 0,
            opt_str(range) == range_in(hs.take(k - 1)),
        decreases lines@.len() - k,
    {
        let (a, b) = lines[k];
        assert(span_is(v@, lines@[k as int], ls[k as int]));
        let line = &v[a..b];
        assert(line@ == ls[k as int]);
        if line.len() == 0 {
            break;
        }
        match range_line_exec(line) {
            Some(value) => {
                range = Some(value);
            },
            None => {},
        }
        proof {
            assert(hs.take(k as int).drop_last() =~= hs.take(k - 1));
            assert(hs.take(k as int).last() == ls[k as int]);
        }
        k += 1;
    }
    proof {
        let n = first_empty(hs, 0);
        assert forall|j: int| 0 <= j < k - 1 implies hs[j].len() > 0 by {
            assert(hs[j] == ls[j + 1]);
        }
        if k < lines@.len() {
            assert(hs[k - 1] == ls[k as int]);
        }
        lemma_first_empty(hs, 0, k - 1);
    }
    RequestHead { method, target, range }
}

proof fn lemma_first_empty(ls: Seq<Seq<char>>, i: int, j: int)
    requires
        0 <= i <= j <= ls.len(),
        forall|k: int| i <= k < j ==> ls[k].len() > 0,
        j == ls.len() || ls[j].len() == 0,
    ensures
        first_empty(ls, i) == j,
    decreases j - i,
{
    if i < j {
        lemma_first_empty(ls, i + 1, j);
    }
}

/// What a request head, as the bytes that arrived, asks for.
pub fn parse_request_head(bytes: &[u8]) -> (r: RequestHead)
    ensures
        r.method@ == request_method_of(utf8_lossy(bytes@)),
        r.target@ == request_target_of(utf8_lossy(bytes@)),
        opt_str(r.range) == request_range_of(utf8_lossy(bytes@)),
{
    let text = lossy_text(bytes);
    parse_request_text(text.as_str())
}

/// How the stream server answers a method.
#[derive(Debug, Clone, Copy, PartialEq, Eq)]
pub enum StreamRoute {
    /// `OPTIONS`: 204 with no body.
    Preflight,
    /// Neither `GET` nor `HEAD`: 405.
    NotAllowed,
    /// `GET`: the response with its body.
    Get,
    /// `HEAD`: the response without its body.
    Head,
}

pub open spec fn route_for(method: Seq<char>) -> StreamRoute {
    if method == "OPTIONS"@ {
        StreamRoute::Preflight
    } else if method == "GET"@ {
        StreamRoute::Get
    } else if method == "HEAD"@ {
        StreamRoute::Head
    } else {
        StreamRoute::NotAllowed
    }
}

pub fn stream_route(method: &str) -> (r: StreamRoute)
    ensures
        r == route_for(method@),
{
    let m = chars_of(method);
    let m = m.as_slice();
    if eq_str(m, "OPTIONS") {
        StreamRoute::Preflight
    } else if eq_str(m, "GET") {
        StreamRoute::Get
    } else if eq_str(m, "HEAD") {
        StreamRoute::Head
    } else {
        StreamRoute::NotAllowed
    }
}

/// A header value as written on the wire: each CR or LF becomes a space.
pub open spec fn sanitize_value(v: Seq<char>) -> Seq<char> {
    v.map_values(|c: char| if c == '\r' || c == '\n' { ' ' } else { c })
}

pub open spec fn is_length_name(name: Seq<char>) -> bool {
    lower(name) == "content-length"@
}

/// Whether the headers hold a Content-Length, named in any ASCII case.
pub open spec fn has_length_header(h: Pairs) -> bool {
    exists|i: int| 0 <= i < h.len() && #[trigger] is_length_name(h[i].0)
}

/// The headers as sent: a Content-Length for the body where none is given,
/// then `Access-Control-Allow-Headers: Range` and `Connection: close`.
pub open spec fn sent_headers(h: Pairs, body_len: nat) -> Pairs {
    let h1 = if has_length_header(h) {
        h
    } else {
        h.push(("Content-Length"@, decimal(body_len)))
    };
    h1.push(("Access-Control-Allow-Headers"@, "Range"@)).push(("Connection"@, "close"@))
}

/// `name: value\r\n` for each header, in order.
pub open spec fn header_block(h: Pairs) -> Seq<char>
    decreases h.len(),
{
    if h.len() == 0 {
        seq![]
    } else {
        header_block(h.drop_last()) + h.last().0 + ": "@ + sanitize_value(h.last().1) + "\r\n"@
    }
}

/// The status line and header lines of a response, up to the blank line.
pub open spec fn response_head_text(status: u16, h: Pairs, body_len: nat) -> Seq<char> {
    "HTTP/1.1 "@ + decimal(status as nat) + " "@ + reason_phrase(status) + "\r\n"@ + header_block(
        sent_headers(h, body_len),
    ) + "\r\n"@
}

/// A header value as written never breaks the head: it holds no CR or LF.
pub proof fn lemma_sanitized_value_has_no_line_break(v: Seq<char>)
    ensures
        forall|i: int|
            0 <= i < sanitize_value(v).len() ==> #[trigger] sanitize_value(v)[i] != '\r'
                && sanitize_value(v)[i] != '\n',
{
}

/// Every head the stream server writes declares a Content-Length and closes
/// the connection.
pub proof fn lemma_sent_headers_declare_length(h: Pairs, body_len: nat)
    ensures
        has_length_header(sent_headers(h, body_len)),
        sent_headers(h, body_len).last() == ("Connection"@, "close"@),
{
    let h1 = if has_length_header(h) {
        h
    } else {
        h.push(("Content-Length"@, decimal(body_len)))
    };
    let sent = sent_headers(h, body_len);
    assert(sent == h1.push(("Access-Control-Allow-Headers"@, "Range"@)).push(("Connection"@, "close"@)));
    let k: int = if has_length_header(h) {
        choose|i: int| 0 <= i < h.len() && #[trigger] is_length_name(h[i].0)
    } else {
        reveal_strlit("Content-Length");
        reveal_strlit("content-length");
        assert(lower("Content-Length"@) =~= "content-length"@);
        assert(h1[h.len() as int].0 == "Content-Length"@);
        h.len() as int
    };
    assert(is_length_name(h1[k].0));
    assert(sent[k] == h1[k]);
    assert(is_length_name(sent[k].0));
}

fn append_header_line(s: &mut String, name: &str, value: &str)
    ensures
        final(s)@ == old(s)@ + name@ + ": "@ + sanitize_value(value@) + "\r\n"@,
{
    push_str(s, name);
    push_str(s, ": ");
    let v = chars_of(value);
    let mut clean: Vec<char> = Vec::new();
    let mut i: usize = 0;
    while i < v.len()
        invariant
            i <= v@.len(),
            v@ == value@,
            clean@ == sanitize_value(v@.take(i as int)),
        decreases v@.len() - i,
    {
        let c = v[i];
        clean.push(
            if c == '\r' || c == '\n' {
                ' '
            } else {
                c
            },
        );
        i += 1;
        assert(clean@ =~= sanitize_value(v@.take(i as int)));
    }
    assert(v@.take(v@.len() as int) =~= v@);
    push_chars(s, clean.as_slice());
    push_str(s, "\r\n");
}

fn has_length_exec(headers: &[(String, String)]) -> (r: bool)
    ensures
        r == has_length_header(pairs_view(headers@)),
{
    let mut i: usize = 0;
    while i < headers.len()
        invariant
            i <= headers@.len(),
            forall|j: int| 0 <= j < i ==> !#[trigger] is_length_name(pairs_view(headers@)[j].0),
        decreases headers@.len() - i,
    {
        let n = chars_of(headers[i].0.as_str());
        let l = lower_vec(n.as_slice());
        if eq_str(l.as_slice(), "content-length") {
            assert(is_length_name(pairs_view(headers@)[i as int].0));
            return true;
        }
        i += 1;
    }
    false
}

/// The head that the stream server writes before a body of `body_len` bytes.
pub fn response_head(status: u16, headers: &[(String, String)], body_len: usize) -> (r: String)
    ensures
        r@ == response_head_text(status, pairs_view(headers@), body_len as nat),
{
    let mut s = String::new();
    push_str(&mut s, "HTTP/1.1 ");
    let code = decimal_string(status as u64);
    push_str(&mut s, code.as_str());
    push_str(&mut s, " ");
    push_str(&mut s, status_text(status));
    push_str(&mut s, "\r\n");
    let ghost start = s@;
    let ghost h = pairs_view(headers@);
    let mut i: usize = 0;
    while i < headers.len()
        invariant
            i <= headers@.len(),
            h == pairs_view(headers@),
            s@ == start + header_block(h.take(i as int)),
        decreases headers@.len() - i,
    {
        append_header_line(&mut s, headers[i].0.as_str(), headers[i].1.as_str());
        proof {
            assert(h.take(i + 1).drop_last() =~= h.take(i as int));
            assert(s@ =~= start + header_block(h.take(i + 1)));
        }
        i += 1;
    }
    assert(h.take(headers@.len() as int) =~= h);
    let has_length = has_length_exec(headers);
    let ghost h1 = if has_length {
        h
    } else {
        h.push(("Content-Length"@, decimal(body_len as nat)))
    };
    if !has_length {
        let length = decimal_string(body_len as u64);
        append_header_line(&mut s, "Content-Length", length.as_str());
        assert(h1.drop_last() =~= h);
    }
    assert(s@ =~= start + header_block(h1));
    append_header_line(&mut s, "Access-Control-Allow-Headers", "Range");
    let ghost h2 = h1.push(("Access-Control-Allow-Headers"@, "Range"@));
    assert(h2.drop_last() =~= h1);
    assert(s@ =~= start + header_block(h2));
    append_header_line(&mut s, "Connection", "close");
    let ghost h3 = h2.push(("Connection"@, "close"@));
    assert(h3.drop_last() =~= h2);
    assert(s@ =~= start + header_block(h3));
    push_str(&mut s, "\r\n");
    assert(h3 == sent_headers(h, body_len as nat));
    s
}

} // verus!
