//! Percent-encoding of URL components, done by the `urlencoding` crate.
//!
//! Both directions work on the UTF-8 bytes of the text, which vstd models with
//! `encode_utf8` / `decode_utf8`.
use vstd::prelude::*;
use vstd::utf8::encode_utf8;
use vstd::utf8::decode_utf8;
use vstd::utf8::valid_utf8;

verus! {

/// An ASCII hexadecimal digit, in either case.
pub open spec fn is_hex_byte(b: u8) -> bool {
    (48 <= b <= 57) || (65 <= b <= 70) || (97 <= b <= 102)
}

pub open spec fn hex_value(b: u8) -> int {
    if b <= 57 {
        b - 48
    } else if b <= 70 {
        b - 55
    } else {
        b - 87
    }
}

/// Percent-decoding of bytes: each `%` followed by two hex digits stands for
/// one byte; any other `%` stays as it is; `+` is not touched.
pub open spec fn percent_decode_bytes(b: Seq<u8>) -> Seq<u8>
    decreases b.len(),
{
    if b.len() == 0 {
        seq![]
    } else if b[0] != 37 {
        seq![b[0]] + percent_decode_bytes(b.skip(1))
    } else if b.len() < 3 {
        b
    } else if is_hex_byte(b[1]) && is_hex_byte(b[2]) {
        seq![(hex_value(b[1]) * 16 + hex_value(b[2])) as u8] + percent_decode_bytes(b.skip(3))
    } else if is_hex_byte(b[1]) {
        seq![37u8, b[1]] + percent_decode_bytes(b.skip(2))
    } else {
        seq![37u8] + percent_decode_bytes(b.skip(1))
    }
}

/// What `urlencoding::decode` gives back: the percent-decoded bytes of the
/// text, when they are valid UTF-8.
pub open spec fn url_decode(s: Seq<char>) -> Option<Seq<char>> {
    let b = percent_decode_bytes(encode_utf8(s));
    if valid_utf8(b) {
        Some(decode_utf8(b))
    } else {
        None
    }
}

/// The bytes that `urlencoding::encode` leaves as they are.
pub open spec fn is_unreserved(b: u8) -> bool {
    ||| 48 <= b <= 57
    ||| 65 <= b <= 90
    ||| 97 <= b <= 122
    ||| b == 45
    ||| b == 46
    ||| b == 95
    ||| b == 126
}

/// An upper-case hexadecimal digit for `d < 16`.
pub open spec fn hex_upper(d: int) -> char {
    if d < 10 {
        (48 + d) as char
    } else {
        (55 + d) as char
    }
}

/// Percent-encoding of bytes: every byte but the unreserved ones becomes `%XY`.
pub open spec fn percent_encode_bytes(b: Seq<u8>) -> Seq<char>
    decreases b.len(),
{
    if b.len() == 0 {
        seq![]
    } else {
        let head = if is_unreserved(b[0]) {
            seq![b[0] as char]
        } else {
            seq!['%', hex_upper(b[0] as int / 16), hex_upper(b[0] as int % 16)]
        };
        head + percent_encode_bytes(b.skip(1))
    }
}

/// What `urlencoding::encode` gives back.
pub open spec fn url_encode(s: Seq<char>) -> Seq<char> {
    percent_encode_bytes(encode_utf8(s))
}

/// The bytes of an ASCII text, one per character.
pub open spec fn ascii_bytes(s: Seq<char>) -> Seq<u8> {
    s.map_values(|c: char| (c as u32) as u8)
}

/// The UTF-8 encoding of an ASCII text is its characters' own values.
proof fn lemma_ascii_encoding(e: Seq<char>)
    requires
        forall|i: int| 0 <= i < e.len() ==> (#[trigger] e[i] as u32) < 128,
    ensures
        encode_utf8(e) == ascii_bytes(e),
    decreases e.len(),
{
    if e.len() > 0 {
        let c0 = e[0] as u32;
        assert(c0 < 128);
        assert(c0 as u8 == vstd::utf8::leading_byte_width_1(c0)) by (bit_vector)
            requires
                c0 < 128,
        ;
        assert forall|i: int| 0 <= i < e.drop_first().len() implies (#[trigger] e.drop_first()[i] as u32) < 128 by {
            assert(e.drop_first()[i] == e[i + 1]);
        }
        lemma_ascii_encoding(e.drop_first());
        assert(ascii_bytes(e) =~= seq![c0 as u8] + ascii_bytes(e.drop_first()));
    }
}

proof fn lemma_hex_upper(d: int)
    requires
        0 <= d < 16,
    ensures
        (hex_upper(d) as u32) < 128,
        is_hex_byte(hex_upper(d) as u8),
        hex_value(hex_upper(d) as u8) == d,
        hex_upper(d) != '?',
{
}

/// What percent-encoding writes is ASCII, and holds no `?`.
proof fn lemma_encoded_chars(b: Seq<u8>)
    ensures
        forall|i: int|
            0 <= i < percent_encode_bytes(b).len() ==> (#[trigger] percent_encode_bytes(b)[i] as u32)
                < 128 && percent_encode_bytes(b)[i] != '?',
    decreases b.len(),
{
    if b.len() > 0 {
        lemma_encoded_chars(b.skip(1));
        let rest = percent_encode_bytes(b.skip(1));
        let head = if is_unreserved(b[0]) {
            seq![b[0] as char]
        } else {
            seq!['%', hex_upper(b[0] as int / 16), hex_upper(b[0] as int % 16)]
        };
        lemma_hex_upper(b[0] as int / 16);
        lemma_hex_upper(b[0] as int % 16);
        let e = percent_encode_bytes(b);
        assert(e == head + rest);
        assert forall|i: int| 0 <= i < e.len() implies (#[trigger] e[i] as u32) < 128 && e[i] != '?' by {
            if i >= head.len() {
                assert(e[i] == rest[i - head.len()]);
            }
        }
    }
}

/// Percent-decoding undoes percent-encoding.
proof fn lemma_decode_encoded_bytes(b: Seq<u8>)
    ensures
        percent_decode_bytes(ascii_bytes(percent_encode_bytes(b))) == b,
    decreases b.len(),
{
    let x = ascii_bytes(percent_encode_bytes(b));
    if b.len() == 0 {
        assert(x =~= Seq::<u8>::empty());
    } else {
        lemma_decode_encoded_bytes(b.skip(1));
        let rest = percent_encode_bytes(b.skip(1));
        if is_unreserved(b[0]) {
            assert(percent_encode_bytes(b) == seq![b[0] as char] + rest);
            assert(x[0] == b[0]);
            assert(x.skip(1) =~= ascii_bytes(rest));
            assert(seq![b[0]] + b.skip(1) =~= b);
        } else {
            let d1 = b[0] as int / 16;
            let d2 = b[0] as int % 16;
            lemma_hex_upper(d1);
            lemma_hex_upper(d2);
            assert(percent_encode_bytes(b) == seq!['%', hex_upper(d1), hex_upper(d2)] + rest);
            assert(x[0] == 37);
            assert(x[1] == hex_upper(d1) as u8);
            assert(x[2] == hex_upper(d2) as u8);
            assert((hex_value(x[1]) * 16 + hex_value(x[2])) as u8 == b[0]);
            assert(x.skip(3) =~= ascii_bytes(rest));
            assert(seq![b[0]] + b.skip(1) =~= b);
        }
    }
}

/// Decoding an encoded text gives the text back.
pub proof fn lemma_url_round_trip(s: Seq<char>)
    ensures
        url_decode(url_encode(s)) == Some(s),
{
    let b = encode_utf8(s);
    let e = percent_encode_bytes(b);
    lemma_encoded_chars(b);
    lemma_ascii_encoding(e);
    lemma_decode_encoded_bytes(b);
    vstd::utf8::encode_utf8_valid_utf8(s);
    vstd::utf8::encode_utf8_decode_utf8(s);
}

/// An encoded text holds no `?`, and is empty only for the empty text.
pub proof fn lemma_url_encode_shape(s: Seq<char>)
    ensures
        forall|i: int| 0 <= i < url_encode(s).len() ==> #[trigger] url_encode(s)[i] != '?',
        s.len() > 0 ==> url_encode(s).len() > 0,
{
    lemma_encoded_chars(encode_utf8(s));
    if s.len() > 0 {
        vstd::utf8::encode_utf8_first_scalar(s);
        assert(encode_utf8(s).len() > 0);
    }
}

/// `urlencoding::decode`: the percent-decoded text, or `None` where the decoded
/// bytes are not UTF-8. The contract restates the crate's decoding loop
/// (`decode_binary`) and its final `String::from_utf8`.
#[verifier::external_body]
pub(crate) fn decode_component(s: &str) -> (r: Option<String>)
    ensures
        match r {
            Some(t) => url_decode(s@) == Some(t@),
            None => url_decode(s@) is None,
        },
{
    urlencoding::decode(s).ok().map(|t| t.into_owned())
}

/// `urlencoding::encode`: every UTF-8 byte of `s` but `A-Z a-z 0-9 - . _ ~`
/// written as `%` and two upper-case hex digits.
#[verifier::external_body]
pub(crate) fn encode_component(s: &str) -> (r: String)
    ensures
        r@ == url_encode(s@),
{
    urlencoding::encode(s).into_owned()
}

} // verus!
