//! Byte-to-text decoding, done by the `encoding_rs` crate.
//!
//! Each decoding (with BOM sniffing and replacement of malformed sequences)
//! depends on its arguments alone, and takes the Encoding Standard to state;
//! the names below stand for what it gives back.
use vstd::prelude::*;

verus! {

/// Largest input that the decoders below accept: `encoding_rs` panics where
/// sizing its output buffer (at most about three bytes out per byte in)
/// overflows `usize`.
pub open spec fn decodable_len(n: int) -> bool {
    n <= usize::MAX / 4
}

/// `encoding_rs::UTF_8.decode(bytes)`: the text, and whether a malformed
/// sequence was replaced.
pub uninterp spec fn utf8_decoding(bytes: Seq<u8>) -> (Seq<char>, bool);

/// `encoding_rs::GB18030.decode(bytes)`: the text.
pub uninterp spec fn gb18030_decoding(bytes: Seq<u8>) -> Seq<char>;

/// `Encoding::for_label(label)` followed by `decode(bytes)` on the encoding
/// found: `None` where the label names no encoding.
pub uninterp spec fn label_decoding(label: Seq<char>, bytes: Seq<u8>) -> Option<Seq<char>>;

/// `encoding_rs::UTF_8.decode`. Nothing is claimed of the text beyond its name.
#[verifier::external_body]
pub(crate) fn decode_utf8_lossy(bytes: &[u8]) -> (r: (String, bool))
    requires
        decodable_len(bytes@.len() as int),
    ensures
        (r.0@, r.1) == utf8_decoding(bytes@),
{
    let (text, _, had_errors) = encoding_rs::UTF_8.decode(bytes);
    (text.into_owned(), had_errors)
}

/// `encoding_rs::GB18030.decode`.
#[verifier::external_body]
pub(crate) fn decode_gb18030(bytes: &[u8]) -> (r: String)
    requires
        decodable_len(bytes@.len() as int),
    ensures
        r@ == gb18030_decoding(bytes@),
{
    let (text, _, _) = encoding_rs::GB18030.decode(bytes);
    text.into_owned()
}

/// `encoding_rs::Encoding::for_label(label.as_bytes())`, then `decode` with the
/// encoding it finds.
#[verifier::external_body]
pub(crate) fn decode_with_label(label: &str, bytes: &[u8]) -> (r: Option<String>)
    requires
        decodable_len(bytes@.len() as int),
    ensures
        match r {
            Some(t) => label_decoding(label@, bytes@) == Some(t@),
            None => label_decoding(label@, bytes@) is None,
        },
{
    match encoding_rs::Encoding::for_label(label.as_bytes()) {
        Some(encoding) => Some(encoding.decode(bytes).0.into_owned()),
        None => None,
    }
}

} // verus!
