//! Text helpers: UTF-8 decoding, ASCII case folding and colon splitting, over vstd's UTF-8 model.

use vstd::prelude::*;
use vstd::utf8::*;
use crate::stream::decimal;

verus! {

broadcast use vstd::utf8::group_utf8_lib;

#[verifier::external_type_specification]
#[verifier::external_body]
pub struct ExUtf8Error(core::str::Utf8Error);

/// The lowercase form of one character under the ASCII-only rule: `A`..=`Z` map to
/// `a`..=`z`, every other character is kept.
pub open spec fn ascii_lower_char(c: char) -> char {
    if 'A' <= c && c <= 'Z' {
        ((c as u32) + 32) as char
    } else {
        c
    }
}

/// The ASCII lowercase form of a text, character by character.
pub open spec fn ascii_lower(s: Seq<char>) -> Seq<char> {
    Seq::new(s.len(), |i: int| ascii_lower_char(s[i]))
}

/// Relies on `core::str::from_utf8`: the bytes are accepted exactly when they are
/// well-formed UTF-8, and then read as such.
#[verifier::external_body]
pub(crate) fn utf8_str(bytes: &[u8]) -> (r: Result<&str, core::str::Utf8Error>)
    ensures
        r is Ok <==> valid_utf8(bytes@),
        r matches Ok(s) ==> s@ == decode_utf8(bytes@),
{
    core::str::from_utf8(bytes)
}

/// Relies on `str::to_ascii_lowercase`: ASCII letters become lowercase, every other
/// character is unchanged.
#[verifier::external_body]
pub(crate) fn to_ascii_lowercase(s: &str) -> (r: String)
    ensures
        r@ == ascii_lower(s@),
{
    s.to_ascii_lowercase()
}

/// Relies on `str::contains` with a `char` pattern.
#[verifier::external_body]
pub(crate) fn contains_colon(s: &str) -> (r: bool)
    ensures
        r == s@.contains(':'),
{
    s.contains(':')
}

/// Relies on `str::split_once` with a `char` pattern: splits around the first colon.
#[verifier::external_body]
pub(crate) fn split_at_colon(s: &str) -> (r: Option<(&str, &str)>)
    ensures
        r is None <==> !s@.contains(':'),
        r matches Some((a, b)) ==> s@ == a@ + seq![':'] + b@ && !a@.contains(':'),
{
    s.split_once(':')
}

/// The `Debug` rendering of a text: quoted, with escapes.
pub uninterp spec fn debug_str_text(s: Seq<char>) -> Seq<char>;

/// The `Debug` rendering of a byte string: the list of its values.
pub uninterp spec fn debug_bytes_text(b: Seq<u8>) -> Seq<char>;

/// Relies on the `Debug` formatting of `str`.
#[verifier::external_body]
pub(crate) fn debug_str(s: &str) -> (r: String)
    ensures
        r@ == debug_str_text(s@),
{
    format!("{:?}", s)
}

/// Relies on the `Debug` formatting of `[u8]`.
#[verifier::external_body]
pub(crate) fn debug_bytes(b: &[u8]) -> (r: String)
    ensures
        r@ == debug_bytes_text(b@),
{
    format!("{:?}", b)
}

/// Relies on `<[&str]>::concat`: the two texts one after the other.
#[verifier::external_body]
pub(crate) fn concat(a: &str, b: &str) -> (r: String)
    ensures
        r@ == a@ + b@,
{
    [a, b].concat()
}

/// Relies on the `Display` formatting of `u64`: its shortest decimal writing.
#[verifier::external_body]
pub(crate) fn u64_text(n: u64) -> (r: String)
    ensures
        r@ == decimal(n as nat),
{
    n.to_string()
}

/// Relies on the `Display` formatting of `Utf8Error`, which describes where the
/// bytes stop being UTF-8.
#[verifier::external_body]
pub(crate) fn utf8_error_text(e: &core::str::Utf8Error) -> (r: String) {
    e.to_string()
}

/// The UTF-8 encoding of a concatenation is the concatenation of the encodings.
pub proof fn lemma_encode_utf8_append(a: Seq<char>, b: Seq<char>)
    ensures
        encode_utf8(a + b) == encode_utf8(a) + encode_utf8(b),
    decreases a.len(),
{
    if a.len() == 0 {
        assert(a + b =~= b);
    } else {
        assert((a + b).drop_first() =~= a.drop_first() + b);
        lemma_encode_utf8_append(a.drop_first(), b);
    }
}

/// A character below 128 is encoded as the single byte of the same value.
pub proof fn lemma_encode_utf8_ascii_char(c: char)
    requires
        (c as u32) < 128,
    ensures
        encode_utf8(seq![c]) == seq![c as u32 as u8],
{
    assert(seq![c].drop_first() =~= Seq::<char>::empty());
    let u = c as u32;
    assert((u & 0x7F) == u) by (bit_vector)
        requires
            u < 128,
    ;
    assert(encode_utf8(Seq::<char>::empty()) == Seq::<u8>::empty());
    assert(encode_scalar(u) =~= seq![u as u8]);
    assert(encode_utf8(seq![c]) =~= encode_scalar(u) + encode_utf8(Seq::<char>::empty()));
}

} // verus!
