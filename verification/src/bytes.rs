//! Byte-level helpers: decoding UTF-8 text and searching in byte strings.

use crate::text::{
    find, find_from, first_index, lemma_first_index, occurs_at, string_of, to_chars,
};
use vstd::prelude::*;
use vstd::string::StringSliceAdditionalSpecFns;
use vstd::utf8::{decode_utf8, encode_utf8_decode_utf8, valid_utf8};

verus! {

/// The text that `bytes` encode, where they are well-formed UTF-8.
pub open spec fn text_of(bytes: Seq<u8>) -> Option<Seq<char>> {
    if valid_utf8(bytes) {
        Some(decode_utf8(bytes))
    } else {
        None
    }
}

/// `core::str::from_utf8` accepts exactly the well-formed UTF-8 byte
/// strings, and the string slice it returns has the bytes it was given.
#[verifier::external_body]
fn utf8_str(bytes: &[u8]) -> (r: Option<&str>)
    ensures
        r is Some <==> valid_utf8(bytes@),
        r matches Some(s) ==> s.spec_bytes() == bytes@,
{
    core::str::from_utf8(bytes).ok()
}

/// The text that the standard library's lossy conversion makes of bytes.
pub uninterp spec fn utf8_lossy(bytes: Seq<u8>) -> Seq<char>;

/// The text of `bytes` for display: what they encode where they are
/// well-formed UTF-8, and [`utf8_lossy`] of them where they are not.
pub open spec fn display_text(bytes: Seq<u8>) -> Seq<char> {
    match text_of(bytes) {
        Some(t) => t,
        None => utf8_lossy(bytes),
    }
}

/// `String::from_utf8_lossy` turns bytes into text and puts the
/// replacement character where they are not well-formed UTF-8; the result
/// depends on the bytes alone and is given the name [`utf8_lossy`].
#[verifier::external_body]
fn lossy_string(bytes: &[u8]) -> (r: String)
    ensures
        r@ == utf8_lossy(bytes@),
{
    String::from_utf8_lossy(bytes).into_owned()
}

/// The text of `bytes` for display.
pub fn to_display_text(bytes: &[u8]) -> (r: String)
    ensures
        r@ == display_text(bytes@),
{
    match decode_text(bytes) {
        Some(chars) => string_of(chars.as_slice()),
        None => lossy_string(bytes),
    }
}

/// Decodes `bytes` as UTF-8.
pub fn decode_text(bytes: &[u8]) -> (r: Option<Vec<char>>)
    ensures
        r is Some <==> valid_utf8(bytes@),
        r matches Some(v) ==> text_of(bytes@) == Some(v@),
        r is None ==> text_of(bytes@) is None,
{
    match utf8_str(bytes) {
        Some(s) => {
            proof {
                encode_utf8_decode_utf8(s@);
            }
            Some(to_chars(s))
        },
        None => None,
    }
}

/// Whether `needle` stands in `hay` at index `i`.
pub fn bytes_occur_at(hay: &[u8], needle: &[u8], i: usize) -> (r: bool)
    ensures
        r == occurs_at(hay@, needle@, i as int),
{
    if needle.len() > hay.len() || i > hay.len() - needle.len() {
        return false;
    }
    let mut k: usize = 0;
    while k < needle.len()
        invariant
            k <= needle@.len(),
            i + needle@.len() <= hay@.len() <= usize::MAX,
            forall|j: int| 0 <= j < k ==> hay@[i + j] == needle@[j],
        decreases needle@.len() - k,
    {
        if hay[i + k] != needle[k] {
            assert(hay@.subrange(i as int, i + needle@.len())[k as int] != needle@[k as int]);
            return false;
        }
        k += 1;
    }
    assert(hay@.subrange(i as int, i + needle@.len()) =~= needle@);
    true
}

/// Index of the first occurrence of `needle` in `hay` at or after `from`.
pub fn find_bytes_from(hay: &[u8], needle: &[u8], from: usize) -> (r: Option<usize>)
    ensures
        r is Some <==> find_from(hay@, needle@, from as int) is Some,
        r matches Some(i) ==> find_from(hay@, needle@, from as int) == Some(i as int),
{
    if needle.len() > hay.len() || from > hay.len() - needle.len() {
        return None;
    }
    let last = hay.len() - needle.len();
    let mut i: usize = from;
    loop
        invariant
            from <= i <= last,
            last + needle@.len() == hay@.len(),
            find_from(hay@, needle@, from as int) == find_from(hay@, needle@, i as int),
        decreases last - i,
    {
        if bytes_occur_at(hay, needle, i) {
            return Some(i);
        }
        if i == last {
            assert(find_from(hay@, needle@, i + 1) is None);
            return None;
        }
        i += 1;
    }
}

/// Index of the first occurrence of `needle` in `hay`.
pub fn find_bytes(hay: &[u8], needle: &[u8]) -> (r: Option<usize>)
    ensures
        r is Some <==> find(hay@, needle@) is Some,
        r matches Some(i) ==> find(hay@, needle@) == Some(i as int),
{
    find_bytes_from(hay, needle, 0)
}


/// Position of the first `b` in `s`, or the length of `s`.
pub fn byte_position(s: &[u8], b: u8) -> (r: usize)
    ensures
        r == first_index(s@, b),
{
    let mut i: usize = 0;
    while i < s.len() && s[i] != b
        invariant
            i <= s@.len(),
            forall|j: int| 0 <= j < i ==> #[trigger] s@[j] != b,
        decreases s@.len() - i,
    {
        i += 1;
    }
    proof {
        lemma_first_index(s@, b, i as int);
    }
    i
}

} // verus!
