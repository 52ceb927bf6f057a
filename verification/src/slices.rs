//! Slices: the first word of a string, as a position and as a slice.

use vstd::prelude::*;
use vstd::utf8::encode_utf8;

verus! {

broadcast use vstd::utf8::encode_utf8_valid_utf8;

/// Whether `end` is where the first word of `bytes` ends: at the first blank,
/// or at the end if there is no blank.
pub open spec fn ends_first_word(bytes: Seq<u8>, end: int) -> bool {
    &&& 0 <= end <= bytes.len()
    &&& forall|k: int| 0 <= k < end ==> bytes[k] != 0x20
    &&& end < bytes.len() ==> bytes[end] == 0x20
}

/// The first word ends in one place only.
pub proof fn lemma_first_word_unique(bytes: Seq<u8>, a: int, b: int)
    requires
        ends_first_word(bytes, a),
        ends_first_word(bytes, b),
    ensures
        a == b,
{
    if a < b {
        assert(bytes[a] != 0x20);
    } else if b < a {
        assert(bytes[b] != 0x20);
    }
}

/// Where the first blank among `bytes` stands, or their number if none is
/// blank.
fn first_blank(bytes: &[u8]) -> (end: usize)
    ensures
        ends_first_word(bytes@, end as int),
{
    let mut i: usize = 0;
    while i < bytes.len()
        invariant
            i <= bytes.len(),
            forall|k: int| 0 <= k < i ==> bytes@[k] != 0x20,
        decreases bytes.len() - i,
    {
        if bytes[i] == 0x20u8 {
            return i;
        }
        i += 1;
    }
    bytes.len()
}

/// The position, in bytes, at which the first word of `s` ends.
pub fn first_word(s: &String) -> (end: usize)
    ensures
        ends_first_word(encode_utf8(s@), end as int),
{
    let bytes = s.as_str().as_bytes();
    first_blank(bytes)
}

/// The first word of `s`: what stands before its first blank, or all of `s`
/// if it has no blank.
pub fn first_word_slice(s: &String) -> (word: &str)
    ensures
        ends_first_word(encode_utf8(s@), encode_utf8(word@).len() as int),
        encode_utf8(word@) == encode_utf8(s@).take(encode_utf8(word@).len() as int),
        word@ == s@.take(word@.len() as int),
{
    let text = s.as_str();
    let bytes = text.as_bytes();
    let end = first_blank(bytes);
    if end < bytes.len() {
        proof {
            vstd::utf8::is_char_boundary_iff_not_is_continuation_byte(bytes@, end as int);
        }
        let (word, _rest) = text.split_at(end);
        proof {
            vstd::utf8::decode_utf8_split(bytes@, end as int);
            vstd::utf8::encode_utf8_decode_utf8(s@);
            vstd::utf8::encode_utf8_decode_utf8(word@);
            assert(bytes@.subrange(0, end as int) == encode_utf8(word@));
            let tail = vstd::utf8::decode_utf8(bytes@.subrange(end as int, bytes@.len() as int));
            assert(s@ == word@ + tail);
            assert((word@ + tail).take(word@.len() as int) == word@);
        }
        word
    } else {
        assert(bytes@.take(bytes@.len() as int) == bytes@);
        assert(s@.take(s@.len() as int) == s@);
        text
    }
}

} // verus!
