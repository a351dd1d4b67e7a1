//! Facts about the UTF-8 encoding of text that is put together from pieces.

use vstd::prelude::*;

verus! {

/// The encoding of two texts in a row is the encoding of the first, then that of the second.
pub proof fn lemma_encode_concat(a: Seq<char>, b: Seq<char>)
    ensures
        vstd::utf8::encode_utf8(a + b) == vstd::utf8::encode_utf8(a) + vstd::utf8::encode_utf8(b),
    decreases a.len(),
{
    if a.len() == 0 {
        assert(a + b =~= b);
    } else {
        assert((a + b).drop_first() =~= a.drop_first() + b);
        lemma_encode_concat(a.drop_first(), b);
    }
}

/// The number of bytes of two texts in a row.
pub proof fn lemma_len_concat(a: Seq<char>, b: Seq<char>)
    ensures
        vstd::utf8::encode_utf8(a + b).len() == vstd::utf8::encode_utf8(a).len()
            + vstd::utf8::encode_utf8(b).len(),
{
    lemma_encode_concat(a, b);
}

/// Text of ASCII characters has as many bytes as characters.
pub proof fn lemma_len_ascii(a: Seq<char>)
    requires
        vstd::utf8::is_ascii_chars(a),
    ensures
        vstd::utf8::encode_utf8(a).len() == a.len(),
{
    vstd::utf8::is_ascii_chars_encode_utf8(a);
}

} // verus!
