//! Text measured and cut in UTF-8 bytes.
use vstd::prelude::*;
use vstd::utf8::*;

verus! {

/// The length of `s` in UTF-8 bytes.
pub open spec fn byte_len(s: Seq<char>) -> nat {
    encode_utf8(s).len()
}

/// Byte position `n` of `s` lies between two characters.
pub open spec fn cuts_at(s: Seq<char>, n: int) -> bool {
    is_char_boundary(encode_utf8(s), n)
}

/// The first `n` bytes of `s`.
pub open spec fn byte_prefix(s: Seq<char>, n: int) -> Seq<char> {
    decode_utf8(encode_utf8(s).subrange(0, n))
}

/// What follows the first `n` bytes of `s`.
pub open spec fn byte_suffix(s: Seq<char>, n: int) -> Seq<char> {
    decode_utf8(encode_utf8(s).subrange(n, encode_utf8(s).len() as int))
}

/// The length of `s` in UTF-8 bytes.
pub fn len(s: &str) -> (r: usize)
    ensures
        r == byte_len(s@),
{
    s.as_bytes().len()
}

/// Whether byte position `n` of `s` lies between two characters.
pub fn cuts(s: &str, n: usize) -> (r: bool)
    ensures
        r == cuts_at(s@, n as int),
{
    s.is_char_boundary(n)
}

/// `s` cut in two at byte position `n`.
pub fn cut(s: &str, n: usize) -> (r: (String, String))
    requires
        cuts_at(s@, n as int),
    ensures
        r.0@ == byte_prefix(s@, n as int),
        r.1@ == byte_suffix(s@, n as int),
{
    let (a, b) = s.split_at(n);
    proof {
        encode_utf8_decode_utf8(a@);
        encode_utf8_decode_utf8(b@);
    }
    (a.to_owned(), b.to_owned())
}

/// The encoding of a text is that of its parts, one after the other.
pub proof fn lemma_encode_concat(a: Seq<char>, b: Seq<char>)
    ensures
        encode_utf8(a + b) == encode_utf8(a) + encode_utf8(b),
    decreases a.len(),
{
    if a.len() == 0 {
        assert(a + b =~= b);
        assert(encode_utf8(a) + encode_utf8(b) =~= encode_utf8(b));
    } else {
        assert((a + b).drop_first() =~= a.drop_first() + b);
        lemma_encode_concat(a.drop_first(), b);
        let first = encode_scalar(a[0] as u32);
        assert(first + (encode_utf8(a.drop_first()) + encode_utf8(b)) =~= encode_utf8(a)
            + encode_utf8(b));
    }
}

/// The bytes of a text are those of its parts.
pub proof fn lemma_byte_len_concat(a: Seq<char>, b: Seq<char>)
    ensures
        byte_len(a + b) == byte_len(a) + byte_len(b),
{
    lemma_encode_concat(a, b);
}

/// The bytes of two texts one behind the other are cut where the one ends.
pub proof fn lemma_cut_between(a: Seq<char>, b: Seq<char>)
    ensures
        byte_prefix(a + b, byte_len(a) as int) == a,
        byte_suffix(a + b, byte_len(a) as int) == b,
{
    lemma_encode_concat(a, b);
    let all = encode_utf8(a + b);
    let n = byte_len(a) as int;
    assert(all.subrange(0, n) =~= encode_utf8(a));
    assert(all.subrange(n, all.len() as int) =~= encode_utf8(b));
    encode_utf8_decode_utf8(a);
    encode_utf8_decode_utf8(b);
}

} // verus!
