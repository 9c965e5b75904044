//! Cutting a matched prefix off a string.
//!
//! Positions count code points, strings are stored as UTF-8: the step from one to the
//! other is proved here once.

use vstd::prelude::*;
use vstd::string::StringSliceAdditionalSpecFns;
use vstd::utf8::*;

verus! {

/// The encoding of two texts in a row is the encoding of the one followed by that of
/// the other.
pub proof fn encode_concat(a: Seq<char>, b: Seq<char>)
    ensures
        encode_utf8(a + b) == encode_utf8(a) + encode_utf8(b),
    decreases a.len(),
{
    if a.len() == 0 {
        assert(a + b =~= b);
        assert(encode_utf8(a) + encode_utf8(b) =~= encode_utf8(b));
    } else {
        assert((a + b).drop_first() =~= a.drop_first() + b);
        encode_concat(a.drop_first(), b);
        assert(encode_utf8(a + b) =~= encode_utf8(a) + encode_utf8(b));
    }
}

/// In the encoding of two texts in a row, the second begins at a character boundary.
pub proof fn boundary_after_prefix(a: Seq<char>, b: Seq<char>)
    ensures
        is_char_boundary(encode_utf8(a + b), encode_utf8(a).len() as int),
    decreases a.len(),
{
    let bytes = encode_utf8(a + b);
    encode_utf8_valid_utf8(a + b);
    if a.len() > 0 {
        encode_utf8_first_scalar(a + b);
        encode_concat(a, b);
        assert((a + b).drop_first() =~= a.drop_first() + b);
        assert(pop_first_scalar(bytes) =~= encode_utf8(a.drop_first() + b));
        boundary_after_prefix(a.drop_first(), b);
    }
}

/// What is left of `text` after `prefix`.
pub fn after_prefix<'a>(text: &'a str, prefix: &str) -> (rest: &'a str)
    requires
        prefix@.is_prefix_of(text@),
    ensures
        rest@ == text@.skip(prefix@.len() as int),
{
    let ghost tail = text@.skip(prefix@.len() as int);
    proof {
        assert(text@ =~= prefix@ + tail);
        boundary_after_prefix(prefix@, tail);
        encode_concat(prefix@, tail);
    }
    let cut: usize = prefix.as_bytes().len();
    assert(text.spec_bytes() == encode_utf8(prefix@) + encode_utf8(tail));
    let (_, rest) = text.split_at(cut);
    proof {
        assert(rest.spec_bytes() =~= encode_utf8(tail));
        encode_utf8_decode_utf8(rest@);
        encode_utf8_decode_utf8(tail);
    }
    rest
}

} // verus!
