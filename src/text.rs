use vstd::prelude::*;

verus! {

/// The length in bytes of a string's UTF-8 encoding, as a string in memory holds it.
pub open spec fn byte_len(s: Seq<char>) -> usize {
    vstd::utf8::encode_utf8(s).len() as usize
}

/// The length in bytes of `s`, as limits on names count it.
pub fn byte_length(s: &String) -> (r: usize)
    ensures
        r == byte_len(s@),
{
    s.as_str().len()
}

} // verus!
