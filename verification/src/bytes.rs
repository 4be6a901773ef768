//! Byte-range utilities shared by the embedder and the reader.

use vstd::prelude::*;

verus! {

/// Number of bytes bracketed by a boundary pair: the unsigned pointer
/// difference `end - start`.
pub fn span_len(start: usize, end: usize) -> (n: usize)
    requires
        start <= end,
    ensures
        n == end - start,
{
    end - start
}

/// Byte-string equality, used to compare region and symbol names.
pub fn bytes_eq(a: &[u8], b: &[u8]) -> (r: bool)
    ensures
        r == (a@ == b@),
{
    if a.len() != b.len() {
        return false;
    }
    let mut i: usize = 0;
    while i < a.len()
        invariant
            a@.len() == b@.len(),
            i <= a@.len(),
            forall|k: int| 0 <= k < i ==> a@[k] == b@[k],
        decreases a@.len() - i,
    {
        if a[i] != b[i] {
            return false;
        }
        i += 1;
    }
    proof {
        assert(a@ =~= b@);
    }
    true
}

} // verus!
