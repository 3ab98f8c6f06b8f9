//! Taking a fixed number of bytes out of a longer run of bytes.

use vstd::prelude::*;

verus! {

/// The `N` bytes of `bytes` that start at `start`.
pub fn array_at<const N: usize>(bytes: &[u8], start: usize) -> (field: [u8; N])
    requires
        start + N <= bytes@.len(),
    ensures
        field@ == bytes@.subrange(start as int, start + N),
{
    let total: usize = bytes.len();
    let mut field = [0u8; N];
    let mut i: usize = 0;
    while i < N
        invariant
            i <= N,
            start + N <= total == bytes@.len(),
            forall|j: int| 0 <= j < i ==> field@[j] == bytes@[start + j],
        decreases N - i,
    {
        field[i] = bytes[start + i];
        i += 1;
    }
    assert(field@ =~= bytes@.subrange(start as int, start + N));
    field
}

} // verus!
