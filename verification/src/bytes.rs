//! Small byte-buffer helpers shared by the encoders and decoders.

use vstd::prelude::*;

verus! {

/// Appends every byte of `src` to `out`.
pub fn append_bytes(out: &mut Vec<u8>, src: &[u8])
    ensures
        final(out)@ == old(out)@ + src@,
{
    let ghost start = out@;
    let mut i: usize = 0;
    while i < src.len()
        invariant
            i <= src@.len(),
            out@ == start + src@.subrange(0, i as int),
        decreases src@.len() - i,
    {
        out.push(src[i]);
        i = i + 1;
        assert(src@.subrange(0, i as int) == src@.subrange(0, (i - 1) as int).push(src@[i - 1]));
    }
    assert(src@.subrange(0, src@.len() as int) == src@);
}

/// Copies `bytes[start .. start + N]` into `dst`.
pub fn copy_into_array<const N: usize>(dst: &mut [u8; N], bytes: &[u8], start: usize)
    requires
        start + N <= bytes@.len(),
    ensures
        final(dst)@ == bytes@.subrange(start as int, start + N),
{
    let mut i: usize = 0;
    while i < N
        invariant
            i <= N,
            start + N <= bytes.len(),
            dst@.len() == N,
            forall|j: int| 0 <= j < i ==> dst@[j] == bytes@[start + j],
        decreases N - i,
    {
        dst[i] = bytes[start + i];
        i = i + 1;
    }
    assert(dst@ =~= bytes@.subrange(start as int, start + N));
}

/// Whether two 32-byte arrays are equal.
pub fn bytes32_eq(a: &[u8; 32], b: &[u8; 32]) -> (res: bool)
    ensures
        res == (*a == *b),
{
    let mut i: usize = 0;
    while i < 32
        invariant
            i <= 32,
            forall|j: int| 0 <= j < i ==> a@[j] == b@[j],
        decreases 32 - i,
    {
        if a[i] != b[i] {
            assert(a@[i as int] != b@[i as int]);
            return false;
        }
        i = i + 1;
    }
    assert(*a =~= *b);
    true
}

} // verus!
