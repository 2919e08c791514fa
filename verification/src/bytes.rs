//! Byte-string helpers.

use vstd::prelude::*;

verus! {

/// Appends the bytes of `b` to `out`.
pub(crate) fn append_bytes(out: &mut Vec<u8>, b: &[u8])
    ensures
        final(out)@ == old(out)@ + b@,
{
    let mut i: usize = 0;
    while i < b.len()
        invariant
            0 <= i <= b@.len(),
            out@ == old(out)@ + b@.take(i as int),
        decreases b@.len() - i,
    {
        out.push(b[i]);
        i = i + 1;
        assert(out@ =~= old(out)@ + b@.take(i as int));
    }
    assert(b@.take(b@.len() as int) =~= b@);
}

/// Byte-wise equality of two 32-byte strings. Every byte is compared,
/// whatever the earlier bytes were: the differences are accumulated and
/// tested once at the end.
pub(crate) fn bytes32_eq(a: &[u8; 32], b: &[u8; 32]) -> (eq: bool)
    ensures
        eq == (a@ == b@),
{
    let mut diff: u8 = 0;
    let mut i: usize = 0;
    while i < 32
        invariant
            0 <= i <= 32,
            (diff == 0) == (forall|j: int| 0 <= j < i ==> a@[j] == b@[j]),
        decreases 32 - i,
    {
        let x = a[i];
        let y = b[i];
        let d = x ^ y;
        assert(d == 0 <==> x == y) by (bit_vector)
            requires
                d == x ^ y,
        ;
        assert((diff | d) == 0 <==> (diff == 0 && d == 0)) by (bit_vector);
        diff = diff | d;
        i = i + 1;
        assert((diff == 0) == (forall|j: int| 0 <= j < i ==> a@[j] == b@[j])) by {
            if x != y {
                assert(a@[i - 1] != b@[i - 1]);
            }
        }
    }
    if diff == 0 {
        assert(a@ =~= b@);
    }
    diff == 0
}

} // verus!
