//! A small helper for building byte buffers.

use vstd::prelude::*;

verus! {

/// Append every byte of `src` to `dst`, in order.
pub fn push_all(dst: &mut Vec<u8>, src: &[u8])
    ensures
        final(dst)@ == old(dst)@ + src@,
{
    let ghost base = dst@;
    let mut i: usize = 0;
    while i < src.len()
        invariant
            i <= src@.len(),
            dst@ == base + src@.take(i as int),
        decreases src@.len() - i,
    {
        dst.push(src[i]);
        proof {
            assert(base + src@.take(i as int) + seq![src@[i as int]] =~= base + src@.take(i + 1));
        }
        i = i + 1;
    }
    proof {
        assert(base + src@.take(src@.len() as int) =~= base + src@);
    }
}

} // verus!
