//! Comparison of texts whose running time does not depend on where they differ.

use vstd::prelude::*;

verus! {

/// Whether `a` and `b` hold the same characters. Once the lengths agree, every
/// position is compared: no early exit reveals where the first difference lies.
pub fn same_chars(a: &str, b: &str) -> (r: bool)
    ensures
        r == (a@ == b@),
{
    let n = a.unicode_len();
    let m = b.unicode_len();
    if n != m {
        proof {
            assert(a@.len() != b@.len());
        }
        return false;
    }
    let mut diff: u32 = 0;
    let mut i: usize = 0;
    while i < n
        invariant
            n == a@.len(),
            n == b@.len(),
            i <= n,
            (diff == 0) == (forall|k: int| 0 <= k < i ==> a@[k] == b@[k]),
        decreases n - i,
    {
        let x = a.get_char(i) as u32;
        let y = b.get_char(i) as u32;
        let prev = diff;
        diff = diff | (x ^ y);
        proof {
            assert((prev | (x ^ y)) == 0u32 <==> (prev == 0u32 && (x ^ y) == 0u32)) by (bit_vector);
            assert(((x ^ y) == 0u32) <==> (x == y)) by (bit_vector);
            assert(x == y <==> a@[i as int] == b@[i as int]);
            if diff == 0 {
                assert forall|k: int| 0 <= k < i + 1 implies a@[k] == b@[k] by {
                    if k < i {
                    }
                }
            }
        }
        i = i + 1;
    }
    proof {
        if diff == 0 {
            assert(a@ =~= b@);
        }
    }
    diff == 0
}

} // verus!
