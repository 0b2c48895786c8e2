//! The key-comparison helper shared by the storage engine's scan.

use vstd::prelude::*;
use crate::codec::keys_match;

verus! {

/// Compares a probe key `a` against a stored `key_size`-byte slot `b`:
/// true iff `a` is a prefix of `b` and every slot byte past `a` is zero,
/// so that a slot matches exactly the key it was encoded from.
pub fn compare_keys(a: &[u8], b: &[u8], key_size: usize) -> (r: bool)
    requires
        b@.len() == key_size,
    ensures
        r == keys_match(a@, b@),
{
    if a.len() > key_size {
        return false;
    }
    let mut i: usize = 0;
    while i < a.len()
        invariant
            i <= a@.len() <= b@.len(),
            forall|j: int| 0 <= j < i ==> a@[j] == b@[j],
        decreases a@.len() - i,
    {
        if a[i] != b[i] {
            assert(b@.subrange(0, a@.len() as int) != a@);
            return false;
        }
        i = i + 1;
    }
    let mut k: usize = a.len();
    while k < key_size
        invariant
            a@.len() <= k <= b@.len() == key_size,
            forall|j: int| 0 <= j < a@.len() ==> a@[j] == b@[j],
            forall|j: int| a@.len() <= j < k ==> b@[j] == 0u8,
        decreases key_size - k,
    {
        if b[k] != 0 {
            return false;
        }
        k = k + 1;
    }
    assert(b@.subrange(0, a@.len() as int) =~= a@);
    true
}

} // verus!
