//! The control token that guards the guest agent channel.
use vstd::prelude::*;

verus! {

/// Compares two byte strings without an early exit, so a caller cannot learn the token by
/// timing.
pub fn constant_time_eq(a: &[u8], b: &[u8]) -> (r: bool)
    ensures
        r == (a@ == b@),
{
    if a.len() != b.len() {
        return false;
    }
    let mut difference: u8 = 0;
    let mut i: usize = 0;
    while i < a.len()
        invariant
            a.len() == b.len(),
            i <= a.len(),
            (difference == 0) == (forall|j: int| 0 <= j < i ==> a@[j] == b@[j]),
        decreases a.len() - i,
    {
        let left = a[i];
        let right = b[i];
        let next = difference | (left ^ right);
        assert((next == 0) == (difference == 0 && left == right)) by (bit_vector)
            requires
                next == difference | (left ^ right),
        ;
        difference = next;
        i += 1;
    }
    if difference == 0 {
        assert(a@ =~= b@);
    }
    difference == 0
}

} // verus!
