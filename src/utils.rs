//! Construction helpers shared by the vector's bulk constructors.

use crate::vec::StaticVec;
use vstd::prelude::*;

verus! {

/// A full vector of capacity `N` in which every slot holds a copy of `value`.
pub fn new_from_value<T: Copy, const N: usize>(value: T) -> (r: StaticVec<T, N>)
    ensures
        r@ == Seq::new(N as nat, |_i: int| value),
        r.well_formed(),
{
    let mut res = StaticVec::<T, N>::new();
    let mut i: usize = 0;
    while i < N
        invariant
            i <= N,
            res.well_formed(),
            res@ == Seq::new(i as nat, |_i: int| value),
        decreases N - i,
    {
        res.push_unchecked(value);
        i += 1;
        assert(res@ =~= Seq::new(i as nat, |_i: int| value));
    }
    res
}

} // verus!
