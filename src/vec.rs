//! A vector whose capacity is fixed by its type.

use vstd::prelude::*;

verus! {

/// The first `cap` elements of `src`, or all of them where there are no more than `cap`.
pub open spec fn leading<T>(src: Seq<T>, cap: nat) -> Seq<T> {
    if src.len() <= cap {
        src
    } else {
        src.take(cap as int)
    }
}

/// Reading back a vector built from a source no longer than its capacity gives the source
/// itself, element for element.
pub proof fn lemma_slice_round_trip<T>(src: Seq<T>, cap: nat)
    requires
        src.len() <= cap,
    ensures
        leading(src, cap) == src,
        forall|i: int| 0 <= i < src.len() ==> #[trigger] leading(src, cap)[i] == src[i],
{
}

/// Relies on `From<[T; K]>` for `Vec<T>`, which moves the array's items into the vector in order.
#[verifier::external_body]
fn array_into_vec<T, const K: usize>(values: [T; K]) -> (r: Vec<T>)
    ensures
        r@ == values@,
{
    Vec::from(values)
}

/// Returned by an insertion into a full vector; holds the element that was not stored.
#[derive(Debug, PartialEq, Eq)]
pub struct CapacityError<T> {
    pub value: T,
}

/// A vector that holds at most `N` elements of `T`.
///
/// The storage for all `N` slots is reserved when the vector is made and the vector never
/// grows past it: an insertion into a full vector is refused and reported.
#[derive(Debug)]
pub struct StaticVec<T, const N: usize> {
    data: Vec<T>,
}

impl<T, const N: usize> View for StaticVec<T, N> {
    type V = Seq<T>;

    /// The occupied slots, in order.
    closed spec fn view(&self) -> Seq<T> {
        self.data@
    }
}

impl<T, const N: usize> StaticVec<T, N> {
    /// No more than `N` slots are occupied.
    pub open spec fn well_formed(&self) -> bool {
        self@.len() <= N
    }

    /// An empty vector.
    pub fn new() -> (r: Self)
        ensures
            r@ == Seq::<T>::empty(),
            r.well_formed(),
    {
        StaticVec { data: Vec::with_capacity(N) }
    }

    /// A full vector that owns the `N` given elements, in order.
    pub fn from_array(values: [T; N]) -> (r: Self)
        ensures
            r@ == values@,
            r.well_formed(),
    {
        StaticVec { data: array_into_vec(values) }
    }

    /// The fixed capacity `N`.
    pub fn capacity(&self) -> (r: usize)
        ensures
            r == N,
    {
        N
    }

    /// The number of occupied slots, never more than `N`.
    pub fn len(&self) -> (r: usize)
        ensures
            r == self@.len(),
    {
        self.data.len()
    }

    pub fn is_empty(&self) -> (r: bool)
        ensures
            r == (self@.len() == 0),
    {
        self.data.len() == 0
    }

    pub fn is_full(&self) -> (r: bool)
        ensures
            r == (self@.len() == N),
    {
        self.data.len() == N
    }

    /// Appends `value`; the caller guarantees that a slot is free.
    pub fn push_unchecked(&mut self, value: T)
        requires
            old(self).well_formed(),
            old(self)@.len() < N,
        ensures
            final(self)@ == old(self)@.push(value),
            final(self).well_formed(),
    {
        self.data.push(value);
    }

    /// Appends `value`, or hands it back untouched when the vector is full.
    pub fn push(&mut self, value: T) -> (r: Result<(), CapacityError<T>>)
        requires
            old(self).well_formed(),
        ensures
            old(self)@.len() < N ==> r is Ok && final(self)@ == old(self)@.push(value),
            old(self)@.len() == N ==> r == Err::<(), _>(CapacityError { value })
                && final(self)@ == old(self)@,
            final(self).well_formed(),
    {
        if self.data.len() < N {
            self.push_unchecked(value);
            Ok(())
        } else {
            Err(CapacityError { value })
        }
    }

    /// Removes and returns the last element, or `None` when the vector is empty.
    pub fn pop(&mut self) -> (r: Option<T>)
        requires
            old(self).well_formed(),
        ensures
            old(self)@.len() == 0 ==> r is None && final(self)@ == old(self)@,
            old(self)@.len() > 0 ==> r == Some(old(self)@.last())
                && final(self)@ == old(self)@.drop_last(),
            final(self).well_formed(),
    {
        self.data.pop()
    }

    /// Places `value` at `index`, shifting the later elements up, or hands it back untouched
    /// when the vector is full.
    pub fn insert(&mut self, index: usize, value: T) -> (r: Result<(), CapacityError<T>>)
        requires
            old(self).well_formed(),
            index <= old(self)@.len(),
        ensures
            old(self)@.len() < N ==> r is Ok && final(self)@ == old(self)@.insert(
                index as int,
                value,
            ),
            old(self)@.len() == N ==> r == Err::<(), _>(CapacityError { value })
                && final(self)@ == old(self)@,
            final(self).well_formed(),
    {
        if self.data.len() < N {
            self.data.insert(index, value);
            Ok(())
        } else {
            Err(CapacityError { value })
        }
    }

    /// Removes and returns the element at `index`, shifting the later elements down.
    pub fn remove(&mut self, index: usize) -> (r: T)
        requires
            old(self).well_formed(),
            index < old(self)@.len(),
        ensures
            r == old(self)@[index as int],
            final(self)@ == old(self)@.remove(index as int),
            final(self).well_formed(),
    {
        self.data.remove(index)
    }

    /// Drops the elements from `len` on; a `len` at or past the length changes nothing.
    pub fn truncate(&mut self, len: usize)
        requires
            old(self).well_formed(),
        ensures
            len <= old(self)@.len() ==> final(self)@ == old(self)@.take(len as int),
            len > old(self)@.len() ==> final(self)@ == old(self)@,
            final(self).well_formed(),
    {
        self.data.truncate(len);
    }

    /// Drops every element.
    pub fn clear(&mut self)
        ensures
            final(self)@ == Seq::<T>::empty(),
            final(self).well_formed(),
    {
        self.data.clear();
    }

    /// The element at `index`, or `None` past the occupied slots.
    pub fn get(&self, index: usize) -> (r: Option<&T>)
        ensures
            index < self@.len() ==> r == Some(&self@[index as int]),
            index >= self@.len() ==> r is None,
    {
        if index < self.data.len() {
            Some(&self.data[index])
        } else {
            None
        }
    }

    /// The occupied slots as a slice.
    pub fn as_slice(&self) -> (r: &[T])
        ensures
            r@ == self@,
    {
        self.data.as_slice()
    }
}

impl<T: Copy, const N: usize> StaticVec<T, N> {
    /// A vector holding copies of the first `min(values.len(), N)` elements of `values`.
    pub fn new_from_slice(values: &[T]) -> (r: Self)
        ensures
            r@ == leading(values@, N as nat),
            r.well_formed(),
    {
        let fill: usize = if values.len() < N {
            values.len()
        } else {
            N
        };
        let mut data: Vec<T> = Vec::with_capacity(N);
        let mut i: usize = 0;
        while i < fill
            invariant
                fill <= values@.len(),
                fill <= N,
                i <= fill,
                data@ == values@.take(i as int),
            decreases fill - i,
        {
            data.push(values[i]);
            i += 1;
            assert(data@ =~= values@.take(i as int));
        }
        assert(values@.take(fill as int) =~= leading(values@, N as nat));
        StaticVec { data }
    }

    /// A vector holding copies of the first `min(M, N)` elements of `values`.
    pub fn new_from_array<const M: usize>(values: [T; M]) -> (r: Self)
        ensures
            r@ == leading(values@, N as nat),
            r.well_formed(),
    {
        Self::new_from_slice(values.as_slice())
    }
}

} // verus!
