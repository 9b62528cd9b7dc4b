//! A sequence with a fixed capacity.

use vstd::prelude::*;

verus! {

/// At most `CAP` elements, in order.
#[derive(Debug)]
pub struct ArrayVec<T, const CAP: usize> {
    xs: Vec<T>,
}

impl<T, const CAP: usize> View for ArrayVec<T, CAP> {
    type V = Seq<T>;

    closed spec fn view(&self) -> Seq<T> {
        self.xs@
    }
}

impl<T: Copy, const CAP: usize> ArrayVec<T, CAP> {
    /// The sequence is not longer than its capacity.
    pub open spec fn wf(&self) -> bool {
        self@.len() <= CAP
    }

    /// An empty sequence.
    pub fn new() -> (r: Self)
        ensures
            r.wf(),
            r@ == Seq::<T>::empty(),
    {
        ArrayVec { xs: Vec::new() }
    }

    /// Whether the sequence is within its capacity.
    pub fn is_well_formed(&self) -> (r: bool)
        ensures
            r == self.wf(),
    {
        self.xs.len() <= CAP
    }

    /// How many elements it holds.
    pub fn len(&self) -> (r: usize)
        ensures
            r == self@.len(),
    {
        self.xs.len()
    }

    /// Whether it holds no element.
    pub fn is_empty(&self) -> (r: bool)
        ensures
            r == (self@.len() == 0),
    {
        self.xs.len() == 0
    }

    /// How many elements it can hold.
    pub fn capacity(&self) -> (r: usize)
        ensures
            r == CAP,
    {
        CAP
    }

    /// How many more elements it can take.
    pub fn remaining_capacity(&self) -> (r: usize)
        requires
            self.wf(),
        ensures
            r == CAP - self@.len(),
    {
        CAP - self.xs.len()
    }

    /// Appends `element`.
    pub fn push(&mut self, element: T)
        requires
            old(self).wf(),
            old(self)@.len() < CAP,
        ensures
            final(self).wf(),
            final(self)@ == old(self)@.push(element),
    {
        self.xs.push(element);
    }

    /// Removes every element.
    pub fn clear(&mut self)
        ensures
            final(self).wf(),
            final(self)@ == Seq::<T>::empty(),
    {
        self.xs.clear();
    }

    /// Removes and returns the element at `index`; those behind it move up.
    pub fn remove(&mut self, index: usize) -> (element: T)
        requires
            old(self).wf(),
            index < old(self)@.len(),
        ensures
            final(self).wf(),
            element == old(self)@[index as int],
            final(self)@ == old(self)@.remove(index as int),
    {
        self.xs.remove(index)
    }

    /// Puts `element` at `index`; the elements from there on move back.
    pub fn insert(&mut self, index: usize, element: T)
        requires
            old(self).wf(),
            old(self)@.len() < CAP,
            index <= old(self)@.len(),
        ensures
            final(self).wf(),
            final(self)@ == old(self)@.insert(index as int, element),
    {
        self.xs.insert(index, element);
    }

    /// The elements as a slice.
    pub fn as_slice(&self) -> (r: &[T])
        ensures
            r@ == self@,
    {
        self.xs.as_slice()
    }

    /// The elements as a slice that can be written to.
    pub fn as_mut_slice(&mut self) -> (r: &mut [T])
        ensures
            r@ == old(self)@,
            final(r)@ == final(self)@,
    {
        self.xs.as_mut_slice()
    }

    /// Appends a copy of `data`.
    pub fn extend(&mut self, data: &[T])
        requires
            old(self).wf(),
            old(self)@.len() + data@.len() <= CAP,
        ensures
            final(self).wf(),
            final(self)@ == old(self)@ + data@,
    {
        let mut i: usize = 0;
        while i < data.len()
            invariant
                0 <= i <= data@.len(),
                self@ == old(self)@ + data@.take(i as int),
            decreases data@.len() - i,
        {
            self.xs.push(data[i]);
            proof {
                assert(data@.take(i + 1) =~= data@.take(i as int).push(data@[i as int]));
                assert(self@ =~= old(self)@ + data@.take(i + 1));
            }
            i += 1;
        }
        proof {
            assert(data@.take(i as int) =~= data@);
        }
    }

    /// The element at `index`.
    pub fn get(&self, index: usize) -> (element: T)
        requires
            index < self@.len(),
        ensures
            element == self@[index as int],
    {
        self.xs[index]
    }

    /// Replaces the element at `index`.
    pub fn set(&mut self, index: usize, element: T)
        requires
            index < old(self)@.len(),
        ensures
            final(self)@ == old(self)@.update(index as int, element),
    {
        self.xs[index] = element;
    }
}

} // verus!
