//! An append-only list: elements can be added at the end and changed in
//! place, but never removed or reordered.

use vstd::prelude::*;

verus! {

/// A list that only grows: once pushed, an element keeps its position for
/// the life of the list.
pub struct UnshrinkableLinkedList<T> {
    inner: Vec<T>,
}

impl<T> View for UnshrinkableLinkedList<T> {
    type V = Seq<T>;

    closed spec fn view(&self) -> Seq<T> {
        self.inner@
    }
}

impl<T> UnshrinkableLinkedList<T> {
    /// An empty list.
    pub fn new() -> (r: Self)
        ensures
            r@ == Seq::<T>::empty(),
    {
        UnshrinkableLinkedList { inner: Vec::new() }
    }

    /// The last element, if any.
    pub fn last(&self) -> (r: Option<&T>)
        ensures
            self@.len() == 0 ==> r is None,
            self@.len() > 0 ==> (r matches Some(x) && *x == self@.last()),
    {
        let n = self.inner.len();
        if n == 0 {
            None
        } else {
            Some(&self.inner[n - 1])
        }
    }

    /// The number of elements.
    pub fn len(&self) -> (r: usize)
        ensures
            r == self@.len(),
    {
        self.inner.len()
    }

    /// The element at position `i`.
    pub fn get(&self, i: usize) -> (r: &T)
        requires
            i < self@.len(),
        ensures
            *r == self@[i as int],
    {
        &self.inner[i]
    }

    /// Appends an element at the end.
    pub fn push(&mut self, object: T)
        ensures
            final(self)@ == old(self)@.push(object),
    {
        self.inner.push(object);
    }

    /// Mutable access to the last element; the others stay where they are.
    pub fn last_mut(&mut self) -> (r: &mut T)
        requires
            old(self)@.len() > 0,
        ensures
            *r == old(self)@.last(),
            final(self)@ == old(self)@.update(old(self)@.len() - 1, *final(r)),
    {
        let n = self.inner.len();
        &mut self.inner[n - 1]
    }

    /// Mutable access to the element at position `i`; the others stay where
    /// they are.
    pub fn get_mut(&mut self, i: usize) -> (r: &mut T)
        requires
            i < old(self)@.len(),
        ensures
            *r == old(self)@[i as int],
            final(self)@ == old(self)@.update(i as int, *final(r)),
    {
        &mut self.inner[i]
    }
}

impl<T> From<Vec<T>> for UnshrinkableLinkedList<T> {
    /// A list holding the vector's elements, in order.
    fn from(value: Vec<T>) -> (r: Self)
        ensures
            r@ == value@,
    {
        UnshrinkableLinkedList { inner: value }
    }
}

impl<T> vstd::std_specs::convert::FromSpecImpl<Vec<T>> for UnshrinkableLinkedList<T> {
    open spec fn obeys_from_spec() -> bool {
        true
    }

    closed spec fn from_spec(v: Vec<T>) -> Self {
        UnshrinkableLinkedList { inner: v }
    }
}

} // verus!
