//! A vector with a capacity fixed by its type.
use vstd::prelude::*;
use vstd::std_specs::iter::IteratorSpec;

verus! {

/// A vector of at most `N` elements. Its view is the sequence of the
/// elements it holds, oldest first.
pub struct ArrayVec<T, const N: usize> {
    items: Vec<T>,
}

impl<T, const N: usize> View for ArrayVec<T, N> {
    type V = Seq<T>;

    closed spec fn view(&self) -> Seq<T> {
        self.items@
    }
}

impl<T, const N: usize> ArrayVec<T, N> {
    /// The vector holds no more than its capacity. Every vector that this
    /// module hands out is well formed, and every method keeps it so.
    pub open spec fn wf(&self) -> bool {
        self@.len() <= N
    }

    /// An empty vector.
    pub fn new() -> (r: Self)
        ensures
            r@ == Seq::<T>::empty(),
            r.wf(),
    {
        ArrayVec { items: Vec::new() }
    }

    /// The number of elements in the vector.
    pub fn len(&self) -> (r: usize)
        ensures
            r == self@.len(),
    {
        self.items.len()
    }

    /// Whether the vector holds nothing.
    pub fn is_empty(&self) -> (r: bool)
        ensures
            r == (self@.len() == 0),
    {
        self.items.len() == 0
    }

    /// Whether the vector has reached its capacity.
    pub fn is_full(&self) -> (r: bool)
        ensures
            r == (self@.len() >= N),
    {
        self.items.len() >= N
    }

    /// The capacity `N`.
    pub fn capacity(&self) -> (r: usize)
        ensures
            r == N,
    {
        N
    }

    /// The elements as a slice.
    pub fn as_slice(&self) -> (r: &[T])
        ensures
            r@ == self@,
    {
        self.items.as_slice()
    }

    /// An iterator over the elements, oldest first.
    pub fn iter(&self) -> (r: core::slice::Iter<'_, T>)
        ensures
            r.remaining() == self@.as_ref(),
    {
        broadcast use vstd::std_specs::slice::axiom_spec_slice_iter;

        self.items.as_slice().iter()
    }

    /// The vector of the first `N` elements that `iter` yields, or of all of
    /// them where there are fewer.
    pub fn from_iter<I: Iterator<Item = T>>(iter: I) -> (r: Self)
        ensures
            r.wf(),
            iter.obeys_prophetic_iter_laws() ==> r@ == iter.remaining().take(
                if iter.remaining().len() < N {
                    iter.remaining().len() as int
                } else {
                    N as int
                },
            ),
    {
        let mut source = iter;
        let mut items: Vec<T> = Vec::new();
        let mut more = true;
        while more && items.len() < N
            invariant
                items@.len() <= N,
                source.obeys_prophetic_iter_laws() == iter.obeys_prophetic_iter_laws(),
                iter.obeys_prophetic_iter_laws() ==> items@ + source.remaining() == iter.remaining(),
                iter.obeys_prophetic_iter_laws() && !more ==> source.remaining().len() == 0,
            decreases N - items@.len() + (if more { 1int } else { 0int }),
        {
            match source.next() {
                Some(v) => {
                    let ghost before = items@;
                    items.push(v);
                    assert(iter.obeys_prophetic_iter_laws() ==> items@ + source.remaining()
                        =~= iter.remaining());
                },
                None => {
                    more = false;
                },
            }
        }
        assert(iter.obeys_prophetic_iter_laws() ==> items@ =~= iter.remaining().take(
            if iter.remaining().len() < N {
                iter.remaining().len() as int
            } else {
                N as int
            },
        ));
        ArrayVec { items }
    }

    /// The element at `index`.
    pub fn get(&self, index: usize) -> (r: &T)
        requires
            index < self@.len(),
        ensures
            *r == self@[index as int],
    {
        &self.items[index]
    }

    /// The newest element, if there is one.
    pub fn last(&self) -> (r: Option<&T>)
        ensures
            self@.len() == 0 ==> r is None,
            self@.len() > 0 ==> r == Some(&self@[self@.len() - 1]),
    {
        let n = self.items.len();
        if n == 0 {
            None
        } else {
            Some(&self.items[n - 1])
        }
    }

    /// Replaces the element at `index`.
    pub fn set(&mut self, index: usize, value: T)
        requires
            index < old(self)@.len(),
        ensures
            final(self)@ == old(self)@.update(index as int, value),
    {
        self.items.set(index, value);
    }

    /// Removes every element.
    pub fn clear(&mut self)
        ensures
            final(self)@ == Seq::<T>::empty(),
    {
        self.items.clear();
    }

    /// Appends `value`. The vector must not be full.
    pub fn push(&mut self, value: T)
        requires
            old(self)@.len() < N,
        ensures
            final(self)@ == old(self)@.push(value),
    {
        self.items.push(value);
    }

    /// Appends `value` where there is room for it, and hands it back where
    /// the vector is full.
    pub fn try_push(&mut self, value: T) -> (r: Result<(), T>)
        ensures
            old(self)@.len() < N ==> r is Ok && final(self)@ == old(self)@.push(value),
            old(self)@.len() >= N ==> r == Err::<(), T>(value) && final(self)@ == old(self)@,
    {
        if self.items.len() < N {
            self.items.push(value);
            Ok(())
        } else {
            Err(value)
        }
    }

    /// Removes the newest element and returns it, or returns `None` where the
    /// vector is empty.
    pub fn pop(&mut self) -> (r: Option<T>)
        ensures
            old(self)@.len() == 0 ==> r is None && final(self)@ == old(self)@,
            old(self)@.len() > 0 ==> r == Some(old(self)@[old(self)@.len() - 1]) && final(self)@
                == old(self)@.drop_last(),
    {
        self.items.pop()
    }
}

} // verus!
