//! A fixed-capacity builder: accumulates values one at a time up to a
//! compile-time capacity and converts into an exact-size sequence only once
//! completely full.
//!
//! The capacity `N` is part of the type.  A push beyond capacity is
//! rejected and hands the value back untouched; finalizing before the
//! capacity is reached hands the whole builder back so the collected work
//! is not lost.  Values the builder holds are owned by it alone, so a
//! builder that is dropped part-way releases exactly the values pushed so
//! far, once each, and nothing else.

use vstd::prelude::*;

verus! {

/// A builder for an exact-size sequence of `N` values, filled one value at
/// a time.
#[derive(Debug, PartialEq, Eq)]
pub struct ArrayBuilder<T, const N: usize> {
    items: Vec<T>,
}

impl<T, const N: usize> View for ArrayBuilder<T, N> {
    type V = Seq<T>;

    /// The values pushed so far, in insertion order.
    closed spec fn view(&self) -> Seq<T> {
        self.items@
    }
}

impl<T, const N: usize> ArrayBuilder<T, N> {
    /// The builder never holds more than `N` values.
    pub open spec fn wf(&self) -> bool {
        self@.len() <= N
    }

    /// Creates an empty builder: no slot is filled.
    pub fn new() -> (r: Self)
        ensures
            r.wf(),
            r@ == Seq::<T>::empty(),
    {
        Self { items: Vec::new() }
    }

    /// How many of the `N` slots are filled.
    pub fn filled(&self) -> (n: usize)
        ensures
            n == self@.len(),
    {
        self.items.len()
    }

    /// Appends one value to the first unfilled slot.
    ///
    /// When the builder is already full the value is handed back untouched
    /// in the error and the builder is unchanged; otherwise it now occupies
    /// the next slot, after everything pushed before it.
    pub fn push(&mut self, item: T) -> (r: Result<(), T>)
        requires
            old(self).wf(),
        ensures
            final(self).wf(),
            old(self)@.len() < N ==> r is Ok && final(self)@ == old(self)@.push(item),
            old(self)@.len() == N ==> r == Err::<(), T>(item) && final(self)@ == old(self)@,
    {
        if self.items.len() == N {
            return Err(item);
        }
        self.items.push(item);
        Ok(())
    }

    /// Consumes the builder, yielding its `N` values in insertion order.
    ///
    /// Legal only once every slot is filled: a builder with fewer values is
    /// handed back whole in the error, still holding exactly what was
    /// pushed and still able to accept more pushes.
    pub fn build(self) -> (r: Result<Vec<T>, Self>)
        requires
            self.wf(),
        ensures
            match r {
                Ok(values) => self@.len() == N && values@ == self@,
                Err(builder) => self@.len() < N && builder == self,
            },
    {
        if self.items.len() != N {
            return Err(self);
        }
        Ok(self.items)
    }
}

} // verus!
