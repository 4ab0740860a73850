//! A cell that holds one value and moves it in and out whole.

use vstd::prelude::*;
use vstd::std_specs::cmp::PartialEqSpec;

verus! {

/// A memory location whose value is replaced as a whole.
///
/// Reading copies the value (`get`) and writing moves a new value in (`set`,
/// `replace`, `swap`, `take`). `as_ptr` and `get_mut` give a reference to the
/// storage itself.
pub struct Cell<T> {
    value: T,
}

impl<T> View for Cell<T> {
    type V = T;

    /// The value the cell holds.
    closed spec fn view(&self) -> T {
        self.value
    }
}

impl<T> Cell<T> {
    /// Creates a cell holding `value`.
    pub fn new(value: T) -> (c: Self)
        ensures
            c@ == value,
    {
        Cell { value }
    }

    /// Stores `val`; the previous value is dropped after `val` is in place.
    pub fn set(&mut self, val: T)
        ensures
            final(self)@ == val,
    {
        let _previous = self.replace(val);
    }

    /// Exchanges the values of two cells. Both are held exclusively, so they
    /// are two distinct cells.
    pub fn swap(&mut self, other: &mut Self)
        ensures
            final(self)@ == old(other)@,
            final(other)@ == old(self)@,
    {
        std::mem::swap(&mut self.value, &mut other.value);
    }

    /// Stores `val` and returns the value held before.
    pub fn replace(&mut self, val: T) -> (r: T)
        ensures
            r == old(self)@,
            final(self)@ == val,
    {
        let mut val = val;
        std::mem::swap(&mut self.value, &mut val);
        val
    }

    /// Consumes the cell and returns its value.
    pub fn into_inner(self) -> (r: T)
        ensures
            r == self@,
    {
        self.value
    }

    /// Returns a reference to the cell's storage.
    pub fn as_ptr(&self) -> (r: &T)
        ensures
            *r == self@,
    {
        &self.value
    }

    /// Returns an exclusive reference to the value; writes through it become
    /// the cell's value.
    pub fn get_mut(&mut self) -> (r: &mut T)
        ensures
            *r == old(self)@,
            final(self)@ == *final(r),
    {
        &mut self.value
    }
}

impl<T: Copy> Cell<T> {
    /// Returns a copy of the value.
    pub fn get(&self) -> (r: T)
        ensures
            r == self@,
    {
        self.value
    }

    /// Stores `f(old)` and returns it.
    pub fn update<F: FnOnce(T) -> T>(&mut self, f: F) -> (r: T)
        requires
            f.requires((old(self)@,)),
        ensures
            f.ensures((old(self)@,), r),
            final(self)@ == r,
    {
        let old = self.get();
        let new = f(old);
        self.set(new);
        new
    }
}

impl<T: Default> Cell<T> {
    /// Returns the value and leaves `T::default()` in its place.
    pub fn take(&mut self) -> (r: T)
        ensures
            r == old(self)@,
            T::default.ensures((), final(self)@),
    {
        self.replace(T::default())
    }
}

impl<T: Default> Default for Cell<T> {
    /// A cell holding `T::default()`.
    fn default() -> (c: Self)
        ensures
            T::default.ensures((), c@),
    {
        Cell::new(T::default())
    }
}

impl<T> From<T> for Cell<T> {
    /// A cell holding `t`.
    fn from(t: T) -> (c: Self)
        ensures
            c@ == t,
    {
        Cell::new(t)
    }
}

impl<T> vstd::std_specs::convert::FromSpecImpl<T> for Cell<T> {
    open spec fn obeys_from_spec() -> bool {
        true
    }

    closed spec fn from_spec(t: T) -> Self {
        Cell { value: t }
    }
}

impl<T: PartialEq + PartialEqSpec + Copy> PartialEq for Cell<T> {
    /// Compares the values.
    fn eq(&self, other: &Self) -> (r: bool) {
        self.get() == other.get()
    }
}

impl<T: PartialEq + PartialEqSpec + Copy> vstd::std_specs::cmp::PartialEqSpecImpl for Cell<T> {
    open spec fn obeys_eq_spec() -> bool {
        T::obeys_eq_spec()
    }

    open spec fn eq_spec(&self, other: &Self) -> bool {
        self@.eq_spec(&other@)
    }
}

} // verus!
