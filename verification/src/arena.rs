//! A bump-style store that owns every value allocated from it.

use vstd::prelude::*;

verus! {

/// Owning store of values. A value is referred to by the handle that
/// `allocate` returned for it; the handle stays valid as long as the arena
/// lives, and no value is ever removed.
pub struct Arena<T> {
    data: Vec<T>,
}

impl<T> Arena<T> {
    /// The values held, in order of allocation; a handle is an index into it.
    pub closed spec fn view(&self) -> Seq<T> {
        self.data@
    }

    /// An arena that holds nothing.
    pub fn new() -> (arena: Self)
        ensures
            arena@ == Seq::<T>::empty(),
    {
        Self { data: Vec::new() }
    }

    /// Stores `value` and returns its handle. Values stored earlier keep
    /// their handles, and the new handle differs from every one of them.
    pub fn allocate(&mut self, value: T) -> (handle: usize)
        ensures
            handle == old(self)@.len(),
            final(self)@ == old(self)@.push(value),
            final(self)@.len() <= usize::MAX,
    {
        let handle: usize = self.data.len();
        self.data.push(value);
        assert(self.data@.len() == self.data.len());
        handle
    }

    /// The number of values allocated so far.
    pub fn len(&self) -> (n: usize)
        ensures
            n == self@.len(),
    {
        self.data.len()
    }

    /// The value behind `handle`.
    pub fn get(&self, handle: usize) -> (value: &T)
        requires
            handle < self@.len(),
        ensures
            *value == self@[handle as int],
    {
        &self.data[handle]
    }

    /// Mutable access to the value behind `handle`; every other value stays
    /// as it is.
    pub fn get_mut(&mut self, handle: usize) -> (value: &mut T)
        requires
            handle < old(self)@.len(),
        ensures
            *value == old(self)@[handle as int],
            final(self)@ == old(self)@.update(handle as int, *final(value)),
    {
        &mut self.data[handle]
    }
}

} // verus!
