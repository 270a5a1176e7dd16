//! Holders for state that only the one executor thread touches.

use vstd::prelude::*;

verus! {

/// A value that is set and replaced as a whole.
pub struct ThreadUnsafeCell<T>(pub T);

impl<T: Copy> ThreadUnsafeCell<T> {
    pub fn new(val: T) -> (r: Self)
        ensures
            r.0 == val,
    {
        ThreadUnsafeCell(val)
    }

    pub fn set(&mut self, val: T)
        ensures
            final(self).0 == val,
    {
        self.0 = val;
    }

    pub fn replace(&mut self, val: T) -> (r: T)
        ensures
            r == old(self).0,
            final(self).0 == val,
    {
        let r = self.0;
        self.0 = val;
        r
    }
}

/// A value that is borrowed for one step at a time.
pub struct ThreadUnsafeRefCell<T>(pub T);

impl<T> ThreadUnsafeRefCell<T> {
    pub fn new(val: T) -> (r: Self)
        ensures
            r.0 == val,
    {
        ThreadUnsafeRefCell(val)
    }

    pub fn borrow(&self) -> (r: &T)
        ensures
            *r == self.0,
    {
        &self.0
    }

    pub fn borrow_mut(&mut self) -> (r: &mut T)
        ensures
            *r == old(self).0,
            final(self).0 == *final(r),
    {
        &mut self.0
    }
}

} // verus!
