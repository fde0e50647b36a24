//! The backing store of a container: an owned vector or a borrowed one.
use vstd::prelude::*;

verus! {

/// Abstracts over a `Vec<T>` and a `&mut Vec<T>`.
pub trait VecTrait {
    type T;

    /// The elements of the vector reached through `self`.
    spec fn elems(&self) -> Seq<Self::T>;

    fn borrow_mut(&mut self) -> (r: &mut Vec<Self::T>)
        ensures
            r@ == old(self).elems(),
            final(self).elems() == final(r)@,
    ;

    fn borrow(&self) -> (r: &Vec<Self::T>)
        ensures
            r@ == self.elems(),
    ;
}

impl<T> VecTrait for Vec<T> {
    type T = T;

    open spec fn elems(&self) -> Seq<T> {
        self@
    }

    fn borrow_mut(&mut self) -> (r: &mut Vec<T>) {
        self
    }

    fn borrow(&self) -> (r: &Vec<T>) {
        self
    }
}

impl<'a, T> VecTrait for &'a mut Vec<T> {
    type T = T;

    open spec fn elems(&self) -> Seq<T> {
        (**self)@
    }

    fn borrow_mut(&mut self) -> (r: &mut Vec<T>) {
        self
    }

    fn borrow(&self) -> (r: &Vec<T>) {
        self
    }
}

} // verus!
