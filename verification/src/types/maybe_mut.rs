//! A value that is borrowed mutably, borrowed shared, owned, or absent.

use vstd::prelude::*;

verus! {

/// A value of `T` held in one of several ways.
pub enum UniRef<'a, T> {
    /// Borrowed, with the right to change it.
    Mut(&'a mut T),
    /// Borrowed for reading only.
    Ref(&'a T),
    /// Owned.
    Loc(T),
    /// No value.
    Int,
}

impl<'a, T> UniRef<'a, T> {
    /// The value, for reading, unless there is none.
    pub open spec fn value(&self) -> Option<T> {
        match self {
            UniRef::Mut(r) => Some(**r),
            UniRef::Ref(r) => Some(**r),
            UniRef::Loc(v) => Some(*v),
            UniRef::Int => None,
        }
    }

    /// The value for changing it: there is one when it is owned or borrowed
    /// mutably.
    pub fn get_mut(&mut self) -> (r: Option<&mut T>)
        ensures
            match *old(self) {
                UniRef::Mut(m) => {
                    &&& r matches Some(x) && *x == *m
                    &&& *final(self) matches UniRef::Mut(m2) && *m2 == *final(r->0) && *final(m2)
                        == *final(m)
                },
                UniRef::Loc(v) => {
                    &&& r matches Some(x) && *x == v
                    &&& *final(self) == UniRef::<'a, T>::Loc(*final(r->0))
                },
                _ => r is None && *final(self) == *old(self),
            },
    {
        match self {
            UniRef::Mut(r) => Some(r),
            UniRef::Loc(r) => Some(r),
            _ => None,
        }
    }

    /// The value for reading, unless there is none.
    pub fn get_ref(&self) -> (r: Option<&T>)
        ensures
            match r {
                Some(x) => self.value() == Some(*x),
                None => self.value() is None,
            },
    {
        match self {
            UniRef::Mut(r) => Some(r),
            UniRef::Ref(r) => Some(r),
            UniRef::Loc(r) => Some(r),
            _ => None,
        }
    }
}

} // verus!
