//! Handles: the tokens by which a cache's resources are named.

use std::marker::PhantomData;

use vstd::prelude::*;

verus! {

/// A typed token that names one slot of a cache of `T` by its key.
///
/// A handle neither owns nor borrows what it names: it is plain data, free to
/// copy, and any two handles with the same key name the same slot. The type
/// parameter keeps a handle for one kind of resource out of the cache of
/// another kind.
#[derive(Debug)]
pub struct Handle<T> {
    /// The key of the slot that this handle names.
    pub hash: u64,
    /// The kind of resource that this handle stands for.
    pub data: PhantomData<T>,
}

impl<T> Handle<T> {
    /// Makes the handle for the slot with the key `hash`.
    pub(crate) fn new(hash: u64) -> (handle: Self)
        ensures
            handle.hash == hash,
    {
        Self { hash, data: PhantomData }
    }
}

impl<T> Clone for Handle<T> {
    fn clone(&self) -> (copy: Self)
        ensures
            copy == *self,
    {
        Self { hash: self.hash, data: PhantomData }
    }
}

impl<T> Copy for Handle<T> {

}

impl<T> PartialEq for Handle<T> {
    fn eq(&self, other: &Self) -> (equal: bool) {
        self.hash == other.hash
    }
}

impl<T> Eq for Handle<T> {

}

impl<T> vstd::std_specs::cmp::PartialEqSpecImpl for Handle<T> {
    open spec fn obeys_eq_spec() -> bool {
        true
    }

    /// Two handles are equal exactly when their keys are.
    open spec fn eq_spec(&self, other: &Self) -> bool {
        self.hash == other.hash
    }
}

} // verus!
