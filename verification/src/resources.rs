//! The cache that resolves handles to resources.

use std::collections::hash_map::Entry;
use std::collections::HashMap;

use vstd::prelude::*;
use vstd::std_specs::hash::group_hash_axioms;

pub use crate::handle::Handle;
use crate::identifier::{base36_digit, key_of};

verus! {

/// The contents of a cache that held `before`, after a request for `key`
/// whose builder would return `built`: what is there stays, and only a key
/// that is not there yet gets the built resource.
pub open spec fn after_load<T>(before: Map<u64, T>, key: u64, built: T) -> Map<u64, T> {
    if before.contains_key(key) {
        before
    } else {
        before.insert(key, built)
    }
}

/// An owning store of resources of one kind, each under a 64-bit key.
///
/// The view of a cache is the map from the keys in use to the resources
/// stored under them. Entries are added and overwritten, never removed.
#[derive(Debug, Clone)]
pub struct ResourceCache<T> {
    assets: HashMap<u64, T>,
}

impl<T> View for ResourceCache<T> {
    type V = Map<u64, T>;

    closed spec fn view(&self) -> Map<u64, T> {
        self.assets@
    }
}

impl<T> ResourceCache<T> {
    /// A cache holds finitely many entries.
    pub proof fn lemma_finite(&self)
        ensures
            self@.dom().finite(),
    {
        broadcast use group_hash_axioms;

    }

    /// Creates an empty cache.
    pub fn new() -> (cache: Self)
        ensures
            cache@ == Map::<u64, T>::empty(),
    {
        Self { assets: HashMap::new() }
    }

    /// Computes the key of the identifier `path`.
    pub fn hash_path(path: String) -> (key: u64)
        ensures
            key == key_of(path@),
    {
        let mut output: u64 = 0;
        let chars = path.as_str().chars();
        for c in it: chars
            invariant
                it.seq() == path@,
                output == key_of(path@.take(it.index())),
        {
            assert(path@.take(it.index() + 1).drop_last() == path@.take(it.index()));
            if let Some(digit) = base36_digit(c) {
                output = output.wrapping_add(digit as u64);
            }
        }
        assert(path@.take(path@.len() as int) == path@);
        output
    }

    /// Returns the handle of the resource with the identifier `path`,
    /// building the resource if the cache does not hold it yet.
    ///
    /// Where the cache holds an entry under the key of `path`, it stays as it
    /// is and `load` is not called: `load` need not even be callable then.
    /// Otherwise `load` is called once, and what it returns is stored under
    /// that key. Either way the handle resolves in this cache afterwards.
    pub fn load<F>(&mut self, path: String, load: F) -> (handle: Handle<T>) where F: Fn() -> T
        requires
            !old(self)@.contains_key(key_of(path@)) ==> call_requires(load, ()),
        ensures
            handle.hash == key_of(path@),
            final(self)@.contains_key(handle.hash),
            final(self)@ == after_load(old(self)@, handle.hash, final(self)@[handle.hash]),
            !old(self)@.contains_key(handle.hash) ==> call_ensures(
                load,
                (),
                final(self)@[handle.hash],
            ),
            old(self)@.dom().subset_of(final(self)@.dom()),
            old(self)@.len() <= final(self)@.len(),
    {
        broadcast use group_hash_axioms;

        let hash = Self::hash_path(path);
        if self.assets.contains_key(&hash) {
            Handle::new(hash)
        } else {
            self.assets.insert(hash, load());
            Handle::new(hash)
        }
    }

    /// Looks up the resource that `handle` names. There is one exactly when
    /// the cache holds an entry under the handle's key.
    pub fn get(&self, handle: &Handle<T>) -> (found: Option<&T>)
        ensures
            match found {
                Some(value) => self@.contains_key(handle.hash) && *value == self@[handle.hash],
                None => !self@.contains_key(handle.hash),
            },
    {
        broadcast use group_hash_axioms;

        self.assets.get(&handle.hash)
    }

    /// Looks up the resource that `handle` names, for a change in place.
    /// There is one exactly when the cache holds an entry under the handle's
    /// key; what the caller leaves in it is what the cache holds under that
    /// key from then on, and nothing else changes.
    pub fn get_mut(&mut self, handle: &Handle<T>) -> (found: Option<&mut T>)
        ensures
            match found {
                Some(value) => {
                    &&& old(self)@.contains_key(handle.hash)
                    &&& *value == old(self)@[handle.hash]
                    &&& final(self)@ == old(self)@.insert(handle.hash, *final(value))
                },
                None => !old(self)@.contains_key(handle.hash) && final(self)@ == old(self)@,
            },
            final(self)@.dom() == old(self)@.dom(),
    {
        broadcast use group_hash_axioms;

        match self.assets.entry(handle.hash) {
            Entry::Occupied(slot) => Some(slot.into_mut()),
            Entry::Vacant(_) => None,
        }
    }

    /// Stores `value` under `hash`, in place of what was there.
    pub fn insert(&mut self, hash: u64, value: T)
        ensures
            final(self)@ == old(self)@.insert(hash, value),
            old(self)@.dom().subset_of(final(self)@.dom()),
            old(self)@.len() <= final(self)@.len(),
    {
        broadcast use group_hash_axioms;

        self.assets.insert(hash, value);
    }

    /// Stores `value` in the slot that `handle` names, in place of what was
    /// there. No builder is involved.
    pub fn replace(&mut self, handle: &Handle<T>, value: T)
        ensures
            final(self)@ == old(self)@.insert(handle.hash, value),
            old(self)@.dom().subset_of(final(self)@.dom()),
            old(self)@.len() <= final(self)@.len(),
    {
        broadcast use group_hash_axioms;

        self.assets.insert(handle.hash, value);
    }
}

/// A second request for an identifier finds what the first one left.
///
/// Whatever the two builders would return: after the first request the cache
/// holds an entry under the identifier's key, so the second request calls no
/// builder and leaves the cache as it is, and the key resolves to the same
/// resource after both.
pub proof fn lemma_load_memoizes<T>(before: Map<u64, T>, path: Seq<char>, first: T, second: T)
    ensures
        ({
            let key = key_of(path);
            let once = after_load(before, key, first);
            let twice = after_load(once, key, second);
            &&& once.contains_key(key)
            &&& once[key] == if before.contains_key(key) {
                before[key]
            } else {
                first
            }
            &&& twice == once
        }),
{
}

/// What is stored in place of a loaded resource is what its key resolves to
/// from then on: a later request for the same identifier calls no builder
/// and leaves it there.
pub proof fn lemma_replace_overwrites<T>(
    before: Map<u64, T>,
    path: Seq<char>,
    built: T,
    value: T,
    later: T,
)
    ensures
        ({
            let key = key_of(path);
            let replaced = after_load(before, key, built).insert(key, value);
            &&& replaced.contains_key(key)
            &&& replaced[key] == value
            &&& after_load(replaced, key, later) == replaced
        }),
{
}

/// A request removes nothing: every key in use before it is in use after it,
/// with the resource it had.
pub proof fn lemma_load_keeps_entries<T>(before: Map<u64, T>, key: u64, built: T, other: u64)
    requires
        before.contains_key(other),
    ensures
        after_load(before, key, built).contains_key(other),
        after_load(before, key, built)[other] == before[other],
{
}

} // verus!
