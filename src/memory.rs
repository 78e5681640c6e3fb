//! The in-process storage backend.
use crate::backend::Backend;
use crate::error::Error;
use std::collections::HashMap;
use vstd::pervasive::cloned;
use vstd::prelude::*;

verus! {

broadcast use vstd::std_specs::hash::group_hash_axioms;

/// Values kept in a hash map for the lifetime of the process.
#[derive(Debug)]
pub struct Memory<V> {
    values: HashMap<u64, V>,
}

impl<V: Clone> Memory<V> {
    /// An empty store.
    pub fn new() -> (r: Self)
        ensures
            r.inv(),
            r.contents() == Map::<u64, V>::empty(),
    {
        Memory { values: HashMap::new() }
    }
}

impl<V: Clone> Backend for Memory<V> {
    type Value = V;

    closed spec fn contents(&self) -> Map<u64, V> {
        self.values@
    }

    closed spec fn inv(&self) -> bool {
        true
    }

    open spec fn insert_never_fails() -> bool {
        true
    }

    fn insert(&mut self, k: u64, v: V) -> (r: Result<(), Error>) {
        self.values.insert(k, v);
        Ok(())
    }

    fn fetch(&self, k: u64) -> (r: Option<V>) {
        match self.values.get(&k) {
            Some(v) => Some(v.clone()),
            None => None,
        }
    }

    fn remove(&mut self, k: u64) -> (r: Option<V>) {
        self.values.remove(&k)
    }

    fn clear(&mut self) {
        self.values.clear();
    }

    fn size(&self) -> (r: usize) {
        self.values.len()
    }

    fn is_empty(&self) -> (r: bool) {
        self.values.is_empty()
    }
}

} // verus!
