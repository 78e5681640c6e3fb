//! The storage interface under the frequency policy.
use crate::error::Error;
use vstd::pervasive::cloned;
use vstd::prelude::*;

verus! {

/// A key/value store addressed by 64-bit keys.
///
/// `contents` is the abstract state: the values the store holds.
pub trait Backend {
    type Value: Clone;

    /// What the store holds. A store that states nothing of itself holds
    /// nothing as far as proofs go.
    open spec fn contents(&self) -> Map<u64, Self::Value> {
        Map::empty()
    }

    /// The store's own well-formedness. A store that does not state it is
    /// never taken as well formed, so nothing is proved of it.
    open spec fn inv(&self) -> bool {
        false
    }

    /// Whether `insert` always succeeds on this kind of store.
    open spec fn insert_never_fails() -> bool {
        false
    }

    /// Stores `v` under `k`, replacing any earlier value. On failure the
    /// contents stay as they were.
    fn insert(&mut self, k: u64, v: Self::Value) -> (r: Result<(), Error>)
        requires
            old(self).inv(),
        ensures
            final(self).inv(),
            Self::insert_never_fails() ==> r is Ok,
            r is Ok ==> final(self).contents() == old(self).contents().insert(k, v),
            r is Err ==> final(self).contents() == old(self).contents(),
    ;

    /// A copy of the value stored under `k`, if any.
    fn fetch(&self, k: u64) -> (r: Option<Self::Value>)
        requires
            self.inv(),
        ensures
            match r {
                Some(v) => self.contents().contains_key(k) && cloned(self.contents()[k], v),
                None => !self.contents().contains_key(k),
            },
    ;

    /// Takes the value stored under `k` out of the store.
    fn remove(&mut self, k: u64) -> (r: Option<Self::Value>)
        requires
            old(self).inv(),
        ensures
            final(self).inv(),
            final(self).contents() == old(self).contents().remove(k),
            match r {
                Some(v) => old(self).contents().contains_key(k) && v == old(self).contents()[k],
                None => !old(self).contents().contains_key(k),
            },
    ;

    /// Removes every value.
    fn clear(&mut self)
        requires
            old(self).inv(),
        ensures
            final(self).inv(),
            final(self).contents() == Map::<u64, Self::Value>::empty(),
    ;

    /// How many values the store holds.
    fn size(&self) -> (r: usize)
        requires
            self.inv(),
        ensures
            r == self.contents().len(),
    ;

    /// Whether the store holds no value.
    fn is_empty(&self) -> (r: bool)
        requires
            self.inv(),
        ensures
            r == (self.contents().len() == 0),
    ;
}

} // verus!
