//! The least-frequently-used policy over a storage backend.
use crate::backend::Backend;
use crate::bin::{
    bin_is_empty, bin_keys, bin_new, bin_pop_front, bin_push, bin_remove, lemma_push_no_dup,
    lemma_remove_first, lemma_remove_value_no_dup,
};
use crate::error::Error;
use linked_hash_set::LinkedHashSet;
use std::collections::HashMap;
use vstd::pervasive::cloned;
use vstd::prelude::*;

verus! {

broadcast use vstd::std_specs::hash::group_hash_axioms;

/// What `put` did.
#[derive(Debug, Clone, Copy, PartialEq, Eq, Structural)]
pub enum PutResult {
    /// A new entry was stored.
    Put,
    /// The value of a resident entry was replaced in place.
    Update,
}

/// A cache that, when full, evicts the entry read least often, and among
/// those the one that reached its count first.
///
/// Each indexed key has an access count and stands in the bin of that count;
/// `min_frequency` is a lower bound of all counts (0 when nothing is indexed).
pub struct LFU<B: Backend> {
    counts: HashMap<u64, usize>,
    backend: B,
    freq_bin: HashMap<usize, LinkedHashSet<u64>>,
    capacity: Option<usize>,
    min_frequency: usize,
}

impl<B: Backend> LFU<B> {
    /// The values the cache holds.
    pub closed spec fn entries(&self) -> Map<u64, B::Value> {
        self.backend.contents()
    }

    /// The access count of each indexed key.
    pub closed spec fn counts(&self) -> Map<u64, usize> {
        self.counts@
    }

    /// The keys whose count is `c`, in the order they reached it.
    pub closed spec fn bin(&self, c: usize) -> Seq<u64> {
        if self.freq_bin@.contains_key(c) {
            bin_keys(self.freq_bin@[c])
        } else {
            Seq::empty()
        }
    }

    /// The bound on resident entries, if any.
    pub closed spec fn capacity(&self) -> Option<usize> {
        self.capacity
    }

    /// The backend under the policy.
    pub closed spec fn store(&self) -> B {
        self.backend
    }

    /// The index agrees with the store: every indexed key is stored, has a
    /// count of at least 1 and at least `min_frequency`, and stands once in
    /// the bin of its count; no bin in the map is empty.
    pub closed spec fn wf(&self) -> bool {
        &&& self.backend.inv()
        &&& self.backend.contents().dom().finite()
        &&& forall|k: u64| #[trigger]
            self.counts@.contains_key(k) ==> self.backend.contents().contains_key(k)
        &&& forall|k: u64| #[trigger]
            self.counts@.contains_key(k) ==> 1 <= self.counts@[k] && self.min_frequency
                <= self.counts@[k]
        &&& forall|c: usize, k: u64| #[trigger]
            self.bin(c).contains(k) <==> (self.counts@.contains_key(k) && self.counts@[k] == c)
        &&& forall|c: usize| #[trigger] self.bin(c).no_duplicates()
        &&& forall|c: usize| #[trigger]
            self.freq_bin@.contains_key(c) ==> bin_keys(self.freq_bin@[c]).len() > 0
    }

    /// `k` is the key that eviction takes: the oldest of the keys with the
    /// smallest count.
    pub open spec fn is_victim(&self, k: u64) -> bool {
        &&& self.counts().contains_key(k)
        &&& forall|j: u64| #[trigger]
            self.counts().contains_key(j) ==> self.counts()[k] <= self.counts()[j]
        &&& self.bin(self.counts()[k]).len() > 0
        &&& self.bin(self.counts()[k])[0] == k
    }

    /// `next` is `self` after one access to the indexed key `k`: its count
    /// grows by one and it moves to the end of the next bin.
    pub open spec fn touched(&self, next: &Self, k: u64) -> bool {
        let c = self.counts()[k];
        if c == usize::MAX {
            &&& next.counts() == self.counts()
            &&& forall|f: usize| #[trigger] next.bin(f) == self.bin(f)
        } else {
            &&& next.counts() == self.counts().insert(k, (c + 1) as usize)
            &&& next.bin(c) == self.bin(c).remove_value(k)
            &&& next.bin((c + 1) as usize) == self.bin((c + 1) as usize).push(k)
            &&& forall|f: usize| f != c && f != c + 1 ==> #[trigger] next.bin(f) == self.bin(f)
        }
    }

    /// `next` is `self` with the key `k` newly indexed at count 1.
    pub open spec fn admitted(&self, next: &Self, k: u64) -> bool {
        &&& next.counts() == self.counts().insert(k, 1)
        &&& next.bin(1) == self.bin(1).push(k)
        &&& forall|f: usize| f != 1 ==> #[trigger] next.bin(f) == self.bin(f)
    }

    /// `next` is `self` with the key `k` dropped from the index.
    pub open spec fn unindexed(&self, next: &Self, k: u64) -> bool {
        &&& next.counts() == self.counts().remove(k)
        &&& forall|f: usize| #[trigger] next.bin(f) == self.bin(f).remove_value(k)
    }

    /// An empty index over `backend`, without a capacity.
    pub fn new(backend: B) -> (r: Self)
        requires
            backend.inv(),
            backend.contents().dom().finite(),
        ensures
            r.wf(),
            r.store() == backend,
            r.entries() == backend.contents(),
            r.counts() == Map::<u64, usize>::empty(),
            forall|f: usize| #[trigger] r.bin(f) == Seq::<u64>::empty(),
            r.capacity() is None,
    {
        let r = LFU {
            counts: HashMap::new(),
            backend,
            freq_bin: HashMap::new(),
            capacity: None,
            min_frequency: 0,
        };
        assert forall|c: usize| #[trigger] r.bin(c).no_duplicates() by {
            assert(r.bin(c) == Seq::<u64>::empty());
        }
        r
    }

    /// The same cache, bounded to `capacity` resident entries.
    pub fn with_capacity(self, capacity: usize) -> (r: Self)
        requires
            self.wf(),
        ensures
            r.wf(),
            r.entries() == self.entries(),
            r.counts() == self.counts(),
            forall|c: usize| #[trigger] r.bin(c) == self.bin(c),
            r.capacity() == Some(capacity),
    {
        let r = LFU { capacity: Some(capacity), ..self };
        assert forall|c: usize| #[trigger] r.bin(c) == self.bin(c) by {}
        r
    }

    /// Records one access to the indexed key `k`.
    fn update_freq_bin(&mut self, k: u64)
        requires
            old(self).wf(),
            old(self).counts().contains_key(k),
        ensures
            final(self).wf(),
            old(self).touched(final(self), k),
            final(self).entries() == old(self).entries(),
            final(self).capacity() == old(self).capacity(),
    {
        let c: usize = match self.counts.get(&k) {
            Some(c) => *c,
            None => {
                return;
            },
        };
        if c == usize::MAX {
            return;
        }
        let ghost pre = *self;
        let mut bin = match self.freq_bin.remove(&c) {
            Some(b) => b,
            None => {
                assert(pre.bin(c).contains(k));
                return;
            },
        };
        proof {
            assert(bin_keys(bin) == pre.bin(c));
            lemma_remove_value_no_dup(bin_keys(bin), k);
        }
        bin_remove(&mut bin, k);
        if !bin_is_empty(&bin) {
            self.freq_bin.insert(c, bin);
        } else if c == self.min_frequency {
            self.min_frequency = c + 1;
        }
        self.counts.insert(k, c + 1);
        let mut next = match self.freq_bin.remove(&(c + 1)) {
            Some(b) => b,
            None => bin_new(),
        };
        proof {
            assert(bin_keys(next) == pre.bin((c + 1) as usize));
            assert(!pre.bin((c + 1) as usize).contains(k));
        }
        bin_push(&mut next, k);
        self.freq_bin.insert(c + 1, next);
        proof {
            assert(self.bin(c) == pre.bin(c).remove_value(k));
            assert(self.bin((c + 1) as usize) == pre.bin((c + 1) as usize).push(k));
            assert forall|f: usize| f != c && f != c + 1 implies #[trigger] self.bin(f) == pre.bin(
                f,
            ) by {}
            assert forall|f: usize, x: u64| #[trigger]
                self.bin(f).contains(x) <==> (self.counts@.contains_key(x) && self.counts@[x]
                    == f) by {
                assert(pre.bin(f).contains(x) <==> (pre.counts@.contains_key(x) && pre.counts@[x]
                    == f));
                assert(pre.bin(f).contains(k) <==> pre.counts@[k] == f);
                if f == c + 1 {
                    let s = pre.bin(f);
                    let t = self.bin(f);
                    assert(t == s.push(k));
                    if t.contains(x) && x != k {
                        let i = choose|i: int| 0 <= i < t.len() && t[i] == x;
                        assert(i < s.len());
                        assert(s[i] == x);
                    }
                    if x != k && s.contains(x) {
                        let i = choose|i: int| 0 <= i < s.len() && s[i] == x;
                        assert(t[i] == x);
                    }
                    assert(t[t.len() - 1] == k);
                } else if f == c {
                    assert(self.bin(c) == pre.bin(c).remove_value(k));
                    assert(pre.bin(c).remove_value(k).contains(x) <==> (pre.bin(c).contains(x)
                        && x != k));
                } else {
                    assert(self.bin(f) == pre.bin(f));
                }
            }
            assert forall|f: usize| #[trigger] self.bin(f).no_duplicates() by {
                if f == c + 1 {
                    let s = pre.bin(f);
                    let t = self.bin(f);
                    assert(t == s.push(k));
                    assert(!s.contains(k));
                    assert(s.no_duplicates());
                    assert forall|i: int, j: int|
                        0 <= i < t.len() && 0 <= j < t.len() && i != j implies t[i] != t[j] by {
                        if i < s.len() && j < s.len() {
                            assert(t[i] == s[i] && t[j] == s[j]);
                        } else if i < s.len() {
                            assert(t[i] == s[i] && t[j] == k);
                            assert(s.contains(s[i]));
                        } else {
                            assert(t[j] == s[j] && t[i] == k);
                            assert(s.contains(s[j]));
                        }
                    }
                } else if f == c {
                } else {
                    assert(self.bin(f) == pre.bin(f));
                }
            }
            assert forall|x: u64| #[trigger]
                self.counts@.contains_key(x) implies 1 <= self.counts@[x] && self.min_frequency
                <= self.counts@[x] by {
                if x != k && self.min_frequency == c + 1 && self.min_frequency != pre.min_frequency {
                    assert(!pre.bin(c).remove_value(k).contains(x));
                    assert(pre.counts@[x] != c);
                }
            }
        }
    }

    /// Storing into the backend without dropping an indexed key keeps the
    /// index well formed.
    proof fn lemma_wf_frame(pre: Self, post: Self)
        requires
            pre.wf(),
            post.counts@ == pre.counts@,
            post.freq_bin@ == pre.freq_bin@,
            post.min_frequency == pre.min_frequency,
            post.backend.inv(),
            post.backend.contents().dom().finite(),
            forall|k: u64| #[trigger]
                pre.counts@.contains_key(k) ==> post.backend.contents().contains_key(k),
        ensures
            post.wf(),
            forall|f: usize| #[trigger] post.bin(f) == pre.bin(f),
    {
        assert forall|f: usize| #[trigger] post.bin(f) == pre.bin(f) by {}
        assert forall|f: usize, x: u64| #[trigger] post.bin(f).contains(x) <==> (
        post.counts@.contains_key(x) && post.counts@[x] == f) by {
            assert(pre.bin(f) == post.bin(f));
        }
        assert forall|f: usize| #[trigger] post.bin(f).no_duplicates() by {
            assert(pre.bin(f) == post.bin(f));
        }
    }

    /// Indexes the stored, unindexed key `k` at count 1.
    fn index_new(&mut self, k: u64)
        requires
            old(self).wf(),
            !old(self).counts().contains_key(k),
            old(self).entries().contains_key(k),
        ensures
            final(self).wf(),
            old(self).admitted(final(self), k),
            final(self).entries() == old(self).entries(),
            final(self).capacity() == old(self).capacity(),
    {
        let ghost pre = *self;
        self.counts.insert(k, 1);
        self.min_frequency = 1;
        let mut b = match self.freq_bin.remove(&1) {
            Some(b) => b,
            None => bin_new(),
        };
        proof {
            assert(bin_keys(b) == pre.bin(1));
            assert(!pre.bin(1).contains(k));
            lemma_push_no_dup(pre.bin(1), k);
        }
        bin_push(&mut b, k);
        self.freq_bin.insert(1, b);
        proof {
            assert(self.bin(1) == pre.bin(1).push(k));
            assert forall|f: usize| f != 1 implies #[trigger] self.bin(f) == pre.bin(f) by {}
            assert forall|f: usize, x: u64| #[trigger]
                self.bin(f).contains(x) <==> (self.counts@.contains_key(x) && self.counts@[x]
                    == f) by {
                assert(pre.bin(f).contains(x) <==> (pre.counts@.contains_key(x) && pre.counts@[x]
                    == f));
                if f != 1 {
                    assert(self.bin(f) == pre.bin(f));
                }
            }
            assert forall|f: usize| #[trigger] self.bin(f).no_duplicates() by {
                if f != 1 {
                    assert(self.bin(f) == pre.bin(f));
                }
            }
        }
    }

    /// In a well-formed cache every indexed key is stored, has a count of at
    /// least 1, and stands in exactly one bin, the one of its count, once.
    pub proof fn lemma_bins_match_counts(&self)
        requires
            self.wf(),
        ensures
            forall|k: u64| #[trigger]
                self.counts().contains_key(k) ==> self.entries().contains_key(k) && self.counts()[k]
                    >= 1,
            forall|c: usize, k: u64| #[trigger]
                self.bin(c).contains(k) <==> (self.counts().contains_key(k) && self.counts()[k]
                    == c),
            forall|c: usize| #[trigger] self.bin(c).no_duplicates(),
    {
    }

    /// When anything is indexed, eviction has a victim.
    pub proof fn lemma_victim_exists(&self)
        requires
            self.wf(),
            self.counts().len() > 0,
        ensures
            self.is_victim(self.victim()),
    {
        let k0 = self.counts@.dom().choose();
        assert(self.counts@.dom().len() > 0);
        assert(self.counts@.contains_key(k0));
        let lowest = self.lowest_count(k0);
        let e = self.bin(lowest)[0];
        assert(self.bin(lowest).contains(e));
        assert(self.is_victim(e));
    }

    /// The smallest count at or below that of the indexed key `k`.
    proof fn lowest_count(&self, k: u64) -> (c: usize)
        requires
            self.wf(),
            self.counts@.contains_key(k),
        ensures
            self.bin(c).len() > 0,
            forall|j: u64| #[trigger] self.counts@.contains_key(j) ==> c <= self.counts@[j],
        decreases self.counts@[k],
    {
        let c = self.counts@[k];
        assert(self.bin(c).contains(k));
        if exists|j: u64| #[trigger] self.counts@.contains_key(j) && self.counts@[j] < c {
            let j = choose|j: u64| #[trigger] self.counts@.contains_key(j) && self.counts@[j] < c;
            self.lowest_count(j)
        } else {
            c
        }
    }

    /// The victim is the only key that eviction may take.
    pub proof fn lemma_victim_unique(&self, a: u64, b: u64)
        requires
            self.is_victim(a),
            self.is_victim(b),
        ensures
            a == b,
    {
    }

    /// The key that eviction takes, when there is one.
    pub open spec fn victim(&self) -> u64 {
        choose|e: u64| self.is_victim(e)
    }

    /// Evicts the oldest of the least frequently used keys, and returns it;
    /// does nothing when no key is indexed.
    pub fn evict(&mut self) -> (r: Option<u64>)
        requires
            old(self).wf(),
        ensures
            final(self).wf(),
            final(self).capacity() == old(self).capacity(),
            match r {
                Some(e) => {
                    &&& old(self).is_victim(e)
                    &&& e == old(self).victim()
                    &&& final(self).entries() == old(self).entries().remove(e)
                    &&& old(self).unindexed(final(self), e)
                },
                None => {
                    &&& old(self).counts() == Map::<u64, usize>::empty()
                    &&& final(self).entries() == old(self).entries()
                    &&& final(self).counts() == old(self).counts()
                    &&& forall|f: usize| #[trigger] final(self).bin(f) == old(self).bin(f)
                },
            },
    {
        let ghost pre = *self;
        if self.counts.len() == 0 {
            assert(self.counts@ =~= Map::<u64, usize>::empty());
            return None;
        }
        let ghost k0 = self.counts@.dom().choose();
        proof {
            assert(self.counts@.dom().len() > 0);
            assert(self.counts@.contains_key(k0));
        }
        while !self.freq_bin.contains_key(&self.min_frequency)
            invariant
                self.wf(),
                self.counts@ == pre.counts@,
                self.freq_bin@ == pre.freq_bin@,
                self.backend == pre.backend,
                self.capacity == pre.capacity,
                self.counts@.contains_key(k0),
                pre.wf(),
            decreases self.counts@[k0] - self.min_frequency,
        {
            proof {
                assert forall|x: u64| #[trigger] self.counts@.contains_key(x) implies self.counts@[x]
                    != self.min_frequency by {
                    assert(self.bin(self.min_frequency).contains(x) <==> (
                    self.counts@.contains_key(x) && self.counts@[x] == self.min_frequency));
                }
            }
            self.min_frequency = self.min_frequency + 1;
            proof {
                assert forall|x: u64| #[trigger] self.counts@.contains_key(x) implies 1
                    <= self.counts@[x] && self.min_frequency <= self.counts@[x] by {}
                assert forall|f: usize, x: u64| #[trigger] self.bin(f).contains(x) <==> (
                self.counts@.contains_key(x) && self.counts@[x] == f) by {
                    assert(pre.bin(f) == self.bin(f));
                }
                assert forall|f: usize| #[trigger] self.bin(f).no_duplicates() by {
                    assert(pre.bin(f) == self.bin(f));
                }
            }
        }
        let c = self.min_frequency;
        let ghost mid = *self;
        let mut b = match self.freq_bin.remove(&c) {
            Some(b) => b,
            None => {
                return None;
            },
        };
        let e = match bin_pop_front(&mut b) {
            Some(e) => e,
            None => {
                return None;
            },
        };
        proof {
            assert(mid.bin(c).contains(e));
            lemma_remove_first(mid.bin(c));
            lemma_remove_value_no_dup(mid.bin(c), e);
            assert(mid.is_victim(e));
            assert(pre.is_victim(e)) by {
                assert forall|f: usize| #[trigger] pre.bin(f) == mid.bin(f) by {}
            }
            pre.lemma_victim_unique(e, pre.victim());
        }
        if !bin_is_empty(&b) {
            self.freq_bin.insert(c, b);
        }
        self.counts.remove(&e);
        self.backend.remove(e);
        proof {
            assert(self.bin(c) =~= mid.bin(c).remove_value(e));
            assert forall|f: usize| #[trigger] self.bin(f) == pre.bin(f).remove_value(e) by {
                assert(pre.bin(f) == mid.bin(f));
                lemma_remove_value_no_dup(mid.bin(f), e);
                if f != c {
                    assert(!mid.bin(f).contains(e));
                    assert(self.bin(f) == mid.bin(f));
                }
            }
            assert(self.counts@ == pre.counts@.remove(e));
            assert forall|f: usize, x: u64| #[trigger]
                self.bin(f).contains(x) <==> (self.counts@.contains_key(x) && self.counts@[x]
                    == f) by {
                assert(mid.bin(f).contains(x) <==> (mid.counts@.contains_key(x) && mid.counts@[x]
                    == f));
                assert(self.bin(f) == mid.bin(f).remove_value(e));
            }
            assert forall|f: usize| #[trigger] self.bin(f).no_duplicates() by {
                assert(self.bin(f) == mid.bin(f).remove_value(e));
            }
            assert forall|f: usize| #[trigger]
                self.freq_bin@.contains_key(f) implies bin_keys(self.freq_bin@[f]).len() > 0 by {
                if f != c {
                    assert(mid.freq_bin@.contains_key(f));
                }
            }
        }
        Some(e)
    }

    /// How `put(k, v)` with result `r` takes `self` to `next`.
    pub open spec fn put_post(
        &self,
        next: &Self,
        k: u64,
        v: B::Value,
        r: Result<PutResult, Error>,
    ) -> bool {
        &&& next.capacity() == self.capacity()
        &&& (B::insert_never_fails() && !(!self.counts().contains_key(k) && self.is_full()
            && !self.can_free()) ==> r is Ok)
        &&& (self.counts().contains_key(k) ==> match r {
            Ok(p) => {
                &&& p == PutResult::Update
                &&& next.entries() == self.entries().insert(k, v)
                &&& self.touched(next, k)
            },
            Err(_) => self.unchanged(next),
        })
        &&& (!self.counts().contains_key(k) && !self.is_full() ==> match r {
            Ok(p) => {
                &&& p == PutResult::Put
                &&& next.entries() == self.entries().insert(k, v)
                &&& self.admitted(next, k)
            },
            Err(_) => self.unchanged(next),
        })
        &&& (!self.counts().contains_key(k) && self.is_full() && !self.can_free() ==> {
            &&& r == Err::<PutResult, Error>(Error::NoCapacity)
            &&& self.unchanged(next)
        })
        &&& (!self.counts().contains_key(k) && self.is_full() && self.can_free() ==> {
            let e = self.victim();
            &&& self.is_victim(e)
            &&& match r {
                Ok(p) => {
                    &&& p == PutResult::Put
                    &&& next.entries() == self.entries().remove(e).insert(k, v)
                    &&& next.counts() == self.counts().remove(e).insert(k, 1)
                    &&& next.bin(1) == self.bin(1).remove_value(e).push(k)
                    &&& forall|f: usize|
                        f != 1 ==> #[trigger] next.bin(f) == self.bin(f).remove_value(e)
                },
                Err(_) => {
                    &&& next.entries() == self.entries().remove(e)
                    &&& self.unindexed(next, e)
                },
            }
        })
        &&& (self.capacity() is Some && self.entries().len() <= self.capacity()->Some_0
            ==> next.entries().len() <= self.capacity()->Some_0)
    }

    /// Stores `v` under `k`.
    ///
    /// A key already indexed has its value replaced and counts one access
    /// (`Update`). A new key, when the cache is full, first has one entry
    /// evicted; it is then stored at count 1 (`Put`). When no eviction can
    /// bring the cache under its capacity, nothing changes and the result is
    /// `NoCapacity`. A failed write of the backend is returned as it is and
    /// leaves the key unindexed and its old value in place.
    pub fn put(&mut self, k: u64, v: B::Value) -> (r: Result<PutResult, Error>)
        requires
            old(self).wf(),
        ensures
            final(self).wf(),
            old(self).put_post(final(self), k, v, r),
    {
        let ghost pre = *self;
        if self.counts.contains_key(&k) {
            match self.backend.insert(k, v) {
                Ok(()) => {
                    proof {
                        assert(pre.entries().contains_key(k));
                        assert(self.backend.contents().dom() =~= pre.backend.contents().dom());
                        assert(self.backend.contents().len() == pre.backend.contents().len());
                        Self::lemma_wf_frame(pre, *self);
                    }
                    self.update_freq_bin(k);
                    return Ok(PutResult::Update);
                },
                Err(e) => {
                    proof {
                        Self::lemma_wf_frame(pre, *self);
                    }
                    return Err(e);
                },
            }
        }
        match self.capacity {
            Some(cap) => {
                if self.backend.size() >= cap {
                    if self.counts.len() == 0 || self.backend.size() > cap {
                        proof {
                            if self.counts@.len() == 0 {
                                assert(self.counts@ =~= Map::<u64, usize>::empty());
                            }
                        }
                        return Err(Error::NoCapacity);
                    }
                    proof {
                        assert(self.counts@.dom().len() > 0);
                        assert(self.counts@.contains_key(self.counts@.dom().choose()));
                    }
                    let ghost mid0 = *self;
                    let evicted = self.evict();
                    let ghost mid = *self;
                    proof {
                        assert(evicted is Some);
                        let e = evicted->Some_0;
                        assert(pre.entries().contains_key(e));
                        assert(mid.entries().len() == pre.entries().len() - 1);
                    }
                    match self.backend.insert(k, v) {
                        Ok(()) => {
                            proof {
                                let e = evicted->Some_0;
                                assert(!mid.counts().contains_key(k));
                                assert(self.entries().contains_key(k));
                                Self::lemma_wf_frame(mid, *self);
                            }
                            let ghost mid2 = *self;
                            self.index_new(k);
                            proof {
                                let e = evicted->Some_0;
                                assert(self.entries() == pre.entries().remove(e).insert(k, v));
                                assert(self.entries().len() <= mid.entries().len() + 1);
                                assert forall|f: usize| f != 1 implies #[trigger] self.bin(f)
                                    == pre.bin(f).remove_value(e) by {
                                    assert(self.bin(f) == mid2.bin(f));
                                    assert(mid2.bin(f) == mid.bin(f));
                                }
                                assert(e == pre.victim());
                                assert(pre.is_victim(e));
                                assert(self.counts() == pre.counts().remove(e).insert(k, 1));
                                assert(mid2.bin(1) == mid.bin(1));
                                assert(mid.bin(1) == pre.bin(1).remove_value(e));
                                assert(self.bin(1) == pre.bin(1).remove_value(e).push(k));
                            }
                            return Ok(PutResult::Put);
                        },
                        Err(err) => {
                            proof {
                                Self::lemma_wf_frame(mid, *self);
                            }
                            return Err(err);
                        },
                    }
                }
            },
            None => {},
        }
        match self.backend.insert(k, v) {
            Ok(()) => {
                proof {
                    assert(self.entries().len() <= pre.entries().len() + 1);
                    assert(self.entries().contains_key(k));
                    Self::lemma_wf_frame(pre, *self);
                }
                let ghost mid2 = *self;
                self.index_new(k);
                proof {
                    assert(self.bin(1) == mid2.bin(1).push(k));
                    assert(mid2.bin(1) == pre.bin(1));
                    assert forall|f: usize| f != 1 implies #[trigger] self.bin(f) == pre.bin(f) by {
                        assert(mid2.bin(f) == pre.bin(f));
                    }
                }
                Ok(PutResult::Put)
            },
            Err(err) => {
                proof {
                    Self::lemma_wf_frame(pre, *self);
                }
                Err(err)
            },
        }
    }

    /// Whether a new key must wait for an eviction before it is stored.
    pub open spec fn is_full(&self) -> bool {
        self.capacity() matches Some(c) && self.entries().len() >= c
    }

    /// Whether one eviction brings a full cache under its capacity.
    pub open spec fn can_free(&self) -> bool {
        &&& self.counts().len() > 0
        &&& self.capacity() matches Some(c) && self.entries().len() == c
    }

    /// `next` holds the same entries, counts and bins as `self`.
    pub open spec fn unchanged(&self, next: &Self) -> bool {
        &&& next.entries() == self.entries()
        &&& next.counts() == self.counts()
        &&& forall|f: usize| #[trigger] next.bin(f) == self.bin(f)
    }

    /// How `get(k)` with result `r` takes `self` to `next`.
    pub open spec fn get_post(&self, next: &Self, k: u64, r: Option<B::Value>) -> bool {
        &&& next.capacity() == self.capacity()
        &&& next.entries() == self.entries()
        &&& match r {
            Some(v) => self.entries().contains_key(k) && cloned(self.entries()[k], v),
            None => !self.entries().contains_key(k),
        }
        &&& (r is None ==> self.unchanged(next))
        &&& (r is Some && self.counts().contains_key(k) ==> self.touched(next, k))
        &&& (r is Some && !self.counts().contains_key(k) ==> self.admitted(next, k))
    }

    /// The value stored under `k`, counting one access to it. A key that the
    /// backend holds but the index does not (left there by an earlier
    /// process) is indexed at count 1.
    pub fn get(&mut self, k: &u64) -> (r: Option<B::Value>)
        requires
            old(self).wf(),
        ensures
            final(self).wf(),
            old(self).get_post(final(self), *k, r),
    {
        let r = self.backend.fetch(*k);
        if r.is_some() {
            if self.counts.contains_key(k) {
                self.update_freq_bin(*k);
            } else {
                self.index_new(*k);
            }
        }
        r
    }

    /// The value stored under `k`, leaving the counts as they are.
    pub fn peek(&self, k: &u64) -> (r: Option<B::Value>)
        requires
            self.wf(),
        ensures
            match r {
                Some(v) => self.entries().contains_key(*k) && cloned(self.entries()[*k], v),
                None => !self.entries().contains_key(*k),
            },
    {
        self.backend.fetch(*k)
    }

    /// Whether `k` is indexed.
    pub fn contains(&self, k: &u64) -> (r: bool)
        ensures
            r == self.counts().contains_key(*k),
    {
        self.counts.contains_key(k)
    }

    /// Takes the entry of `k` out of the cache and returns its value.
    pub fn remove(&mut self, k: &u64) -> (r: Option<B::Value>)
        requires
            old(self).wf(),
        ensures
            final(self).wf(),
            final(self).capacity() == old(self).capacity(),
            final(self).entries() == old(self).entries().remove(*k),
            old(self).unindexed(final(self), *k),
            match r {
                Some(v) => old(self).entries().contains_key(*k) && v == old(self).entries()[*k],
                None => !old(self).entries().contains_key(*k),
            },
    {
        let ghost pre = *self;
        let key = *k;
        let value = self.backend.remove(key);
        let c: usize = match self.counts.get(&key) {
            Some(c) => *c,
            None => {
                proof {
                    assert forall|f: usize| #[trigger] self.bin(f) == pre.bin(f).remove_value(key) by {
                        assert(pre.bin(f) == self.bin(f));
                        lemma_remove_value_no_dup(pre.bin(f), key);
                    }
                    assert(self.counts@ =~= pre.counts@.remove(key));
                    Self::lemma_wf_frame(pre, *self);
                }
                return value;
            },
        };
        let mut b = match self.freq_bin.remove(&c) {
            Some(b) => b,
            None => {
                assert(pre.bin(c).contains(key));
                return value;
            },
        };
        proof {
            lemma_remove_value_no_dup(pre.bin(c), key);
        }
        bin_remove(&mut b, key);
        if !bin_is_empty(&b) {
            self.freq_bin.insert(c, b);
        }
        self.counts.remove(&key);
        proof {
            assert(self.bin(c) =~= pre.bin(c).remove_value(key));
            assert forall|f: usize| #[trigger] self.bin(f) == pre.bin(f).remove_value(key) by {
                assert(pre.bin(f) == pre.bin(f));
                lemma_remove_value_no_dup(pre.bin(f), key);
                if f != c {
                    assert(!pre.bin(f).contains(key));
                    assert(self.bin(f) == pre.bin(f));
                }
            }
            assert forall|f: usize, x: u64| #[trigger]
                self.bin(f).contains(x) <==> (self.counts@.contains_key(x) && self.counts@[x]
                    == f) by {
                assert(pre.bin(f).contains(x) <==> (pre.counts@.contains_key(x) && pre.counts@[x]
                    == f));
                assert(self.bin(f) == pre.bin(f).remove_value(key));
            }
            assert forall|f: usize| #[trigger] self.bin(f).no_duplicates() by {
                assert(self.bin(f) == pre.bin(f).remove_value(key));
            }
            assert forall|f: usize| #[trigger]
                self.freq_bin@.contains_key(f) implies bin_keys(self.freq_bin@[f]).len() > 0 by {
                if f != c {
                    assert(pre.freq_bin@.contains_key(f));
                }
            }
        }
        value
    }

    /// `next` is `self` emptied: no entry, no count, no bin.
    pub open spec fn purge_post(&self, next: &Self) -> bool {
        &&& next.capacity() == self.capacity()
        &&& next.entries() == Map::<u64, B::Value>::empty()
        &&& next.counts() == Map::<u64, usize>::empty()
        &&& forall|f: usize| #[trigger] next.bin(f) == Seq::<u64>::empty()
    }

    /// Purging a cache that holds nothing changes nothing.
    pub proof fn lemma_purge_empty_is_noop(&self, next: &Self)
        requires
            self.wf(),
            self.entries().len() == 0,
            self.purge_post(next),
        ensures
            self.unchanged(next),
            next.capacity() == self.capacity(),
    {
        self.entries().dom().lemma_len0_is_empty();
        assert(self.entries() =~= Map::<u64, B::Value>::empty());
        assert(self.counts() =~= Map::<u64, usize>::empty());
        assert forall|f: usize| #[trigger] next.bin(f) == self.bin(f) by {
            if self.bin(f).len() > 0 {
                assert(self.bin(f).contains(self.bin(f)[0]));
            }
            assert(self.bin(f) =~= Seq::<u64>::empty());
        }
    }

    /// Removes every entry and forgets every count.
    pub fn purge(&mut self)
        requires
            old(self).wf(),
        ensures
            final(self).wf(),
            old(self).purge_post(final(self)),
    {
        self.counts.clear();
        self.backend.clear();
        self.freq_bin.clear();
        self.min_frequency = 0;
        proof {
            assert forall|f: usize| #[trigger] self.bin(f).no_duplicates() by {
                assert(self.bin(f) == Seq::<u64>::empty());
            }
        }
    }

    /// How many entries the cache holds.
    pub fn len(&self) -> (r: usize)
        requires
            self.wf(),
        ensures
            r == self.entries().len(),
    {
        self.backend.size()
    }

    /// The bound on resident entries, if any.
    pub fn cap(&self) -> (r: Option<usize>)
        ensures
            r == self.capacity(),
    {
        self.capacity
    }

    /// Whether the cache holds no entry.
    pub fn is_empty(&self) -> (r: bool)
        requires
            self.wf(),
        ensures
            r == (self.entries().len() == 0),
    {
        self.backend.is_empty()
    }
}

} // verus!
