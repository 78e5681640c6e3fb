//! Frequency bins: insertion-ordered sets of keys, held in
//! `linked_hash_set::LinkedHashSet`.
use linked_hash_set::LinkedHashSet;
use vstd::prelude::*;

verus! {

#[verifier::external_type_specification]
#[verifier::external_body]
#[verifier::reject_recursive_types(T)]
#[verifier::reject_recursive_types(S)]
pub struct ExLinkedHashSet<T, S>(LinkedHashSet<T, S>);

/// The keys of a bin, oldest first.
pub uninterp spec fn bin_keys(s: LinkedHashSet<u64>) -> Seq<u64>;

/// Relies on `LinkedHashSet::new`: a new set holds no value.
#[verifier::external_body]
pub(crate) fn bin_new() -> (r: LinkedHashSet<u64>)
    ensures
        bin_keys(r) == Seq::<u64>::empty(),
{
    LinkedHashSet::new()
}

/// Relies on `LinkedHashSet::insert`: a value not yet in the set is placed
/// at the end of the ordering.
#[verifier::external_body]
pub(crate) fn bin_push(s: &mut LinkedHashSet<u64>, k: u64)
    requires
        !bin_keys(*old(s)).contains(k),
    ensures
        bin_keys(*final(s)) == bin_keys(*old(s)).push(k),
{
    s.insert(k);
}

/// Relies on `LinkedHashSet::remove`: the value leaves the set, the order of
/// the others is kept, and the result says whether it was there.
#[verifier::external_body]
pub(crate) fn bin_remove(s: &mut LinkedHashSet<u64>, k: u64) -> (r: bool)
    ensures
        r == bin_keys(*old(s)).contains(k),
        bin_keys(*final(s)) == bin_keys(*old(s)).remove_value(k),
{
    s.remove(&k)
}

/// Relies on `LinkedHashSet::pop_front`: the first value of the ordering is
/// taken out and returned.
#[verifier::external_body]
pub(crate) fn bin_pop_front(s: &mut LinkedHashSet<u64>) -> (r: Option<u64>)
    ensures
        match r {
            Some(k) => bin_keys(*old(s)).len() > 0 && k == bin_keys(*old(s))[0]
                && bin_keys(*final(s)) == bin_keys(*old(s)).drop_first(),
            None => bin_keys(*old(s)).len() == 0 && bin_keys(*final(s)) == bin_keys(*old(s)),
        },
{
    s.pop_front()
}

/// Relies on `LinkedHashSet::is_empty`: true exactly when the set holds nothing.
#[verifier::external_body]
pub(crate) fn bin_is_empty(s: &LinkedHashSet<u64>) -> (r: bool)
    ensures
        r == (bin_keys(*s).len() == 0),
{
    s.is_empty()
}

/// Removing a value from a sequence without duplicates keeps it free of
/// duplicates and takes out exactly that value.
pub proof fn lemma_remove_value_no_dup(s: Seq<u64>, k: u64)
    requires
        s.no_duplicates(),
    ensures
        s.remove_value(k).no_duplicates(),
        forall|x: u64| #[trigger] s.remove_value(k).contains(x) <==> (s.contains(x) && x != k),
        s.contains(k) ==> s.remove_value(k).len() == s.len() - 1,
        !s.contains(k) ==> s.remove_value(k) == s,
{
    if s.contains(k) {
        s.index_of_first_ensures(k);
        let i = s.index_of_first(k)->Some_0;
        s.remove_ensures(i);
        let r = s.remove(i);
        assert forall|x: u64| #[trigger] r.contains(x) <==> (s.contains(x) && x != k) by {
            if r.contains(x) {
                let j = choose|j: int| 0 <= j < r.len() && r[j] == x;
                if j < i {
                    assert(s[j] == x);
                } else {
                    assert(s[j + 1] == x);
                }
            }
            if s.contains(x) && x != k {
                let j = choose|j: int| 0 <= j < s.len() && s[j] == x;
                assert(j != i);
                if j < i {
                    assert(r[j] == x);
                } else {
                    assert(r[j - 1] == x);
                }
            }
        }
    } else {
        s.index_of_first_ensures(k);
    }
}

/// Appending a value absent from a sequence without duplicates keeps it
/// free of duplicates.
pub proof fn lemma_push_no_dup(s: Seq<u64>, k: u64)
    requires
        s.no_duplicates(),
        !s.contains(k),
    ensures
        s.push(k).no_duplicates(),
        forall|x: u64| #[trigger] s.push(k).contains(x) <==> (s.contains(x) || x == k),
{
    let t = s.push(k);
    assert forall|i: int, j: int| 0 <= i < t.len() && 0 <= j < t.len() && i != j implies t[i]
        != t[j] by {
        if i < s.len() && j < s.len() {
            assert(t[i] == s[i] && t[j] == s[j]);
        } else if i < s.len() {
            assert(t[i] == s[i] && t[j] == k);
            assert(s.contains(s[i]));
        } else {
            assert(t[j] == s[j] && t[i] == k);
            assert(s.contains(s[j]));
        }
    }
    assert forall|x: u64| #[trigger] t.contains(x) <==> (s.contains(x) || x == k) by {
        if t.contains(x) && x != k {
            let i = choose|i: int| 0 <= i < t.len() && t[i] == x;
            assert(i < s.len());
            assert(s[i] == x);
        }
        if s.contains(x) {
            let i = choose|i: int| 0 <= i < s.len() && s[i] == x;
            assert(t[i] == x);
        }
        assert(t[t.len() - 1] == k);
    }
}

/// Removing the first value of a sequence without duplicates drops its head.
pub proof fn lemma_remove_first(s: Seq<u64>)
    requires
        s.no_duplicates(),
        s.len() > 0,
    ensures
        s.remove_value(s[0]) == s.drop_first(),
{
    assert(s.contains(s[0]));
    s.index_of_first_ensures(s[0]);
    let i = s.index_of_first(s[0])->Some_0;
    assert(i == 0);
    assert(s.remove(0) =~= s.drop_first());
}

} // verus!
