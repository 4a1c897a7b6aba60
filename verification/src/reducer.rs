//! Maximum-element selection over any totally ordered, cheaply
//! duplicated value type.
//!
//! The scan keeps a running champion, starting from the first element,
//! and replaces it only on a strictly greater element, so the first
//! occurrence of the maximum wins ties. The caller's sequence is never
//! mutated and never gives up ownership of its elements.

use core::cmp::Ordering;
use vstd::laws_cmp::{obeys_cmp, obeys_cmp_ord, obeys_cmp_partial_ord, obeys_partial_cmp_spec_properties};
use vstd::laws_eq::obeys_concrete_eq;
use vstd::prelude::*;
use vstd::std_specs::cmp::{OrdSpec, PartialEqSpec, PartialOrdSpec};

use crate::errors::EmptyInputError;

verus! {

/// The element a left-to-right champion scan settles on: the running
/// champion is replaced only by a strictly greater element, so among
/// equal maxima the first one is kept.
pub open spec fn max_of<T: Ord>(s: Seq<T>) -> T
    recommends
        s.len() > 0,
    decreases s.len(),
{
    if s.len() <= 1 {
        s[0]
    } else {
        let prev = max_of(s.drop_last());
        if s.last().cmp_spec(&prev) == Ordering::Greater {
            s.last()
        } else {
            prev
        }
    }
}

/// Under a lawful total order, an element compares `Equal` to itself.
proof fn lemma_cmp_refl<T: Ord>(x: T)
    requires
        obeys_cmp::<T>(),
    ensures
        x.cmp_spec(&x) == Ordering::Equal,
{
    reveal(obeys_cmp_ord);
    reveal(obeys_cmp_partial_ord);
    reveal(obeys_partial_cmp_spec_properties);
    if x.cmp_spec(&x) == Ordering::Less {
        assert(x.partial_cmp_spec(&x) == Some(Ordering::Less));
        assert(x.partial_cmp_spec(&x) == Some(Ordering::Greater));
    }
    if x.cmp_spec(&x) == Ordering::Greater {
        assert(x.partial_cmp_spec(&x) == Some(Ordering::Greater));
        assert(x.partial_cmp_spec(&x) == Some(Ordering::Less));
    }
}

/// Under a lawful total order, `Greater` is transitive.
proof fn lemma_cmp_greater_trans<T: Ord>(a: T, b: T, c: T)
    requires
        obeys_cmp::<T>(),
        a.cmp_spec(&b) == Ordering::Greater,
        b.cmp_spec(&c) == Ordering::Greater,
    ensures
        a.cmp_spec(&c) == Ordering::Greater,
{
    reveal(obeys_cmp_ord);
    reveal(obeys_partial_cmp_spec_properties);
    assert(a.partial_cmp_spec(&b) == Some(Ordering::Greater));
    assert(b.partial_cmp_spec(&c) == Some(Ordering::Greater));
    assert(a.partial_cmp_spec(&c) == Some(Ordering::Greater));
}

/// The champion of a scan is an element of the sequence, and no
/// element of the sequence is strictly greater than it.
pub proof fn lemma_max_of_is_max<T: Ord>(s: Seq<T>)
    requires
        obeys_cmp::<T>(),
        s.len() > 0,
    ensures
        s.contains(max_of(s)),
        forall|i: int|
            0 <= i < s.len() ==> (#[trigger] s[i]).cmp_spec(&max_of(s)) != Ordering::Greater,
    decreases s.len(),
{
    if s.len() == 1 {
        lemma_cmp_refl(s[0]);
        assert(s[0] == max_of(s));
    } else {
        let sub = s.drop_last();
        lemma_max_of_is_max(sub);
        let prev = max_of(sub);
        let m = max_of(s);
        lemma_cmp_refl(s.last());
        lemma_cmp_refl(prev);
        if s.last().cmp_spec(&prev) == Ordering::Greater {
            assert(m == s.last());
            assert(s[s.len() - 1] == m);
            assert forall|i: int| 0 <= i < s.len() implies (#[trigger] s[i]).cmp_spec(&m)
                != Ordering::Greater by {
                if i < s.len() - 1 {
                    assert(sub[i] == s[i]);
                    if s[i].cmp_spec(&m) == Ordering::Greater {
                        lemma_cmp_greater_trans(s[i], m, prev);
                    }
                }
            }
        } else {
            assert(m == prev);
            let j = choose|j: int| 0 <= j < sub.len() && sub[j] == prev;
            assert(s[j] == prev);
            assert(s.contains(m));
            assert forall|i: int| 0 <= i < s.len() implies (#[trigger] s[i]).cmp_spec(&m)
                != Ordering::Greater by {
                if i < s.len() - 1 {
                    assert(sub[i] == s[i]);
                }
            }
        }
    }
}

/// The element with the greatest value in the sequence, under the
/// element type's total order; among equal maxima the first occurrence
/// is returned. Elements are duplicated into the result, never moved
/// out, and the sequence is left unchanged.
///
/// Returns `EmptyInputError` if and only if the sequence is empty.
pub fn largest<T: Ord + Copy>(list: &[T]) -> (r: Result<T, EmptyInputError>)
    requires
        obeys_cmp::<T>(),
    ensures
        r is Ok <==> list@.len() > 0,
        r matches Ok(m) ==> m == max_of(list@),
{
    let n = list.len();
    if n == 0 {
        return Err(EmptyInputError);
    }
    let mut champion: T = list[0];
    proof {
        assert(list@.take(1) =~= seq![list@[0]]);
    }
    for i in 1..n
        invariant
            obeys_cmp::<T>(),
            n == list@.len(),
            1 <= i <= n,
            champion == max_of(list@.take(i as int)),
    {
        let x = list[i];
        proof {
            reveal(obeys_cmp_ord);
            reveal(obeys_cmp_partial_ord);
            assert(list@.take(i + 1).drop_last() =~= list@.take(i as int));
            assert(list@.take(i + 1).last() == list@[i as int]);
        }
        if x.gt(&champion) {
            champion = x;
        }
    }
    proof {
        assert(list@.take(n as int) =~= list@);
    }
    Ok(champion)
}

/// Variant of [`largest`] for element types that cannot be duplicated:
/// the winning element is returned as a read-only reference into the
/// input sequence, valid for as long as the sequence is borrowed.
pub fn largest_ref<T: Ord>(list: &[T]) -> (r: Result<&T, EmptyInputError>)
    requires
        obeys_cmp::<T>(),
    ensures
        r is Ok <==> list@.len() > 0,
        r matches Ok(m) ==> *m == max_of(list@),
{
    let n = list.len();
    if n == 0 {
        return Err(EmptyInputError);
    }
    let mut champion: &T = vstd::slice::slice_index_get(list, 0);
    proof {
        assert(list@.take(1) =~= seq![list@[0]]);
    }
    for i in 1..n
        invariant
            obeys_cmp::<T>(),
            n == list@.len(),
            1 <= i <= n,
            *champion == max_of(list@.take(i as int)),
    {
        let x = vstd::slice::slice_index_get(list, i);
        proof {
            reveal(obeys_cmp_ord);
            reveal(obeys_cmp_partial_ord);
            assert(list@.take(i + 1).drop_last() =~= list@.take(i as int));
            assert(list@.take(i + 1).last() == list@[i as int]);
        }
        if x.gt(champion) {
            champion = x;
        }
    }
    proof {
        assert(list@.take(n as int) =~= list@);
    }
    Ok(champion)
}

/// The maximum does not depend on the order of the sequence: two
/// sequences holding the same elements equally often have the same
/// maximum.
pub proof fn lemma_max_of_permutation_invariant<T: Ord>(s1: Seq<T>, s2: Seq<T>)
    requires
        obeys_cmp::<T>(),
        obeys_concrete_eq::<T>(),
        s1.len() > 0,
        s1.to_multiset() == s2.to_multiset(),
    ensures
        max_of(s1) == max_of(s2),
{
    broadcast use vstd::seq_lib::group_to_multiset_ensures;

    s1.to_multiset_ensures();
    s2.to_multiset_ensures();
    assert(s1.to_multiset().len() == s1.len());
    assert(s2.to_multiset().len() == s2.len());
    assert(s2.len() == s1.len());
    let m1 = max_of(s1);
    let m2 = max_of(s2);
    lemma_max_of_is_max(s1);
    lemma_max_of_is_max(s2);
    assert(s1.to_multiset().count(m1) > 0);
    assert(s2.contains(m1));
    assert(s2.to_multiset().count(m2) > 0);
    assert(s1.contains(m2));
    let i1 = choose|i: int| 0 <= i < s2.len() && s2[i] == m1;
    let i2 = choose|i: int| 0 <= i < s1.len() && s1[i] == m2;
    assert(m1.cmp_spec(&m2) != Ordering::Greater);
    assert(m2.cmp_spec(&m1) != Ordering::Greater);
    reveal(obeys_cmp_ord);
    reveal(obeys_cmp_partial_ord);
    reveal(obeys_partial_cmp_spec_properties);
    reveal(obeys_concrete_eq);
    if m1.cmp_spec(&m2) == Ordering::Less {
        assert(m1.partial_cmp_spec(&m2) == Some(Ordering::Less));
        assert(m2.partial_cmp_spec(&m1) == Some(Ordering::Greater));
    }
    assert(m1.partial_cmp_spec(&m2) == Some(Ordering::Equal));
    assert(m1.eq_spec(&m2));
}

} // verus!
