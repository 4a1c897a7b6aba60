//! Descriptive statistics over finite samples of integers: mean, median
//! and mode. Every operation is a pure query: the caller's sample is
//! never mutated (the median works on an internal sorted copy).
//!
//! The mean and the median are exact rationals, returned as a [`Ratio`]
//! (numerator and denominator); a caller that wants a floating-point
//! reading performs the final division itself.

use vstd::prelude::*;

use crate::errors::EmptyInputError;

verus! {

/// An exact rational number, `num / den`, with `den > 0`.
#[derive(Clone, Copy, Debug, PartialEq, Eq, Structural)]
pub struct Ratio {
    pub num: i128,
    pub den: usize,
}

/// Mathematical sum of a sequence of sample values.
pub open spec fn sum_seq(s: Seq<i32>) -> int
    decreases s.len(),
{
    if s.len() == 0 {
        0
    } else {
        sum_seq(s.drop_last()) + s.last()
    }
}

/// How many times `v` occurs in `s`.
pub open spec fn count_of(s: Seq<i32>, v: i32) -> nat
    decreases s.len(),
{
    if s.len() == 0 {
        0
    } else {
        count_of(s.drop_last(), v) + if s.last() == v {
            1nat
        } else {
            0nat
        }
    }
}

/// The sum over any prefix of a sample fits comfortably in `i128`.
proof fn lemma_sum_bounds(s: Seq<i32>)
    ensures
        sum_seq(s) <= s.len() * i32::MAX,
        sum_seq(s) >= s.len() * i32::MIN,
    decreases s.len(),
{
    if s.len() > 0 {
        lemma_sum_bounds(s.drop_last());
        assert(s.len() * i32::MAX == (s.len() - 1) * i32::MAX + i32::MAX) by (nonlinear_arith);
        assert(s.len() * i32::MIN == (s.len() - 1) * i32::MIN + i32::MIN) by (nonlinear_arith);
    }
}

/// The arithmetic mean of the sample, as the exact rational
/// `sum(sample) / len(sample)`.
///
/// Returns `EmptyInputError` if and only if the sample is empty.
pub fn mean(sample: &[i32]) -> (r: Result<Ratio, EmptyInputError>)
    ensures
        r is Ok <==> sample@.len() > 0,
        r matches Ok(m) ==> m.num == sum_seq(sample@) && m.den == sample@.len(),
{
    if sample.len() == 0 {
        return Err(EmptyInputError);
    }
    let mut total: i128 = 0;
    let n = sample.len();
    for i in 0..n
        invariant
            n == sample@.len(),
            total == sum_seq(sample@.take(i as int)),
    {
        proof {
            assert(sample@.take(i + 1).drop_last() =~= sample@.take(i as int));
            assert(sample@.take(i + 1).last() == sample@[i as int]);
            lemma_sum_bounds(sample@.take(i + 1));
            assert(sample@.take(i + 1).len() * i32::MAX < i128::MAX) by (nonlinear_arith)
                requires
                    sample@.take(i + 1).len() <= usize::MAX,
            ;
            assert(sample@.take(i + 1).len() * i32::MIN > i128::MIN) by (nonlinear_arith)
                requires
                    sample@.take(i + 1).len() <= usize::MAX,
            ;
        }
        total = total + sample[i] as i128;
    }
    proof {
        assert(sample@.take(n as int) =~= sample@);
    }
    Ok(Ratio { num: total, den: n })
}

/// The ordering under which samples are sorted.
pub open spec fn i32_le() -> spec_fn(i32, i32) -> bool {
    |a: i32, b: i32| a <= b
}

pub proof fn lemma_i32_le_total_ordering()
    ensures
        vstd::relations::total_ordering(i32_le()),
{
    assert(vstd::relations::reflexive(i32_le()));
    assert(vstd::relations::antisymmetric(i32_le()));
    assert(vstd::relations::transitive(i32_le()));
    assert(vstd::relations::strongly_connected(i32_le()));
}

/// The ascending rearrangement of a sample.
pub open spec fn sorted_of(s: Seq<i32>) -> Seq<i32> {
    s.sort_by(i32_le())
}

/// Numerator of the median: the middle element of the ascending
/// rearrangement for an odd-sized sample, the sum of the two central
/// elements for an even-sized one.
pub open spec fn median_num(s: Seq<i32>) -> int {
    let t = sorted_of(s);
    let n = t.len() as int;
    if n % 2 == 1 {
        t[n / 2] as int
    } else {
        t[n / 2 - 1] + t[n / 2]
    }
}

/// Denominator of the median: 1 for an odd-sized sample, 2 for an
/// even-sized one.
pub open spec fn median_den(s: Seq<i32>) -> int {
    if s.len() % 2 == 1 {
        1
    } else {
        2
    }
}

/// Inserting anywhere in a sequence adds exactly one occurrence to its
/// multiset.
proof fn lemma_insert_multiset(s: Seq<i32>, i: int, a: i32)
    requires
        0 <= i <= s.len(),
    ensures
        s.insert(i, a).to_multiset() == s.to_multiset().insert(a),
{
    broadcast use vstd::seq_lib::group_to_multiset_ensures;

    let l = s.subrange(0, i);
    let r = s.subrange(i, s.len() as int);
    assert(s =~= l + r);
    assert(s.insert(i, a) =~= l.push(a) + r);
    vstd::seq_lib::lemma_multiset_commutative(l, r);
    vstd::seq_lib::lemma_multiset_commutative(l.push(a), r);
    assert(l.push(a).to_multiset() =~= l.to_multiset().insert(a));
    let lm = l.to_multiset();
    let rm = r.to_multiset();
    assert(lm.insert(a).add(rm) =~= lm.add(rm).insert(a));
}

/// An ascending copy of the sample; the sample itself is left as it
/// was.
fn sorted_copy(sample: &[i32]) -> (out: Vec<i32>)
    ensures
        vstd::relations::sorted_by(out@, i32_le()),
        out@.to_multiset() == sample@.to_multiset(),
        out@.len() == sample@.len(),
{
    broadcast use vstd::seq_lib::group_to_multiset_ensures;

    let n = sample.len();
    let mut out: Vec<i32> = Vec::new();
    proof {
        assert(sample@.take(0).to_multiset() =~= out@.to_multiset());
    }
    for i in 0..n
        invariant
            n == sample@.len(),
            vstd::relations::sorted_by(out@, i32_le()),
            out@.to_multiset() == sample@.take(i as int).to_multiset(),
            out@.len() == i,
    {
        let x = sample[i];
        let mut p: usize = 0;
        while p < out.len() && out[p] < x
            invariant
                0 <= p <= out@.len(),
                forall|q: int| 0 <= q < p ==> out@[q] < x,
            decreases out@.len() - p,
        {
            p = p + 1;
        }
        let ghost prev = out@;
        out.insert(p, x);
        proof {
            assert forall|a: int, b: int| 0 <= a < b < out@.len() implies i32_le()(
                out@[a],
                out@[b],
            ) by {
                assert(out@ =~= prev.insert(p as int, x));
                if b < p {
                    assert(i32_le()(prev[a], prev[b]));
                } else if a > p {
                    assert(i32_le()(prev[a - 1], prev[b - 1]));
                } else if a == p && b > p {
                    assert(out@[b] == prev[b - 1]);
                    if p < prev.len() {
                        if b - 1 > p {
                            assert(i32_le()(prev[p as int], prev[b - 1]));
                        }
                        assert(x <= prev[p as int]);
                    }
                } else if b == p && a < p {
                    assert(out@[a] == prev[a]);
                    assert(prev[a] < x);
                } else if a < p && b > p {
                    assert(out@[a] == prev[a] && out@[b] == prev[b - 1]);
                    assert(prev[a] < x);
                    if b - 1 > p - 1 && b - 1 < prev.len() {
                        if p < prev.len() {
                            assert(x <= prev[p as int]);
                            if b - 1 > p {
                                assert(i32_le()(prev[p as int], prev[b - 1]));
                            }
                        }
                    }
                }
            }
            lemma_insert_multiset(prev, p as int, x);
            assert(sample@.take(i + 1).drop_last() =~= sample@.take(i as int));
            assert(sample@.take(i + 1) =~= sample@.take(i as int).push(x));
            sample@.take(i as int).to_multiset_ensures();
            assert(sample@.take(i as int).push(x).to_multiset() =~= sample@.take(i as int).to_multiset().insert(x));
        }
    }
    proof {
        assert(sample@.take(n as int) =~= sample@);
    }
    out
}

/// The ascending copy computed at run time is exactly the
/// specification-level ascending rearrangement.
proof fn lemma_sorted_copy_is_sorted_of(s: Seq<i32>, t: Seq<i32>)
    requires
        vstd::relations::sorted_by(t, i32_le()),
        t.to_multiset() == s.to_multiset(),
    ensures
        t == sorted_of(s),
{
    lemma_i32_le_total_ordering();
    s.lemma_sort_by_ensures(i32_le());
    vstd::seq_lib::lemma_sorted_unique(t, sorted_of(s), i32_le());
}

/// The median of the sample, as the exact rational described by
/// [`median_num`] and [`median_den`]: the middle element of the
/// ascending rearrangement (odd size), or the midpoint of the two
/// central elements (even size). The sample itself is not mutated.
///
/// Returns `EmptyInputError` if and only if the sample is empty.
pub fn median(sample: &[i32]) -> (r: Result<Ratio, EmptyInputError>)
    ensures
        r is Ok <==> sample@.len() > 0,
        r matches Ok(m) ==> m.num == median_num(sample@) && m.den == median_den(sample@),
{
    let n = sample.len();
    if n == 0 {
        return Err(EmptyInputError);
    }
    let sorted = sorted_copy(sample);
    proof {
        lemma_sorted_copy_is_sorted_of(sample@, sorted@);
    }
    let mid = n / 2;
    if n % 2 == 1 {
        Ok(Ratio { num: sorted[mid] as i128, den: 1 })
    } else {
        Ok(Ratio { num: sorted[mid - 1] as i128 + sorted[mid] as i128, den: 2 })
    }
}

/// The median only depends on which values a sample holds, and how
/// often: rearranging a sample does not change its median.
pub proof fn lemma_median_permutation_invariant(s1: Seq<i32>, s2: Seq<i32>)
    requires
        s1.to_multiset() == s2.to_multiset(),
    ensures
        median_num(s1) == median_num(s2),
        median_den(s1) == median_den(s2),
{
    lemma_i32_le_total_ordering();
    s1.lemma_sort_by_ensures(i32_le());
    s2.lemma_sort_by_ensures(i32_le());
    s1.to_multiset_ensures();
    s2.to_multiset_ensures();
    vstd::seq_lib::lemma_sorted_unique(sorted_of(s1), sorted_of(s2), i32_le());
    assert(sorted_of(s1) =~= sorted_of(s2));
}

/// Where the median sits: in the ascending rearrangement `t` of a
/// non-empty sample, every element in the lower half (`i <= (n-1)/2`)
/// is at most the median and every element in the upper half
/// (`i >= n/2`) is at least it, the comparisons written with the
/// denominator multiplied through. Since `t` holds exactly the
/// sample's values, at least half of the sample is on each side.
pub proof fn lemma_median_half_bounds(s: Seq<i32>)
    requires
        s.len() > 0,
    ensures
        sorted_of(s).to_multiset() == s.to_multiset(),
        sorted_of(s).len() == s.len(),
        forall|i: int|
            0 <= i <= (s.len() - 1) / 2 ==> median_den(s) * #[trigger] sorted_of(s)[i]
                <= median_num(s),
        forall|i: int|
            s.len() / 2 <= i < s.len() ==> median_num(s) <= median_den(s) * #[trigger] sorted_of(
                s,
            )[i],
{
    lemma_i32_le_total_ordering();
    s.lemma_sort_by_ensures(i32_le());
    s.to_multiset_ensures();
    sorted_of(s).to_multiset_ensures();
    let t = sorted_of(s);
    let n = s.len() as int;
    let mid = n / 2;
    lemma_sorted_pairwise(t);
    assert(t.len() == n);
    assert forall|i: int| 0 <= i <= (n - 1) / 2 implies median_den(s) * t[i] <= median_num(s) by {
        if n % 2 == 1 {
            assert(t[i] <= t[mid]);
            assert(median_den(s) * t[i] == 1 * t[i]);
            assert(median_num(s) == t[mid] as int);
        } else {
            assert(t[i] <= t[mid - 1]);
            assert(t[mid - 1] <= t[mid]);
            assert(median_den(s) * t[i] == 2 * t[i]);
            assert(median_num(s) == t[mid - 1] + t[mid]);
        }
    }
    assert forall|i: int| n / 2 <= i < n implies median_num(s) <= median_den(s) * t[i] by {
        if n % 2 == 1 {
            assert(t[mid] <= t[i]);
            assert(median_den(s) * t[i] == 1 * t[i]);
            assert(median_num(s) == t[mid] as int);
        } else {
            assert(t[mid - 1] <= t[i]);
            assert(t[mid] <= t[i]);
            assert(median_den(s) * t[i] == 2 * t[i]);
            assert(median_num(s) == t[mid - 1] + t[mid]);
        }
    }
}

/// How many elements of `s` satisfy `p`.
pub open spec fn count_matching(s: Seq<i32>, p: spec_fn(i32) -> bool) -> nat
    decreases s.len(),
{
    if s.len() == 0 {
        0
    } else {
        count_matching(s.drop_last(), p) + if p(s.last()) {
            1nat
        } else {
            0nat
        }
    }
}

/// Being at most the median of `s`, written with the denominator
/// multiplied through.
pub open spec fn at_most_median(s: Seq<i32>) -> spec_fn(i32) -> bool {
    |v: i32| median_den(s) * v <= median_num(s)
}

/// Being at least the median of `s`, written with the denominator
/// multiplied through.
pub open spec fn at_least_median(s: Seq<i32>) -> spec_fn(i32) -> bool {
    |v: i32| median_num(s) <= median_den(s) * v
}

/// Matching counts add up over concatenation.
proof fn lemma_count_matching_concat(a: Seq<i32>, b: Seq<i32>, p: spec_fn(i32) -> bool)
    ensures
        count_matching(a + b, p) == count_matching(a, p) + count_matching(b, p),
    decreases b.len(),
{
    if b.len() == 0 {
        assert(a + b =~= a);
    } else {
        lemma_count_matching_concat(a, b.drop_last(), p);
        assert((a + b).drop_last() =~= a + b.drop_last());
        assert((a + b).last() == b.last());
    }
}

/// Removing one element lowers the matching count by exactly that
/// element's contribution.
proof fn lemma_count_matching_remove(s: Seq<i32>, j: int, p: spec_fn(i32) -> bool)
    requires
        0 <= j < s.len(),
    ensures
        count_matching(s, p) == count_matching(s.remove(j), p) + if p(s[j]) {
            1nat
        } else {
            0nat
        },
    decreases s.len(),
{
    if j == s.len() - 1 {
        assert(s.remove(j) =~= s.drop_last());
    } else {
        lemma_count_matching_remove(s.drop_last(), j, p);
        assert(s.remove(j).drop_last() =~= s.drop_last().remove(j));
        assert(s.remove(j).last() == s.last());
    }
}

/// The matching count only depends on which values a sequence holds,
/// and how often.
proof fn lemma_count_matching_permutation(s1: Seq<i32>, s2: Seq<i32>, p: spec_fn(i32) -> bool)
    requires
        s1.to_multiset() == s2.to_multiset(),
    ensures
        count_matching(s1, p) == count_matching(s2, p),
    decreases s1.len(),
{
    broadcast use vstd::seq_lib::group_to_multiset_ensures;

    s1.to_multiset_ensures();
    s2.to_multiset_ensures();
    if s1.len() == 0 {
        assert(s2.len() == 0);
    } else {
        let x = s1.last();
        assert(s1.contains(x));
        assert(s1.to_multiset().count(x) > 0);
        assert(s2.contains(x));
        let j = choose|j: int| 0 <= j < s2.len() && #[trigger] s2[j] == x;
        assert(s1.drop_last() =~= s1.remove(s1.len() - 1));
        assert(s1.remove(s1.len() - 1).to_multiset() == s1.to_multiset().remove(x));
        assert(s2.remove(j).to_multiset() == s2.to_multiset().remove(x));
        lemma_count_matching_permutation(s1.drop_last(), s2.remove(j), p);
        lemma_count_matching_remove(s2, j, p);
    }
}

/// At least half of a sample's elements are at most its median, and at
/// least half are at least it: counted over the sample itself,
/// whatever order it arrived in.
pub proof fn lemma_median_half_counts(s: Seq<i32>)
    requires
        s.len() > 0,
    ensures
        2 * count_matching(s, at_most_median(s)) >= s.len(),
        2 * count_matching(s, at_least_median(s)) >= s.len(),
{
    lemma_i32_le_total_ordering();
    s.lemma_sort_by_ensures(i32_le());
    s.to_multiset_ensures();
    sorted_of(s).to_multiset_ensures();
    lemma_median_half_bounds(s);
    let t = sorted_of(s);
    let n = s.len() as int;
    let low = t.take((n - 1) / 2 + 1);
    let high = t.skip(n / 2);
    lemma_count_matching_permutation(s, t, at_most_median(s));
    lemma_count_matching_permutation(s, t, at_least_median(s));
    assert(t =~= low + t.skip((n - 1) / 2 + 1));
    lemma_count_matching_concat(low, t.skip((n - 1) / 2 + 1), at_most_median(s));
    lemma_count_matching_all(low, at_most_median(s));
    assert(t =~= t.take(n / 2) + high);
    lemma_count_matching_concat(t.take(n / 2), high, at_least_median(s));
    lemma_count_matching_all(high, at_least_median(s));
}

/// A sequence all of whose elements satisfy `p` matches in full.
proof fn lemma_count_matching_all(s: Seq<i32>, p: spec_fn(i32) -> bool)
    requires
        forall|i: int| 0 <= i < s.len() ==> p(#[trigger] s[i]),
    ensures
        count_matching(s, p) == s.len(),
    decreases s.len(),
{
    if s.len() > 0 {
        lemma_count_matching_all(s.drop_last(), p);
    }
}

/// In an ascending sequence, earlier elements are at most later ones.
proof fn lemma_sorted_pairwise(t: Seq<i32>)
    requires
        vstd::relations::sorted_by(t, i32_le()),
    ensures
        forall|i: int, j: int| 0 <= i <= j < t.len() ==> #[trigger] t[i] <= #[trigger] t[j],
{
    assert forall|i: int, j: int| 0 <= i <= j < t.len() implies t[i] <= t[j] by {
        if i < j {
            assert(i32_le()(t[i], t[j]));
        }
    }
}

/// Strict version of the sample ordering, used for the duplicate-free
/// mode result.
pub open spec fn i32_lt() -> spec_fn(i32, i32) -> bool {
    |a: i32, b: i32| a < b
}

/// A count `c` is the maximum occurrence count of `s` if some element
/// of `s` occurs `c` times and none occurs more often.
pub open spec fn is_max_count(s: Seq<i32>, c: nat) -> bool {
    &&& exists|i: int| 0 <= i < s.len() && count_of(s, #[trigger] s[i]) == c
    &&& forall|i: int| 0 <= i < s.len() ==> count_of(s, #[trigger] s[i]) <= c
}

/// The maximum occurrence count of a sample.
pub open spec fn max_count(s: Seq<i32>) -> nat {
    choose|c: nat| is_max_count(s, c)
}

/// No value occurs more often than the sequence is long.
proof fn lemma_count_le_len(s: Seq<i32>, v: i32)
    ensures
        count_of(s, v) <= s.len(),
    decreases s.len(),
{
    if s.len() > 0 {
        lemma_count_le_len(s.drop_last(), v);
    }
}

/// For a non-empty sample, a maximum occurrence count exists.
proof fn lemma_max_count_exists(s: Seq<i32>)
    requires
        s.len() > 0,
    ensures
        is_max_count(s, max_count(s)),
{
    let witness = lemma_max_count_witness(s);
    assert(is_max_count(s, count_of(s, s[witness])));
}

/// Index of an element whose count is maximal.
proof fn lemma_max_count_witness(s: Seq<i32>) -> (w: int)
    requires
        s.len() > 0,
    ensures
        0 <= w < s.len(),
        forall|i: int| 0 <= i < s.len() ==> count_of(s, #[trigger] s[i]) <= count_of(s, s[w]),
    decreases s.len(),
{
    if s.len() == 1 {
        0
    } else {
        let sub = s.drop_last();
        let w0 = lemma_max_count_witness(sub);
        lemma_count_drop_last_all(s);
        if count_of(s, s.last()) > count_of(s, sub[w0]) {
            assert forall|i: int| 0 <= i < s.len() implies count_of(s, #[trigger] s[i]) <= count_of(
                s,
                s[s.len() - 1],
            ) by {
                if i < s.len() - 1 {
                    assert(count_of(sub, sub[i]) <= count_of(sub, sub[w0]));
                }
            }
            s.len() - 1
        } else {
            assert forall|i: int| 0 <= i < s.len() implies count_of(s, #[trigger] s[i]) <= count_of(
                s,
                s[w0],
            ) by {
                if i < s.len() - 1 {
                    assert(count_of(sub, sub[i]) <= count_of(sub, sub[w0]));
                }
            }
            w0
        }
    }
}

/// Dropping the last element lowers only that element's count, by one.
proof fn lemma_count_drop_last_all(s: Seq<i32>)
    requires
        s.len() > 0,
    ensures
        forall|v: i32|
            count_of(s, v) == count_of(s.drop_last(), v) + if s.last() == v {
                1nat
            } else {
                0nat
            },
{
}

/// Two qualifying maximum counts are equal.
proof fn lemma_max_count_unique(s: Seq<i32>, c1: nat, c2: nat)
    requires
        is_max_count(s, c1),
        is_max_count(s, c2),
    ensures
        c1 == c2,
{
}

/// How many times `v` occurs in the sample.
fn count_occurrences(sample: &[i32], v: i32) -> (c: usize)
    ensures
        c == count_of(sample@, v),
{
    let n = sample.len();
    let mut c: usize = 0;
    for i in 0..n
        invariant
            n == sample@.len(),
            c == count_of(sample@.take(i as int), v),
    {
        proof {
            assert(sample@.take(i + 1).drop_last() =~= sample@.take(i as int));
            lemma_count_le_len(sample@.take(i + 1), v);
        }
        if sample[i] == v {
            c = c + 1;
        }
    }
    proof {
        assert(sample@.take(n as int) =~= sample@);
    }
    c
}

/// The maximum occurrence count over a non-empty sample.
fn highest_count(sample: &[i32]) -> (mc: usize)
    requires
        sample@.len() > 0,
    ensures
        is_max_count(sample@, mc as nat),
        mc == max_count(sample@),
{
    let n = sample.len();
    let mut mc = count_occurrences(sample, sample[0]);
    let ghost mut best: int = 0;
    for i in 1..n
        invariant
            n == sample@.len(),
            0 <= best < n,
            mc == count_of(sample@, sample@[best]),
            forall|j: int| 0 <= j < i ==> count_of(sample@, #[trigger] sample@[j]) <= mc,
    {
        let c = count_occurrences(sample, sample[i]);
        if c > mc {
            mc = c;
            proof {
                best = i as int;
            }
        }
    }
    proof {
        assert(is_max_count(sample@, mc as nat));
        lemma_max_count_unique(sample@, mc as nat, max_count(sample@));
    }
    mc
}

/// `s2` holds exactly the values of `s1` plus `x`.
pub open spec fn contents_plus(s1: Seq<i32>, s2: Seq<i32>, x: i32) -> bool {
    forall|y: i32| #[trigger] s2.contains(y) <==> s1.contains(y) || y == x
}

/// Puts `x` into an ascending, duplicate-free vector, keeping it
/// ascending and duplicate-free; present values are left alone.
#[verifier::rlimit(50)]
fn insert_sorted_unique(out: &mut Vec<i32>, x: i32)
    requires
        vstd::relations::sorted_by(old(out)@, i32_lt()),
    ensures
        vstd::relations::sorted_by(final(out)@, i32_lt()),
        contents_plus(old(out)@, final(out)@, x),
{
    broadcast use vstd::seq_lib::group_to_multiset_ensures;

    let mut p: usize = 0;
    while p < out.len() && out[p] < x
        invariant
            0 <= p <= out@.len(),
            forall|q: int| 0 <= q < p ==> out@[q] < x,
        decreases out@.len() - p,
    {
        p = p + 1;
    }
    if p < out.len() && out[p] == x {
        proof {
            assert(out@[p as int] == x);
            assert(out@.contains(x));
            assert(contents_plus(old(out)@, out@, x));
        }
        return ;
    }
    let ghost prev = out@;
    out.insert(p, x);
    proof {
        assert(out@ =~= prev.insert(p as int, x));
        assert forall|a: int, b: int| 0 <= a < b < out@.len() implies i32_lt()(
            out@[a],
            out@[b],
        ) by {
            if b < p {
                assert(i32_lt()(prev[a], prev[b]));
            } else if a > p {
                assert(i32_lt()(prev[a - 1], prev[b - 1]));
            } else if a == p {
                if p < prev.len() {
                    assert(x < prev[p as int]);
                    if b - 1 > p {
                        assert(i32_lt()(prev[p as int], prev[b - 1]));
                    }
                }
            } else if b == p {
                assert(prev[a] < x);
            } else {
                assert(prev[a] < x);
                if p < prev.len() {
                    assert(x < prev[p as int]);
                    if b - 1 > p {
                        assert(i32_lt()(prev[p as int], prev[b - 1]));
                    }
                }
            }
        }
        lemma_insert_multiset(prev, p as int, x);
        assert forall|y: i32| out@.contains(y) <==> prev.contains(y) || y == x by {
            assert(out@.to_multiset() == prev.to_multiset().insert(x));
            assert(out@.contains(y) <==> out@.to_multiset().count(y) > 0);
            assert(prev.contains(y) <==> prev.to_multiset().count(y) > 0);
            if y == x {
                assert(prev.to_multiset().insert(x).count(x) == prev.to_multiset().count(x) + 1);
            } else {
                assert(prev.to_multiset().insert(x).count(y) == prev.to_multiset().count(y));
            }
        }
        assert(prev == old(out)@);
        assert(contents_plus(prev, out@, x));
    }
}

/// Every most-frequent value of the sample, in ascending order and
/// without duplicates: a value is in the result exactly when it occurs
/// in the sample and its occurrence count is the sample's maximum.
///
/// Returns `EmptyInputError` if and only if the sample is empty.
pub fn mode(sample: &[i32]) -> (r: Result<Vec<i32>, EmptyInputError>)
    ensures
        r is Ok <==> sample@.len() > 0,
        r matches Ok(v) ==> {
            &&& vstd::relations::sorted_by(v@, i32_lt())
            &&& forall|y: i32|
                v@.contains(y) <==> sample@.contains(y) && count_of(sample@, y) == max_count(
                    sample@,
                )
            &&& v@.len() > 0
        },
{
    let n = sample.len();
    if n == 0 {
        return Err(EmptyInputError);
    }
    let mc = highest_count(sample);
    let mut out: Vec<i32> = Vec::new();
    for i in 0..n
        invariant
            n == sample@.len(),
            mc == max_count(sample@),
            vstd::relations::sorted_by(out@, i32_lt()),
            forall|y: i32|
                out@.contains(y) <==> sample@.take(i as int).contains(y) && count_of(sample@, y)
                    == mc,
    {
        let x = sample[i];
        let c = count_occurrences(sample, x);
        if c == mc {
            insert_sorted_unique(&mut out, x);
        }
        proof {
            assert forall|y: i32|
                out@.contains(y) <==> sample@.take(i + 1).contains(y) && count_of(sample@, y)
                    == mc by {
                assert(sample@.take(i + 1).drop_last() =~= sample@.take(i as int));
                if y == sample@[i as int] {
                    assert(sample@.take(i + 1)[i as int] == y);
                } else {
                    if sample@.take(i + 1).contains(y) {
                        let j = choose|j: int| 0 <= j < i + 1 && #[trigger] sample@.take(i + 1)[j] == y;
                        assert(sample@.take(i as int)[j] == y);
                    }
                    if sample@.take(i as int).contains(y) {
                        let j = choose|j: int| 0 <= j < i && #[trigger] sample@.take(i as int)[j] == y;
                        assert(sample@.take(i + 1)[j] == y);
                    }
                }
            }
        }
    }
    proof {
        assert(sample@.take(n as int) =~= sample@);
        lemma_max_count_exists(sample@);
        let w = choose|i: int| 0 <= i < sample@.len() && count_of(sample@, #[trigger] sample@[i])
            == max_count(sample@);
        assert(sample@.contains(sample@[w]));
        assert(out@.contains(sample@[w]));
    }
    Ok(out)
}

/// The mean times the sample size recovers the sample's sum exactly:
/// with `mean(S) = sum(S) / len(S)` as an exact rational, cross
/// multiplication gives `num * len(S) == sum(S) * den`.
pub proof fn lemma_mean_times_len(s: Seq<i32>, m: Ratio)
    requires
        s.len() > 0,
        m.num == sum_seq(s),
        m.den == s.len(),
    ensures
        m.num * s.len() == sum_seq(s) * m.den,
{
}

} // verus!
