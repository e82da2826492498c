use vstd::prelude::*;
use vstd::seq_lib::lemma_multiset_commutative;
use vstd::seq_lib::to_multiset_build;
use vstd::seq_lib::lemma_sorted_unique;
use vstd::relations::{sorted_by, total_ordering};

verus! {

/// The values never descend from left to right.
pub open spec fn ascending(s: Seq<i64>) -> bool {
    forall|i: int, j: int| 0 <= i <= j < s.len() ==> s[i] <= s[j]
}

/// The order by which values are sorted: `a` comes no later than `b`.
pub open spec fn at_most() -> spec_fn(i64, i64) -> bool {
    |a: i64, b: i64| a <= b
}

/// The values of `s` in ascending order.
pub open spec fn sorted_values(s: Seq<i64>) -> Seq<i64> {
    s.sort_by(at_most())
}

/// The sorted values ascend, and each value occurs in them as often as it
/// does in the input.
pub proof fn lemma_sorted_values(s: Seq<i64>)
    ensures
        ascending(sorted_values(s)),
        sorted_values(s).to_multiset() == s.to_multiset(),
        sorted_values(s).len() == s.len(),
{
    assert(total_ordering(at_most()));
    s.lemma_sort_by_ensures(at_most());
    s.to_multiset_ensures();
    sorted_values(s).to_multiset_ensures();
    let out = sorted_values(s);
    assert forall|i: int, j: int| 0 <= i <= j < out.len() implies out[i] <= out[j] by {
        if i < j {
            assert(at_most()(out[i], out[j]));
        }
    }
}

/// There is one ascending order of given values: two ascending sequences
/// that hold the same values equally often are equal.
pub proof fn lemma_ascending_unique(a: Seq<i64>, b: Seq<i64>)
    requires
        ascending(a),
        ascending(b),
        a.to_multiset() == b.to_multiset(),
    ensures
        a == b,
{
    assert(total_ordering(at_most()));
    assert(sorted_by(a, at_most()));
    assert(sorted_by(b, at_most()));
    lemma_sorted_unique(a, b, at_most());
}

/// Sorting moves no value out of a range that held them all.
pub proof fn lemma_sorted_values_keep_bounds(s: Seq<i64>, low: int, high: int)
    requires
        forall|i: int| 0 <= i < s.len() ==> low <= #[trigger] s[i] <= high,
    ensures
        forall|i: int|
            0 <= i < sorted_values(s).len() ==> low <= #[trigger] sorted_values(s)[i] <= high,
{
    lemma_sorted_values(s);
    let out = sorted_values(s);
    s.to_multiset_ensures();
    out.to_multiset_ensures();
    assert forall|i: int| 0 <= i < out.len() implies low <= #[trigger] out[i] <= high by {
        assert(out.contains(out[i]));
        assert(s.to_multiset().count(out[i]) > 0);
        assert(s.contains(out[i]));
        let j = choose|j: int| 0 <= j < s.len() && s[j] == out[i];
        assert(low <= s[j] <= high);
    }
}

/// Merges two ascending runs into one.
fn merge(left: &Vec<i64>, right: &Vec<i64>) -> (out: Vec<i64>)
    requires
        ascending(left@),
        ascending(right@),
        left.len() + right.len() <= usize::MAX,
    ensures
        ascending(out@),
        out@.to_multiset() == left@.to_multiset().add(right@.to_multiset()),
        out.len() == left.len() + right.len(),
{
    let mut out: Vec<i64> = Vec::new();
    let mut i: usize = 0;
    let mut j: usize = 0;
    proof {
        lemma_multiset_commutative(left@.take(0), right@.take(0));
        assert(left@.take(0) + right@.take(0) =~= out@);
    }
    while i < left.len() || j < right.len()
        invariant
            i <= left.len(),
            j <= right.len(),
            out.len() == i + j,
            ascending(left@),
            ascending(right@),
            ascending(out@),
            out@.to_multiset() == left@.take(i as int).to_multiset().add(
                right@.take(j as int).to_multiset(),
            ),
            forall|k: int| 0 <= k < out.len() && i < left.len() ==> out[k] <= left[i as int],
            forall|k: int| 0 <= k < out.len() && j < right.len() ==> out[k] <= right[j as int],
        decreases left.len() - i + right.len() - j,
    {
        let take_left: bool = if j >= right.len() {
            true
        } else if i >= left.len() {
            false
        } else {
            left[i] <= right[j]
        };
        let ghost before = out@;
        if take_left {
            let x: i64 = left[i];
            out.push(x);
            proof {
                to_multiset_build(before, x);
                to_multiset_build(left@.take(i as int), x);
                assert(left@.take(i as int + 1) =~= left@.take(i as int).push(x));
            }
            i = i + 1;
        } else {
            let x: i64 = right[j];
            out.push(x);
            proof {
                to_multiset_build(before, x);
                to_multiset_build(right@.take(j as int), x);
                assert(right@.take(j as int + 1) =~= right@.take(j as int).push(x));
            }
            j = j + 1;
        }
    }
    proof {
        assert(left@.take(i as int) =~= left@);
        assert(right@.take(j as int) =~= right@);
    }
    out
}

/// Sorts the values at positions `from..to` of `v` into a new vector.
fn sort_range(v: &Vec<i64>, from: usize, to: usize) -> (out: Vec<i64>)
    requires
        from <= to <= v.len(),
    ensures
        ascending(out@),
        out@.to_multiset() == v@.subrange(from as int, to as int).to_multiset(),
        out.len() == to - from,
    decreases to - from,
{
    if to - from <= 1 {
        let mut out: Vec<i64> = Vec::new();
        if to - from == 1 {
            out.push(v[from]);
        }
        proof {
            assert(out@ =~= v@.subrange(from as int, to as int));
        }
        out
    } else {
        let middle: usize = from + (to - from) / 2;
        let left = sort_range(v, from, middle);
        let right = sort_range(v, middle, to);
        proof {
            lemma_multiset_commutative(
                v@.subrange(from as int, middle as int),
                v@.subrange(middle as int, to as int),
            );
            assert(v@.subrange(from as int, middle as int) + v@.subrange(
                middle as int,
                to as int,
            ) =~= v@.subrange(from as int, to as int));
        }
        merge(&left, &right)
    }
}

/// Returns the values of `v` in ascending order. The input is left as it was;
/// the result holds each value exactly as often as the input does.
pub fn sort_ascending(v: &Vec<i64>) -> (out: Vec<i64>)
    ensures
        out@ == sorted_values(v@),
        ascending(out@),
        out@.to_multiset() == v@.to_multiset(),
        out.len() == v.len(),
{
    proof {
        assert(v@.subrange(0, v.len() as int) =~= v@);
    }
    let out = sort_range(v, 0, v.len());
    proof {
        lemma_sorted_values(v@);
        lemma_ascending_unique(out@, sorted_values(v@));
    }
    out
}

/// Tells whether the values ascend.
pub fn is_ascending(v: &Vec<i64>) -> (r: bool)
    ensures
        r == ascending(v@),
{
    if v.len() < 2 {
        return true;
    }
    let mut i: usize = 1;
    while i < v.len()
        invariant
            1 <= i <= v.len(),
            forall|a: int, b: int| 0 <= a <= b < i ==> v[a] <= v[b],
        decreases v.len() - i,
    {
        if v[i - 1] > v[i] {
            return false;
        }
        i = i + 1;
    }
    true
}

} // verus!
