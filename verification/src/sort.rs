//! Merge sort over slices of unsigned integers: the result is ordered and
//! holds exactly the elements of the input, counted with multiplicity.

use vstd::prelude::*;
use vstd::seq_lib::{lemma_multiset_commutative, to_multiset_build};
use vstd::slice::{slice_subrange, slice_to_vec};

verus! {

/// Non-decreasing order.
pub open spec fn sorted(s: Seq<u64>) -> bool {
    forall|i: int, j: int| 0 <= i <= j < s.len() ==> s[i] <= s[j]
}

/// Sorts the slice into a fresh vector by splitting it in half, sorting
/// the halves recursively and merging them.
pub fn merge_sort(input: &[u64]) -> (result: Vec<u64>)
    ensures
        sorted(result@),
        result@.to_multiset() == input@.to_multiset(),
        result@.len() == input@.len(),
    decreases input@.len(),
{
    if input.len() <= 1 {
        return slice_to_vec(input);
    }
    let midpoint = input.len() / 2;
    let left_half = slice_subrange(input, 0, midpoint);
    let right_half = slice_subrange(input, midpoint, input.len());
    let left_sorted = merge_sort(left_half);
    let right_sorted = merge_sort(right_half);
    proof {
        assert(left_half@ + right_half@ =~= input@);
        lemma_multiset_commutative(left_half@, right_half@);
    }
    merge(left_sorted.as_slice(), right_sorted.as_slice())
}

/// Merges two sorted slices into one sorted vector holding exactly the
/// elements of both.
fn merge(left: &[u64], right: &[u64]) -> (result: Vec<u64>)
    requires
        sorted(left@),
        sorted(right@),
    ensures
        sorted(result@),
        result@.to_multiset() == left@.to_multiset().add(right@.to_multiset()),
        result@.len() == left@.len() + right@.len(),
{
    broadcast use vstd::seq_lib::group_to_multiset_ensures;
    broadcast use vstd::multiset::group_multiset_axioms;

    let mut result: Vec<u64> = Vec::new();
    let mut i: usize = 0;
    let mut j: usize = 0;
    while i < left.len() || j < right.len()
        invariant
            sorted(left@),
            sorted(right@),
            i <= left@.len(),
            j <= right@.len(),
            result@.len() == i + j,
            sorted(result@),
            result@.to_multiset() == left@.take(i as int).to_multiset().add(
                right@.take(j as int).to_multiset(),
            ),
            result@.len() > 0 ==> forall|k: int|
                i <= k < left@.len() ==> result@.last() <= #[trigger] left@[k],
            result@.len() > 0 ==> forall|k: int|
                j <= k < right@.len() ==> result@.last() <= #[trigger] right@[k],
        decreases left@.len() - i + right@.len() - j,
    {
        let take_left = if j >= right.len() {
            true
        } else if i >= left.len() {
            false
        } else {
            left[i] <= right[j]
        };
        if take_left {
            let ghost prev = result@;
            let value = left[i];
            result.push(value);
            proof {
                let a = left@.take(i as int);
                let b = right@.take(j as int);
                assert(result@ == prev.push(value));
                to_multiset_build(prev, value);
                assert(left@.take(i as int + 1) =~= a.push(value));
                to_multiset_build(a, value);
                assert(a.to_multiset().insert(value).add(b.to_multiset()) =~= a.to_multiset().add(
                    b.to_multiset(),
                ).insert(value));
                assert(forall|k: int| 0 <= k < prev.len() ==> #[trigger] prev[k] <= prev.last());
            }
            i += 1;
        } else {
            let ghost prev = result@;
            let value = right[j];
            result.push(value);
            proof {
                let a = left@.take(i as int);
                let b = right@.take(j as int);
                assert(result@ == prev.push(value));
                to_multiset_build(prev, value);
                assert(right@.take(j as int + 1) =~= b.push(value));
                to_multiset_build(b, value);
                assert(a.to_multiset().add(b.to_multiset().insert(value)) =~= a.to_multiset().add(
                    b.to_multiset(),
                ).insert(value));
                assert(forall|k: int| 0 <= k < prev.len() ==> #[trigger] prev[k] <= prev.last());
            }
            j += 1;
        }
    }
    proof {
        assert(left@.take(left@.len() as int) =~= left@);
        assert(right@.take(right@.len() as int) =~= right@);
    }
    result
}

} // verus!
