//! Accessors over tuples and slices: borrowing one element by position,
//! splitting a slice in two, and splitting it into four nearly equal
//! chunks.

use vstd::arithmetic::div_mod::{lemma_fundamental_div_mod, lemma_mod_bound};
use vstd::prelude::*;
use vstd::slice::slice_subrange;

verus! {

/// A mutable borrow of one field of the pair: the second when the flag is
/// set, the first otherwise.
pub fn get_tup_element_by_flag(t: &mut (i32, i32), b: bool) -> (r: &mut i32)
    ensures
        b ==> *r == old(t).1 && *final(t) == (old(t).0, *final(r)),
        !b ==> *r == old(t).0 && *final(t) == (*final(r), old(t).1),
{
    if b {
        &mut t.1
    } else {
        &mut t.0
    }
}

/// A mutable borrow of the element at index `n`.
pub fn get_element_at_index(s: &mut [i32], n: usize) -> (r: &mut i32)
    requires
        n < old(s)@.len(),
    ensures
        *r == old(s)@[n as int],
        final(s)@ == old(s)@.update(n as int, *final(r)),
{
    &mut s[n]
}

/// The element `n` places before the end: `n` of one names the last
/// element, `n` equal to the length names the first.
pub fn get_element_at_index_from_end(s: &[i32], n: usize) -> (r: &i32)
    requires
        1 <= n <= s@.len(),
    ensures
        *r == s@[s@.len() - n],
{
    &s[s.len() - n]
}

/// Splits the slice at `n`: the first `n` elements and all the rest.
pub fn get_slices(s: &[i32], n: usize) -> (r: (&[i32], &[i32]))
    requires
        n <= s@.len(),
    ensures
        r.0@ == s@.subrange(0, n as int),
        r.1@ == s@.subrange(n as int, s@.len() as int),
{
    (slice_subrange(s, 0, n), slice_subrange(s, n, s.len()))
}

/// Splits the slice into four consecutive chunks of nearly equal size:
/// each holds a quarter of the elements, and the remainder is spread one
/// element each over the leading chunks.
pub fn split_slice_by_four(s: &[i32]) -> (r: [&[i32]; 4])
    ensures
        ({
            let len = s@.len() as int;
            let base = len / 4;
            let rem = len % 4;
            let e0 = base + if rem > 0 {
                1int
            } else {
                0int
            };
            let e1 = e0 + base + if rem > 1 {
                1int
            } else {
                0int
            };
            let e2 = e1 + base + if rem > 2 {
                1int
            } else {
                0int
            };
            &&& r@[0]@ == s@.subrange(0, e0)
            &&& r@[1]@ == s@.subrange(e0, e1)
            &&& r@[2]@ == s@.subrange(e1, e2)
            &&& r@[3]@ == s@.subrange(e2, len)
        }),
{
    proof {
        lemma_fundamental_div_mod(s@.len() as int, 4);
        lemma_mod_bound(s@.len() as int, 4);
    }
    let base_size = s.len() / 4;
    let remainder = s.len() % 4;
    let e0 = base_size + if remainder > 0 {
        1
    } else {
        0
    };
    let e1 = e0 + base_size + if remainder > 1 {
        1
    } else {
        0
    };
    let e2 = e1 + base_size + if remainder > 2 {
        1
    } else {
        0
    };
    let c0 = slice_subrange(s, 0, e0);
    let c1 = slice_subrange(s, e0, e1);
    let c2 = slice_subrange(s, e1, e2);
    let c3 = slice_subrange(s, e2, s.len());
    [c0, c1, c2, c3]
}

} // verus!
