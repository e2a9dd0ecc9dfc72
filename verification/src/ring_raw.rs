//! Unchecked variant of the ring buffer operations.
//!
//! This earlier, rawer shape of the API signals a rejected write by a zero
//! count instead of an error value, and reads without first checking that
//! the buffer holds anything: a read against an empty buffer produces the
//! stale contents of the store rather than an absence value.

use crate::ring::{read_unchecked, spec_read_raw, spec_write, RingBuffer};
use vstd::prelude::*;

verus! {

/// Creates a buffer of `size` bytes, zero-filled, with both cursors at
/// zero and the full flag clear.
pub fn create(size: usize) -> (rb: RingBuffer)
    ensures
        rb@ == crate::ring::fresh_view(size as nat),
        rb@.wf(),
        rb@.is_empty(),
{
    crate::ring::create(size)
}

/// Writes the longest prefix of `buf` that fits and returns its length; a
/// buffer that is already full (or has no room for a non-empty input)
/// accepts nothing, reports zero, and is left unchanged.
pub fn write(rb: &mut RingBuffer, buf: &[u8]) -> (count: usize)
    requires
        old(rb)@.wf(),
    ensures
        final(rb)@.wf(),
        final(rb)@.cap() == old(rb)@.cap(),
        ({
            let (v2, r) = spec_write(old(rb)@, buf@);
            &&& final(rb)@ == v2
            &&& count as nat == match r {
                Some(n) => n,
                None => 0 as nat,
            }
        }),
{
    match crate::ring::write(rb, buf) {
        Ok(count) => count,
        Err(_) => 0,
    }
}

/// Reads exactly `count` bytes starting at the read cursor and clears the
/// full flag, without checking the request against the occupied length —
/// or against emptiness: on an empty buffer this hands back stale store
/// contents.
pub fn read(rb: &mut RingBuffer, count: usize) -> (result: Vec<u8>)
    requires
        old(rb)@.wf(),
        count == 0 || old(rb)@.cap() > 0,
    ensures
        final(rb)@.wf(),
        final(rb)@.cap() == old(rb)@.cap(),
        ({
            let (v2, out) = spec_read_raw(old(rb)@, count as nat);
            &&& final(rb)@ == v2
            &&& result@ == out
        }),
{
    read_unchecked(rb, count)
}

} // verus!
