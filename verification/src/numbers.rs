//! Small numeric helpers over integer wrappers, tuples and arrays:
//! doubling with a widening conversion and summing a few components.

use vstd::prelude::*;

verus! {

/// A wrapped 32-bit unsigned integer.
pub struct Integer(pub u32);

/// A wrapped pair of 32-bit signed integers.
pub struct Tuple(pub i32, pub i32);

/// A wrapped array of three 32-bit signed integers.
pub struct Array(pub [i32; 3]);

impl Integer {
    /// Twice the wrapped value, as the same width.
    pub fn double_as_u32(&self) -> (r: u32)
        requires
            self.0 * 2 <= u32::MAX,
        ensures
            r == self.0 * 2,
    {
        self.0 * 2
    }

    /// Twice the wrapped value, widened to 64 bits after doubling.
    pub fn double_as_u64(&self) -> (r: u64)
        requires
            self.0 * 2 <= u32::MAX,
        ensures
            r == self.0 * 2,
    {
        (self.0 * 2) as u64
    }
}

impl Tuple {
    /// Sum of the two components.
    pub fn sum(&self) -> (r: i32)
        requires
            i32::MIN <= self.0 + self.1 <= i32::MAX,
        ensures
            r == self.0 + self.1,
    {
        self.0 + self.1
    }
}

impl Array {
    /// Sum of the three components.
    pub fn sum(&self) -> (r: i32)
        requires
            i32::MIN <= self.0[0] + self.0[1] <= i32::MAX,
            i32::MIN <= self.0[0] + self.0[1] + self.0[2] <= i32::MAX,
        ensures
            r == self.0[0] + self.0[1] + self.0[2],
    {
        self.0[0] + self.0[1] + self.0[2]
    }
}

/// Twice the value, as the same width.
pub fn double_int32(number: u32) -> (r: u32)
    requires
        number * 2 <= u32::MAX,
    ensures
        r == number * 2,
{
    number * 2
}

/// Twice the value, widened to 64 bits after doubling.
pub fn double_int64(number: u32) -> (r: u64)
    requires
        number * 2 <= u32::MAX,
    ensures
        r == number * 2,
{
    (number * 2) as u64
}

/// Sum of the two components of the pair.
pub fn tuple_sum(t: (i32, i32)) -> (r: i32)
    requires
        i32::MIN <= t.0 + t.1 <= i32::MAX,
    ensures
        r == t.0 + t.1,
{
    t.0 + t.1
}

/// Sum of the three elements of the array.
pub fn array_sum(a: [i32; 3]) -> (r: i32)
    requires
        i32::MIN <= a[0] + a[1] <= i32::MAX,
        i32::MIN <= a[0] + a[1] + a[2] <= i32::MAX,
    ensures
        r == a[0] + a[1] + a[2],
{
    a[0] + a[1] + a[2]
}

} // verus!
