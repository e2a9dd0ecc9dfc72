//! A shareable, lock-protected handle to one ring buffer.
//!
//! Many concurrent callers may hold clones of the handle; they all refer
//! to the same underlying buffer.  Each write or read acquires the
//! exclusive lock, delegates to the buffer, and releases the lock before
//! returning — the critical section covers exactly one operation, and no
//! call ever blocks waiting for space or data.  A caller that must
//! eventually succeed retries; the handle itself never loops.

use crate::ring_text::{lossy_decode, RingBuffer, WriteError};
use std::sync::Arc;
use vstd::prelude::*;
use vstd::rwlock::{RwLock, RwLockPredicate};
use vstd::string::StringSliceAdditionalSpecFns;

verus! {

/// Lock invariant: whatever is stored behind the lock is a well-formed
/// buffer of the fixed capacity chosen at construction.
pub struct FixedCapacity {
    pub cap: nat,
}

impl RwLockPredicate<RingBuffer> for FixedCapacity {
    open spec fn inv(self, rb: RingBuffer) -> bool {
        rb@.wf() && rb@.cap() == self.cap
    }
}

/// Relies on `Arc::clone`: the clone is a second handle to the very same
/// allocation, so its pointed-to value equals the original's.
#[verifier::external_body]
fn arc_clone<T>(a: &Arc<T>) -> (r: Arc<T>)
    ensures
        r == *a,
{
    Arc::clone(a)
}

/// A cloneable handle to one lock-protected ring buffer.  All clones share
/// the same buffer and the same lock; mutation is serialized, one write or
/// read critical section at a time.
pub struct ThreadSafeRingBuffer {
    inner: Arc<RwLock<RingBuffer, FixedCapacity>>,
    capacity: Ghost<nat>,
}

impl ThreadSafeRingBuffer {
    /// The handle is tied to a lock whose invariant pins the buffer's
    /// capacity to the capacity recorded in the handle.
    pub closed spec fn wf(self) -> bool {
        self.inner.pred() == (FixedCapacity { cap: self.capacity@ })
    }

    /// Capacity of the shared buffer, fixed at construction.
    pub closed spec fn cap(self) -> nat {
        self.capacity@
    }

    /// Creates a handle to a fresh, empty, lock-protected buffer of `size`
    /// bytes.
    pub fn new(size: usize) -> (result: Self)
        ensures
            result.wf(),
            result.cap() == size as nat,
    {
        let rb = RingBuffer::new(size);
        let lock = RwLock::new(rb, Ghost(FixedCapacity { cap: size as nat }));
        ThreadSafeRingBuffer { inner: Arc::new(lock), capacity: Ghost(size as nat) }
    }

    /// Acquires the lock, delegates one write to the buffer, and releases
    /// the lock.  Which state the shared buffer is in when the lock is
    /// granted depends on the other handles, so only the shape of the
    /// outcome can be promised: a successful count never exceeds the
    /// input's byte length nor the capacity, and the one possible error is
    /// `NoSpaceLeft`.
    pub fn write(&self, buf: &str) -> (result: Result<usize, WriteError>)
        requires
            self.wf(),
        ensures
            result matches Ok(n) ==> n <= buf.spec_bytes().len() && n <= self.cap(),
            result matches Err(e) ==> e == WriteError::NoSpaceLeft,
    {
        let (mut rb, handle) = self.inner.acquire_write();
        let result = rb.write(buf);
        handle.release_write(rb);
        result
    }

    /// Acquires the lock, delegates one read to the buffer, and releases
    /// the lock.  Absence means the buffer was empty when the lock was
    /// granted; otherwise the string is the lenient decoding of exactly
    /// `count` bytes taken from the buffer.
    pub fn read(&self, count: usize) -> (result: Option<String>)
        requires
            self.wf(),
        ensures
            result matches Some(s) ==> exists|bytes: Seq<u8>|
                bytes.len() == count && s@ == lossy_decode(bytes),
    {
        let (mut rb, handle) = self.inner.acquire_write();
        let result = rb.read(count);
        handle.release_write(rb);
        result
    }
}

impl Clone for ThreadSafeRingBuffer {
    /// Cloning the handle is shallow: the clone refers to the same buffer
    /// and the same lock, and no buffer content is duplicated.
    fn clone(&self) -> (result: Self)
        ensures
            result == *self,
    {
        ThreadSafeRingBuffer { inner: arc_clone(&self.inner), capacity: Ghost(self.capacity@) }
    }
}

} // verus!
