//! Fixed-capacity circular byte buffer with partial-operation semantics.
//!
//! The buffer owns a backing store of exactly `capacity` bytes and two
//! cursors advanced modulo the capacity.  `read_idx == write_idx` is
//! reachable both when the buffer is completely empty and when it is
//! completely full, so the `is_full` flag is the sole disambiguator: the
//! buffer is empty iff the cursors coincide and the flag is clear.
//!
//! A write never blocks: the longest prefix of the input that fits is
//! copied and its length returned; a write against a full buffer fails with
//! [`WriteError::NoSpaceLeft`] and changes nothing.  A read never blocks:
//! it returns absence on an empty buffer and otherwise produces exactly the
//! requested number of bytes, deliberately without clamping the request to
//! the occupied length — a caller asking for more than was written receives
//! the stale contents of unwritten slots.

use vstd::arithmetic::div_mod::{
    lemma_add_mod_noop, lemma_mod_bound, lemma_mod_self_0, lemma_mod_sub_multiples_vanish,
    lemma_small_mod,
};
use vstd::prelude::*;

verus! {

/// The one failure a write can report: the buffer was already full (or has
/// no capacity at all) when the write was attempted.
#[derive(Debug, PartialEq, Eq, Structural)]
pub enum WriteError {
    NoSpaceLeft,
}

/// Mathematical state of a ring buffer: the two cursors, the full flag and
/// the backing store.  The capacity is the length of `data`.
pub struct RingView {
    pub read: nat,
    pub write: nat,
    pub full: bool,
    pub data: Seq<u8>,
}

impl RingView {
    /// Capacity of the buffer: the size of the backing store.
    pub open spec fn cap(self) -> nat {
        self.data.len()
    }

    /// Well-formedness: cursors stay inside the store, and the full flag is
    /// only ever raised with the cursors coinciding.
    pub open spec fn wf(self) -> bool {
        &&& if self.cap() == 0 {
            self.read == 0 && self.write == 0 && !self.full
        } else {
            self.read < self.cap() && self.write < self.cap()
        }
        &&& (self.full ==> self.read == self.write)
    }

    /// Number of occupied (written but not yet read) bytes.
    pub open spec fn len(self) -> nat {
        if self.cap() == 0 {
            0
        } else if self.full {
            self.cap()
        } else if self.write >= self.read {
            (self.write - self.read) as nat
        } else {
            (self.write + self.cap() - self.read) as nat
        }
    }

    /// The buffer is empty iff nothing is occupied.
    pub open spec fn is_empty(self) -> bool {
        self.len() == 0
    }

    /// The occupied bytes in FIFO order, oldest first.
    pub open spec fn contents(self) -> Seq<u8> {
        Seq::new(self.len(), |i: int| self.data[(self.read + i) % (self.cap() as int)])
    }
}

/// State of a freshly created buffer: a zero-filled store of `cap` bytes,
/// both cursors at zero, flag clear.
pub open spec fn fresh_view(cap: nat) -> RingView {
    RingView { read: 0, write: 0, full: false, data: Seq::new(cap, |i: int| 0u8) }
}

/// The backing store after writing `bytes` starting at slot `start`,
/// wrapping past the end of the store.
pub open spec fn store_range(data: Seq<u8>, start: int, bytes: Seq<u8>) -> Seq<u8>
    recommends
        0 <= start < data.len(),
        bytes.len() <= data.len(),
{
    Seq::new(
        data.len(),
        |i: int|
            {
                let k = if i >= start {
                    i - start
                } else {
                    i + data.len() - start
                };
                if k < bytes.len() {
                    bytes[k]
                } else {
                    data[i]
                }
            },
    )
}

/// How many bytes of `buf` a write against state `v` stores: the length of
/// the input, truncated to the free space.
pub open spec fn write_count(v: RingView, buf: Seq<u8>) -> nat
    recommends
        v.wf(),
        !v.full,
{
    if buf.len() <= v.cap() - v.len() {
        buf.len()
    } else {
        (v.cap() - v.len()) as nat
    }
}

/// One write step on the model.  A full buffer rejects every write; a
/// buffer without capacity accepts only empty input; otherwise the longest
/// prefix of `buf` that fits is stored at the write cursor and its length
/// returned, and the flag is raised exactly when the store becomes
/// completely occupied.
pub open spec fn spec_write(v: RingView, buf: Seq<u8>) -> (RingView, Option<nat>)
    recommends
        v.wf(),
{
    if v.full {
        (v, None)
    } else if v.cap() == 0 {
        if buf.len() == 0 {
            (v, Some(0 as nat))
        } else {
            (v, None)
        }
    } else {
        let n = write_count(v, buf);
        let v2 = RingView {
            read: v.read,
            write: if v.write + n < v.cap() {
                (v.write + n) as nat
            } else {
                (v.write + n - v.cap()) as nat
            },
            full: v.len() + n == v.cap(),
            data: store_range(v.data, v.write as int, buf.take(n as int)),
        };
        (v2, Some(n))
    }
}

/// The bytes a read of `count` produces and the state it leaves, with no
/// emptiness check and no clamping: the request may run past the occupied
/// region, in which case stale store contents are produced for the excess.
/// The full flag is unconditionally cleared.
pub open spec fn spec_read_raw(v: RingView, count: nat) -> (RingView, Seq<u8>)
    recommends
        v.wf(),
        count == 0 || v.cap() > 0,
{
    let out = Seq::new(count, |i: int| v.data[(v.read + i) % (v.cap() as int)]);
    let v2 = RingView {
        read: if v.cap() == 0 {
            0
        } else {
            (((v.read + count) as int) % (v.cap() as int)) as nat
        },
        write: v.write,
        full: false,
        data: v.data,
    };
    (v2, out)
}

/// One read step on the model: absence on an empty buffer (the state is
/// untouched), otherwise exactly `count` bytes starting at the read cursor.
pub open spec fn spec_read(v: RingView, count: nat) -> (RingView, Option<Seq<u8>>)
    recommends
        v.wf(),
{
    if v.len() == 0 {
        (v, None)
    } else {
        let (v2, out) = spec_read_raw(v, count);
        (v2, Some(out))
    }
}

/// Fixed-capacity circular byte buffer.  The fields are public so that the
/// cursor positions and the flag are observable; every operation requires
/// and preserves `self@.wf()`.
pub struct RingBuffer {
    pub read_idx: usize,
    pub write_idx: usize,
    pub is_full: bool,
    pub data: Vec<u8>,
}

impl View for RingBuffer {
    type V = RingView;

    open spec fn view(&self) -> RingView {
        RingView {
            read: self.read_idx as nat,
            write: self.write_idx as nat,
            full: self.is_full,
            data: self.data@,
        }
    }
}

/// Creates a buffer of `size` bytes, zero-filled, with both cursors at
/// zero and the full flag clear.
pub fn create(size: usize) -> (rb: RingBuffer)
    ensures
        rb@ == fresh_view(size as nat),
        rb@.wf(),
        rb@.is_empty(),
{
    let rb = RingBuffer { read_idx: 0, write_idx: 0, is_full: false, data: vec![0u8; size] };
    proof {
        assert(rb@.data =~= fresh_view(size as nat).data);
    }
    rb
}

/// Writes the longest prefix of `buf` that fits and returns its length;
/// fails with `NoSpaceLeft` exactly when the buffer is already full, or
/// when it has no capacity and the input is non-empty.  Partial writes are
/// a successful outcome: the returned count may be less than `buf.len()`.
pub fn write(rb: &mut RingBuffer, buf: &[u8]) -> (result: Result<usize, WriteError>)
    requires
        old(rb)@.wf(),
    ensures
        final(rb)@.wf(),
        final(rb)@.cap() == old(rb)@.cap(),
        ({
            let (v2, r) = spec_write(old(rb)@, buf@);
            &&& final(rb)@ == v2
            &&& match result {
                Ok(n) => r == Some(n as nat),
                Err(WriteError::NoSpaceLeft) => r is None,
            }
        }),
{
    if rb.is_full {
        return Err(WriteError::NoSpaceLeft);
    }
    let capacity = rb.data.len();
    if capacity == 0 {
        if buf.len() == 0 {
            return Ok(0);
        } else {
            return Err(WriteError::NoSpaceLeft);
        }
    }
    let len = if rb.write_idx >= rb.read_idx {
        rb.write_idx - rb.read_idx
    } else {
        capacity - rb.read_idx + rb.write_idx
    };
    let free_space = capacity - len;
    let bytes_to_write = if buf.len() <= free_space {
        buf.len()
    } else {
        free_space
    };
    let ghost v0 = old(rb)@;
    let mut k: usize = 0;
    while k < bytes_to_write
        invariant
            v0.wf(),
            !v0.full,
            capacity == v0.cap(),
            capacity > 0,
            len == v0.len(),
            free_space == capacity - len,
            bytes_to_write <= buf@.len(),
            bytes_to_write <= free_space,
            k <= bytes_to_write,
            rb.read_idx == v0.read,
            rb.is_full == false,
            rb.data@.len() == capacity,
            rb.write_idx as int == if v0.write + k < capacity as int {
                v0.write + k
            } else {
                v0.write + k - capacity
            },
            rb.data@ == store_range(v0.data, v0.write as int, buf@.take(k as int)),
        decreases bytes_to_write - k,
    {
        let ghost prev = rb.data@;
        let ghost cur = rb.write_idx as int;
        rb.data[rb.write_idx] = buf[k];
        rb.write_idx = (rb.write_idx + 1) % capacity;
        proof {
            if cur + 1 < capacity as int {
                lemma_small_mod((cur + 1) as nat, capacity as nat);
            } else {
                lemma_mod_self_0(capacity as int);
            }
            assert(rb.data@ =~= store_range(v0.data, v0.write as int, buf@.take(k as int + 1)));
        }
        k += 1;
    }
    if len + bytes_to_write == capacity {
        rb.is_full = true;
    }
    proof {
        assert(rb@ == spec_write(v0, buf@).0);
    }
    Ok(bytes_to_write)
}

/// Reads exactly `count` bytes starting at the read cursor, without
/// checking the request against the occupied length, and clears the full
/// flag.  Shared by the checked read and by the unchecked variant.
pub(crate) fn read_unchecked(rb: &mut RingBuffer, count: usize) -> (result: Vec<u8>)
    requires
        old(rb)@.wf(),
        count == 0 || old(rb)@.cap() > 0,
    ensures
        final(rb)@.wf(),
        final(rb)@.cap() == old(rb)@.cap(),
        ({
            let (v2, out) = spec_read_raw(old(rb)@, count as nat);
            &&& final(rb)@ == v2
            &&& result@ == out
        }),
{
    let capacity = rb.data.len();
    let ghost v0 = old(rb)@;
    proof {
        if capacity > 0 {
            lemma_small_mod(v0.read, capacity as nat);
        }
    }
    let mut result: Vec<u8> = Vec::new();
    let mut k: usize = 0;
    while k < count
        invariant
            v0.wf(),
            capacity == v0.cap(),
            count == 0 || capacity > 0,
            k <= count,
            rb.write_idx == v0.write,
            rb.is_full == v0.full,
            rb.data@ == v0.data,
            capacity > 0 ==> rb.read_idx as int == (v0.read + k) % (capacity as int),
            capacity == 0 ==> rb.read_idx == v0.read,
            result@ == Seq::new(k as nat, |i: int| v0.data[(v0.read + i) % (v0.cap() as int)]),
        decreases count - k,
    {
        proof {
            lemma_mod_bound((v0.read + k) as int, capacity as int);
        }
        let byte = rb.data[rb.read_idx];
        result.push(byte);
        proof {
            assert(result@ =~= Seq::new(
                (k + 1) as nat,
                |i: int| v0.data[(v0.read + i) % (v0.cap() as int)],
            ));
        }
        rb.read_idx = (rb.read_idx + 1) % capacity;
        proof {
            if capacity > 1 {
                lemma_small_mod(1, capacity as nat);
            } else {
                lemma_mod_self_0(capacity as int);
            }
            lemma_add_mod_noop((v0.read + k) as int, 1, capacity as int);
        }
        k += 1;
    }
    rb.is_full = false;
    proof {
        if capacity > 0 {
            lemma_mod_bound((v0.read + count) as int, capacity as int);
        }
    }
    result
}

/// Reads `count` bytes: absence when the buffer is empty (the state is
/// untouched), otherwise exactly `count` bytes in FIFO order starting at
/// the read cursor, clearing the full flag.  The request is deliberately
/// not clamped to the occupied length: the excess, if any, is stale store
/// content.
pub fn read(rb: &mut RingBuffer, count: usize) -> (result: Option<Vec<u8>>)
    requires
        old(rb)@.wf(),
    ensures
        final(rb)@.wf(),
        final(rb)@.cap() == old(rb)@.cap(),
        ({
            let (v2, r) = spec_read(old(rb)@, count as nat);
            &&& final(rb)@ == v2
            &&& match result {
                Some(bytes) => r == Some(bytes@),
                None => r is None,
            }
        }),
{
    if rb.read_idx == rb.write_idx && !rb.is_full {
        return None;
    }
    Some(read_unchecked(rb, count))
}

/// For `0 <= x < 2c`, taking `x` modulo `c` wraps at most once.
proof fn lemma_wrap_once(x: int, c: int)
    requires
        0 < c,
        0 <= x < 2 * c,
    ensures
        x % c == if x < c {
            x
        } else {
            x - c
        },
{
    if x < c {
        lemma_small_mod(x as nat, c as nat);
    } else {
        lemma_mod_sub_multiples_vanish(x, c);
        lemma_small_mod((x - c) as nat, c as nat);
    }
}

/// An accepted write appends the stored prefix of the input to the
/// occupied bytes: afterwards the buffer holds the old contents followed
/// by the first `write_count` bytes of the input, in order.
pub proof fn lemma_write_appends(v: RingView, buf: Seq<u8>)
    requires
        v.wf(),
        !v.full,
        v.cap() > 0,
    ensures
        ({
            let (v2, r) = spec_write(v, buf);
            let n = write_count(v, buf);
            &&& r == Some(n)
            &&& v2.wf()
            &&& v2.len() == v.len() + n
            &&& v2.contents() == v.contents() + buf.take(n as int)
            &&& v2.full <==> v.len() + n == v.cap()
        }),
{
    let (v2, r) = spec_write(v, buf);
    let n = write_count(v, buf);
    let c = v.cap() as int;
    assert(v.len() < v.cap());
    assert(v.write as int == if v.read + v.len() < c {
        (v.read + v.len()) as int
    } else {
        v.read + v.len() - c
    });
    assert(v2.len() == v.len() + n);
    assert forall|j: int| 0 <= j < v.len() + n implies v2.contents()[j] == (v.contents()
        + buf.take(n as int))[j] by {
        lemma_wrap_once(v.read + j, c);
        let idx = (v.read + j) % c;
        let k = if idx >= v.write as int {
            idx - v.write
        } else {
            idx + c - v.write
        };
        if j < v.len() {
            assert(k >= n);
            assert(v2.contents()[j] == v.data[idx]);
            assert(v.contents()[j] == v.data[idx]);
        } else {
            assert(k == j - v.len());
            assert(v2.contents()[j] == buf[j - v.len()]);
        }
    }
    assert(v2.contents() =~= v.contents() + buf.take(n as int));
}

/// A freshly created buffer of any capacity is empty, its full flag is
/// clear, and a read of any length returns absence and leaves the state
/// untouched.
pub proof fn lemma_fresh_buffer_reads_nothing(cap: nat, count: nat)
    ensures
        fresh_view(cap).wf(),
        !fresh_view(cap).full,
        fresh_view(cap).is_empty(),
        spec_read(fresh_view(cap), count) == (fresh_view(cap), None::<Seq<u8>>),
{
}

/// Writing `buf` to an empty buffer of capacity at least one succeeds:
/// with the whole input when it fits, leaving exactly that input occupied;
/// truncated to the capacity when it does not, leaving the buffer full.
pub proof fn lemma_write_to_empty_buffer(v: RingView, buf: Seq<u8>)
    requires
        v.wf(),
        v.is_empty(),
        v.cap() >= 1,
    ensures
        ({
            let (v2, r) = spec_write(v, buf);
            &&& buf.len() <= v.cap() ==> r == Some(buf.len()) && v2.contents() == buf
            &&& buf.len() > v.cap() ==> r == Some(v.cap()) && v2.contents() == buf.take(
                v.cap() as int,
            ) && v2.full
        }),
{
    let (v2, r) = spec_write(v, buf);
    let n = write_count(v, buf);
    lemma_write_appends(v, buf);
    assert(v.contents() =~= Seq::<u8>::empty());
    assert(v.contents() + buf.take(n as int) =~= buf.take(n as int));
    if buf.len() <= v.cap() {
        assert(buf.take(n as int) =~= buf);
    }
}

/// Writing anything to a full buffer fails with `NoSpaceLeft` and leaves
/// the state unchanged.
pub proof fn lemma_write_to_full_buffer(v: RingView, buf: Seq<u8>)
    requires
        v.wf(),
        v.full,
    ensures
        spec_write(v, buf) == (v, None::<nat>),
{
}

/// Reading `count` bytes, where `count` does not exceed the occupied
/// length of a non-empty buffer, returns exactly the `count` oldest
/// unread bytes in write order, advances the read cursor by `count`,
/// clears the full flag, and touches neither the write cursor nor the
/// store.  Except for a zero-length read of a full buffer, the bytes left
/// occupied are exactly the old contents with the first `count` removed.
pub proof fn lemma_read_within_occupied(v: RingView, count: nat)
    requires
        v.wf(),
        0 < v.len(),
        count <= v.len(),
    ensures
        ({
            let (v2, r) = spec_read(v, count);
            &&& r == Some(v.contents().take(count as int))
            &&& v2.read == (((v.read + count) as int) % (v.cap() as int)) as nat
            &&& !v2.full
            &&& v2.write == v.write
            &&& v2.data == v.data
            &&& v2.wf()
            &&& (count > 0 || !v.full) ==> v2.len() == v.len() - count && v2.contents()
                == v.contents().skip(count as int)
        }),
{
    let (v2, r) = spec_read(v, count);
    let c = v.cap() as int;
    let out = r->Some_0;
    assert(out =~= v.contents().take(count as int));
    lemma_mod_bound((v.read + count) as int, c);
    lemma_wrap_once((v.read + count) as int, c);
    if count > 0 || !v.full {
        assert(v2.len() == v.len() - count);
        assert forall|i: int| 0 <= i < v2.len() implies v2.contents()[i] == v.contents().skip(
            count as int,
        )[i] by {
            lemma_small_mod(i as nat, c as nat);
            lemma_add_mod_noop((v.read + count) as int, i, c);
            assert((v2.read + i) % c == (v.read + (count + i)) % c);
        }
        assert(v2.contents() =~= v.contents().skip(count as int));
    }
}

/// Round trip: writing a sequence that fits into an empty buffer and then
/// reading back exactly its length returns the sequence unchanged and
/// leaves the buffer empty again.
pub proof fn lemma_round_trip(v: RingView, buf: Seq<u8>)
    requires
        v.wf(),
        v.is_empty(),
        1 <= buf.len() <= v.cap(),
    ensures
        ({
            let (v2, r) = spec_write(v, buf);
            let (v3, r2) = spec_read(v2, buf.len());
            &&& r == Some(buf.len())
            &&& r2 == Some(buf)
            &&& v3.is_empty()
        }),
{
    let (v2, r) = spec_write(v, buf);
    lemma_write_to_empty_buffer(v, buf);
    lemma_write_appends(v, buf);
    lemma_read_within_occupied(v2, buf.len());
    assert(v2.contents().take(buf.len() as int) =~= buf);
}

/// Reads of an empty buffer are harmless, however often they are
/// repeated: each one returns absence and moves neither cursor, so a
/// second read of any length finds the very same state and returns
/// absence again.
pub proof fn lemma_empty_read_is_stable(v: RingView, count: nat, count2: nat)
    ensures
        v.is_empty() ==> spec_read(v, count) == (v, None::<Seq<u8>>),
        v.is_empty() ==> spec_read(spec_read(v, count).0, count2) == (v, None::<Seq<u8>>),
{
}

} // verus!
