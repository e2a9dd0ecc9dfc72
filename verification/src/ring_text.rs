//! Text-oriented face of the ring buffer: writes take string slices and
//! store their UTF-8 bytes, reads hand the bytes back as an owned string,
//! decoding them leniently (invalid sequences become replacement
//! characters; bytes that are valid UTF-8 decode to exactly the characters
//! that produced them).

use crate::ring::{spec_read, spec_write};
use vstd::prelude::*;
use vstd::string::StringSliceAdditionalSpecFns;
use vstd::utf8::{decode_utf8, valid_utf8};

pub use crate::ring::{RingBuffer, WriteError};

verus! {

/// The character sequence that lenient UTF-8 decoding produces from a
/// byte sequence; a function of the bytes alone.
pub uninterp spec fn lossy_decode(bytes: Seq<u8>) -> Seq<char>;

/// Relies on `String::from_utf8_lossy`: the result depends on the bytes
/// alone, and bytes that are valid UTF-8 decode to exactly the characters
/// that encode them.
#[verifier::external_body]
fn from_utf8_lossy_string(bytes: &[u8]) -> (r: String)
    ensures
        r@ == lossy_decode(bytes@),
        valid_utf8(bytes@) ==> r@ == decode_utf8(bytes@),
{
    String::from_utf8_lossy(bytes).into_owned()
}

impl RingBuffer {
    /// Creates a buffer of `size` bytes, zero-filled, with both cursors at
    /// zero and the full flag clear.
    pub fn new(size: usize) -> (rb: RingBuffer)
        ensures
            rb@ == crate::ring::fresh_view(size as nat),
            rb@.wf(),
            rb@.is_empty(),
    {
        crate::ring::create(size)
    }

    /// Writes the longest prefix of the UTF-8 bytes of `buf` that fits and
    /// returns its length; fails with `NoSpaceLeft` exactly when the
    /// buffer is already full, or has no capacity and the input is
    /// non-empty.  The count is in bytes, and a multi-byte character may
    /// be split by the truncation.
    pub fn write(&mut self, buf: &str) -> (result: Result<usize, WriteError>)
        requires
            old(self)@.wf(),
        ensures
            final(self)@.wf(),
            final(self)@.cap() == old(self)@.cap(),
            ({
                let (v2, r) = spec_write(old(self)@, buf.spec_bytes());
                &&& final(self)@ == v2
                &&& match result {
                    Ok(n) => r == Some(n as nat),
                    Err(WriteError::NoSpaceLeft) => r is None,
                }
            }),
    {
        let bytes = buf.as_bytes();
        crate::ring::write(self, bytes)
    }

    /// Reads `count` bytes and decodes them leniently into an owned
    /// string: absence when the buffer is empty, otherwise exactly the
    /// bytes a read of `count` produces, as characters.
    pub fn read(&mut self, count: usize) -> (result: Option<String>)
        requires
            old(self)@.wf(),
        ensures
            final(self)@.wf(),
            final(self)@.cap() == old(self)@.cap(),
            ({
                let (v2, r) = spec_read(old(self)@, count as nat);
                &&& final(self)@ == v2
                &&& match result {
                    Some(s) => {
                        &&& r matches Some(bytes)
                        &&& s@ == lossy_decode(r->Some_0)
                        &&& valid_utf8(r->Some_0) ==> s@ == decode_utf8(r->Some_0)
                    },
                    None => r is None,
                }
            }),
    {
        match crate::ring::read(self, count) {
            Some(bytes) => Some(from_utf8_lossy_string(bytes.as_slice())),
            None => None,
        }
    }
}

} // verus!
