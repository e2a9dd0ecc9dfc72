//! Concrete checks of the buffer's stated behaviour: fresh buffers,
//! round trips, repeated empty reads, unchecked reads past the occupied
//! region, zero-capacity buffers, lenient text decoding, and sharing one
//! buffer between cloned handles.

use ringbuf::ring::{create, read, WriteError};
use ringbuf::ring_raw;
use ringbuf::ring_shared::ThreadSafeRingBuffer;
use ringbuf::ring_text::RingBuffer;

#[test]
fn fresh_buffer_reads_nothing_at_any_length() {
    let mut rb = create(4);
    for count in [0usize, 1, 3, 4, 9] {
        assert_eq!(read(&mut rb, count), None);
        assert_eq!(rb.read_idx, 0);
        assert_eq!(rb.write_idx, 0);
        assert!(!rb.is_full);
    }
}

#[test]
fn write_truncates_to_capacity() {
    let mut rb = create(3);
    let b = ringbuf::ring::write(&mut rb, &[1, 2, 3, 4, 5]);
    assert_eq!(b, Ok(3));
    assert!(rb.is_full);
}

#[test]
fn rejected_write_leaves_state_unchanged() {
    let mut rb = create(2);
    assert_eq!(ringbuf::ring::write(&mut rb, &[5, 6]), Ok(2));
    let (read_before, write_before) = (rb.read_idx, rb.write_idx);
    assert_eq!(ringbuf::ring::write(&mut rb, &[7]), Err(WriteError::NoSpaceLeft));
    assert_eq!(rb.read_idx, read_before);
    assert_eq!(rb.write_idx, write_before);
    assert!(rb.is_full);
    assert_eq!(read(&mut rb, 2), Some(vec![5, 6]));
}

#[test]
fn empty_write_leaves_empty_buffer_usable() {
    let mut rb = create(3);
    assert_eq!(ringbuf::ring::write(&mut rb, &[]), Ok(0));
    assert!(!rb.is_full);
    assert_eq!(ringbuf::ring::write(&mut rb, &[7, 8, 9]), Ok(3));
    assert_eq!(read(&mut rb, 3), Some(vec![7, 8, 9]));
}

#[test]
fn round_trip_returns_the_bytes_written() {
    let mut rb = create(5);
    let payload = [10, 20, 30, 40];
    assert_eq!(ringbuf::ring::write(&mut rb, &payload), Ok(4));
    assert_eq!(read(&mut rb, 4), Some(payload.to_vec()));
    assert_eq!(read(&mut rb, 1), None);
}

#[test]
fn read_past_occupied_length_hands_out_stale_zeros() {
    let mut rb = create(3);
    assert_eq!(ringbuf::ring::write(&mut rb, &[b'a']), Ok(1));
    assert_eq!(read(&mut rb, 3), Some(vec![b'a', 0, 0]));
}

#[test]
fn zero_capacity_buffer() {
    let mut rb = create(0);
    assert_eq!(ringbuf::ring::write(&mut rb, &[]), Ok(0));
    assert_eq!(ringbuf::ring::write(&mut rb, &[1]), Err(WriteError::NoSpaceLeft));
    assert_eq!(read(&mut rb, 0), None);
    assert_eq!(read(&mut rb, 7), None);
}

#[test]
fn raw_write_reports_zero_when_full() {
    let mut rb = ring_raw::create(2);
    assert_eq!(ring_raw::write(&mut rb, &[1, 2]), 2);
    assert_eq!(ring_raw::write(&mut rb, &[3]), 0);
}

#[test]
fn raw_read_ignores_emptiness() {
    let mut rb = ring_raw::create(2);
    assert_eq!(ring_raw::read(&mut rb, 2), vec![0, 0]);
    assert_eq!(rb.read_idx, 0);
}

#[test]
fn text_decodes_multibyte_characters() {
    let mut rb = RingBuffer::new(4);
    assert_eq!(rb.write("é"), Ok(2));
    assert_eq!(rb.read(2), Some("é".to_string()));
}

#[test]
fn text_read_splitting_a_character_is_lenient() {
    let mut rb = RingBuffer::new(4);
    assert_eq!(rb.write("é"), Ok(2));
    let first = rb.read(1).unwrap();
    assert_eq!(first, "\u{FFFD}".to_string());
}

#[test]
fn cloned_handles_share_one_buffer() {
    let handle = ThreadSafeRingBuffer::new(3);
    let other = handle.clone();
    assert_eq!(handle.write("xy"), Ok(2));
    assert_eq!(other.read(2), Some("xy".to_string()));
    assert_eq!(other.write("abc"), Ok(3));
    assert_eq!(handle.write("z"), Err(WriteError::NoSpaceLeft));
    assert_eq!(handle.read(3), Some("abc".to_string()));
}
