use ringbuf::ring::RingBuffer;
use ringbuf::ring_raw::{create, read};

#[test]
fn main_test_create_buffer() {
    let rb = create(3);
    assert_eq!(rb.data.capacity(), 3);
    assert!(!rb.is_full);
}

#[test]
fn main_test_simple_write() {
    let mut rb: RingBuffer = create(3);

    let b = ringbuf::ring_raw::write(&mut rb, &[b'a', b'b']);
    assert_eq!(b, 2);
}

#[test]
fn main_test_write_full_buffer() {
    let mut rb: RingBuffer = create(3);
    let b = ringbuf::ring_raw::write(&mut rb, &[b'a', b'b', b'c']);
    assert_eq!(b, 3);
    assert!(rb.is_full);
}

#[test]
fn main_test_simple_read() {
    let mut rb: RingBuffer = create(3);
    let _b = ringbuf::ring_raw::write(&mut rb, &[b'a', b'b']);
    let d = read(&mut rb, 1);
    assert_eq!(d, vec![b'a']);
    assert_eq!(rb.read_idx, 1);
}

#[test]
fn main_test_read_full_buffer() {
    let mut rb: RingBuffer = create(3);
    let _b = ringbuf::ring_raw::write(&mut rb, &[b'a', b'b', b'c']);
    let d = read(&mut rb, 1);

    assert_eq!(d, vec![b'a']);
    assert_eq!(rb.read_idx, 1);
    assert_eq!(rb.write_idx, 0);
    assert!(!rb.is_full);
}

#[test]
fn main_test_rw_full() {
    let mut rb: RingBuffer = create(3);

    let mut b = ringbuf::ring_raw::write(&mut rb, &[b'a', b'b']);
    assert_eq!(b, 2);
    assert_eq!(rb.write_idx, 2);
    println!("{:?}", rb.data);

    b = ringbuf::ring_raw::write(&mut rb, &[b'c', b'd']);
    assert_eq!(b, 1);
    assert_eq!(rb.write_idx, 0);
    assert!(rb.is_full);
    println!("{:?}", rb.data);

    let d = read(&mut rb, 1);
    assert_eq!(d, vec![b'a']);
    assert_eq!(rb.read_idx, 1);
    assert!(!rb.is_full);
    println!("{:?}", rb.data);

    b = ringbuf::ring_raw::write(&mut rb, &[b'e']);
    assert_eq!(b, 1);
    assert_eq!(rb.write_idx, 1);
    assert!(rb.is_full);
    println!("{:?}", rb.data);

    let d = read(&mut rb, 2);
    assert_eq!(d, vec![b'b', b'c']);
    assert_eq!(rb.read_idx, 0);
    assert!(!rb.is_full);
    println!("{:?}", rb.data);
}
