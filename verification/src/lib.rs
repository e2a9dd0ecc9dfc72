//! A small verified systems library centred on a fixed-capacity circular
//! byte buffer ("ring buffer") with bounded, partial, non-blocking reads and
//! writes, together with a lock-protected handle for sharing one buffer
//! between concurrent callers.  A few independent verified utilities
//! (slice accessors, numeric helpers, a merge sort, string and timing
//! helpers and a singly linked list) live in their own modules.

pub mod helpers;
pub mod list;
pub mod numbers;
pub mod ring;
pub mod ring_raw;
pub mod ring_shared;
pub mod ring_text;
pub mod slices;
pub mod sort;
