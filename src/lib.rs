//! A fixed-capacity byte ring buffer with wraparound addressing, optional
//! overwrite of the oldest bytes when full, resizing and linear snapshots,
//! plus a lock-guarded variant for shared use across threads.
pub mod laws;
pub mod model;
pub mod ring_buffer;
pub mod sync;

pub use ring_buffer::{RingBuffer, RingBufferError, DEFAULT_CAPACITY};
