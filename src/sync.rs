//! A ring buffer that several threads can share: every operation takes one
//! exclusive lock for its whole duration, so operations never interleave.
//!
//! Between two calls other threads may change the buffer, so a caller learns
//! from each call only what holds of it alone.
use vstd::prelude::*;
use vstd::rwlock::{RwLock, RwLockPredicate};

use crate::ring_buffer::{RingBuffer, RingBufferError, DEFAULT_CAPACITY};

verus! {

/// What the lock keeps true of the buffer it guards.
pub struct WellFormed;

impl RwLockPredicate<RingBuffer> for WellFormed {
    open spec fn inv(self, v: RingBuffer) -> bool {
        v.wf()
    }
}

/// A [`RingBuffer`] behind an exclusive lock, usable through `&self`.
pub struct SyncRingBuffer {
    buffer: RwLock<RingBuffer, WellFormed>,
}

impl SyncRingBuffer {
    /// A shared empty buffer with [`DEFAULT_CAPACITY`] slots.
    pub fn new() -> (r: Self) {
        SyncRingBuffer::with_capacity(DEFAULT_CAPACITY)
    }

    /// A shared empty buffer with `size` slots, overwriting when full.
    pub fn with_capacity(size: usize) -> (r: Self) {
        SyncRingBuffer { buffer: RwLock::new(RingBuffer::with_capacity(size), Ghost(WellFormed)) }
    }

    /// The capacity at the moment of the call.
    pub fn capacity(&self) -> (r: usize) {
        let (buffer, handle) = self.buffer.acquire_write();
        let r = buffer.capacity();
        handle.release_write(buffer);
        r
    }

    /// Whether the buffer held no unread byte at the moment of the call.
    pub fn empty(&self) -> (r: bool) {
        let (buffer, handle) = self.buffer.acquire_write();
        let r = buffer.empty();
        handle.release_write(buffer);
        r
    }

    /// The number of unread bytes at the moment of the call.
    pub fn len(&self) -> (r: usize) {
        let (buffer, handle) = self.buffer.acquire_write();
        let r = buffer.len();
        handle.release_write(buffer);
        r
    }

    /// Whether writes past capacity discard the oldest bytes.
    pub fn overwrite(&self) -> (r: bool) {
        let (buffer, handle) = self.buffer.acquire_write();
        let r = buffer.overwrite();
        handle.release_write(buffer);
        r
    }

    /// Turns overwriting of the oldest bytes on or off.
    pub fn set_overwrite(&self, val: bool) {
        let (mut buffer, handle) = self.buffer.acquire_write();
        buffer.set_overwrite(val);
        handle.release_write(buffer);
    }

    /// A copy of the unread bytes, oldest first; no byte is removed.
    pub fn to_vec(&self) -> (r: Vec<u8>) {
        let (buffer, handle) = self.buffer.acquire_write();
        let r = buffer.to_vec();
        handle.release_write(buffer);
        r
    }

    /// Discards up to `num` of the oldest bytes; returns how many.
    pub fn pop_bytes(&self, num: usize) -> (r: usize)
        ensures
            r <= num,
    {
        let (mut buffer, handle) = self.buffer.acquire_write();
        let r = buffer.pop_bytes(num);
        handle.release_write(buffer);
        r
    }

    /// Changes the capacity, keeping the newest bytes that fit.
    pub fn resize(&self, new_size: usize) {
        let (mut buffer, handle) = self.buffer.acquire_write();
        buffer.resize(new_size);
        handle.release_write(buffer);
    }

    /// Writes `buf` as [`RingBuffer::write`] does; returns how many bytes
    /// were taken, or [`RingBufferError::WouldBlock`] when the buffer was full
    /// with overwriting off.
    pub fn write(&self, buf: &[u8]) -> (r: Result<usize, RingBufferError>)
        ensures
            r matches Ok(n) ==> n <= buf@.len(),
    {
        let (mut buffer, handle) = self.buffer.acquire_write();
        proof {
            buffer.lemma_len_within_capacity();
        }
        let r = buffer.write(buf);
        handle.release_write(buffer);
        r
    }

    /// Reads into `buf` as [`RingBuffer::read`] does; returns how many
    /// bytes were moved into its front. The rest of `buf` is left as it was.
    pub fn read(&self, buf: &mut [u8]) -> (r: Result<usize, RingBufferError>)
        ensures
            r matches Ok(n) && n <= old(buf)@.len(),
            r matches Ok(n) ==> final(buf)@.len() == old(buf)@.len()
                && final(buf)@.skip(n as int) == old(buf)@.skip(n as int),
    {
        let (mut buffer, handle) = self.buffer.acquire_write();
        let r = buffer.read(buf);
        handle.release_write(buffer);
        r
    }
}

} // verus!
