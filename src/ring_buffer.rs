//! The core ring buffer: one backing vector addressed circularly.
use vstd::prelude::*;

use crate::model::{
    accepted_count, contents_after_write, keep_newest, lemma_keep_newest_push, transfer_count,
    write_blocks,
};

verus! {

/// Capacity of a buffer made by [`RingBuffer::new`].
pub const DEFAULT_CAPACITY: usize = 10240;

/// Why a write could not proceed.
#[derive(Clone, Copy, Debug, PartialEq, Eq, Structural)]
pub enum RingBufferError {
    /// Overwriting is off and the buffer is full: drain it and retry.
    WouldBlock,
}

/// A byte buffer of fixed capacity, written at `head` and read at `tail`,
/// both advancing circularly through one backing vector.
pub struct RingBuffer {
    buffer: Vec<u8>,
    capacity: usize,
    len: usize,
    head: usize,
    tail: usize,
    overwrite: bool,
}

/// The slot `i` places after `start` in a circular array of `cap` slots,
/// for `start < cap` and `i <= cap`.
spec fn circular(start: int, i: int, cap: int) -> int {
    if start + i < cap {
        start + i
    } else {
        start + i - cap
    }
}

impl View for RingBuffer {
    type V = Seq<u8>;

    /// The unread bytes, oldest first.
    closed spec fn view(&self) -> Seq<u8> {
        Seq::new(
            self.len as nat,
            |i: int| self.buffer@[circular(self.tail as int, i, self.capacity as int)],
        )
    }
}

impl RingBuffer {
    /// The internal bookkeeping is consistent: the backing vector has one slot
    /// per unit of capacity, and `head` sits `len` slots after `tail`.
    pub closed spec fn wf(&self) -> bool {
        &&& self.buffer@.len() == self.capacity
        &&& self.len <= self.capacity
        &&& if self.capacity == 0 {
            self.head == 0 && self.tail == 0
        } else {
            &&& self.tail < self.capacity
            &&& self.head == circular(self.tail as int, self.len as int, self.capacity as int)
        }
    }

    /// The number of bytes the buffer can hold at once.
    pub closed spec fn spec_capacity(&self) -> nat {
        self.capacity as nat
    }

    /// Whether writes past capacity discard the oldest bytes.
    pub closed spec fn spec_overwrite(&self) -> bool {
        self.overwrite
    }

    /// A well-formed buffer never holds more bytes than its capacity.
    pub proof fn lemma_len_within_capacity(&self)
        requires
            self.wf(),
        ensures
            self@.len() <= self.spec_capacity(),
    {
    }

    /// An empty buffer with [`DEFAULT_CAPACITY`] slots, overwriting when full.
    pub fn new() -> (r: Self)
        ensures
            r.wf(),
            r@ == Seq::<u8>::empty(),
            r.spec_capacity() == DEFAULT_CAPACITY,
            r.spec_overwrite(),
    {
        RingBuffer::with_capacity(DEFAULT_CAPACITY)
    }

    /// An empty buffer with `size` slots, overwriting when full.
    pub fn with_capacity(size: usize) -> (r: Self)
        ensures
            r.wf(),
            r@ == Seq::<u8>::empty(),
            r.spec_capacity() == size,
            r.spec_overwrite(),
    {
        let r = RingBuffer {
            buffer: vec![0u8; size],
            capacity: size,
            len: 0,
            head: 0,
            tail: 0,
            overwrite: true,
        };
        assert(r@ =~= Seq::<u8>::empty());
        r
    }

    /// The number of bytes the buffer can hold at once.
    pub fn capacity(&self) -> (r: usize)
        requires
            self.wf(),
        ensures
            r == self.spec_capacity(),
    {
        self.capacity
    }

    /// Whether no unread byte is held.
    pub fn empty(&self) -> (r: bool)
        requires
            self.wf(),
        ensures
            r == (self@.len() == 0),
    {
        self.len == 0
    }

    /// The number of unread bytes held.
    pub fn len(&self) -> (r: usize)
        requires
            self.wf(),
        ensures
            r == self@.len(),
    {
        self.len
    }

    /// Whether writes past capacity discard the oldest bytes.
    pub fn overwrite(&self) -> (r: bool)
        ensures
            r == self.spec_overwrite(),
    {
        self.overwrite
    }

    /// Turns overwriting of the oldest bytes on or off; nothing else changes.
    pub fn set_overwrite(&mut self, val: bool)
        requires
            old(self).wf(),
        ensures
            final(self).wf(),
            final(self)@ == old(self)@,
            final(self).spec_capacity() == old(self).spec_capacity(),
            final(self).spec_overwrite() == val,
    {
        self.overwrite = val;
    }

    /// Stores one byte at `head`; when full, the oldest byte gives way.
    fn push_byte(&mut self, b: u8)
        requires
            old(self).wf(),
            old(self).spec_capacity() > 0,
        ensures
            final(self).wf(),
            final(self)@ == keep_newest(old(self)@.push(b), old(self).spec_capacity()),
            final(self).spec_capacity() == old(self).spec_capacity(),
            final(self).spec_overwrite() == old(self).spec_overwrite(),
    {
        let ghost before = self@;
        self.buffer.set(self.head, b);
        if self.head == self.tail && self.len > 0 {
            self.tail = if self.tail + 1 == self.capacity { 0 } else { self.tail + 1 };
        } else {
            self.len = self.len + 1;
        }
        self.head = if self.head + 1 == self.capacity { 0 } else { self.head + 1 };
        assert(self@ =~= keep_newest(before.push(b), self.capacity as nat));
    }

    /// Copies bytes of `buf` in at `head`, oldest first.
    ///
    /// With overwriting off, a full buffer refuses the write with
    /// [`RingBufferError::WouldBlock`], and otherwise only as many bytes as
    /// there are free slots are taken; the rest of `buf` is dropped. With
    /// overwriting on, every byte is taken and the oldest bytes give way, so
    /// the buffer ends up holding the newest bytes that fit; a buffer of
    /// capacity zero takes none. Returns how many bytes were taken.
    pub fn write(&mut self, buf: &[u8]) -> (r: Result<usize, RingBufferError>)
        requires
            old(self).wf(),
        ensures
            final(self).wf(),
            final(self).spec_capacity() == old(self).spec_capacity(),
            final(self).spec_overwrite() == old(self).spec_overwrite(),
            r is Err <==> write_blocks(
                old(self)@.len(),
                old(self).spec_capacity(),
                old(self).spec_overwrite(),
            ),
            r is Err ==> r == Err::<usize, RingBufferError>(RingBufferError::WouldBlock)
                && final(self)@ == old(self)@,
            r matches Ok(n) ==> ({
                &&& n == accepted_count(
                    old(self)@.len(),
                    old(self).spec_capacity(),
                    old(self).spec_overwrite(),
                    buf@.len(),
                )
                &&& final(self)@ == contents_after_write(
                    old(self)@,
                    old(self).spec_capacity(),
                    buf@.take(n as int),
                )
            }),
            r matches Ok(n) ==> (!old(self).spec_overwrite() ==> final(self)@ == old(self)@
                + buf@.take(n as int)),
    {
        if !self.overwrite && self.len == self.capacity {
            return Err(RingBufferError::WouldBlock);
        }
        if self.capacity == 0 {
            assert(buf@.take(0) =~= Seq::<u8>::empty());
            assert(old(self)@ + Seq::<u8>::empty() =~= old(self)@);
            return Ok(0);
        }
        let num_bytes: usize = if self.overwrite {
            buf.len()
        } else if buf.len() <= self.capacity - self.len {
            buf.len()
        } else {
            self.capacity - self.len
        };
        let mut i: usize = 0;
        assert(old(self)@ + buf@.take(0) =~= old(self)@);
        while i < num_bytes
            invariant
                0 <= i <= num_bytes <= buf@.len(),
                self.wf(),
                self.spec_capacity() == old(self).spec_capacity() > 0,
                self.spec_overwrite() == old(self).spec_overwrite(),
                self@ == keep_newest(old(self)@ + buf@.take(i as int), self.spec_capacity()),
            decreases num_bytes - i,
        {
            let ghost prefix = old(self)@ + buf@.take(i as int);
            proof {
                lemma_keep_newest_push(prefix, buf@[i as int], self.spec_capacity());
                assert(old(self)@ + buf@.take(i + 1) =~= prefix.push(buf@[i as int]));
            }
            self.push_byte(buf[i]);
            i = i + 1;
        }
        Ok(num_bytes)
    }

    /// Removes the oldest byte and hands it back.
    fn take_oldest(&mut self) -> (b: u8)
        requires
            old(self).wf(),
            old(self)@.len() > 0,
        ensures
            final(self).wf(),
            b == old(self)@[0],
            final(self)@ == old(self)@.drop_first(),
            final(self).spec_capacity() == old(self).spec_capacity(),
            final(self).spec_overwrite() == old(self).spec_overwrite(),
    {
        let ghost before = self@;
        let b = self.buffer[self.tail];
        self.tail = if self.tail + 1 == self.capacity { 0 } else { self.tail + 1 };
        self.len = self.len - 1;
        assert(self@ =~= before.drop_first());
        b
    }

    /// Moves the oldest unread bytes into the front of `buf`, as many as
    /// `buf` has room for or the buffer holds, whichever is fewer, and returns
    /// how many. Bytes read are gone from the buffer. An empty buffer reads
    /// nothing; reading never fails.
    pub fn read(&mut self, buf: &mut [u8]) -> (r: Result<usize, RingBufferError>)
        requires
            old(self).wf(),
        ensures
            final(self).wf(),
            final(self).spec_capacity() == old(self).spec_capacity(),
            final(self).spec_overwrite() == old(self).spec_overwrite(),
            r matches Ok(n) && n == transfer_count(old(self)@.len(), old(buf)@.len()),
            r matches Ok(n) ==> final(self)@ == old(self)@.skip(n as int)
                && final(buf)@ == old(self)@.take(n as int) + old(buf)@.skip(n as int),
    {
        let bytes: usize = if self.len <= buf.len() { self.len } else { buf.len() };
        let mut i: usize = 0;
        assert(old(self)@.take(0) + old(buf)@.skip(0) =~= old(buf)@);
        while i < bytes
            invariant
                0 <= i <= bytes,
                bytes == transfer_count(old(self)@.len(), old(buf)@.len()),
                self.wf(),
                self.spec_capacity() == old(self).spec_capacity(),
                self.spec_overwrite() == old(self).spec_overwrite(),
                self@ == old(self)@.skip(i as int),
                buf@ == old(self)@.take(i as int) + old(buf)@.skip(i as int),
            decreases bytes - i,
        {
            let b = self.take_oldest();
            buf[i] = b;
            assert(old(self)@.skip(i as int).drop_first() =~= old(self)@.skip(i + 1));
            assert(buf@ =~= old(self)@.take(i + 1) + old(buf)@.skip(i + 1));
            i = i + 1;
        }
        Ok(bytes)
    }

    /// Discards up to `num` of the oldest bytes without copying them, and
    /// returns how many were discarded.
    pub fn pop_bytes(&mut self, num: usize) -> (r: usize)
        requires
            old(self).wf(),
        ensures
            final(self).wf(),
            r == transfer_count(old(self)@.len(), num as nat),
            final(self)@ == old(self)@.skip(r as int),
            final(self).spec_capacity() == old(self).spec_capacity(),
            final(self).spec_overwrite() == old(self).spec_overwrite(),
    {
        let ghost before = self@;
        let actual_num: usize = if self.len <= num { self.len } else { num };
        if actual_num > 0 {
            self.len = self.len - actual_num;
            self.tail = if actual_num >= self.capacity - self.tail {
                actual_num - (self.capacity - self.tail)
            } else {
                self.tail + actual_num
            };
        }
        assert(self@ =~= before.skip(actual_num as int));
        actual_num
    }

    /// A newly allocated copy of the unread bytes, oldest first; the buffer
    /// is left as it is.
    pub fn to_vec(&self) -> (r: Vec<u8>)
        requires
            self.wf(),
        ensures
            r@ == self@,
    {
        let mut ret: Vec<u8> = Vec::with_capacity(self.len);
        let mut i: usize = 0;
        while i < self.len
            invariant
                self.wf(),
                0 <= i <= self.len,
                ret@ == self@.take(i as int),
            decreases self.len - i,
        {
            let pos: usize = if i < self.capacity - self.tail {
                self.tail + i
            } else {
                i - (self.capacity - self.tail)
            };
            ret.push(self.buffer[pos]);
            i = i + 1;
            assert(ret@ =~= self@.take(i as int));
        }
        assert(ret@ =~= self@);
        ret
    }

    /// Changes the capacity to `new_size`, keeping the newest bytes that fit.
    ///
    /// Nothing happens when the capacity is already `new_size`. Otherwise the
    /// kept bytes move into a new backing vector starting at its first slot.
    pub fn resize(&mut self, new_size: usize)
        requires
            old(self).wf(),
        ensures
            final(self).wf(),
            final(self).spec_capacity() == new_size,
            final(self)@ == keep_newest(old(self)@, new_size as nat),
            final(self).spec_overwrite() == old(self).spec_overwrite(),
            new_size == old(self).spec_capacity() ==> *final(self) == *old(self),
    {
        if self.capacity != new_size {
            if self.len > new_size {
                self.pop_bytes(self.len - new_size);
            }
            assert(self@ =~= keep_newest(old(self)@, new_size as nat));
            let data = self.to_vec();
            let mut buffer = vec![0u8; new_size];
            let mut j: usize = 0;
            while j < data.len()
                invariant
                    data@.len() <= new_size,
                    buffer@.len() == new_size,
                    0 <= j <= data@.len(),
                    forall|k: int| 0 <= k < j ==> buffer@[k] == data@[k],
                decreases data.len() - j,
            {
                buffer.set(j, data[j]);
                j = j + 1;
            }
            let len = data.len();
            self.buffer = buffer;
            self.len = len;
            // The slot after the kept bytes, which wraps to the start when
            // they fill the new capacity.
            self.head = if len == new_size { 0 } else { len };
            self.tail = 0;
            self.capacity = new_size;
            assert(self@ =~= data@);
        }
    }
}

impl Default for RingBuffer {
    /// The same as [`RingBuffer::new`].
    fn default() -> (r: Self)
        ensures
            r.wf(),
            r@ == Seq::<u8>::empty(),
            r.spec_capacity() == DEFAULT_CAPACITY,
            r.spec_overwrite(),
    {
        RingBuffer::new()
    }
}

} // verus!
