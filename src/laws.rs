//! Properties of the buffer that span several operations, stated over the
//! same spec functions that the operations' contracts use.
use vstd::prelude::*;

use crate::model::{accepted_count, contents_after_write, keep_newest, transfer_count, write_blocks};
use crate::ring_buffer::RingBuffer;

verus! {

/// Writing fewer bytes than the capacity into an empty buffer takes all of
/// them, whatever the overwrite setting, and a read with room for at least
/// that many then moves exactly those bytes out, in order.
pub proof fn lemma_write_then_read(cap: nat, overwrite: bool, data: Seq<u8>, room: nat)
    requires
        data.len() < cap,
        room >= data.len(),
    ensures
        !write_blocks(0, cap, overwrite),
        accepted_count(0, cap, overwrite, data.len()) == data.len(),
        contents_after_write(Seq::empty(), cap, data.take(data.len() as int)) == data,
        transfer_count(data.len(), room) == data.len(),
        data.take(transfer_count(data.len(), room) as int) == data,
{
    assert(data.take(data.len() as int) =~= data);
    assert(Seq::<u8>::empty() + data =~= data);
}

/// With overwriting on, writing at least as many bytes as the capacity takes
/// every byte and leaves the buffer full with the last `cap` bytes written,
/// in order, whatever it held before.
pub proof fn lemma_overwrite_keeps_last(contents: Seq<u8>, cap: nat, data: Seq<u8>)
    requires
        cap > 0,
        contents.len() <= cap,
        data.len() >= cap,
    ensures
        !write_blocks(contents.len(), cap, true),
        accepted_count(contents.len(), cap, true, data.len()) == data.len(),
        contents_after_write(contents, cap, data.take(data.len() as int)) == data.subrange(
            data.len() - cap,
            data.len() as int,
        ),
        contents_after_write(contents, cap, data.take(data.len() as int)).len() == cap,
{
    assert(data.take(data.len() as int) =~= data);
    let all = contents + data;
    assert(all.subrange(all.len() - cap, all.len() as int) =~= data.subrange(
        data.len() - cap,
        data.len() as int,
    ));
}

/// A snapshot is the buffer's contents, so two snapshots with no operation in
/// between are equal and as long as the buffer.
pub proof fn lemma_snapshots_agree(b: &RingBuffer, first: Seq<u8>, second: Seq<u8>)
    requires
        first == b@,
        second == b@,
    ensures
        first == second,
        first.len() == b@.len(),
{
}

/// A buffer of capacity zero holds nothing, and every write, read or pop on
/// it moves no byte: a write either takes none or is refused, and shrinking
/// to or growing from it keeps nothing that was not there.
pub proof fn lemma_zero_capacity(b: &RingBuffer, overwrite: bool, offered: nat, room: nat, new_size: nat)
    requires
        b.wf(),
        b.spec_capacity() == 0,
    ensures
        b@.len() == 0,
        accepted_count(b@.len(), 0, overwrite, offered) == 0,
        write_blocks(b@.len(), 0, overwrite) <==> !overwrite,
        transfer_count(b@.len(), room) == 0,
        keep_newest(b@, new_size) == b@,
{
    b.lemma_len_within_capacity();
}

} // verus!
