//! Mathematical description of the buffer's observable behaviour, over
//! sequences of bytes.
use vstd::prelude::*;

verus! {

/// The last `n` elements of `s`, or all of `s` when it holds no more than `n`.
pub open spec fn keep_newest(s: Seq<u8>, n: nat) -> Seq<u8> {
    if s.len() <= n {
        s
    } else {
        s.subrange(s.len() - n, s.len() as int)
    }
}

/// A write is refused outright when overwriting is off and no slot is free.
pub open spec fn write_blocks(len: nat, cap: nat, overwrite: bool) -> bool {
    !overwrite && len == cap
}

/// How many of `n` offered bytes a write accepts into a buffer holding `len`
/// of `cap` bytes.
pub open spec fn accepted_count(len: nat, cap: nat, overwrite: bool, n: nat) -> nat {
    if cap == 0 {
        0
    } else if overwrite {
        n
    } else if n + len <= cap {
        n
    } else {
        (cap - len) as nat
    }
}

/// The contents after appending `data` to `contents` in a buffer of
/// capacity `cap`, dropping the oldest bytes that no longer fit.
pub open spec fn contents_after_write(contents: Seq<u8>, cap: nat, data: Seq<u8>) -> Seq<u8> {
    keep_newest(contents + data, cap)
}

/// How many bytes a transfer out of a buffer holding `len` bytes moves when
/// at most `max` are asked for.
pub open spec fn transfer_count(len: nat, max: nat) -> nat {
    if len <= max {
        len
    } else {
        max
    }
}

/// Trimming before appending one byte and trimming after give the same
/// contents.
pub(crate) proof fn lemma_keep_newest_push(s: Seq<u8>, b: u8, n: nat)
    requires
        n > 0,
    ensures
        keep_newest(keep_newest(s, n).push(b), n) == keep_newest(s.push(b), n),
{
    if s.len() >= n {
        assert(keep_newest(keep_newest(s, n).push(b), n) =~= keep_newest(s.push(b), n));
    }
}

} // verus!
