//! Index encoding shared by the producer and the consumer.
//!
//! Over `n` slots the queue keeps a write index (the next slot to fill) and a
//! read index (the slot consumed last). The live items are the slots strictly
//! after `read` and strictly before `write`, going forward with wraparound.
//! The two indices never meet, so at most `n - 2` items are live, and index
//! equality alone tells a full queue from an empty one.
use vstd::prelude::*;

verus! {

/// The index after `i`, wrapping to zero at `n`.
pub open spec fn next_of(i: int, n: int) -> int {
    if i + 1 == n {
        0
    } else {
        i + 1
    }
}

/// The slot that holds the `k`-th live item (from zero) after `read`.
pub open spec fn slot_at(n: int, read: int, k: int) -> int {
    if read + 1 + k < n {
        read + 1 + k
    } else {
        read + 1 + k - n
    }
}

/// How many items lie strictly between `read` and `write`.
pub open spec fn live_count(n: int, read: int, write: int) -> int {
    if write > read {
        write - read - 1
    } else {
        write + n - read - 1
    }
}

/// Indices that a queue over `n` slots can be in.
pub open spec fn indices_ok(n: int, read: int, write: int) -> bool {
    &&& 3 <= n <= u32::MAX
    &&& 0 <= read < n
    &&& 0 <= write < n
    &&& read != write
}

/// The index after `index` among `slot_count` slots.
pub fn next_index(index: u32, slot_count: u32) -> (r: u32)
    requires
        index < slot_count,
    ensures
        r == next_of(index as int, slot_count as int),
        r < slot_count,
{
    let bumped: u32 = index + 1;
    if bumped == slot_count {
        0
    } else {
        bumped
    }
}

/// The producer's decision. `None` when the queue is full. Otherwise the item
/// goes into slot `write_index`, and the returned index is published as the
/// new write index afterwards.
pub fn producer_step(slot_count: u32, write_index: u32, read_index: u32) -> (r: Option<u32>)
    requires
        indices_ok(slot_count as int, read_index as int, write_index as int),
    ensures
        r is None <==> live_count(slot_count as int, read_index as int, write_index as int)
            == slot_count - 2,
        r matches Some(next) ==> {
            &&& next == next_of(write_index as int, slot_count as int)
            &&& indices_ok(slot_count as int, read_index as int, next as int)
            &&& live_count(slot_count as int, read_index as int, next as int) == live_count(
                slot_count as int,
                read_index as int,
                write_index as int,
            ) + 1
        },
{
    let next = next_index(write_index, slot_count);
    if next == read_index {
        None
    } else {
        Some(next)
    }
}

/// The consumer's decision. `None` when the queue is empty. Otherwise the
/// returned index is the slot to read from, and is published as the new read
/// index afterwards.
pub fn consumer_step(slot_count: u32, read_index: u32, write_index: u32) -> (r: Option<u32>)
    requires
        indices_ok(slot_count as int, read_index as int, write_index as int),
    ensures
        r is None <==> live_count(slot_count as int, read_index as int, write_index as int)
            == 0,
        r matches Some(next) ==> {
            &&& next == next_of(read_index as int, slot_count as int)
            &&& next == slot_at(slot_count as int, read_index as int, 0)
            &&& indices_ok(slot_count as int, next as int, write_index as int)
            &&& live_count(slot_count as int, next as int, write_index as int) + 1 == live_count(
                slot_count as int,
                read_index as int,
                write_index as int,
            )
        },
{
    let next = next_index(read_index, slot_count);
    if next == write_index {
        None
    } else {
        Some(next)
    }
}

} // verus!
