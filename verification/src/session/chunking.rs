//! Cutting a payload into chunks of a fixed capacity.

use vstd::prelude::*;

verus! {

/// How many chunks of `capacity` bytes hold `size` bytes.
pub open spec fn chunks_needed(size: nat, capacity: nat) -> nat {
    if size % capacity == 0 {
        size / capacity
    } else {
        size / capacity + 1
    }
}

/// The bytes of chunk `index`.
pub open spec fn chunk_of(payload: Seq<u8>, capacity: nat, index: int) -> Seq<u8> {
    let end = (index + 1) * capacity;
    payload.subrange(
        index * capacity,
        if end <= payload.len() {
            end
        } else {
            payload.len() as int
        },
    )
}

pub proof fn lemma_chunks_needed(size: nat, capacity: nat)
    requires
        size > 0,
        capacity > 0,
    ensures
        chunks_needed(size, capacity) >= 1,
        chunks_needed(size, capacity) <= size,
        (chunks_needed(size, capacity) - 1) * capacity < size,
        size <= chunks_needed(size, capacity) * capacity,
{
    let whole = size / capacity;
    let rest = size % capacity;
    assert(size == whole * capacity + rest) by (nonlinear_arith)
        requires
            whole == size / capacity,
            rest == size % capacity,
            capacity > 0,
    ;
    assert((whole + 1) * capacity == whole * capacity + capacity) by (nonlinear_arith);
    assert(whole <= whole * capacity) by (nonlinear_arith)
        requires
            capacity > 0,
    ;
    if rest == 0 {
        assert((whole - 1) * capacity == whole * capacity - capacity) by (nonlinear_arith);
        assert(whole > 0) by {
            if whole == 0 {
                assert(whole * capacity == 0) by (nonlinear_arith)
                    requires
                        whole == 0,
                ;
            }
        }
    }
}

pub proof fn lemma_chunk_bounds(size: nat, capacity: nat, index: int)
    requires
        size > 0,
        capacity > 0,
        0 <= index < chunks_needed(size, capacity),
    ensures
        0 <= index * capacity < size,
        (index + 1) * capacity == index * capacity + capacity,
        index + 1 < chunks_needed(size, capacity) ==> (index + 1) * capacity < size,
        index + 1 == chunks_needed(size, capacity) ==> (index + 1) * capacity >= size,
{
    lemma_chunks_needed(size, capacity);
    let count = chunks_needed(size, capacity);
    assert((index + 1) * capacity == index * capacity + capacity) by (nonlinear_arith);
    assert(0 <= index * capacity <= (count - 1) * capacity) by (nonlinear_arith)
        requires
            0 <= index <= count - 1,
            capacity > 0,
    ;
    if index + 1 < count {
        assert((index + 1) * capacity <= (count - 1) * capacity) by (nonlinear_arith)
            requires
                index + 1 <= count - 1,
                capacity > 0,
        ;
    }
}

/// The datagrams, as sequences of bytes.
pub open spec fn datagram_views(datagrams: Seq<Vec<u8>>) -> Seq<Seq<u8>> {
    datagrams.map_values(|datagram: Vec<u8>| datagram@)
}

} // verus!
