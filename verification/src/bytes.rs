//! Big-endian integers and byte-sequence helpers.

use vstd::prelude::*;

verus! {

/// The low `size` bytes of `value`, most significant first.
pub open spec fn be_bytes(value: nat, size: nat) -> Seq<u8>
    decreases size,
{
    if size == 0 {
        Seq::empty()
    } else {
        be_bytes(value / 256, (size - 1) as nat).push((value % 256) as u8)
    }
}

/// The integer that `bytes` spell, most significant byte first.
pub open spec fn be_value(bytes: Seq<u8>) -> nat
    decreases bytes.len(),
{
    if bytes.len() == 0 {
        0
    } else {
        be_value(bytes.drop_last()) * 256 + bytes.last() as nat
    }
}

/// One more than the greatest integer of `size` bytes.
pub open spec fn be_bound(size: nat) -> nat
    decreases size,
{
    if size == 0 {
        1
    } else {
        be_bound((size - 1) as nat) * 256
    }
}

pub proof fn lemma_be_bounds()
    ensures
        be_bound(2) == 0x1_0000,
        be_bound(4) == 0x1_0000_0000,
        be_bound(8) == 0x1_0000_0000_0000_0000,
{
    reveal_with_fuel(be_bound, 9);
}

pub proof fn lemma_be_bytes_size(value: nat, size: nat)
    ensures
        be_bytes(value, size).len() == size,
    decreases size,
{
    if size > 0 {
        lemma_be_bytes_size(value / 256, (size - 1) as nat);
    }
}

/// An integer that fits is read back from its bytes.
pub proof fn lemma_be_round_trip(value: nat, size: nat)
    requires
        value < be_bound(size),
    ensures
        be_value(be_bytes(value, size)) == value,
        be_bytes(value, size).len() == size,
    decreases size,
{
    if size > 0 {
        lemma_be_round_trip(value / 256, (size - 1) as nat);
        let head = be_bytes(value / 256, (size - 1) as nat);
        assert(be_bytes(value, size).drop_last() =~= head);
    }
}

pub proof fn lemma_be_value_bound(bytes: Seq<u8>)
    ensures
        be_value(bytes) < be_bound(bytes.len()),
    decreases bytes.len(),
{
    if bytes.len() > 0 {
        lemma_be_value_bound(bytes.drop_last());
    }
}

/// Bytes are the bytes of the integer they spell.
pub proof fn lemma_be_bytes_of_value(bytes: Seq<u8>)
    ensures
        be_bytes(be_value(bytes), bytes.len()) == bytes,
    decreases bytes.len(),
{
    if bytes.len() > 0 {
        lemma_be_bytes_of_value(bytes.drop_last());
        assert(be_bytes(be_value(bytes), bytes.len()) =~= bytes);
    } else {
        assert(be_bytes(be_value(bytes), bytes.len()) =~= bytes);
    }
}

/// Appends the low `size` bytes of `value`, most significant first.
pub fn put_be(out: &mut Vec<u8>, value: u64, size: usize)
    ensures
        final(out)@ == old(out)@ + be_bytes(value as nat, size as nat),
    decreases size,
{
    if size > 0 {
        put_be(out, value / 256, size - 1);
        out.push((value % 256) as u8);
    }
    assert(out@ =~= old(out)@ + be_bytes(value as nat, size as nat));
}

/// The integer at `start..start + size`, most significant byte first.
pub fn get_be(bytes: &[u8], start: usize, size: usize) -> (value: u64)
    requires
        size <= 8,
        start + size <= bytes@.len(),
    ensures
        value == be_value(bytes@.subrange(start as int, start + size)),
        value < be_bound(size as nat),
    decreases size,
{
    let ghost part = bytes@.subrange(start as int, start + size);
    assert(bytes@.len() == bytes.len());
    proof {
        lemma_be_value_bound(part);
    }
    if size == 0 {
        return 0;
    }
    let last: usize = start + (size - 1);
    proof {
        lemma_be_value_bound(part.drop_last());
    }
    assert(part.drop_last() =~= bytes@.subrange(start as int, start + size - 1));
    let high: u64 = get_be(bytes, start, size - 1);
    assert(high * 256 + 255 <= u64::MAX) by {
        reveal_with_fuel(be_bound, 9);
    }
    high * 256 + bytes[last] as u64
}

/// Eight bytes for each of `values`, in order.
pub open spec fn words8(values: Seq<u64>) -> Seq<u8> {
    Seq::new(
        8 * values.len(),
        |i: int| be_bytes(values[i / 8] as nat, 8)[i % 8],
    )
}

/// Two bytes for each of `values`, in order.
pub open spec fn words2(values: Seq<u16>) -> Seq<u8> {
    Seq::new(
        2 * values.len(),
        |i: int| be_bytes(values[i / 2] as nat, 2)[i % 2],
    )
}

/// The words are read back from wherever they stand.
pub proof fn lemma_words8(prefix: Seq<u8>, values: Seq<u64>, rest: Seq<u8>)
    ensures
        forall|k: int|
            0 <= k < values.len() ==> be_value(
                (prefix + words8(values) + rest).subrange(
                    prefix.len() + 8 * k,
                    prefix.len() + 8 * k + 8,
                ),
            ) == #[trigger] values[k],
{
    let all = prefix + words8(values) + rest;
    assert forall|k: int| 0 <= k < values.len() implies be_value(
        all.subrange(prefix.len() + 8 * k, prefix.len() + 8 * k + 8),
    ) == #[trigger] values[k] by {
        let word = be_bytes(values[k] as nat, 8);
        lemma_be_bounds();
        lemma_be_round_trip(values[k] as nat, 8);
        let part = all.subrange(prefix.len() + 8 * k, prefix.len() + 8 * k + 8);
        assert forall|j: int| 0 <= j < 8 implies part[j] == word[j] by {
            assert((8 * k + j) / 8 == k);
            assert((8 * k + j) % 8 == j);
            assert(part[j] == words8(values)[8 * k + j]);
        }
        assert(part =~= word);
    }
}

pub proof fn lemma_words2(prefix: Seq<u8>, values: Seq<u16>, rest: Seq<u8>)
    ensures
        forall|k: int|
            0 <= k < values.len() ==> be_value(
                (prefix + words2(values) + rest).subrange(
                    prefix.len() + 2 * k,
                    prefix.len() + 2 * k + 2,
                ),
            ) == #[trigger] values[k],
{
    let all = prefix + words2(values) + rest;
    assert forall|k: int| 0 <= k < values.len() implies be_value(
        all.subrange(prefix.len() + 2 * k, prefix.len() + 2 * k + 2),
    ) == #[trigger] values[k] by {
        let word = be_bytes(values[k] as nat, 2);
        lemma_be_bounds();
        lemma_be_round_trip(values[k] as nat, 2);
        let part = all.subrange(prefix.len() + 2 * k, prefix.len() + 2 * k + 2);
        assert forall|j: int| 0 <= j < 2 implies part[j] == word[j] by {
            assert((2 * k + j) / 2 == k);
            assert((2 * k + j) % 2 == j);
            assert(part[j] == words2(values)[2 * k + j]);
        }
        assert(part =~= word);
    }
}

/// An integer is read back from wherever it stands.
pub proof fn lemma_be_at(prefix: Seq<u8>, value: nat, size: nat, rest: Seq<u8>)
    requires
        value < be_bound(size),
    ensures
        be_value(
            (prefix + be_bytes(value, size) + rest).subrange(
                prefix.len() as int,
                (prefix.len() + size) as int,
            ),
        ) == value,
{
    lemma_be_round_trip(value, size);
    assert((prefix + be_bytes(value, size) + rest).subrange(
        prefix.len() as int,
        (prefix.len() + size) as int,
    ) =~= be_bytes(value, size));
}

/// Appends each of `values` as eight bytes.
pub fn put_words8(out: &mut Vec<u8>, values: &Vec<u64>)
    ensures
        final(out)@ == old(out)@ + words8(values@),
{
    let mut index: usize = 0;
    assert(out@ =~= old(out)@ + words8(values@.take(0)));
    while index < values.len()
        invariant
            index <= values@.len(),
            out@ == old(out)@ + words8(values@.take(index as int)),
        decreases values@.len() - index,
    {
        let ghost before = values@.take(index as int);
        put_be(out, values[index], 8);
        proof {
            let word = be_bytes(values@[index as int] as nat, 8);
            let after = values@.take(index + 1);
            lemma_be_bytes_size(values@[index as int] as nat, 8);
            assert forall|i: int| 0 <= i < 8 * after.len() implies #[trigger] words8(after)[i] == (
            words8(before) + word)[i] by {
                if i < 8 * before.len() {
                    assert(i / 8 < before.len());
                    assert(after[i / 8] == before[i / 8]);
                } else {
                    assert(i / 8 == index);
                }
            }
            assert(words8(after) =~= words8(before) + word);
            assert(out@ =~= old(out)@ + words8(after));
        }
        index = index + 1;
    }
    assert(values@.take(index as int) =~= values@);
}

/// Appends each of `values` as two bytes.
pub fn put_words2(out: &mut Vec<u8>, values: &Vec<u16>)
    ensures
        final(out)@ == old(out)@ + words2(values@),
{
    let mut index: usize = 0;
    assert(out@ =~= old(out)@ + words2(values@.take(0)));
    while index < values.len()
        invariant
            index <= values@.len(),
            out@ == old(out)@ + words2(values@.take(index as int)),
        decreases values@.len() - index,
    {
        let ghost before = values@.take(index as int);
        put_be(out, values[index] as u64, 2);
        proof {
            let word = be_bytes(values@[index as int] as nat, 2);
            let after = values@.take(index + 1);
            lemma_be_bytes_size(values@[index as int] as nat, 2);
            assert forall|i: int| 0 <= i < 2 * after.len() implies #[trigger] words2(after)[i] == (
            words2(before) + word)[i] by {
                if i < 2 * before.len() {
                    assert(i / 2 < before.len());
                    assert(after[i / 2] == before[i / 2]);
                } else {
                    assert(i / 2 == index);
                }
            }
            assert(words2(after) =~= words2(before) + word);
            assert(out@ =~= old(out)@ + words2(after));
        }
        index = index + 1;
    }
    assert(values@.take(index as int) =~= values@);
}

/// A copy of `bytes`.
pub fn owned(bytes: &[u8]) -> (copy: Vec<u8>)
    ensures
        copy@ == bytes@,
{
    let mut copy: Vec<u8> = Vec::new();
    copy.extend_from_slice(bytes);
    assert(copy@ =~= bytes@);
    copy
}

/// A copy of `bytes[start..end]`.
pub fn owned_range(bytes: &[u8], start: usize, end: usize) -> (copy: Vec<u8>)
    requires
        start <= end <= bytes@.len(),
    ensures
        copy@ == bytes@.subrange(start as int, end as int),
{
    owned(vstd::slice::slice_subrange(bytes, start, end))
}

/// The 32 bytes of `bytes` from `start` on.
pub fn array32(bytes: &[u8], start: usize) -> (array: [u8; 32])
    requires
        start + 32 <= bytes@.len(),
    ensures
        array@ == bytes@.subrange(start as int, start + 32),
{
    let mut array: [u8; 32] = [0u8;32];
    let mut index: usize = 0;
    assert(bytes@.len() == bytes.len());
    while index < 32
        invariant
            index <= 32,
            start + 32 <= bytes@.len() <= usize::MAX,
            forall|i: int| 0 <= i < index ==> array@[i] == bytes@[start + i],
        decreases 32 - index,
    {
        array[index] = bytes[start + index];
        index = index + 1;
    }
    assert(array@ =~= bytes@.subrange(start as int, start + 32));
    array
}

/// Whether two byte sequences are the same.
pub fn same(left: &[u8], right: &[u8]) -> (result: bool)
    ensures
        result == (left@ == right@),
{
    if left.len() != right.len() {
        return false;
    }
    let mut index: usize = 0;
    while index < left.len()
        invariant
            left@.len() == right@.len(),
            index <= left@.len(),
            forall|i: int| 0 <= i < index ==> left@[i] == right@[i],
        decreases left@.len() - index,
    {
        if left[index] != right[index] {
            return false;
        }
        index = index + 1;
    }
    assert(left@ =~= right@);
    true
}

/// What two, four and eight bytes spell, byte by byte: the first is the most
/// significant.
pub proof fn law_most_significant_byte_first(bytes: Seq<u8>)
    ensures
        bytes.len() == 1 ==> be_value(bytes) == bytes[0],
        bytes.len() == 2 ==> be_value(bytes) == 0x100 * bytes[0] + bytes[1],
        bytes.len() == 4 ==> be_value(bytes) == 0x100_0000 * bytes[0] + 0x1_0000 * bytes[1] + 0x100
            * bytes[2] + bytes[3],
        bytes.len() == 8 ==> be_value(bytes) == 0x100_0000_0000_0000 * bytes[0]
            + 0x1_0000_0000_0000 * bytes[1] + 0x100_0000_0000 * bytes[2] + 0x1_0000_0000 * bytes[3]
            + 0x100_0000 * bytes[4] + 0x1_0000 * bytes[5] + 0x100 * bytes[6] + bytes[7],
{
    reveal_with_fuel(be_value, 9);
}

/// The bytes of an integer, from the first: the quotients by falling powers of
/// 256, each without what the bytes before it hold.
pub proof fn law_bytes_of_an_integer(value: nat)
    ensures
        be_bytes(value, 1) == seq![(value % 0x100) as u8],
        be_bytes(value, 2) == seq![((value / 0x100) % 0x100) as u8, (value % 0x100) as u8],
        be_bytes(value, 4) == seq![
            ((value / 0x100_0000) % 0x100) as u8,
            ((value / 0x1_0000) % 0x100) as u8,
            ((value / 0x100) % 0x100) as u8,
            (value % 0x100) as u8,
        ],
{
    reveal_with_fuel(be_bytes, 5);
}

} // verus!
