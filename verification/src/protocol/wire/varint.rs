//! Base-128 variable-length integers.

use vstd::prelude::*;

verus! {

/// The base-128 encoding of `value`, least significant group first.
pub open spec fn varint_bytes(value: nat) -> Seq<u8>
    decreases value,
{
    if value < 128 {
        seq![value as u8]
    } else {
        seq![(128 + value % 128) as u8] + varint_bytes(value / 128)
    }
}

/// Reads at most `groups` base-128 groups: the value and the number of bytes read.
pub open spec fn read_groups(bytes: Seq<u8>, groups: nat) -> Option<(nat, nat)>
    decreases groups,
{
    if groups == 0 || bytes.len() == 0 {
        None
    } else if bytes[0] < 128 {
        Some((bytes[0] as nat, 1))
    } else {
        match read_groups(bytes.skip(1), (groups - 1) as nat) {
            Some((value, size)) => Some((((bytes[0] - 128) + 128 * value) as nat, size + 1)),
            None => None,
        }
    }
}

/// The 64-bit integer at the start of `bytes`, with the number of bytes it takes.
///
/// Ten groups at most, and the value fits in 64 bits.
pub open spec fn read_varint(bytes: Seq<u8>) -> Option<(u64, nat)> {
    match read_groups(bytes, 10) {
        Some((value, size)) => if value <= u64::MAX {
            Some((value as u64, size))
        } else {
            None
        },
        None => None,
    }
}

pub open spec fn group_bound(groups: nat) -> nat
    decreases groups,
{
    if groups == 0 {
        1
    } else {
        128 * group_bound((groups - 1) as nat)
    }
}

proof fn lemma_read_groups(value: nat, rest: Seq<u8>, groups: nat)
    requires
        groups >= 1,
        value < group_bound(groups),
    ensures
        read_groups(varint_bytes(value) + rest, groups) == Some((value, varint_bytes(value).len())),
    decreases groups,
{
    let bytes = varint_bytes(value) + rest;
    if value < 128 {
        assert(bytes[0] == value as u8);
    } else {
        let tail = varint_bytes(value / 128);
        assert(bytes[0] == (128 + value % 128) as u8);
        assert(bytes.skip(1) =~= tail + rest);
        assert(group_bound(1) == 128) by {
            reveal_with_fuel(group_bound, 2);
        }
        lemma_read_groups(value / 128, rest, (groups - 1) as nat);
    }
}

/// Reading gives back what was written, whatever follows it.
pub proof fn lemma_read_varint(value: u64, rest: Seq<u8>)
    ensures
        read_varint(varint_bytes(value as nat) + rest) == Some(
            (value, varint_bytes(value as nat).len()),
        ),
{
    assert(group_bound(10) > u64::MAX) by {
        reveal_with_fuel(group_bound, 11);
    }
    lemma_read_groups(value as nat, rest, 10);
}

pub proof fn lemma_read_groups_size(bytes: Seq<u8>, groups: nat)
    ensures
        read_groups(bytes, groups) matches Some((value, size)) ==> 1 <= size <= groups && size
            <= bytes.len(),
    decreases groups,
{
    if groups > 0 && bytes.len() > 0 && bytes[0] >= 128 {
        lemma_read_groups_size(bytes.skip(1), (groups - 1) as nat);
    }
}

pub proof fn lemma_read_varint_size(bytes: Seq<u8>)
    ensures
        read_varint(bytes) matches Some((value, size)) ==> 1 <= size <= 10 && size <= bytes.len(),
{
    lemma_read_groups_size(bytes, 10);
}

proof fn lemma_read_groups_prefix(bytes: Seq<u8>, rest: Seq<u8>, groups: nat)
    requires
        read_groups(bytes, groups) is Some,
    ensures
        read_groups(bytes + rest, groups) == read_groups(bytes, groups),
    decreases groups,
{
    assert((bytes + rest)[0] == bytes[0]);
    if bytes[0] >= 128 {
        assert((bytes + rest).skip(1) =~= bytes.skip(1) + rest);
        lemma_read_groups_prefix(bytes.skip(1), rest, (groups - 1) as nat);
    }
}

/// What follows an integer does not change how it is read.
pub proof fn lemma_read_varint_prefix(bytes: Seq<u8>, rest: Seq<u8>)
    requires
        read_varint(bytes) is Some,
    ensures
        read_varint(bytes + rest) == read_varint(bytes),
{
    lemma_read_groups_prefix(bytes, rest, 10);
}

/// Calls `prost::encoding::encode_varint` on an empty buffer.
///
/// Its source writes seven bits a byte, least significant first, and sets the
/// top bit on every byte but the last: the bytes of `varint_bytes`.
#[verifier::external_body]
fn prost_encode_varint(value: u64) -> (bytes: Vec<u8>)
    ensures
        bytes@ == varint_bytes(value as nat),
{
    let mut bytes: Vec<u8> = Vec::new();
    prost::encoding::encode_varint(value, &mut bytes);
    bytes
}

/// Calls `prost::encoding::decode_varint` on a slice.
///
/// It reads groups until a byte below 128, ten at most, and refuses a slice
/// that ends earlier and a value over 64 bits. The result pairs the value with
/// the number of bytes left unread.
#[verifier::external_body]
fn prost_decode_varint(bytes: &[u8]) -> (result: Option<(u64, usize)>)
    ensures
        match result {
            Some((value, left)) => read_varint(bytes@) == Some(
                (value, (bytes@.len() - left) as nat),
            ) && left <= bytes@.len(),
            None => read_varint(bytes@) is None,
        },
{
    let mut rest = bytes;
    let value = prost::encoding::decode_varint(&mut rest).ok()?;
    Some((value, rest.len()))
}

/// Appends the base-128 encoding of `value`.
pub fn put_varint(out: &mut Vec<u8>, value: u64)
    ensures
        final(out)@ == old(out)@ + varint_bytes(value as nat),
{
    let bytes = prost_encode_varint(value);
    out.extend_from_slice(bytes.as_slice());
    assert(out@ =~= old(out)@ + varint_bytes(value as nat));
}

/// Reads the integer at the start of `bytes`: the value and its size.
pub fn take_varint(bytes: &[u8]) -> (result: Option<(u64, usize)>)
    ensures
        match result {
            Some((value, size)) => read_varint(bytes@) == Some((value, size as nat)) && 1 <= size
                <= bytes@.len(),
            None => read_varint(bytes@) is None,
        },
{
    proof {
        lemma_read_varint_size(bytes@);
    }
    match prost_decode_varint(bytes) {
        Some((value, left)) => Some((value, bytes.len() - left)),
        None => None,
    }
}

/// A number on the wire is cut into groups of seven bits, the lowest first; all
/// but the last have the highest bit set.
pub proof fn law_groups_of_seven_bits(value: nat)
    ensures
        value < 0x80 ==> varint_bytes(value) == seq![value as u8],
        0x80 <= value < 0x4000 ==> varint_bytes(value) == seq![
            (0x80 + value % 0x80) as u8,
            (value / 0x80) as u8,
        ],
        0x4000 <= value < 0x20_0000 ==> varint_bytes(value) == seq![
            (0x80 + value % 0x80) as u8,
            (0x80 + (value / 0x80) % 0x80) as u8,
            (value / 0x4000) as u8,
        ],
        varint_bytes(value).len() > 0,
        varint_bytes(value).last() < 0x80,
        forall|i: int|
            0 <= i < varint_bytes(value).len() - 1 ==> #[trigger] varint_bytes(value)[i] >= 0x80,
    decreases value,
{
    reveal_with_fuel(varint_bytes, 4);
    if value >= 0x80 {
        law_groups_of_seven_bits(value / 0x80);
        let rest = varint_bytes(value / 0x80);
        let whole = varint_bytes(value);
        assert(whole.last() == rest.last());
        assert forall|i: int| 0 <= i < whole.len() - 1 implies #[trigger] whole[i] >= 0x80 by {
            if i > 0 {
                assert(whole[i] == rest[i - 1]);
            }
        }
    }
}

} // verus!
