//! How the protocol's scalar types stand as integers and bytes.

use vstd::prelude::*;

verus! {

pub open spec fn spec_bool_number(value: bool) -> u64 {
    if value {
        1
    } else {
        0
    }
}

pub fn bool_number(value: bool) -> (number: u64)
    ensures
        number == spec_bool_number(value),
{
    if value {
        1
    } else {
        0
    }
}

/// Small magnitudes of either sign become small integers: 0, -1, 1, -2, 2, ...
pub open spec fn spec_zigzag(value: i32) -> u64 {
    if value >= 0 {
        (2 * value) as u64
    } else {
        (-2 * value - 1) as u64
    }
}

/// The signed value of the low 32 bits of `number`.
pub open spec fn spec_unzigzag(number: u64) -> i32 {
    let low = number as u32;
    if low % 2 == 0 {
        (low / 2) as i32
    } else {
        (-(low / 2) - 1) as i32
    }
}

pub fn zigzag(value: i32) -> (number: u64)
    ensures
        number == spec_zigzag(value),
{
    if value >= 0 {
        2 * value as u64
    } else {
        2 * (-(value + 1)) as u64 + 1
    }
}

pub fn unzigzag(number: u64) -> (value: i32)
    ensures
        value == spec_unzigzag(number),
{
    let low: u32 = number as u32;
    let half: i32 = (low / 2) as i32;
    if low % 2 == 0 {
        half
    } else {
        -half - 1
    }
}

pub proof fn lemma_zigzag_round_trip(value: i32)
    ensures
        spec_unzigzag(spec_zigzag(value)) == value,
        spec_zigzag(value) == 0 <==> value == 0,
{
}

/// A 32-bit integer, sign-extended to 64 bits.
pub open spec fn spec_int32_number(value: i32) -> u64 {
    value as u64
}

/// The low 32 bits of `number` as a signed integer.
pub open spec fn spec_int32_value(number: u64) -> i32 {
    number as i32
}

pub fn int32_number(value: i32) -> (number: u64)
    ensures
        number == spec_int32_number(value),
{
    value as u64
}

pub fn int32_value(number: u64) -> (value: i32)
    ensures
        value == spec_int32_value(number),
{
    number as i32
}

pub proof fn lemma_int32_round_trip(value: i32)
    ensures
        spec_int32_value(spec_int32_number(value)) == value,
        spec_int32_number(value) == 0 <==> value == 0,
{
    assert((value as u64) as i32 == value) by (bit_vector);
    assert(value as u64 == 0 <==> value == 0) by (bit_vector);
}

/// How numbers stand on the wire: a truth is one or zero, a signed number is
/// folded so that small ones stay small, and an enumeration's number of 32 bits
/// is written with its sign in 64.
pub proof fn law_scalars(truth: bool, value: i32)
    ensures
        spec_bool_number(truth) == 1 <==> truth,
        spec_bool_number(truth) == 0 <==> !truth,
        value >= 0 ==> spec_zigzag(value) == 2 * value,
        value < 0 ==> spec_zigzag(value) == -2 * value - 1,
        spec_unzigzag(spec_zigzag(value)) == value,
        value >= 0 ==> spec_int32_number(value) == value,
        value < 0 ==> spec_int32_number(value) == 0x1_0000_0000_0000_0000 + value,
        spec_int32_value(spec_int32_number(value)) == value,
{
    assert(value as u64 as i32 == value) by (bit_vector);
    assert(value < 0i32 ==> value as u64 == 0x1_0000_0000_0000_0000int + value) by (bit_vector);
}

} // verus!
