//! The name under which a host's password is kept.

use crate::text;
use crate::text::ascii_string;
use vstd::prelude::*;

verus! {

/// The hexadecimal digit of a number below sixteen.
pub open spec fn hex_digit(value: int) -> char {
    if value < 10 {
        ('0' as u32 + value) as char
    } else {
        ('a' as u32 + (value - 10)) as char
    }
}

/// Two lower-case digits for each byte.
pub open spec fn hex(identity: Seq<u8>) -> Seq<char> {
    Seq::new(
        2 * identity.len(),
        |i: int|
            if i % 2 == 0 {
                hex_digit((identity[i / 2] / 16) as int)
            } else {
                hex_digit((identity[i / 2] % 16) as int)
            },
    )
}

fn hex_byte(value: u8) -> (digit: u8)
    requires
        value < 16,
    ensures
        digit as int == hex_digit(value as int) as int,
        digit < 128,
{
    if value < 10 {
        48 + value
    } else {
        87 + value
    }
}

/// The two digits of a byte.
pub fn hex_text(byte: u8) -> (text: String)
    ensures
        text@ == hex(seq![byte]),
{
    let digits: Vec<u8> = vec![hex_byte(byte / 16), hex_byte(byte % 16)];
    assert(text::ascii_text(digits@) =~= hex(seq![byte]));
    ascii_string(digits.as_slice())
}

/// The name under which the password of a host is kept.
pub fn host_identity_key(identity: &[u8; 32]) -> (key: String)
    ensures
        key@ == hex(identity@),
{
    let mut digits: Vec<u8> = Vec::new();
    let mut index: usize = 0;
    let ghost expected = hex(identity@);
    while index < 32
        invariant
            index <= 32,
            identity@.len() == 32,
            expected == hex(identity@),
            digits@.len() == 2 * index,
            forall|i: int|
                0 <= i < 2 * index ==> (#[trigger] digits@[i]) as int == expected[i] as int
                    && digits@[i] < 128,
        decreases 32 - index,
    {
        let byte: u8 = identity[index];
        digits.push(hex_byte(byte / 16));
        digits.push(hex_byte(byte % 16));
        index = index + 1;
    }
    assert(text::ascii_text(digits@) =~= expected);
    ascii_string(digits.as_slice())
}

/// Two hosts never share a name.
pub proof fn law_host_keys_are_unique(first: Seq<u8>, second: Seq<u8>)
    requires
        hex(first) == hex(second),
    ensures
        first == second,
{
    assert(hex(first).len() == 2 * first.len());
    assert(hex(second).len() == 2 * second.len());
    assert forall|i: int| 0 <= i < first.len() implies first[i] == second[i] by {
        assert((2 * i) / 2 == i && (2 * i + 1) / 2 == i);
        assert(hex(first)[2 * i] == hex_digit((first[i] / 16) as int));
        assert(hex(second)[2 * i] == hex_digit((second[i] / 16) as int));
        assert(hex(first)[2 * i + 1] == hex_digit((first[i] % 16) as int));
        assert(hex(second)[2 * i + 1] == hex_digit((second[i] % 16) as int));
        lemma_digits(first[i] / 16, second[i] / 16);
        lemma_digits(first[i] % 16, second[i] % 16);
    }
    assert(first =~= second);
}

proof fn lemma_digits(first: u8, second: u8)
    requires
        first < 16,
        second < 16,
        hex_digit(first as int) == hex_digit(second as int),
    ensures
        first == second,
{
}

/// A key has two digits for each byte, the higher half first, each one of
/// sixteen from '0' to '9' and from 'a' to 'f'.
pub proof fn law_host_keys_are_hexadecimal(identity: Seq<u8>, index: int)
    requires
        0 <= index < identity.len(),
    ensures
        hex(identity).len() == 2 * identity.len(),
        ({
            let high = hex(identity)[2 * index] as u32;
            let low = hex(identity)[2 * index + 1] as u32;
            let high_value = if high <= '9' as u32 {
                high - '0' as u32
            } else {
                high - 'a' as u32 + 10
            };
            let low_value = if low <= '9' as u32 {
                low - '0' as u32
            } else {
                low - 'a' as u32 + 10
            };
            &&& ('0' as u32 <= high && high <= '9' as u32) || ('a' as u32 <= high && high
                <= 'f' as u32)
            &&& ('0' as u32 <= low && low <= '9' as u32) || ('a' as u32 <= low && low
                <= 'f' as u32)
            &&& 16 * high_value + low_value == identity[index]
        }),
{
}

} // verus!
