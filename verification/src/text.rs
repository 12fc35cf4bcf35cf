//! Text helpers.

use crate::bytes::owned;
use vstd::prelude::*;
use vstd::string::StringExecFns;

verus! {

/// A control character: Unicode general category Cc.
pub open spec fn is_control(character: char) -> bool {
    let point = character as u32;
    point <= 0x1f || 0x7f <= point <= 0x9f
}

/// No character of `text` is a control character.
pub open spec fn is_printable(text: Seq<char>) -> bool {
    forall|i: int| 0 <= i < text.len() ==> !is_control(#[trigger] text[i])
}

/// Whether `text` holds a control character.
pub fn has_control(text: &str) -> (result: bool)
    ensures
        result == !is_printable(text@),
{
    let mut found = false;
    for character in characters: text.chars()
        invariant
            characters.seq() == text@,
            !found ==> forall|i: int|
                0 <= i < characters.index() ==> !is_control(#[trigger] text@[i]),
            found ==> exists|i: int| 0 <= i < text@.len() && is_control(#[trigger] text@[i]),
    {
        let point: u32 = character as u32;
        if point <= 0x1f || (0x7f <= point && point <= 0x9f) {
            assert(is_control(text@[characters.index()]));
            found = true;
        }
    }
    found
}

/// The number of bytes of `text`.
pub open spec fn byte_length(text: Seq<char>) -> nat {
    vstd::utf8::encode_utf8(text).len()
}

/// The greatest boundary between characters at or before `end`.
pub open spec fn boundary_at_or_before(text: Seq<u8>, end: int) -> int
    decreases end,
{
    if end <= 0 || vstd::utf8::is_char_boundary(text, end) {
        end
    } else {
        boundary_at_or_before(text, end - 1)
    }
}

/// `kept` is as much of `text` as fits in `limit` bytes, cut between characters.
pub open spec fn is_truncated(kept: Seq<char>, text: Seq<char>, limit: int) -> bool {
    let bytes = vstd::utf8::encode_utf8(text);
    let end = boundary_at_or_before(
        bytes,
        if bytes.len() < limit {
            bytes.len() as int
        } else {
            limit
        },
    );
    vstd::utf8::encode_utf8(kept) == bytes.take(end)
}

/// As much of `text` as fits in `limit` bytes, cut between characters.
pub fn truncated(text: &str, limit: usize) -> (kept: String)
    ensures
        is_truncated(kept@, text@, limit as int),
{
    broadcast use vstd::utf8::is_char_boundary_start_end_of_seq;

    let ghost bytes = vstd::utf8::encode_utf8(text@);
    proof {
        vstd::utf8::encode_utf8_valid_utf8(text@);
    }
    let mut end: usize = text.as_bytes().len();
    if end > limit {
        end = limit;
    }
    let ghost first = end as int;
    while end > 0 && !text.is_char_boundary(end)
        invariant
            bytes == vstd::utf8::encode_utf8(text@),
            end <= first,
            boundary_at_or_before(bytes, first) == boundary_at_or_before(bytes, end as int),
        decreases end,
    {
        end = end - 1;
    }
    let (head, _tail) = text.split_at(end);
    assert(bytes.take(end as int) =~= bytes.subrange(0, end as int));
    head.to_owned()
}

/// What is kept fits, and is everything where everything fits.
pub proof fn lemma_truncated(kept: Seq<char>, text: Seq<char>, limit: int)
    requires
        is_truncated(kept, text, limit),
        0 <= limit,
    ensures
        byte_length(kept) <= limit,
        byte_length(text) <= limit ==> kept == text,
{
    broadcast use vstd::utf8::is_char_boundary_start_end_of_seq;

    let bytes = vstd::utf8::encode_utf8(text);
    vstd::utf8::encode_utf8_valid_utf8(text);
    let first = if bytes.len() < limit {
        bytes.len() as int
    } else {
        limit
    };
    lemma_boundary_bounds(bytes, first);
    if bytes.len() <= limit {
        assert(first == bytes.len());
        assert(boundary_at_or_before(bytes, first) == bytes.len());
        assert(bytes.take(bytes.len() as int) =~= bytes);
        vstd::utf8::encode_utf8_decode_utf8(text);
        vstd::utf8::encode_utf8_decode_utf8(kept);
    }
}

proof fn lemma_boundary_bounds(text: Seq<u8>, end: int)
    requires
        0 <= end,
    ensures
        0 <= boundary_at_or_before(text, end) <= end,
    decreases end,
{
    if end > 0 && !vstd::utf8::is_char_boundary(text, end) {
        lemma_boundary_bounds(text, end - 1);
    }
}

/// Text is valid UTF-8 that decodes to itself, and only empty text has no bytes.
pub proof fn lemma_text_round_trip(text: Seq<char>)
    ensures
        vstd::utf8::valid_utf8(vstd::utf8::encode_utf8(text)),
        vstd::utf8::decode_utf8(vstd::utf8::encode_utf8(text)) == text,
        vstd::utf8::encode_utf8(text).len() == 0 <==> text.len() == 0,
{
    vstd::utf8::encode_utf8_valid_utf8(text);
    vstd::utf8::encode_utf8_decode_utf8(text);
    if text.len() > 0 {
        vstd::utf8::encode_utf8_first_scalar(text);
    }
}

/// Calls `String::from_utf8`, which takes valid UTF-8 as it stands and refuses
/// everything else.
#[verifier::external_body]
fn std_string_from_utf8(bytes: Vec<u8>) -> (text: Option<String>)
    ensures
        match text {
            Some(text) => vstd::utf8::valid_utf8(bytes@) && text@ == vstd::utf8::decode_utf8(
                bytes@,
            ),
            None => !vstd::utf8::valid_utf8(bytes@),
        },
{
    String::from_utf8(bytes).ok()
}

/// The text that `bytes` encode, if they are UTF-8.
pub fn owned_string(bytes: &[u8]) -> (text: Option<String>)
    ensures
        match text {
            Some(text) => vstd::utf8::valid_utf8(bytes@) && text@ == vstd::utf8::decode_utf8(
                bytes@,
            ),
            None => !vstd::utf8::valid_utf8(bytes@),
        },
{
    std_string_from_utf8(owned(bytes))
}

/// One character for each byte.
pub open spec fn ascii_text(bytes: Seq<u8>) -> Seq<char> {
    Seq::new(bytes.len(), |i: int| bytes[i] as char)
}

/// The text of bytes below 128.
pub fn ascii_string(bytes: &[u8]) -> (text: String)
    requires
        forall|i: int| 0 <= i < bytes@.len() ==> #[trigger] bytes@[i] < 128,
    ensures
        text@ == ascii_text(bytes@),
{
    let ghost expected = ascii_text(bytes@);
    proof {
        assert(vstd::utf8::is_ascii_chars(expected));
        vstd::utf8::is_ascii_chars_encode_utf8(expected);
        assert(vstd::utf8::encode_utf8(expected) =~= bytes@);
        vstd::utf8::encode_utf8_valid_utf8(expected);
        vstd::utf8::encode_utf8_decode_utf8(expected);
    }
    match owned_string(bytes) {
        Some(text) => text,
        None => String::new(),
    }
}

/// The digits of a number.
pub open spec fn decimal(value: nat) -> Seq<char>
    decreases value,
{
    let digit = ('0' as u32 + value % 10) as char;
    if value < 10 {
        seq![digit]
    } else {
        decimal(value / 10).push(digit)
    }
}

fn put_decimal(digits: &mut Vec<u8>, value: u64)
    requires
        forall|i: int| 0 <= i < old(digits)@.len() ==> #[trigger] old(digits)@[i] < 128,
    ensures
        forall|i: int| 0 <= i < final(digits)@.len() ==> #[trigger] final(digits)@[i] < 128,
        ascii_text(final(digits)@) == ascii_text(old(digits)@) + decimal(value as nat),
    decreases value,
{
    if value >= 10 {
        put_decimal(digits, value / 10);
    }
    let ghost before = digits@;
    digits.push(48 + (value % 10) as u8);
    assert(ascii_text(digits@) =~= ascii_text(before).push(
        ('0' as u32 + value as nat % 10) as char,
    ));
    assert(ascii_text(digits@) =~= ascii_text(old(digits)@) + decimal(value as nat));
}

/// The digits of `value`.
pub fn decimal_text(value: u64) -> (text: String)
    ensures
        text@ == decimal(value as nat),
{
    let mut digits: Vec<u8> = Vec::new();
    put_decimal(&mut digits, value);
    assert(ascii_text(Seq::<u8>::empty()) =~= Seq::<char>::empty());
    assert(ascii_text(digits@) =~= decimal(value as nat));
    ascii_string(digits.as_slice())
}

/// A number with its sign, where it is less than zero.
pub open spec fn signed(value: int) -> Seq<char> {
    if value < 0 {
        "-"@ + decimal((-value) as nat)
    } else {
        decimal(value as nat)
    }
}

/// The digits of `value`, with its sign where it is less than zero.
pub fn signed_text(value: i64) -> (text: String)
    ensures
        text@ == signed(value as int),
{
    if value < 0 {
        let mut text: String = "-".to_owned();
        text.append(decimal_text((-(value as i128)) as u64).as_str());
        text
    } else {
        decimal_text(value as u64)
    }
}

/// The UTF-16 units of a character: itself, or the two halves of what lies above
/// the first 65536 characters.
pub open spec fn utf16_units(character: char) -> Seq<u16> {
    let point = character as u32;
    if point < 0x1_0000 {
        seq![point as u16]
    } else {
        let above = point - 0x1_0000;
        seq![(0xd800 + above / 0x400) as u16, (0xdc00 + above % 0x400) as u16]
    }
}

pub open spec fn utf16(text: Seq<char>) -> Seq<u16>
    decreases text.len(),
{
    if text.len() == 0 {
        Seq::empty()
    } else {
        utf16(text.drop_last()) + utf16_units(text.last())
    }
}

/// The UTF-16 units of `text`, and a zero behind them.
pub fn wide(text: &str) -> (units: Vec<u16>)
    ensures
        units@ == utf16(text@).push(0),
{
    let mut units: Vec<u16> = Vec::new();
    for character in characters: text.chars()
        invariant
            characters.seq() == text@,
            units@ == utf16(text@.take(characters.index())),
    {
        proof {
            let index = characters.index();
            assert(text@.take(index + 1).drop_last() =~= text@.take(index));
            assert(text@.take(index + 1).last() == character);
        }
        let ghost before = units@;
        let point: u32 = character as u32;
        if point < 0x1_0000 {
            units.push(point as u16);
        } else {
            let above: u32 = point - 0x1_0000;
            units.push((0xd800 + above / 0x400) as u16);
            units.push((0xdc00 + above % 0x400) as u16);
        }
        assert(units@ =~= before + utf16_units(character));
    }
    assert(text@.take(text@.len() as int) =~= text@);
    units.push(0);
    units
}

/// The number that decimal digits stand for.
pub open spec fn digits_value(digits: Seq<char>) -> nat
    decreases digits.len(),
{
    if digits.len() == 0 {
        0
    } else {
        10 * digits_value(digits.drop_last()) + (digits.last() as u32 - '0' as u32) as nat
    }
}

/// A number in decimal is made of digits, starts with no zero unless it is
/// zero, and stands for the number.
pub proof fn law_decimal_digits(value: nat)
    ensures
        decimal(value).len() > 0,
        forall|i: int|
            0 <= i < decimal(value).len() ==> '0' <= #[trigger] decimal(value)[i] && decimal(
                value,
            )[i] <= '9',
        digits_value(decimal(value)) == value,
        value > 0 ==> decimal(value)[0] != '0',
        decimal(value)[0] == '0' ==> value == 0,
    decreases value,
{
    let digits = decimal(value);
    reveal_with_fuel(digits_value, 2);
    if value >= 10 {
        law_decimal_digits(value / 10);
        let earlier = decimal(value / 10);
        assert(digits.drop_last() =~= earlier);
        assert(digits[0] == earlier[0]);
        assert forall|i: int| 0 <= i < digits.len() implies '0' <= #[trigger] digits[i]
            && digits[i] <= '9' by {
            if i < earlier.len() {
                assert(digits[i] == earlier[i]);
            }
        }
    } else {
        assert(digits.drop_last() =~= Seq::empty());
    }
}

/// Text is printable where no character is below the space, and none is the
/// delete character or one of the 32 after it.
pub proof fn law_printable(text: Seq<char>)
    ensures
        is_printable(text) <==> forall|i: int|
            0 <= i < text.len() ==> (#[trigger] text[i]) as u32 >= 0x20 && !(0x7f
                <= text[i] as u32 && text[i] as u32 <= 0x9f),
{
    if is_printable(text) {
        assert forall|i: int| 0 <= i < text.len() implies (#[trigger] text[i]) as u32 >= 0x20 && !(
        0x7f <= text[i] as u32 && text[i] as u32 <= 0x9f) by {
            assert(!is_control(text[i]));
        }
    }
}

/// A character within sixteen bits is one unit, itself. Any other is a high and
/// a low surrogate, ten bits of what is above each.
pub proof fn law_utf16_units(character: char)
    ensures
        ({
            let units = utf16_units(character);
            &&& (character as u32) < 0x1_0000 ==> units.len() == 1 && units[0] == character as u32
            &&& (character as u32) >= 0x1_0000 ==> {
                &&& units.len() == 2
                &&& 0xd800 <= units[0] <= 0xdbff
                &&& 0xdc00 <= units[1] <= 0xdfff
                &&& 0x1_0000 + 0x400 * (units[0] - 0xd800) + (units[1] - 0xdc00)
                    == character as u32
            }
        }),
{
}

} // verus!
