//! Fields: a key, which holds a tag and a wire type, and a value.

use super::varint;
use super::varint::{put_varint, take_varint};
use vstd::prelude::*;

verus! {

/// How deep messages and groups may nest.
pub const RECURSION_LIMIT: u32 = 100;

/// A field's value as it stands on the wire.
///
/// No message of this protocol reads fixed-width values or groups, so only
/// their presence is kept.
#[verifier::ext_equal]
pub enum WireValue {
    Varint(u64),
    Fixed64,
    Bytes(Seq<u8>),
    Group,
    Fixed32,
}

#[verifier::ext_equal]
pub struct WireField {
    pub tag: u32,
    pub value: WireValue,
}

/// The key at the start of `bytes`: tag, wire type and size.
pub open spec fn read_key(bytes: Seq<u8>) -> Option<(u32, u32, nat)> {
    match varint::read_varint(bytes) {
        Some((key, size)) => if key <= u32::MAX && key / 8 >= 1 && key % 8 <= 5 {
            Some(((key / 8) as u32, (key % 8) as u32, size))
        } else {
            None
        },
        None => None,
    }
}

/// The value at the start of `bytes` under a key of `tag` and `wire_type`, with its size.
pub open spec fn read_value(bytes: Seq<u8>, tag: u32, wire_type: u32, limit: nat) -> Option<
    (WireValue, nat),
>
    decreases bytes.len(), 1nat,
{
    if wire_type == 0 {
        match varint::read_varint(bytes) {
            Some((value, size)) => Some((WireValue::Varint(value), size)),
            None => None,
        }
    } else if wire_type == 1 {
        if bytes.len() >= 8 {
            Some((WireValue::Fixed64, 8))
        } else {
            None
        }
    } else if wire_type == 2 {
        match varint::read_varint(bytes) {
            Some((length, size)) => if size + length <= bytes.len() {
                Some(
                    (
                        WireValue::Bytes(bytes.subrange(size as int, (size + length) as int)),
                        (size + length) as nat,
                    ),
                )
            } else {
                None
            },
            None => None,
        }
    } else if wire_type == 3 {
        match read_group(bytes, tag, limit) {
            Some(size) => Some((WireValue::Group, size)),
            None => None,
        }
    } else if wire_type == 5 {
        if bytes.len() >= 4 {
            Some((WireValue::Fixed32, 4))
        } else {
            None
        }
    } else {
        None
    }
}

/// The size of the fields up to and with the key that ends the group `tag`.
pub open spec fn read_group(bytes: Seq<u8>, tag: u32, limit: nat) -> Option<nat>
    decreases bytes.len(), 0nat,
{
    match read_key(bytes) {
        Some((inner_tag, wire_type, key_size)) => if wire_type == 4 {
            if inner_tag == tag {
                Some(key_size)
            } else {
                None
            }
        } else if limit <= 1 || key_size == 0 || key_size > bytes.len() {
            None
        } else {
            match read_value(
                bytes.skip(key_size as int),
                inner_tag,
                wire_type,
                (limit - 1) as nat,
            ) {
                Some((value, size)) => if key_size + size > bytes.len() {
                    None
                } else {
                    match read_group(bytes.skip((key_size + size) as int), tag, limit) {
                        Some(rest) => Some(key_size + size + rest),
                        None => None,
                    }
                },
                None => None,
            }
        },
        None => None,
    }
}

/// The field at the start of `bytes`, with its size.
pub open spec fn read_field(bytes: Seq<u8>, limit: nat) -> Option<(WireField, nat)> {
    match read_key(bytes) {
        Some((tag, wire_type, key_size)) => match read_value(
            bytes.skip(key_size as int),
            tag,
            wire_type,
            limit,
        ) {
            Some((value, size)) => Some((WireField { tag, value }, key_size + size)),
            None => None,
        },
        None => None,
    }
}

pub proof fn lemma_read_key_size(bytes: Seq<u8>)
    ensures
        read_key(bytes) matches Some((tag, wire_type, size)) ==> 1 <= size <= bytes.len() && tag
            >= 1 && wire_type <= 5,
{
    varint::lemma_read_varint_size(bytes);
}

pub proof fn lemma_read_value_size(bytes: Seq<u8>, tag: u32, wire_type: u32, limit: nat)
    ensures
        read_value(bytes, tag, wire_type, limit) matches Some((value, size)) ==> size
            <= bytes.len(),
    decreases bytes.len(), 1nat,
{
    varint::lemma_read_varint_size(bytes);
    lemma_read_group_size(bytes, tag, limit);
}

proof fn lemma_read_group_size(bytes: Seq<u8>, tag: u32, limit: nat)
    ensures
        read_group(bytes, tag, limit) matches Some(size) ==> size <= bytes.len(),
    decreases bytes.len(), 0nat,
{
    lemma_read_key_size(bytes);
    match read_key(bytes) {
        Some((inner_tag, wire_type, key_size)) => {
            if wire_type != 4 && limit > 1 {
                let after = bytes.skip(key_size as int);
                lemma_read_value_size(after, inner_tag, wire_type, (limit - 1) as nat);
                match read_value(after, inner_tag, wire_type, (limit - 1) as nat) {
                    Some((value, size)) => {
                        lemma_read_group_size(bytes.skip((key_size + size) as int), tag, limit);
                    },
                    None => {},
                }
            }
        },
        None => {},
    }
}

pub proof fn lemma_read_field_size(bytes: Seq<u8>, limit: nat)
    ensures
        read_field(bytes, limit) matches Some((field, size)) ==> 1 <= size <= bytes.len(),
{
    lemma_read_key_size(bytes);
    match read_key(bytes) {
        Some((tag, wire_type, key_size)) => {
            lemma_read_value_size(bytes.skip(key_size as int), tag, wire_type, limit);
        },
        None => {},
    }
}

proof fn lemma_read_key_prefix(bytes: Seq<u8>, rest: Seq<u8>)
    requires
        read_key(bytes) is Some,
    ensures
        read_key(bytes + rest) == read_key(bytes),
{
    varint::lemma_read_varint_prefix(bytes, rest);
}

proof fn lemma_read_value_prefix(
    bytes: Seq<u8>,
    rest: Seq<u8>,
    tag: u32,
    wire_type: u32,
    limit: nat,
)
    requires
        read_value(bytes, tag, wire_type, limit) is Some,
    ensures
        read_value(bytes + rest, tag, wire_type, limit) == read_value(bytes, tag, wire_type, limit),
    decreases bytes.len(), 1nat,
{
    if wire_type == 0 {
        varint::lemma_read_varint_prefix(bytes, rest);
    } else if wire_type == 2 {
        varint::lemma_read_varint_prefix(bytes, rest);
        let (length, size) = varint::read_varint(bytes)->0;
        assert((bytes + rest).subrange(size as int, (size + length) as int) =~= bytes.subrange(
            size as int,
            (size + length) as int,
        ));
    } else if wire_type == 3 {
        lemma_read_group_prefix(bytes, rest, tag, limit);
    }
}

proof fn lemma_read_group_prefix(bytes: Seq<u8>, rest: Seq<u8>, tag: u32, limit: nat)
    requires
        read_group(bytes, tag, limit) is Some,
    ensures
        read_group(bytes + rest, tag, limit) == read_group(bytes, tag, limit),
    decreases bytes.len(), 0nat,
{
    lemma_read_key_prefix(bytes, rest);
    let (inner_tag, wire_type, key_size) = read_key(bytes)->0;
    if wire_type != 4 {
        let after = bytes.skip(key_size as int);
        assert((bytes + rest).skip(key_size as int) =~= after + rest);
        lemma_read_value_prefix(after, rest, inner_tag, wire_type, (limit - 1) as nat);
        let (value, size) = read_value(after, inner_tag, wire_type, (limit - 1) as nat)->0;
        let next = (key_size + size) as int;
        assert((bytes + rest).skip(next) =~= bytes.skip(next) + rest);
        lemma_read_group_prefix(bytes.skip(next), rest, tag, limit);
    }
}

/// What follows a field does not change how it is read.
pub proof fn lemma_read_field_prefix(bytes: Seq<u8>, rest: Seq<u8>, limit: nat)
    requires
        read_field(bytes, limit) is Some,
    ensures
        read_field(bytes + rest, limit) == read_field(bytes, limit),
{
    lemma_read_key_size(bytes);
    lemma_read_key_prefix(bytes, rest);
    let (tag, wire_type, key_size) = read_key(bytes)->0;
    assert((bytes + rest).skip(key_size as int) =~= bytes.skip(key_size as int) + rest);
    lemma_read_value_prefix(bytes.skip(key_size as int), rest, tag, wire_type, limit);
}

/// The key of `tag` with `wire_type`.
pub open spec fn key_bytes(tag: u32, wire_type: u32) -> Seq<u8> {
    varint::varint_bytes((tag * 8 + wire_type) as nat)
}

/// An integer field. Zero is the default and is left out.
pub open spec fn varint_field(tag: u32, value: u64) -> Seq<u8> {
    if value == 0 {
        Seq::empty()
    } else {
        key_bytes(tag, 0) + varint::varint_bytes(value as nat)
    }
}

/// A length-delimited field, present whatever it holds.
pub open spec fn delimited_field(tag: u32, value: Seq<u8>) -> Seq<u8> {
    key_bytes(tag, 2) + varint::varint_bytes(value.len()) + value
}

/// A byte-string field. The empty string is the default and is left out.
pub open spec fn bytes_field(tag: u32, value: Seq<u8>) -> Seq<u8> {
    if value.len() == 0 {
        Seq::empty()
    } else {
        delimited_field(tag, value)
    }
}

pub open spec fn valid_tag(tag: u32) -> bool {
    1 <= tag < 0x1000_0000
}

proof fn lemma_read_key(tag: u32, wire_type: u32, rest: Seq<u8>)
    requires
        valid_tag(tag),
        wire_type <= 5,
    ensures
        read_key(key_bytes(tag, wire_type) + rest) == Some(
            (tag, wire_type, key_bytes(tag, wire_type).len()),
        ),
{
    let key = (tag * 8 + wire_type) as u64;
    varint::lemma_read_varint(key, rest);
    assert(key / 8 == tag);
    assert(key % 8 == wire_type);
}

/// A written integer field is read back.
pub proof fn lemma_read_varint_field(tag: u32, value: u64, rest: Seq<u8>, limit: nat)
    requires
        valid_tag(tag),
        value != 0,
    ensures
        read_field(varint_field(tag, value) + rest, limit) == Some(
            (WireField { tag, value: WireValue::Varint(value) }, varint_field(tag, value).len()),
        ),
{
    let encoded = varint::varint_bytes(value as nat);
    let key = key_bytes(tag, 0);
    let bytes = varint_field(tag, value) + rest;
    lemma_read_key(tag, 0, encoded + rest);
    varint::lemma_read_varint(value, rest);
    assert(bytes =~= key + (encoded + rest));
    assert(bytes.skip(key.len() as int) =~= encoded + rest);
}

/// A written length-delimited field is read back.
pub proof fn lemma_read_delimited_field(tag: u32, value: Seq<u8>, rest: Seq<u8>, limit: nat)
    requires
        valid_tag(tag),
        value.len() <= u64::MAX,
    ensures
        read_field(delimited_field(tag, value) + rest, limit) == Some(
            (WireField { tag, value: WireValue::Bytes(value) }, delimited_field(tag, value).len()),
        ),
{
    let length = varint::varint_bytes(value.len());
    let key = key_bytes(tag, 2);
    let tail = length + (value + rest);
    let bytes = delimited_field(tag, value) + rest;
    lemma_read_key(tag, 2, tail);
    assert(bytes =~= key + tail);
    assert(bytes.skip(key.len() as int) =~= tail);
    assert(read_value(tail, tag, 2, limit) == Some(
        (WireValue::Bytes(value), (length.len() + value.len()) as nat),
    )) by {
        varint::lemma_read_varint(value.len() as u64, value + rest);
        assert(tail.subrange(length.len() as int, (length.len() + value.len()) as int) =~= value);
    }
}

/// A field's value, borrowed from the bytes that hold it.
pub enum FieldValue<'a> {
    Varint(u64),
    Fixed64,
    Bytes(&'a [u8]),
    Group,
    Fixed32,
}

impl<'a> View for FieldValue<'a> {
    type V = WireValue;

    open spec fn view(&self) -> WireValue {
        match self {
            FieldValue::Varint(value) => WireValue::Varint(*value),
            FieldValue::Fixed64 => WireValue::Fixed64,
            FieldValue::Bytes(bytes) => WireValue::Bytes(bytes@),
            FieldValue::Group => WireValue::Group,
            FieldValue::Fixed32 => WireValue::Fixed32,
        }
    }
}

pub struct Field<'a> {
    pub tag: u32,
    pub value: FieldValue<'a>,
}

impl<'a> View for Field<'a> {
    type V = WireField;

    open spec fn view(&self) -> WireField {
        WireField { tag: self.tag, value: self.value@ }
    }
}

/// Appends the key of `tag` with `wire_type`.
fn put_key(out: &mut Vec<u8>, tag: u32, wire_type: u32)
    requires
        valid_tag(tag),
        wire_type <= 5,
    ensures
        final(out)@ == old(out)@ + key_bytes(tag, wire_type),
{
    put_varint(out, tag as u64 * 8 + wire_type as u64);
}

/// Appends an integer field unless it is zero.
pub fn put_varint_field(out: &mut Vec<u8>, tag: u32, value: u64)
    requires
        valid_tag(tag),
    ensures
        final(out)@ == old(out)@ + varint_field(tag, value),
{
    if value != 0 {
        put_key(out, tag, 0);
        put_varint(out, value);
    }
    assert(out@ =~= old(out)@ + varint_field(tag, value));
}

/// Appends a length-delimited field.
pub fn put_delimited_field(out: &mut Vec<u8>, tag: u32, value: &[u8])
    requires
        valid_tag(tag),
    ensures
        final(out)@ == old(out)@ + delimited_field(tag, value@),
{
    put_key(out, tag, 2);
    put_varint(out, value.len() as u64);
    out.extend_from_slice(value);
    assert(out@ =~= old(out)@ + delimited_field(tag, value@));
}

/// Appends a byte-string field unless it is empty.
pub fn put_bytes_field(out: &mut Vec<u8>, tag: u32, value: &[u8])
    requires
        valid_tag(tag),
    ensures
        final(out)@ == old(out)@ + bytes_field(tag, value@),
{
    if value.len() != 0 {
        put_delimited_field(out, tag, value);
    }
    assert(out@ =~= old(out)@ + bytes_field(tag, value@));
}

/// Reads the key at the start of `bytes`: tag, wire type and size.
pub fn take_key(bytes: &[u8]) -> (result: Option<(u32, u32, usize)>)
    ensures
        match result {
            Some((tag, wire_type, size)) => read_key(bytes@) == Some((tag, wire_type, size as nat))
                && 1 <= size <= bytes@.len(),
            None => read_key(bytes@) is None,
        },
{
    match take_varint(bytes) {
        Some((key, size)) => if key <= u32::MAX as u64 && key / 8 >= 1 && key % 8 <= 5 {
            Some(((key / 8) as u32, (key % 8) as u32, size))
        } else {
            None
        },
        None => None,
    }
}

/// Reads the value at the start of `bytes` under a key of `tag` and `wire_type`.
pub fn take_value<'a>(bytes: &'a [u8], tag: u32, wire_type: u32, limit: u32) -> (result: Option<
    (FieldValue<'a>, usize),
>)
    ensures
        match result {
            Some((value, size)) => read_value(bytes@, tag, wire_type, limit as nat) == Some(
                (value@, size as nat),
            ) && size <= bytes@.len(),
            None => read_value(bytes@, tag, wire_type, limit as nat) is None,
        },
    decreases bytes@.len(), 1nat,
{
    if wire_type == 0 {
        match take_varint(bytes) {
            Some((value, size)) => Some((FieldValue::Varint(value), size)),
            None => None,
        }
    } else if wire_type == 1 {
        if bytes.len() >= 8 {
            Some((FieldValue::Fixed64, 8))
        } else {
            None
        }
    } else if wire_type == 2 {
        match take_varint(bytes) {
            Some((length, size)) => if length <= (bytes.len() - size) as u64 {
                let end: usize = size + length as usize;
                Some((FieldValue::Bytes(vstd::slice::slice_subrange(bytes, size, end)), end))
            } else {
                None
            },
            None => None,
        }
    } else if wire_type == 3 {
        match take_group(bytes, tag, limit) {
            Some(size) => Some((FieldValue::Group, size)),
            None => None,
        }
    } else if wire_type == 5 {
        if bytes.len() >= 4 {
            Some((FieldValue::Fixed32, 4))
        } else {
            None
        }
    } else {
        None
    }
}

fn take_group(bytes: &[u8], tag: u32, limit: u32) -> (result: Option<usize>)
    ensures
        match result {
            Some(size) => read_group(bytes@, tag, limit as nat) == Some(size as nat) && size
                <= bytes@.len(),
            None => read_group(bytes@, tag, limit as nat) is None,
        },
    decreases bytes@.len(), 0nat,
{
    let mut at: usize = 0;
    assert(bytes@.skip(0) =~= bytes@);
    loop
        invariant
            at <= bytes@.len(),
            read_group(bytes@, tag, limit as nat) == match read_group(
                bytes@.skip(at as int),
                tag,
                limit as nat,
            ) {
                Some(rest) => Some((at + rest) as nat),
                None => None,
            },
        decreases bytes@.len() - at,
    {
        let rest = vstd::slice::slice_subrange(bytes, at, bytes.len());
        assert(rest@ =~= bytes@.skip(at as int));
        match take_key(rest) {
            Some((inner_tag, wire_type, key_size)) => {
                if wire_type == 4 {
                    return if inner_tag == tag {
                        Some(at + key_size)
                    } else {
                        None
                    };
                }
                if limit <= 1 {
                    return None;
                }
                let after = vstd::slice::slice_subrange(rest, key_size, rest.len());
                assert(after@ =~= rest@.skip(key_size as int));
                match take_value(after, inner_tag, wire_type, limit - 1) {
                    Some((_value, size)) => {
                        let next: usize = at + key_size + size;
                        assert(rest@.skip((key_size + size) as int) =~= bytes@.skip(next as int));
                        at = next;
                    },
                    None => {
                        return None;
                    },
                }
            },
            None => {
                return None;
            },
        }
    }
}

/// Reads the field at the start of `bytes`: the field and its size.
pub fn take_field<'a>(bytes: &'a [u8], limit: u32) -> (result: Option<(Field<'a>, usize)>)
    ensures
        match result {
            Some((field, size)) => read_field(bytes@, limit as nat) == Some((field@, size as nat))
                && 1 <= size <= bytes@.len(),
            None => read_field(bytes@, limit as nat) is None,
        },
{
    match take_key(bytes) {
        Some((tag, wire_type, key_size)) => {
            let after = vstd::slice::slice_subrange(bytes, key_size, bytes.len());
            assert(after@ =~= bytes@.skip(key_size as int));
            match take_value(after, tag, wire_type, limit) {
                Some((value, size)) => Some((Field { tag, value }, key_size + size)),
                None => None,
            }
        },
        None => None,
    }
}

/// A field starts with eight times its number, plus two where bytes follow with
/// their length before them. A number that is zero and bytes that are none are
/// left out.
pub proof fn law_field_keys(tag: u32, number: u64, bytes: Seq<u8>)
    requires
        1 <= tag <= 15,
    ensures
        varint_field(tag, 0).len() == 0,
        number > 0 ==> varint_field(tag, number) == seq![(8 * tag) as u8] + varint::varint_bytes(
            number as nat,
        ),
        bytes_field(tag, Seq::empty()).len() == 0,
        bytes.len() > 0 ==> bytes_field(tag, bytes) == seq![(8 * tag + 2) as u8]
            + varint::varint_bytes(bytes.len()) + bytes,
{
    reveal_with_fuel(varint::varint_bytes, 2);
    assert(key_bytes(tag, 0) =~= seq![(8 * tag) as u8]);
    assert(key_bytes(tag, 2) =~= seq![(8 * tag + 2) as u8]);
}

} // verus!
