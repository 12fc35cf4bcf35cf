//! What is wrong with bytes that hold no message: the first thing that a reader
//! stumbles over, and the fields that it stands in.

use super::field;
use super::field::{take_key, take_value, WireField, WireValue, RECURSION_LIMIT};
use super::message;
use super::message::{merge_bytes, WireMessage};
use super::varint;
use super::varint::take_varint;
use crate::text::owned_string;
use vstd::prelude::*;

verus! {

/// What a reader stumbles over. Wire types are told by their numbers.
#[derive(Clone, Copy, Debug, PartialEq, Eq, Structural)]
pub enum DecodeFault {
    InvalidVarint,
    RecursionLimitReached,
    InvalidWireType { value: u64 },
    InvalidKey { key: u64 },
    InvalidTag,
    UnexpectedWireType { actual: u32, expected: u32 },
    BufferUnderflow,
    DelimitedLengthExceeded,
    UnexpectedEndGroupTag,
    InvalidString,
}

/// A field of a message, both by name.
#[derive(Clone, Copy, Debug, PartialEq, Eq)]
pub struct FieldPlace {
    pub message: &'static str,
    pub field: &'static str,
}

impl View for FieldPlace {
    type V = (Seq<char>, Seq<char>);

    open spec fn view(&self) -> (Seq<char>, Seq<char>) {
        (self.message@, self.field@)
    }
}

/// The bytes hold no message of the type asked for: what is wrong, and the
/// fields that it stands in, the innermost first.
#[derive(Clone, Debug, PartialEq, Eq)]
pub struct DecodeError {
    pub fault: DecodeFault,
    pub path: Vec<FieldPlace>,
}

/// The contents of a [`DecodeError`].
#[verifier::ext_equal]
pub struct DecodeErrorModel {
    pub fault: DecodeFault,
    pub path: Seq<(Seq<char>, Seq<char>)>,
}

impl View for DecodeError {
    type V = DecodeErrorModel;

    open spec fn view(&self) -> DecodeErrorModel {
        DecodeErrorModel {
            fault: self.fault,
            path: self.path@.map_values(|place: FieldPlace| place@),
        }
    }
}

impl DecodeErrorModel {
    pub open spec fn at(fault: DecodeFault) -> DecodeErrorModel {
        DecodeErrorModel { fault, path: Seq::empty() }
    }

    /// The same in one more field.
    pub open spec fn within(self, place: (Seq<char>, Seq<char>)) -> DecodeErrorModel {
        DecodeErrorModel { path: self.path.push(place), ..self }
    }
}

impl DecodeError {
    fn at(fault: DecodeFault) -> (error: DecodeError)
        ensures
            error@ == DecodeErrorModel::at(fault),
    {
        let error = DecodeError { fault, path: Vec::new() };
        assert(error@ =~= DecodeErrorModel::at(fault));
        error
    }

    fn within(self, place: FieldPlace) -> (error: DecodeError)
        ensures
            error@ == self@.within(place@),
    {
        let mut error = self;
        error.path.push(place);
        assert(error@ =~= self@.within(place@));
        error
    }
}

/// What a field holds.
#[derive(Clone, Copy, Debug, PartialEq, Eq, Structural)]
pub enum FieldKind {
    /// A message has no field of the tag, and passes it over.
    Unknown,
    Number,
    Bytes,
    Text,
    Message,
}

/// The fields of a message type.
pub trait WireShape: WireMessage {
    spec fn kind(tag: u32) -> FieldKind;

    /// The names of the message and of its field.
    spec fn place(tag: u32) -> (Seq<char>, Seq<char>);

    /// What is wrong with the message of `length` bytes at the start of `bytes`
    /// that the field holds.
    spec fn nested(tag: u32, bytes: Seq<u8>, length: nat, limit: nat) -> Option<DecodeErrorModel>;

    fn shape(tag: u32) -> (shape: (FieldKind, FieldPlace))
        ensures
            shape.0 == Self::kind(tag),
            shape.0 != FieldKind::Unknown ==> shape.1@ == Self::place(tag),
    ;

    fn find_nested(tag: u32, bytes: &[u8], length: usize, limit: u32) -> (error: Option<
        DecodeError,
    >)
        requires
            length <= bytes@.len(),
        ensures
            error_model(error) == Self::nested(tag, bytes@, length as nat, limit as nat),
    ;

    /// Whether a message takes a field is told by the kind of the field alone.
    proof fn lemma_kind(model: Self::V, field: WireField, limit: nat)
        ensures
            match Self::kind(field.tag) {
                FieldKind::Unknown => Self::merge(model, field, limit) == Some(model),
                FieldKind::Number => Self::merge(model, field, limit) is Some
                    <==> field.value is Varint,
                FieldKind::Bytes => Self::merge(model, field, limit) is Some
                    <==> field.value is Bytes,
                FieldKind::Text => Self::merge(model, field, limit) is Some <==> (
                field.value matches WireValue::Bytes(bytes) && vstd::utf8::valid_utf8(bytes)),
                FieldKind::Message => Self::merge(model, field, limit) is Some <==> (
                field.value matches WireValue::Bytes(bytes) && limit > 1 && Self::nested(
                    field.tag,
                    bytes,
                    bytes.len(),
                    (limit - 1) as nat,
                ) is None),
            },
    ;
}

pub open spec fn error_model(error: Option<DecodeError>) -> Option<DecodeErrorModel> {
    match error {
        Some(error) => Some(error@),
        None => None,
    }
}

/// What is wrong with the key at the start of `bytes`, which cannot be read.
pub open spec fn key_fault(bytes: Seq<u8>) -> DecodeFault {
    match varint::read_varint(bytes) {
        Some((key, size)) => if key > u32::MAX {
            DecodeFault::InvalidKey { key }
        } else if key % 8 > 5 {
            DecodeFault::InvalidWireType { value: key % 8 }
        } else {
            DecodeFault::InvalidTag
        },
        None => DecodeFault::InvalidVarint,
    }
}

/// What is wrong with a value that would be passed over, and cannot be read.
pub open spec fn value_fault(bytes: Seq<u8>, tag: u32, wire_type: u32, limit: nat) -> DecodeFault
    decreases bytes.len(), 1nat,
{
    if wire_type == 0 {
        DecodeFault::InvalidVarint
    } else if wire_type == 2 {
        match varint::read_varint(bytes) {
            Some(_) => DecodeFault::BufferUnderflow,
            None => DecodeFault::InvalidVarint,
        }
    } else if wire_type == 3 {
        group_fault(bytes, tag, limit)
    } else if wire_type == 4 {
        DecodeFault::UnexpectedEndGroupTag
    } else {
        DecodeFault::BufferUnderflow
    }
}

/// What is wrong with the fields of a group that cannot be read.
pub open spec fn group_fault(bytes: Seq<u8>, tag: u32, limit: nat) -> DecodeFault
    decreases bytes.len(), 0nat,
{
    match field::read_key(bytes) {
        Some((inner_tag, wire_type, key_size)) => {
            let rest = bytes.skip(key_size as int);
            proof {
                field::lemma_read_key_size(bytes);
                field::lemma_read_value_size(rest, inner_tag, wire_type, (limit - 1) as nat);
            }
            if wire_type == 4 {
                DecodeFault::UnexpectedEndGroupTag
            } else if limit <= 1 {
                DecodeFault::RecursionLimitReached
            } else {
                match field::read_value(rest, inner_tag, wire_type, (limit - 1) as nat) {
                    Some((value, size)) => group_fault(rest.skip(size as int), tag, limit),
                    None => value_fault(rest, inner_tag, wire_type, (limit - 1) as nat),
                }
            }
        },
        None => key_fault(bytes),
    }
}

/// The length at the start of `bytes`, with its size, and that many bytes after it.
pub open spec fn read_length(bytes: Seq<u8>) -> Result<(nat, nat), DecodeFault> {
    match varint::read_varint(bytes) {
        Some((length, size)) => if size + length <= bytes.len() {
            Ok((length as nat, size))
        } else {
            Err(DecodeFault::BufferUnderflow)
        },
        None => Err(DecodeFault::InvalidVarint),
    }
}

/// How many bytes the value of a field takes of `bytes`, or what is wrong with it.
pub open spec fn field_outcome<M: WireShape>(
    bytes: Seq<u8>,
    tag: u32,
    wire_type: u32,
    limit: nat,
) -> Result<nat, DecodeErrorModel> {
    let known = |fault: DecodeFault| DecodeErrorModel::at(fault).within(M::place(tag));
    match M::kind(tag) {
        FieldKind::Unknown => match field::read_value(bytes, tag, wire_type, limit) {
            Some((value, size)) => Ok(size),
            None => Err(DecodeErrorModel::at(value_fault(bytes, tag, wire_type, limit))),
        },
        FieldKind::Number => if wire_type != 0 {
            Err(known(DecodeFault::UnexpectedWireType { actual: wire_type, expected: 0 }))
        } else {
            match varint::read_varint(bytes) {
                Some((value, size)) => Ok(size),
                None => Err(known(DecodeFault::InvalidVarint)),
            }
        },
        kind => if wire_type != 2 {
            Err(known(DecodeFault::UnexpectedWireType { actual: wire_type, expected: 2 }))
        } else if kind == FieldKind::Message && limit <= 1 {
            Err(known(DecodeFault::RecursionLimitReached))
        } else {
            match read_length(bytes) {
                Ok((length, size)) => if kind == FieldKind::Text && !vstd::utf8::valid_utf8(
                    bytes.subrange(size as int, (size + length) as int),
                ) {
                    Err(known(DecodeFault::InvalidString))
                } else if kind == FieldKind::Message {
                    match M::nested(tag, bytes.skip(size as int), length, (limit - 1) as nat) {
                        Some(error) => Err(error.within(M::place(tag))),
                        None => Ok(size + length),
                    }
                } else {
                    Ok(size + length)
                },
                Err(fault) => Err(known(fault)),
            }
        },
    }
}

/// What is wrong with the fields in the first `length` bytes, which hold no
/// message. A field is read to its own end, also where that lies behind the
/// message's; what is wrong there is found first.
pub open spec fn fields_fault<M: WireShape>(
    bytes: Seq<u8>,
    length: nat,
    limit: nat,
) -> DecodeErrorModel
    decreases length,
{
    match field::read_key(bytes) {
        Some((tag, wire_type, key_size)) => {
            proof {
                field::lemma_read_key_size(bytes);
            }
            match field_outcome::<M>(bytes.skip(key_size as int), tag, wire_type, limit) {
                Ok(size) => if key_size + size < length {
                    fields_fault::<M>(
                        bytes.skip((key_size + size) as int),
                        (length - (key_size + size)) as nat,
                        limit,
                    )
                } else {
                    DecodeErrorModel::at(DecodeFault::DelimitedLengthExceeded)
                },
                Err(error) => error,
            }
        },
        None => DecodeErrorModel::at(key_fault(bytes)),
    }
}

/// What is wrong with the message of `length` bytes at the start of `bytes`, if
/// there is none.
pub open spec fn message_fault<M: WireShape>(bytes: Seq<u8>, length: nat, limit: nat) -> Option<
    DecodeErrorModel,
> {
    match message::merge_all::<M>(M::initial(), bytes.take(length as int), limit) {
        Some(_) => None,
        None => Some(fields_fault::<M>(bytes, length, limit)),
    }
}

/// Why `bytes` hold no message.
pub open spec fn decode_error<M: WireShape>(bytes: Seq<u8>) -> DecodeErrorModel {
    fields_fault::<M>(bytes, bytes.len(), RECURSION_LIMIT as nat)
}

/// Whether bytes are taken as fields of a message does not depend on what the
/// message holds already.
pub proof fn lemma_same_acceptance<M: WireShape>(
    held: M::V,
    other: M::V,
    bytes: Seq<u8>,
    limit: nat,
)
    ensures
        message::merge_all::<M>(held, bytes, limit) is Some <==> message::merge_all::<M>(
            other,
            bytes,
            limit,
        ) is Some,
    decreases bytes.len(),
{
    if bytes.len() > 0 {
        match field::read_field(bytes, limit) {
            Some((item, size)) => {
                M::lemma_kind(held, item, limit);
                M::lemma_kind(other, item, limit);
                match (M::merge(held, item, limit), M::merge(other, item, limit)) {
                    (Some(next), Some(beside)) => if 1 <= size <= bytes.len() {
                        lemma_same_acceptance::<M>(
                            next,
                            beside,
                            bytes.skip(size as int),
                            limit,
                        );
                    },
                    _ => {},
                }
            },
            None => {},
        }
    }
}

/// The same of whatever the message holds.
pub proof fn lemma_any_acceptance<M: WireShape>(bytes: Seq<u8>, limit: nat)
    ensures
        forall|held: M::V|
            (#[trigger] message::merge_all::<M>(held, bytes, limit)) is Some
                <==> message::merge_all::<M>(M::initial(), bytes, limit) is Some,
{
    assert forall|held: M::V|
        (#[trigger] message::merge_all::<M>(held, bytes, limit)) is Some
            <==> message::merge_all::<M>(M::initial(), bytes, limit) is Some by {
        lemma_same_acceptance::<M>(held, M::initial(), bytes, limit);
    }
}

fn find_key_fault(bytes: &[u8]) -> (fault: DecodeFault)
    ensures
        fault == key_fault(bytes@),
{
    match take_varint(bytes) {
        Some((key, _size)) => if key > u32::MAX as u64 {
            DecodeFault::InvalidKey { key }
        } else if key % 8 > 5 {
            DecodeFault::InvalidWireType { value: key % 8 }
        } else {
            DecodeFault::InvalidTag
        },
        None => DecodeFault::InvalidVarint,
    }
}

fn find_value_fault(bytes: &[u8], tag: u32, wire_type: u32, limit: u32) -> (fault: DecodeFault)
    ensures
        fault == value_fault(bytes@, tag, wire_type, limit as nat),
    decreases bytes@.len(), 1nat,
{
    if wire_type == 0 {
        DecodeFault::InvalidVarint
    } else if wire_type == 2 {
        match take_varint(bytes) {
            Some(_) => DecodeFault::BufferUnderflow,
            None => DecodeFault::InvalidVarint,
        }
    } else if wire_type == 3 {
        find_group_fault(bytes, tag, limit)
    } else if wire_type == 4 {
        DecodeFault::UnexpectedEndGroupTag
    } else {
        DecodeFault::BufferUnderflow
    }
}

fn find_group_fault(bytes: &[u8], tag: u32, limit: u32) -> (fault: DecodeFault)
    ensures
        fault == group_fault(bytes@, tag, limit as nat),
    decreases bytes@.len(), 0nat,
{
    let mut at: usize = 0;
    assert(bytes@.skip(0) =~= bytes@);
    loop
        invariant
            at <= bytes@.len(),
            group_fault(bytes@, tag, limit as nat) == group_fault(
                bytes@.skip(at as int),
                tag,
                limit as nat,
            ),
        decreases bytes@.len() - at,
    {
        let rest = vstd::slice::slice_subrange(bytes, at, bytes.len());
        assert(rest@ =~= bytes@.skip(at as int));
        match take_key(rest) {
            Some((inner_tag, wire_type, key_size)) => {
                if wire_type == 4 {
                    return DecodeFault::UnexpectedEndGroupTag;
                }
                if limit <= 1 {
                    return DecodeFault::RecursionLimitReached;
                }
                let after = vstd::slice::slice_subrange(rest, key_size, rest.len());
                assert(after@ =~= rest@.skip(key_size as int));
                match take_value(after, inner_tag, wire_type, limit - 1) {
                    Some((_value, size)) => {
                        let next: usize = at + key_size + size;
                        assert(after@.skip(size as int) =~= bytes@.skip(next as int));
                        at = next;
                    },
                    None => {
                        return find_value_fault(after, inner_tag, wire_type, limit - 1);
                    },
                }
            },
            None => {
                return find_key_fault(rest);
            },
        }
    }
}

fn take_length(bytes: &[u8]) -> (result: Result<(usize, usize), DecodeFault>)
    ensures
        match result {
            Ok((length, size)) => read_length(bytes@) == Ok::<(nat, nat), DecodeFault>(
                (length as nat, size as nat),
            ) && 1 <= size && size + length <= bytes@.len() <= usize::MAX,
            Err(fault) => read_length(bytes@) == Err::<(nat, nat), DecodeFault>(fault),
        },
{
    match take_varint(bytes) {
        Some((length, size)) => if length <= (bytes.len() - size) as u64 {
            Ok((length as usize, size))
        } else {
            Err(DecodeFault::BufferUnderflow)
        },
        None => Err(DecodeFault::InvalidVarint),
    }
}

/// The size of a value, or the error.
pub open spec fn outcome_model(outcome: Result<usize, DecodeError>) -> Result<
    nat,
    DecodeErrorModel,
> {
    match outcome {
        Ok(size) => Ok(size as nat),
        Err(error) => Err(error@),
    }
}

fn find_field_outcome<M: WireShape>(bytes: &[u8], tag: u32, wire_type: u32, limit: u32) -> (outcome:
    Result<usize, DecodeError>)
    ensures
        outcome_model(outcome) == field_outcome::<M>(bytes@, tag, wire_type, limit as nat),
        outcome matches Ok(size) ==> size <= bytes@.len(),
{
    let (kind, place) = M::shape(tag);
    match kind {
        FieldKind::Unknown => {
            return match take_value(bytes, tag, wire_type, limit) {
                Some((_value, size)) => Ok(size),
                None => Err(DecodeError::at(find_value_fault(bytes, tag, wire_type, limit))),
            };
        },
        FieldKind::Number => {
            if wire_type != 0 {
                let fault = DecodeFault::UnexpectedWireType { actual: wire_type, expected: 0 };
                return Err(DecodeError::at(fault).within(place));
            }
            return match take_varint(bytes) {
                Some((_value, size)) => Ok(size),
                None => Err(DecodeError::at(DecodeFault::InvalidVarint).within(place)),
            };
        },
        _ => {},
    }
    if wire_type != 2 {
        let fault = DecodeFault::UnexpectedWireType { actual: wire_type, expected: 2 };
        return Err(DecodeError::at(fault).within(place));
    }
    if kind == FieldKind::Message && limit <= 1 {
        return Err(DecodeError::at(DecodeFault::RecursionLimitReached).within(place));
    }
    match take_length(bytes) {
        Ok((length, size)) => {
            let end: usize = size + length;
            if kind == FieldKind::Text {
                let value = vstd::slice::slice_subrange(bytes, size, end);
                if owned_string(value).is_none() {
                    return Err(DecodeError::at(DecodeFault::InvalidString).within(place));
                }
            } else if kind == FieldKind::Message {
                let rest = vstd::slice::slice_subrange(bytes, size, bytes.len());
                assert(rest@ =~= bytes@.skip(size as int));
                match M::find_nested(tag, rest, length, limit - 1) {
                    Some(error) => {
                        return Err(error.within(place));
                    },
                    None => {},
                }
            }
            Ok(end)
        },
        Err(fault) => Err(DecodeError::at(fault).within(place)),
    }
}

fn find_fields_fault<M: WireShape>(bytes: &[u8], length: usize, limit: u32) -> (error: DecodeError)
    requires
        length <= bytes@.len(),
    ensures
        error@ == fields_fault::<M>(bytes@, length as nat, limit as nat),
{
    let mut at: usize = 0;
    assert(bytes@.skip(0) =~= bytes@);
    loop
        invariant
            at <= length <= bytes@.len(),
            fields_fault::<M>(bytes@, length as nat, limit as nat) == fields_fault::<M>(
                bytes@.skip(at as int),
                (length - at) as nat,
                limit as nat,
            ),
        decreases length - at,
    {
        let rest = vstd::slice::slice_subrange(bytes, at, bytes.len());
        assert(rest@ =~= bytes@.skip(at as int));
        match take_key(rest) {
            Some((tag, wire_type, key_size)) => {
                let after = vstd::slice::slice_subrange(rest, key_size, rest.len());
                assert(after@ =~= rest@.skip(key_size as int));
                match find_field_outcome::<M>(after, tag, wire_type, limit) {
                    Ok(size) => {
                        let used: usize = key_size + size;
                        if used >= length - at {
                            return DecodeError::at(DecodeFault::DelimitedLengthExceeded);
                        }
                        assert(rest@.skip(used as int) =~= bytes@.skip((at + used) as int));
                        at = at + used;
                    },
                    Err(error) => {
                        return error;
                    },
                }
            },
            None => {
                return DecodeError::at(find_key_fault(rest));
            },
        }
    }
}

/// What is wrong with the message of `length` bytes at the start of `bytes`, if
/// there is none.
pub fn find_message_fault<M: WireShape>(bytes: &[u8], length: usize, limit: u32) -> (error: Option<
    DecodeError,
>)
    requires
        length <= bytes@.len(),
    ensures
        error_model(error) == message_fault::<M>(bytes@, length as nat, limit as nat),
{
    let mut message = M::empty();
    let held = vstd::slice::slice_subrange(bytes, 0, length);
    assert(held@ =~= bytes@.take(length as int));
    if merge_bytes(&mut message, held, limit) {
        None
    } else {
        Some(find_fields_fault::<M>(bytes, length, limit))
    }
}

/// Why `bytes` hold no message.
pub fn find_decode_error<M: WireShape>(bytes: &[u8]) -> (error: DecodeError)
    ensures
        error@ == decode_error::<M>(bytes@),
{
    find_fields_fault::<M>(bytes, bytes.len(), RECURSION_LIMIT)
}

} // verus!
