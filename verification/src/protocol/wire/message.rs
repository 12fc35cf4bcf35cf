//! Messages: what every message of the protocol states of its bytes, and the
//! encoding and decoding that all of them share.

use super::field::{take_field, Field, WireField, WireValue, RECURSION_LIMIT};
use super::fault;
use super::fault::{find_decode_error, DecodeError, WireShape};
use super::field;
use vstd::prelude::*;

verus! {

/// A message type: how a value is written, and how one field changes a value.
pub trait WireMessage: View + Sized {
    /// The value before any field was read.
    spec fn initial() -> Self::V;

    /// The bytes of a value.
    spec fn wire(model: Self::V) -> Seq<u8>;

    /// The value after one more field, or `None` where the field is refused.
    spec fn merge(model: Self::V, field: WireField, limit: nat) -> Option<Self::V>;

    fn empty() -> (message: Self)
        ensures
            message@ == Self::initial(),
    ;

    fn put(&self, out: &mut Vec<u8>)
        ensures
            final(out)@ == old(out)@ + Self::wire(self@),
    ;

    fn take(&mut self, field: &Field<'_>, limit: u32) -> (accepted: bool)
        ensures
            accepted ==> Self::merge(old(self)@, field@, limit as nat) == Some(final(self)@),
            !accepted ==> Self::merge(old(self)@, field@, limit as nat) is None,
    ;
}

/// The value after every field of `bytes`, or `None` where one is malformed or refused.
pub open spec fn merge_all<M: WireMessage>(model: M::V, bytes: Seq<u8>, limit: nat) -> Option<M::V>
    decreases bytes.len(),
{
    if bytes.len() == 0 {
        Some(model)
    } else {
        match field::read_field(bytes, limit) {
            Some((item, size)) => match M::merge(model, item, limit) {
                Some(next) => if 1 <= size <= bytes.len() {
                    merge_all::<M>(next, bytes.skip(size as int), limit)
                } else {
                    None
                },
                None => None,
            },
            None => None,
        }
    }
}

/// The value that `bytes` hold, if they hold one.
pub open spec fn decoded<M: WireMessage>(bytes: Seq<u8>) -> Option<M::V> {
    merge_all::<M>(M::initial(), bytes, RECURSION_LIMIT as nat)
}

/// A message in a message: its fields change the value at hand.
pub open spec fn merge_nested<M: WireMessage>(
    model: M::V,
    value: WireValue,
    limit: nat,
) -> Option<M::V> {
    match value {
        WireValue::Bytes(bytes) => if limit <= 1 {
            None
        } else {
            merge_all::<M>(model, bytes, (limit - 1) as nat)
        },
        _ => None,
    }
}

/// The bytes of the messages in `models`, each as a field of `tag`.
pub open spec fn repeated_field<M: WireMessage>(tag: u32, models: Seq<M::V>) -> Seq<u8>
    decreases models.len(),
{
    if models.len() == 0 {
        Seq::empty()
    } else {
        field::delimited_field(tag, M::wire(models[0])) + repeated_field::<M>(
            tag,
            models.skip(1),
        )
    }
}

/// The bytes of an optional message.
pub open spec fn optional_field<M: WireMessage>(tag: u32, model: Option<M::V>) -> Seq<u8> {
    match model {
        Some(model) => field::delimited_field(tag, M::wire(model)),
        None => Seq::empty(),
    }
}

/// Reads every field of `bytes` into `message`.
pub fn merge_bytes<M: WireMessage>(message: &mut M, bytes: &[u8], limit: u32) -> (accepted: bool)
    ensures
        accepted ==> merge_all::<M>(old(message)@, bytes@, limit as nat) == Some(final(message)@),
        !accepted ==> merge_all::<M>(old(message)@, bytes@, limit as nat) is None,
{
    let mut at: usize = 0;
    assert(bytes@.skip(0) =~= bytes@);
    while at < bytes.len()
        invariant
            at <= bytes@.len(),
            merge_all::<M>(old(message)@, bytes@, limit as nat) == merge_all::<M>(
                message@,
                bytes@.skip(at as int),
                limit as nat,
            ),
        decreases bytes@.len() - at,
    {
        let rest = vstd::slice::slice_subrange(bytes, at, bytes.len());
        assert(rest@ =~= bytes@.skip(at as int));
        match take_field(rest, limit) {
            Some((field, size)) => {
                if !message.take(&field, limit) {
                    return false;
                }
                assert(rest@.skip(size as int) =~= bytes@.skip((at + size) as int));
                at = at + size;
            },
            None => {
                return false;
            },
        }
    }
    assert(bytes@.skip(at as int).len() == 0);
    true
}

/// Reads the fields of a nested message into `message`.
pub fn take_nested<M: WireMessage>(
    message: &mut M,
    value: &field::FieldValue<'_>,
    limit: u32,
) -> (accepted: bool)
    ensures
        accepted ==> merge_nested::<M>(old(message)@, value@, limit as nat) == Some(
            final(message)@,
        ),
        !accepted ==> merge_nested::<M>(old(message)@, value@, limit as nat) is None,
{
    match value {
        field::FieldValue::Bytes(bytes) => if limit <= 1 {
            false
        } else {
            merge_bytes(message, bytes, limit - 1)
        },
        _ => false,
    }
}

/// Appends `message` as a length-delimited field.
pub fn put_nested<M: WireMessage>(out: &mut Vec<u8>, tag: u32, message: &M)
    requires
        field::valid_tag(tag),
    ensures
        final(out)@ == old(out)@ + field::delimited_field(tag, M::wire(message@)),
{
    let mut bytes: Vec<u8> = Vec::new();
    message.put(&mut bytes);
    assert(bytes@ =~= M::wire(message@));
    field::put_delimited_field(out, tag, bytes.as_slice());
}

proof fn lemma_repeated_push<M: WireMessage>(tag: u32, models: Seq<M::V>, last: M::V)
    ensures
        repeated_field::<M>(tag, models.push(last)) == repeated_field::<M>(tag, models)
            + field::delimited_field(tag, M::wire(last)),
    decreases models.len(),
{
    if models.len() == 0 {
        assert(models.push(last).skip(1) =~= models);
        assert(repeated_field::<M>(tag, models.push(last)) =~= repeated_field::<M>(tag, models)
            + field::delimited_field(tag, M::wire(last)));
    } else {
        lemma_repeated_push::<M>(tag, models.skip(1), last);
        assert(models.push(last).skip(1) =~= models.skip(1).push(last));
        assert(repeated_field::<M>(tag, models.push(last)) =~= repeated_field::<M>(tag, models)
            + field::delimited_field(tag, M::wire(last)));
    }
}

/// Appends each of `messages` as a length-delimited field.
pub fn put_repeated<M: WireMessage>(out: &mut Vec<u8>, tag: u32, messages: &Vec<M>)
    requires
        field::valid_tag(tag),
    ensures
        final(out)@ == old(out)@ + repeated_field::<M>(
            tag,
            messages@.map_values(|message: M| message@),
        ),
{
    let ghost models = messages@.map_values(|message: M| message@);
    let mut index: usize = 0;
    assert(models.take(0) =~= Seq::<M::V>::empty());
    assert(out@ =~= old(out)@ + repeated_field::<M>(tag, models.take(0)));
    while index < messages.len()
        invariant
            index <= messages@.len(),
            models == messages@.map_values(|message: M| message@),
            field::valid_tag(tag),
            out@ == old(out)@ + repeated_field::<M>(tag, models.take(index as int)),
        decreases messages@.len() - index,
    {
        let ghost before = out@;
        put_nested(out, tag, &messages[index]);
        proof {
            lemma_repeated_push::<M>(tag, models.take(index as int), models[index as int]);
            assert(models.take(index as int).push(models[index as int]) =~= models.take(
                index + 1,
            ));
            assert(out@ =~= old(out)@ + repeated_field::<M>(tag, models.take(index + 1)));
        }
        index = index + 1;
    }
    assert(models.take(index as int) =~= models);
}

/// Concatenating the bytes of two messages merges the messages.
pub proof fn lemma_concatenation_merges<M: WireMessage>(
    model: M::V,
    first: Seq<u8>,
    second: Seq<u8>,
    limit: nat,
)
    requires
        merge_all::<M>(model, first, limit) is Some,
    ensures
        merge_all::<M>(model, first + second, limit) == merge_all::<M>(
            merge_all::<M>(model, first, limit)->0,
            second,
            limit,
        ),
    decreases first.len(),
{
    if first.len() == 0 {
        assert(first + second =~= second);
    } else {
        field::lemma_read_field_prefix(first, second, limit);
        field::lemma_read_field_size(first, limit);
        let (field, size) = field::read_field(first, limit)->0;
        assert((first + second).skip(size as int) =~= first.skip(size as int) + second);
        let next = M::merge(model, field, limit)->0;
        lemma_concatenation_merges::<M>(next, first.skip(size as int), second, limit);
    }
}

proof fn lemma_one_field<M: WireMessage>(
    model: M::V,
    bytes: Seq<u8>,
    field: WireField,
    next: M::V,
    limit: nat,
)
    requires
        field::read_field(bytes, limit) == Some((field, bytes.len())),
        M::merge(model, field, limit) == Some(next),
    ensures
        merge_all::<M>(model, bytes, limit) == Some(next),
{
    field::lemma_read_field_size(bytes, limit);
    let rest = bytes.skip(bytes.len() as int);
    assert(merge_all::<M>(next, rest, limit) == Some(next));
}

/// One more integer field after `prefix`.
pub proof fn lemma_after_varint<M: WireMessage>(
    start: M::V,
    prefix: Seq<u8>,
    model: M::V,
    tag: u32,
    value: u64,
    next: M::V,
    limit: nat,
)
    requires
        field::valid_tag(tag),
        merge_all::<M>(start, prefix, limit) == Some(model),
        value == 0 ==> next == model,
        value != 0 ==> M::merge(
            model,
            (WireField { tag, value: WireValue::Varint(value) }),
            limit,
        ) == Some(next),
    ensures
        merge_all::<M>(start, prefix + field::varint_field(tag, value), limit) == Some(next),
{
    let bytes = field::varint_field(tag, value);
    lemma_concatenation_merges::<M>(start, prefix, bytes, limit);
    if value != 0 {
        field::lemma_read_varint_field(tag, value, Seq::empty(), limit);
        assert(bytes + Seq::<u8>::empty() =~= bytes);
        let field = WireField { tag, value: WireValue::Varint(value) };
        lemma_one_field::<M>(model, bytes, field, next, limit);
    }
}

/// One more length-delimited field after `prefix`.
pub proof fn lemma_after_delimited<M: WireMessage>(
    start: M::V,
    prefix: Seq<u8>,
    model: M::V,
    tag: u32,
    value: Seq<u8>,
    next: M::V,
    limit: nat,
)
    requires
        field::valid_tag(tag),
        value.len() <= u64::MAX,
        merge_all::<M>(start, prefix, limit) == Some(model),
        M::merge(model, (WireField { tag, value: WireValue::Bytes(value) }), limit) == Some(next),
    ensures
        merge_all::<M>(start, prefix + field::delimited_field(tag, value), limit) == Some(next),
{
    let bytes = field::delimited_field(tag, value);
    lemma_concatenation_merges::<M>(start, prefix, bytes, limit);
    field::lemma_read_delimited_field(tag, value, Seq::empty(), limit);
    assert(bytes + Seq::<u8>::empty() =~= bytes);
    let field = WireField { tag, value: WireValue::Bytes(value) };
    lemma_one_field::<M>(model, bytes, field, next, limit);
}

/// One more byte-string field after `prefix`.
pub proof fn lemma_after_bytes<M: WireMessage>(
    start: M::V,
    prefix: Seq<u8>,
    model: M::V,
    tag: u32,
    value: Seq<u8>,
    next: M::V,
    limit: nat,
)
    requires
        field::valid_tag(tag),
        value.len() <= u64::MAX,
        merge_all::<M>(start, prefix, limit) == Some(model),
        value.len() == 0 ==> next == model,
        value.len() != 0 ==> M::merge(
            model,
            (WireField { tag, value: WireValue::Bytes(value) }),
            limit,
        ) == Some(next),
    ensures
        merge_all::<M>(start, prefix + field::bytes_field(tag, value), limit) == Some(next),
{
    if value.len() == 0 {
        lemma_concatenation_merges::<M>(start, prefix, field::bytes_field(tag, value), limit);
    } else {
        lemma_after_delimited::<M>(start, prefix, model, tag, value, next, limit);
    }
}

/// Reading a repeated field item by item: `after` gives the value with the
/// first so many items.
pub proof fn lemma_after_repeated<M: WireMessage, N: WireMessage>(
    start: M::V,
    prefix: Seq<u8>,
    tag: u32,
    items: Seq<N::V>,
    after: spec_fn(int) -> M::V,
    limit: nat,
)
    requires
        field::valid_tag(tag),
        repeated_field::<N>(tag, items).len() <= u64::MAX,
        merge_all::<M>(start, prefix, limit) == Some(after(0)),
        forall|index: int|
            0 <= index < items.len() ==> M::merge(
                after(index),
                (WireField { tag, value: WireValue::Bytes(N::wire(#[trigger] items[index])) }),
                limit,
            ) == Some(after(index + 1)),
    ensures
        merge_all::<M>(start, prefix + repeated_field::<N>(tag, items), limit) == Some(
            after(items.len() as int),
        ),
    decreases items.len(),
{
    if items.len() == 0 {
        assert(prefix + repeated_field::<N>(tag, items) =~= prefix);
    } else {
        let first = field::delimited_field(tag, N::wire(items[0]));
        let rest = repeated_field::<N>(tag, items.skip(1));
        assert(N::wire(items[0]).len() <= first.len());
        lemma_after_delimited::<M>(
            start,
            prefix,
            after(0),
            tag,
            N::wire(items[0]),
            after(1),
            limit,
        );
        let shifted = |index: int| after(index + 1);
        assert forall|index: int| 0 <= index < items.skip(1).len() implies M::merge(
            shifted(index),
            (WireField { tag, value: WireValue::Bytes(N::wire(#[trigger] items.skip(1)[index])) }),
            limit,
        ) == Some(shifted(index + 1)) by {
            assert(items.skip(1)[index] == items[index + 1]);
        }
        lemma_after_repeated::<M, N>(start, prefix + first, tag, items.skip(1), shifted, limit);
        assert(prefix + repeated_field::<N>(tag, items) =~= (prefix + first) + rest);
    }
}

/// No item of a repeated field is longer than the field.
pub proof fn lemma_repeated_item_size<N: WireMessage>(tag: u32, items: Seq<N::V>, index: int)
    requires
        0 <= index < items.len(),
    ensures
        N::wire(items[index]).len() <= repeated_field::<N>(tag, items).len(),
    decreases items.len(),
{
    assert(N::wire(items[0]).len() <= field::delimited_field(tag, N::wire(items[0])).len());
    if index > 0 {
        lemma_repeated_item_size::<N>(tag, items.skip(1), index - 1);
        assert(items.skip(1)[index - 1] == items[index]);
    }
}

/// Concatenation is associative.
pub broadcast proof fn lemma_concatenation_associates(a: Seq<u8>, b: Seq<u8>, c: Seq<u8>)
    ensures
        #[trigger] ((a + b) + c) == a + (b + c),
{
    assert((a + b) + c =~= a + (b + c));
}

/// Whole-message encoding and decoding.
pub trait Message: WireShape {
    /// The bytes of the message.
    fn encode_to_vec(&self) -> (bytes: Vec<u8>)
        ensures
            bytes@ == Self::wire(self@),
    {
        let mut bytes: Vec<u8> = Vec::new();
        self.put(&mut bytes);
        assert(bytes@ =~= Self::wire(self@));
        bytes
    }

    /// The number of bytes of the message.
    fn encoded_len(&self) -> (size: usize)
        ensures
            size == Self::wire(self@).len(),
    {
        let bytes = self.encode_to_vec();
        bytes.len()
    }

    /// The message that `bytes` hold.
    fn decode(bytes: &[u8]) -> (result: Result<Self, DecodeError>)
        ensures
            match result {
                Ok(message) => decoded::<Self>(bytes@) == Some(message@),
                Err(error) => decoded::<Self>(bytes@) is None && error@ == fault::decode_error::<
                    Self,
                >(bytes@),
            },
    {
        let mut message = Self::empty();
        if merge_bytes(&mut message, bytes, RECURSION_LIMIT) {
            Ok(message)
        } else {
            Err(find_decode_error::<Self>(bytes))
        }
    }
}

impl<M: WireShape> Message for M {

}

} // verus!
