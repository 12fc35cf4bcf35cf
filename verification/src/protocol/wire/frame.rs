//! Reliable frames: a big-endian length and that many bytes of one message.

use super::envelope;
use super::envelope::{put_choice, take_choice, Body, BodyModel};
use super::field;
use super::field::{Field, WireField, WireValue};
use super::message;
use super::fault;
use super::fault::{DecodeError, DecodeErrorModel, WireShape};
use super::message::{Message, WireMessage};
use super::video_messages::EncodedVideoPacket;
use crate::bytes;
use crate::bytes::{get_be, put_be};
use vstd::prelude::*;

verus! {

/// Maximum encoded Protobuf payload accepted from one reliable frame.
pub const MAX_RELIABLE_MESSAGE_SIZE: usize = 65_536;

/// Maximum encoded AV1 packet accepted by the one-frame transport proof.
pub const MAX_ENCODED_VIDEO_PACKET_SIZE: usize = 16_777_216;

/// Number of bytes in the big-endian reliable-frame length prefix.
pub const RELIABLE_FRAME_PREFIX_SIZE: usize = 4;

/// A reliable message.
#[derive(Clone, Debug, PartialEq)]
pub struct Envelope {
    pub body: Option<Body>,
}

/// The contents of an [`Envelope`].
#[verifier::ext_equal]
pub struct EnvelopeModel {
    pub body: Option<BodyModel>,
}

impl View for Envelope {
    type V = EnvelopeModel;

    open spec fn view(&self) -> EnvelopeModel {
        EnvelopeModel { body: envelope::choice_model(self.body) }
    }
}

impl Default for Envelope {
    fn default() -> (message: Self)
        ensures
            message@ == Self::initial(),
    {
        Self::empty()
    }
}

impl WireMessage for Envelope {
    open spec fn initial() -> EnvelopeModel {
        EnvelopeModel { body: None }
    }

    open spec fn wire(model: EnvelopeModel) -> Seq<u8> {
        envelope::choice_bytes(model.body)
    }

    open spec fn merge(model: EnvelopeModel, field: WireField, limit: nat) -> Option<
        EnvelopeModel,
    > {
        if envelope::is_choice_tag(field.tag) {
            match envelope::merge_choice(model.body, field, limit) {
                Some(body) => Some(EnvelopeModel { body: Some(body) }),
                None => None,
            }
        } else {
            Some(model)
        }
    }

    fn empty() -> (message: Self) {
        Envelope { body: None }
    }

    fn put(&self, out: &mut Vec<u8>) {
        put_choice(out, &self.body);
    }

    fn take(&mut self, field: &Field<'_>, limit: u32) -> (accepted: bool) {
        if 1 <= field.tag && field.tag <= 21 {
            let mut body = self.body.take();
            let accepted = take_choice(&mut body, field, limit);
            self.body = body;
            accepted
        } else {
            true
        }
    }
}

impl Envelope {
    /// A written message is read back.
    pub proof fn lemma_round_trip(model: EnvelopeModel, limit: nat)
        requires
            limit >= 4,
            Self::wire(model).len() <= u64::MAX,
        ensures
            message::merge_all::<Self>(Self::initial(), Self::wire(model), limit) == Some(model),
    {
        let start = Self::initial();
        match model.body {
            Some(body) => {
                envelope::lemma_choice_round_trip(body, limit);
                let (tag, value) = choose|tag: u32, value: Seq<u8>|
                    #![trigger field::delimited_field(tag, value)]
                    {
                        &&& envelope::is_choice_tag(tag)
                        &&& field::valid_tag(tag)
                        &&& value.len() <= u64::MAX
                        &&& envelope::choice_bytes(Some(body)) == field::delimited_field(tag, value)
                        &&& envelope::merge_choice(
                            None,
                            (WireField { tag, value: WireValue::Bytes(value) }),
                            limit,
                        ) == Some(body)
                    };
                let empty = Seq::<u8>::empty();
                message::lemma_after_delimited::<Self>(
                    start,
                    empty,
                    start,
                    tag,
                    value,
                    model,
                    limit,
                );
                assert(empty + field::delimited_field(tag, value) =~= Self::wire(model));
            },
            None => {},
        }
    }
}

/// Why a reliable frame was not written or not read.
#[derive(Clone, Debug, PartialEq, Eq)]
pub enum ReliableFrameError {
    PayloadTooLarge { size: usize, maximum: usize },
    TruncatedPrefix { size: usize },
    LengthMismatch { declared: usize, actual: usize },
    Decode(DecodeError),
}

/// The contents of a [`ReliableFrameError`].
#[verifier::ext_equal]
pub enum ReliableFrameErrorModel {
    PayloadTooLarge { size: usize, maximum: usize },
    TruncatedPrefix { size: usize },
    LengthMismatch { declared: usize, actual: usize },
    Decode(DecodeErrorModel),
}

impl View for ReliableFrameError {
    type V = ReliableFrameErrorModel;

    open spec fn view(&self) -> ReliableFrameErrorModel {
        match *self {
            ReliableFrameError::PayloadTooLarge { size, maximum } => {
                ReliableFrameErrorModel::PayloadTooLarge { size, maximum }
            },
            ReliableFrameError::TruncatedPrefix { size } => {
                ReliableFrameErrorModel::TruncatedPrefix { size }
            },
            ReliableFrameError::LengthMismatch { declared, actual } => {
                ReliableFrameErrorModel::LengthMismatch { declared, actual }
            },
            ReliableFrameError::Decode(error) => ReliableFrameErrorModel::Decode(error@),
        }
    }
}

/// `payload` with its length in front.
pub open spec fn framed(payload: Seq<u8>) -> Seq<u8> {
    bytes::be_bytes(payload.len(), 4) + payload
}

/// The length that a frame declares.
pub open spec fn declared_size(frame: Seq<u8>) -> nat {
    bytes::be_value(frame.take(4))
}

/// What a frame of at most `maximum` payload bytes holds.
pub open spec fn read_frame<M: WireShape>(frame: Seq<u8>, maximum: usize) -> Result<
    M::V,
    ReliableFrameErrorModel,
> {
    if frame.len() < 4 {
        Err(ReliableFrameErrorModel::TruncatedPrefix { size: frame.len() as usize })
    } else if declared_size(frame) > maximum {
        Err(
            ReliableFrameErrorModel::PayloadTooLarge {
                size: declared_size(frame) as usize,
                maximum,
            },
        )
    } else if declared_size(frame) != frame.len() - 4 {
        Err(
            ReliableFrameErrorModel::LengthMismatch {
                declared: declared_size(frame) as usize,
                actual: (frame.len() - 4) as usize,
            },
        )
    } else {
        match message::decoded::<M>(frame.skip(4)) {
            Some(model) => Ok(model),
            None => Err(ReliableFrameErrorModel::Decode(fault::decode_error::<M>(frame.skip(4)))),
        }
    }
}

fn encode_frame<M: WireShape>(value: &M, maximum: usize) -> (result: Result<
    Vec<u8>,
    ReliableFrameError,
>)
    requires
        maximum < 0x1000_0000,
    ensures
        match result {
            Ok(frame) => M::wire(value@).len() <= maximum && frame@ == framed(M::wire(value@)),
            Err(error) => M::wire(value@).len() > maximum && error
                == (ReliableFrameError::PayloadTooLarge {
                size: M::wire(value@).len() as usize,
                maximum,
            }),
        },
{
    let payload = value.encode_to_vec();
    let size: usize = payload.len();
    if size > maximum {
        return Err(ReliableFrameError::PayloadTooLarge { size, maximum });
    }
    let mut frame: Vec<u8> = Vec::with_capacity(RELIABLE_FRAME_PREFIX_SIZE + size);
    put_be(&mut frame, size as u64, RELIABLE_FRAME_PREFIX_SIZE);
    frame.extend_from_slice(payload.as_slice());
    assert(frame@ =~= framed(payload@));
    Ok(frame)
}

fn decode_frame<M: WireShape>(frame: &[u8], maximum: usize) -> (result: Result<
    M,
    ReliableFrameError,
>)
    ensures
        match result {
            Ok(value) => {
                read_frame::<M>(frame@, maximum)
                    == Ok::<M::V, ReliableFrameErrorModel>(value@)
            },
            Err(error) => read_frame::<M>(frame@, maximum) == Err::<
                M::V,
                ReliableFrameErrorModel,
            >(error@),
        },
{
    if frame.len() < RELIABLE_FRAME_PREFIX_SIZE {
        return Err(ReliableFrameError::TruncatedPrefix { size: frame.len() });
    }
    proof {
        bytes::lemma_be_bounds();
    }
    let declared: usize = get_be(frame, 0, RELIABLE_FRAME_PREFIX_SIZE) as usize;
    assert(frame@.subrange(0, 4) =~= frame@.take(4));
    if declared > maximum {
        return Err(ReliableFrameError::PayloadTooLarge { size: declared, maximum });
    }
    let payload = vstd::slice::slice_subrange(frame, RELIABLE_FRAME_PREFIX_SIZE, frame.len());
    assert(payload@ =~= frame@.skip(4));
    if declared != payload.len() {
        return Err(ReliableFrameError::LengthMismatch { declared, actual: payload.len() });
    }
    match M::decode(payload) {
        Ok(value) => Ok(value),
        Err(error) => Err(ReliableFrameError::Decode(error)),
    }
}

/// Encodes one complete reliable frame with its bounded length prefix.
pub fn encode_reliable_frame(envelope: &Envelope) -> (result: Result<Vec<u8>, ReliableFrameError>)
    ensures
        match result {
            Ok(frame) => Envelope::wire(envelope@).len() <= MAX_RELIABLE_MESSAGE_SIZE && frame@
                == framed(Envelope::wire(envelope@)),
            Err(error) => Envelope::wire(envelope@).len() > MAX_RELIABLE_MESSAGE_SIZE && error
                == (ReliableFrameError::PayloadTooLarge {
                size: Envelope::wire(envelope@).len() as usize,
                maximum: MAX_RELIABLE_MESSAGE_SIZE,
            }),
        },
{
    encode_frame(envelope, MAX_RELIABLE_MESSAGE_SIZE)
}

/// Decodes one complete reliable frame after enforcing its outer size bound.
pub fn decode_reliable_frame(frame: &[u8]) -> (result: Result<Envelope, ReliableFrameError>)
    ensures
        match result {
            Ok(envelope) => read_frame::<Envelope>(frame@, MAX_RELIABLE_MESSAGE_SIZE) == Ok::<
                EnvelopeModel,
                ReliableFrameErrorModel,
            >(envelope@),
            Err(error) => read_frame::<Envelope>(frame@, MAX_RELIABLE_MESSAGE_SIZE) == Err::<
                EnvelopeModel,
                ReliableFrameErrorModel,
            >(error@),
        },
{
    decode_frame(frame, MAX_RELIABLE_MESSAGE_SIZE)
}

/// Encodes one video packet with its bounded length prefix.
pub fn encode_video_packet_frame(packet: &EncodedVideoPacket) -> (result: Result<
    Vec<u8>,
    ReliableFrameError,
>)
    ensures
        match result {
            Ok(frame) => EncodedVideoPacket::wire(packet@).len() <= MAX_ENCODED_VIDEO_PACKET_SIZE
                && frame@ == framed(EncodedVideoPacket::wire(packet@)),
            Err(error) => EncodedVideoPacket::wire(packet@).len() > MAX_ENCODED_VIDEO_PACKET_SIZE
                && error == (ReliableFrameError::PayloadTooLarge {
                size: EncodedVideoPacket::wire(packet@).len() as usize,
                maximum: MAX_ENCODED_VIDEO_PACKET_SIZE,
            }),
        },
{
    encode_frame(packet, MAX_ENCODED_VIDEO_PACKET_SIZE)
}

/// Decodes one video packet after enforcing its outer size bound.
pub fn decode_video_packet_frame(frame: &[u8]) -> (result: Result<
    EncodedVideoPacket,
    ReliableFrameError,
>)
    ensures
        match result {
            Ok(packet) => read_frame::<EncodedVideoPacket>(frame@, MAX_ENCODED_VIDEO_PACKET_SIZE)
                == Ok::<super::video_messages::EncodedVideoPacketModel, ReliableFrameErrorModel>(
                packet@,
            ),
            Err(error) => read_frame::<EncodedVideoPacket>(frame@, MAX_ENCODED_VIDEO_PACKET_SIZE)
                == Err::<super::video_messages::EncodedVideoPacketModel, ReliableFrameErrorModel>(
                error@,
            ),
        },
{
    decode_frame(frame, MAX_ENCODED_VIDEO_PACKET_SIZE)
}

proof fn lemma_framed<M: WireShape>(payload: Seq<u8>, maximum: usize)
    requires
        payload.len() <= maximum < 0x1_0000_0000,
        message::decoded::<M>(payload) is Some,
    ensures
        read_frame::<M>(framed(payload), maximum) == Ok::<M::V, ReliableFrameErrorModel>(
            message::decoded::<M>(payload)->0,
        ),
{
    let prefix = bytes::be_bytes(payload.len(), 4);
    bytes::lemma_be_bounds();
    bytes::lemma_be_round_trip(payload.len(), 4);
    assert(framed(payload).take(4) =~= prefix);
    assert(framed(payload).skip(4) =~= payload);
}

/// Every message that fits in a reliable frame is read back from its frame.
pub proof fn law_reliable_frame_round_trip(model: EnvelopeModel)
    requires
        Envelope::wire(model).len() <= MAX_RELIABLE_MESSAGE_SIZE,
    ensures
        read_frame::<Envelope>(framed(Envelope::wire(model)), MAX_RELIABLE_MESSAGE_SIZE) == Ok::<
            EnvelopeModel,
            ReliableFrameErrorModel,
        >(model),
{
    Envelope::lemma_round_trip(model, field::RECURSION_LIMIT as nat);
    lemma_framed::<Envelope>(Envelope::wire(model), MAX_RELIABLE_MESSAGE_SIZE);
}

/// Every video packet that fits in a frame is read back from its frame.
pub proof fn law_video_packet_frame_round_trip(
    model: super::video_messages::EncodedVideoPacketModel,
)
    requires
        EncodedVideoPacket::wire(model).len() <= MAX_ENCODED_VIDEO_PACKET_SIZE,
    ensures
        read_frame::<EncodedVideoPacket>(
            framed(EncodedVideoPacket::wire(model)),
            MAX_ENCODED_VIDEO_PACKET_SIZE,
        ) == Ok::<super::video_messages::EncodedVideoPacketModel, ReliableFrameErrorModel>(model),
{
    EncodedVideoPacket::lemma_round_trip(model, field::RECURSION_LIMIT as nat);
    lemma_framed::<EncodedVideoPacket>(
        EncodedVideoPacket::wire(model),
        MAX_ENCODED_VIDEO_PACKET_SIZE,
    );
}

/// A field under a tag that envelopes do not use changes nothing, wherever it is added.
pub proof fn law_unknown_fields_are_ignored(payload: Seq<u8>, extra: Seq<u8>)
    requires
        message::decoded::<Envelope>(payload) is Some,
        field::read_field(extra, field::RECURSION_LIMIT as nat) matches Some((item, size)) && size
            == extra.len() && !envelope::is_choice_tag(item.tag),
    ensures
        message::decoded::<Envelope>(payload + extra) == message::decoded::<Envelope>(payload),
{
    let limit = field::RECURSION_LIMIT as nat;
    let held = message::decoded::<Envelope>(payload)->0;
    message::lemma_concatenation_merges::<Envelope>(Envelope::initial(), payload, extra, limit);
    field::lemma_read_field_size(extra, limit);
    let rest = extra.skip(extra.len() as int);
    assert(message::merge_all::<Envelope>(held, rest, limit) == Some(held));
}

/// A frame is the size of its payload in four bytes, the highest first, and
/// the payload.
pub proof fn law_frame_layout(payload: Seq<u8>)
    requires
        payload.len() <= u32::MAX,
    ensures
        ({
            let frame = framed(payload);
            &&& frame.len() == payload.len() + 4
            &&& 0x100_0000 * frame[0] + 0x1_0000 * frame[1] + 0x100 * frame[2] + frame[3]
                == payload.len()
            &&& forall|i: int| 0 <= i < payload.len() ==> #[trigger] frame[i + 4] == payload[i]
        }),
{
    bytes::lemma_be_bounds();
    bytes::lemma_be_round_trip(payload.len(), 4);
    bytes::law_most_significant_byte_first(bytes::be_bytes(payload.len(), 4));
}

/// Which frames are refused before their message is read, and why: one without
/// a whole size, one whose size is above the limit, and one whose size is not
/// that of what follows.
pub proof fn law_why_frames_are_refused(frame: Seq<u8>, maximum: usize)
    requires
        frame.len() <= u32::MAX,
    ensures
        ({
            let size = 0x100_0000 * frame[0] + 0x1_0000 * frame[1] + 0x100 * frame[2] + frame[3];
            let result = read_frame::<Envelope>(frame, maximum);
            &&& frame.len() < 4 <==> (result matches Err(error) && error is TruncatedPrefix)
            &&& frame.len() >= 4 && size > maximum <==> (result matches Err(error)
                && error is PayloadTooLarge)
            &&& frame.len() >= 4 && size <= maximum && size != frame.len() - 4 <==> (
            result matches Err(error) && error is LengthMismatch)
            &&& result matches Err(ReliableFrameErrorModel::LengthMismatch { declared, actual })
                ==> declared == size && actual == frame.len() - 4
            &&& result matches Err(
                ReliableFrameErrorModel::PayloadTooLarge { size: found, maximum: limit },
            ) ==> found == size && limit == maximum
            &&& result matches Err(ReliableFrameErrorModel::TruncatedPrefix { size: found })
                ==> found == frame.len()
        }),
{
    if frame.len() >= 4 {
        bytes::law_most_significant_byte_first(frame.take(4));
    }
}

} // verus!
