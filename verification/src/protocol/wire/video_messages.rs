//! Video control, reports and packets.

use super::field;
use super::field::{put_bytes_field, put_varint_field, Field, FieldValue, WireField, WireValue};
use super::message;
use super::message::{WireMessage};
use super::scalar;
use super::enums::{VideoReconfigurationCause, VideoStreamStatus};
use crate::bytes;
use vstd::prelude::*;

verus! {

/// A request of the player about the video stream, by its number.
#[derive(Clone, Copy, Debug, PartialEq, Eq, Structural)]
pub struct VideoControl {
    pub kind: i32,
}

impl View for VideoControl {
    type V = VideoControl;

    open spec fn view(&self) -> VideoControl {
        *self
    }
}

impl Default for VideoControl {
    fn default() -> (message: Self)
        ensures
            message@ == Self::initial(),
    {
        Self::empty()
    }
}

impl WireMessage for VideoControl {
    open spec fn initial() -> VideoControl {
        VideoControl { kind: 0 }
    }

    open spec fn wire(model: VideoControl) -> Seq<u8> {
        field::varint_field(1, scalar::spec_int32_number(model.kind))
    }

    open spec fn merge(model: VideoControl, field: WireField, limit: nat) -> Option<VideoControl> {
        if field.tag == 1 {
            match field.value {
                WireValue::Varint(value) => Some(
                    VideoControl { kind: scalar::spec_int32_value(value) },
                ),
                _ => None,
            }
        } else {
            Some(model)
        }
    }

    fn empty() -> (message: Self) {
        VideoControl { kind: 0 }
    }

    fn put(&self, out: &mut Vec<u8>) {
        put_varint_field(out, 1, scalar::int32_number(self.kind));
    }

    fn take(&mut self, field: &Field<'_>, limit: u32) -> (accepted: bool) {
        if field.tag == 1 {
            match field.value {
                FieldValue::Varint(value) => {
                    self.kind = scalar::int32_value(value);
                    true
                },
                _ => false,
            }
        } else {
            true
        }
    }
}

impl VideoControl {
    /// A written message is read back.
    pub proof fn lemma_round_trip(model: VideoControl, limit: nat)
        requires
            limit >= 1,
            Self::wire(model).len() <= u64::MAX,
        ensures
            message::merge_all::<Self>(Self::initial(), Self::wire(model), limit) == Some(model),
    {
        let start = Self::initial();
        let at_kind = VideoControl { kind: model.kind };
        scalar::lemma_int32_round_trip(model.kind);
        message::lemma_after_varint::<Self>(
            start,
            Seq::<u8>::empty(),
            start,
            1,
            scalar::spec_int32_number(model.kind),
            at_kind,
            limit,
        );
        assert(Seq::<u8>::empty() + field::varint_field(1, scalar::spec_int32_number(model.kind))
            =~= field::varint_field(1, scalar::spec_int32_number(model.kind)));
        assert(at_kind == model);
    }
}

/// The state of the video stream and its cause, by their numbers.
#[derive(Clone, Copy, Debug, PartialEq, Eq, Structural)]
pub struct VideoStreamState {
    pub status: i32,
    pub cause: i32,
}

impl View for VideoStreamState {
    type V = VideoStreamState;

    open spec fn view(&self) -> VideoStreamState {
        *self
    }
}

impl Default for VideoStreamState {
    fn default() -> (message: Self)
        ensures
            message@ == Self::initial(),
    {
        Self::empty()
    }
}

impl WireMessage for VideoStreamState {
    open spec fn initial() -> VideoStreamState {
        VideoStreamState { status: 0, cause: 0 }
    }

    open spec fn wire(model: VideoStreamState) -> Seq<u8> {
        field::varint_field(1, scalar::spec_int32_number(model.status))
            + field::varint_field(2, scalar::spec_int32_number(model.cause))
    }

    open spec fn merge(
        model: VideoStreamState,
        field: WireField,
        limit: nat,
    ) -> Option<VideoStreamState> {
        if field.tag == 1 {
            match field.value {
                WireValue::Varint(value) => Some(
                    VideoStreamState { status: scalar::spec_int32_value(value), ..model },
                ),
                _ => None,
            }
        } else if field.tag == 2 {
            match field.value {
                WireValue::Varint(value) => Some(
                    VideoStreamState { cause: scalar::spec_int32_value(value), ..model },
                ),
                _ => None,
            }
        } else {
            Some(model)
        }
    }

    fn empty() -> (message: Self) {
        VideoStreamState { status: 0, cause: 0 }
    }

    fn put(&self, out: &mut Vec<u8>) {
        broadcast use message::lemma_concatenation_associates;

        put_varint_field(out, 1, scalar::int32_number(self.status));
        put_varint_field(out, 2, scalar::int32_number(self.cause));
    }

    fn take(&mut self, field: &Field<'_>, limit: u32) -> (accepted: bool) {
        if field.tag == 1 {
            match field.value {
                FieldValue::Varint(value) => {
                    self.status = scalar::int32_value(value);
                    true
                },
                _ => false,
            }
        } else if field.tag == 2 {
            match field.value {
                FieldValue::Varint(value) => {
                    self.cause = scalar::int32_value(value);
                    true
                },
                _ => false,
            }
        } else {
            true
        }
    }
}

impl VideoStreamState {
    /// A written message is read back.
    pub proof fn lemma_round_trip(model: VideoStreamState, limit: nat)
        requires
            limit >= 1,
            Self::wire(model).len() <= u64::MAX,
        ensures
            message::merge_all::<Self>(Self::initial(), Self::wire(model), limit) == Some(model),
    {
        let start = Self::initial();
        let at_status = VideoStreamState { status: model.status, ..start };
        scalar::lemma_int32_round_trip(model.status);
        message::lemma_after_varint::<Self>(
            start,
            Seq::<u8>::empty(),
            start,
            1,
            scalar::spec_int32_number(model.status),
            at_status,
            limit,
        );
        assert(Seq::<u8>::empty() + field::varint_field(1, scalar::spec_int32_number(model.status))
            =~= field::varint_field(1, scalar::spec_int32_number(model.status)));
        let w1 = field::varint_field(1, scalar::spec_int32_number(model.status));
        let at_cause = VideoStreamState { cause: model.cause, ..at_status };
        scalar::lemma_int32_round_trip(model.cause);
        message::lemma_after_varint::<Self>(
            start,
            w1,
            at_status,
            2,
            scalar::spec_int32_number(model.cause),
            at_cause,
            limit,
        );
        assert(at_cause == model);
    }
}

/// What the player received of the video stream.
#[derive(Clone, Copy, Debug, PartialEq, Eq, Structural)]
pub struct VideoReceiverReport {
    pub newest_sequence: u64,
    pub received_chunks: u64,
    pub lost_chunks: u64,
    pub late_chunks: u64,
    pub assembly_overflows: u64,
    pub completed_frames: u64,
    pub incomplete_frames: u64,
    pub last_completed_assembly_micros: u64,
    pub last_assembly_budget_micros: u64,
    pub completed_payload_bytes: u64,
    pub measurement_interval_micros: u64,
}

impl View for VideoReceiverReport {
    type V = VideoReceiverReport;

    open spec fn view(&self) -> VideoReceiverReport {
        *self
    }
}

impl Default for VideoReceiverReport {
    fn default() -> (message: Self)
        ensures
            message@ == Self::initial(),
    {
        Self::empty()
    }
}

impl WireMessage for VideoReceiverReport {
    open spec fn initial() -> VideoReceiverReport {
        VideoReceiverReport {
            newest_sequence: 0,
            received_chunks: 0,
            lost_chunks: 0,
            late_chunks: 0,
            assembly_overflows: 0,
            completed_frames: 0,
            incomplete_frames: 0,
            last_completed_assembly_micros: 0,
            last_assembly_budget_micros: 0,
            completed_payload_bytes: 0,
            measurement_interval_micros: 0,
        }
    }

    open spec fn wire(model: VideoReceiverReport) -> Seq<u8> {
        field::varint_field(1, model.newest_sequence)
            + field::varint_field(2, model.received_chunks)
            + field::varint_field(3, model.lost_chunks)
            + field::varint_field(4, model.late_chunks)
            + field::varint_field(5, model.assembly_overflows)
            + field::varint_field(6, model.completed_frames)
            + field::varint_field(7, model.incomplete_frames)
            + field::varint_field(8, model.last_completed_assembly_micros)
            + field::varint_field(9, model.last_assembly_budget_micros)
            + field::varint_field(10, model.completed_payload_bytes)
            + field::varint_field(11, model.measurement_interval_micros)
    }

    open spec fn merge(
        model: VideoReceiverReport,
        field: WireField,
        limit: nat,
    ) -> Option<VideoReceiverReport> {
        if field.tag == 1 {
            match field.value {
                WireValue::Varint(value) => Some(
                    VideoReceiverReport { newest_sequence: value, ..model },
                ),
                _ => None,
            }
        } else if field.tag == 2 {
            match field.value {
                WireValue::Varint(value) => Some(
                    VideoReceiverReport { received_chunks: value, ..model },
                ),
                _ => None,
            }
        } else if field.tag == 3 {
            match field.value {
                WireValue::Varint(value) => Some(
                    VideoReceiverReport { lost_chunks: value, ..model },
                ),
                _ => None,
            }
        } else if field.tag == 4 {
            match field.value {
                WireValue::Varint(value) => Some(
                    VideoReceiverReport { late_chunks: value, ..model },
                ),
                _ => None,
            }
        } else if field.tag == 5 {
            match field.value {
                WireValue::Varint(value) => Some(
                    VideoReceiverReport { assembly_overflows: value, ..model },
                ),
                _ => None,
            }
        } else if field.tag == 6 {
            match field.value {
                WireValue::Varint(value) => Some(
                    VideoReceiverReport { completed_frames: value, ..model },
                ),
                _ => None,
            }
        } else if field.tag == 7 {
            match field.value {
                WireValue::Varint(value) => Some(
                    VideoReceiverReport { incomplete_frames: value, ..model },
                ),
                _ => None,
            }
        } else if field.tag == 8 {
            match field.value {
                WireValue::Varint(value) => Some(
                    VideoReceiverReport { last_completed_assembly_micros: value, ..model },
                ),
                _ => None,
            }
        } else if field.tag == 9 {
            match field.value {
                WireValue::Varint(value) => Some(
                    VideoReceiverReport { last_assembly_budget_micros: value, ..model },
                ),
                _ => None,
            }
        } else if field.tag == 10 {
            match field.value {
                WireValue::Varint(value) => Some(
                    VideoReceiverReport { completed_payload_bytes: value, ..model },
                ),
                _ => None,
            }
        } else if field.tag == 11 {
            match field.value {
                WireValue::Varint(value) => Some(
                    VideoReceiverReport { measurement_interval_micros: value, ..model },
                ),
                _ => None,
            }
        } else {
            Some(model)
        }
    }

    fn empty() -> (message: Self) {
        VideoReceiverReport {
            newest_sequence: 0,
            received_chunks: 0,
            lost_chunks: 0,
            late_chunks: 0,
            assembly_overflows: 0,
            completed_frames: 0,
            incomplete_frames: 0,
            last_completed_assembly_micros: 0,
            last_assembly_budget_micros: 0,
            completed_payload_bytes: 0,
            measurement_interval_micros: 0,
        }
    }

    fn put(&self, out: &mut Vec<u8>) {
        broadcast use message::lemma_concatenation_associates;

        put_varint_field(out, 1, self.newest_sequence);
        put_varint_field(out, 2, self.received_chunks);
        put_varint_field(out, 3, self.lost_chunks);
        put_varint_field(out, 4, self.late_chunks);
        put_varint_field(out, 5, self.assembly_overflows);
        put_varint_field(out, 6, self.completed_frames);
        put_varint_field(out, 7, self.incomplete_frames);
        put_varint_field(out, 8, self.last_completed_assembly_micros);
        put_varint_field(out, 9, self.last_assembly_budget_micros);
        put_varint_field(out, 10, self.completed_payload_bytes);
        put_varint_field(out, 11, self.measurement_interval_micros);
    }

    fn take(&mut self, field: &Field<'_>, limit: u32) -> (accepted: bool) {
        if field.tag == 1 {
            match field.value {
                FieldValue::Varint(value) => {
                    self.newest_sequence = value;
                    true
                },
                _ => false,
            }
        } else if field.tag == 2 {
            match field.value {
                FieldValue::Varint(value) => {
                    self.received_chunks = value;
                    true
                },
                _ => false,
            }
        } else if field.tag == 3 {
            match field.value {
                FieldValue::Varint(value) => {
                    self.lost_chunks = value;
                    true
                },
                _ => false,
            }
        } else if field.tag == 4 {
            match field.value {
                FieldValue::Varint(value) => {
                    self.late_chunks = value;
                    true
                },
                _ => false,
            }
        } else if field.tag == 5 {
            match field.value {
                FieldValue::Varint(value) => {
                    self.assembly_overflows = value;
                    true
                },
                _ => false,
            }
        } else if field.tag == 6 {
            match field.value {
                FieldValue::Varint(value) => {
                    self.completed_frames = value;
                    true
                },
                _ => false,
            }
        } else if field.tag == 7 {
            match field.value {
                FieldValue::Varint(value) => {
                    self.incomplete_frames = value;
                    true
                },
                _ => false,
            }
        } else if field.tag == 8 {
            match field.value {
                FieldValue::Varint(value) => {
                    self.last_completed_assembly_micros = value;
                    true
                },
                _ => false,
            }
        } else if field.tag == 9 {
            match field.value {
                FieldValue::Varint(value) => {
                    self.last_assembly_budget_micros = value;
                    true
                },
                _ => false,
            }
        } else if field.tag == 10 {
            match field.value {
                FieldValue::Varint(value) => {
                    self.completed_payload_bytes = value;
                    true
                },
                _ => false,
            }
        } else if field.tag == 11 {
            match field.value {
                FieldValue::Varint(value) => {
                    self.measurement_interval_micros = value;
                    true
                },
                _ => false,
            }
        } else {
            true
        }
    }
}

impl VideoReceiverReport {
    /// A written message is read back.
    pub proof fn lemma_round_trip(model: VideoReceiverReport, limit: nat)
        requires
            limit >= 1,
            Self::wire(model).len() <= u64::MAX,
        ensures
            message::merge_all::<Self>(Self::initial(), Self::wire(model), limit) == Some(model),
    {
        let start = Self::initial();
        let at_newest_sequence = VideoReceiverReport {
            newest_sequence: model.newest_sequence,
            ..start
        };
        message::lemma_after_varint::<Self>(
            start,
            Seq::<u8>::empty(),
            start,
            1,
            model.newest_sequence,
            at_newest_sequence,
            limit,
        );
        assert(Seq::<u8>::empty() + field::varint_field(1, model.newest_sequence)
            =~= field::varint_field(1, model.newest_sequence));
        let w1 = field::varint_field(1, model.newest_sequence);
        let at_received_chunks = VideoReceiverReport {
            received_chunks: model.received_chunks,
            ..at_newest_sequence
        };
        message::lemma_after_varint::<Self>(
            start,
            w1,
            at_newest_sequence,
            2,
            model.received_chunks,
            at_received_chunks,
            limit,
        );
        let w2 = w1 + field::varint_field(2, model.received_chunks);
        let at_lost_chunks = VideoReceiverReport {
            lost_chunks: model.lost_chunks,
            ..at_received_chunks
        };
        message::lemma_after_varint::<Self>(
            start,
            w2,
            at_received_chunks,
            3,
            model.lost_chunks,
            at_lost_chunks,
            limit,
        );
        let w3 = w2 + field::varint_field(3, model.lost_chunks);
        let at_late_chunks = VideoReceiverReport {
            late_chunks: model.late_chunks,
            ..at_lost_chunks
        };
        message::lemma_after_varint::<Self>(
            start,
            w3,
            at_lost_chunks,
            4,
            model.late_chunks,
            at_late_chunks,
            limit,
        );
        let w4 = w3 + field::varint_field(4, model.late_chunks);
        let at_assembly_overflows = VideoReceiverReport {
            assembly_overflows: model.assembly_overflows,
            ..at_late_chunks
        };
        message::lemma_after_varint::<Self>(
            start,
            w4,
            at_late_chunks,
            5,
            model.assembly_overflows,
            at_assembly_overflows,
            limit,
        );
        let w5 = w4 + field::varint_field(5, model.assembly_overflows);
        let at_completed_frames = VideoReceiverReport {
            completed_frames: model.completed_frames,
            ..at_assembly_overflows
        };
        message::lemma_after_varint::<Self>(
            start,
            w5,
            at_assembly_overflows,
            6,
            model.completed_frames,
            at_completed_frames,
            limit,
        );
        let w6 = w5 + field::varint_field(6, model.completed_frames);
        let at_incomplete_frames = VideoReceiverReport {
            incomplete_frames: model.incomplete_frames,
            ..at_completed_frames
        };
        message::lemma_after_varint::<Self>(
            start,
            w6,
            at_completed_frames,
            7,
            model.incomplete_frames,
            at_incomplete_frames,
            limit,
        );
        let w7 = w6 + field::varint_field(7, model.incomplete_frames);
        let at_last_completed_assembly_micros = VideoReceiverReport {
            last_completed_assembly_micros: model.last_completed_assembly_micros,
            ..at_incomplete_frames
        };
        message::lemma_after_varint::<Self>(
            start,
            w7,
            at_incomplete_frames,
            8,
            model.last_completed_assembly_micros,
            at_last_completed_assembly_micros,
            limit,
        );
        let w8 = w7 + field::varint_field(8, model.last_completed_assembly_micros);
        let at_last_assembly_budget_micros = VideoReceiverReport {
            last_assembly_budget_micros: model.last_assembly_budget_micros,
            ..at_last_completed_assembly_micros
        };
        message::lemma_after_varint::<Self>(
            start,
            w8,
            at_last_completed_assembly_micros,
            9,
            model.last_assembly_budget_micros,
            at_last_assembly_budget_micros,
            limit,
        );
        let w9 = w8 + field::varint_field(9, model.last_assembly_budget_micros);
        let at_completed_payload_bytes = VideoReceiverReport {
            completed_payload_bytes: model.completed_payload_bytes,
            ..at_last_assembly_budget_micros
        };
        message::lemma_after_varint::<Self>(
            start,
            w9,
            at_last_assembly_budget_micros,
            10,
            model.completed_payload_bytes,
            at_completed_payload_bytes,
            limit,
        );
        let w10 = w9 + field::varint_field(10, model.completed_payload_bytes);
        let at_measurement_interval_micros = VideoReceiverReport {
            measurement_interval_micros: model.measurement_interval_micros,
            ..at_completed_payload_bytes
        };
        message::lemma_after_varint::<Self>(
            start,
            w10,
            at_completed_payload_bytes,
            11,
            model.measurement_interval_micros,
            at_measurement_interval_micros,
            limit,
        );
        assert(at_measurement_interval_micros == model);
    }
}

/// One encoded picture.
#[derive(Clone, Debug, PartialEq)]
pub struct EncodedVideoPacket {
    pub sequence: u64,
    pub captured_at_micros: u64,
    pub keyframe: bool,
    pub payload: Vec<u8>,
}

/// The contents of a [`EncodedVideoPacket`].
#[verifier::ext_equal]
pub struct EncodedVideoPacketModel {
    pub sequence: u64,
    pub captured_at_micros: u64,
    pub keyframe: bool,
    pub payload: Seq<u8>,
}

impl View for EncodedVideoPacket {
    type V = EncodedVideoPacketModel;

    open spec fn view(&self) -> EncodedVideoPacketModel {
        EncodedVideoPacketModel {
            sequence: self.sequence,
            captured_at_micros: self.captured_at_micros,
            keyframe: self.keyframe,
            payload: self.payload@,
        }
    }
}

impl Default for EncodedVideoPacket {
    fn default() -> (message: Self)
        ensures
            message@ == Self::initial(),
    {
        Self::empty()
    }
}

impl WireMessage for EncodedVideoPacket {
    open spec fn initial() -> EncodedVideoPacketModel {
        EncodedVideoPacketModel {
            sequence: 0,
            captured_at_micros: 0,
            keyframe: false,
            payload: Seq::empty(),
        }
    }

    open spec fn wire(model: EncodedVideoPacketModel) -> Seq<u8> {
        field::varint_field(1, model.sequence)
            + field::varint_field(2, model.captured_at_micros)
            + field::varint_field(3, scalar::spec_bool_number(model.keyframe))
            + field::bytes_field(4, model.payload)
    }

    open spec fn merge(
        model: EncodedVideoPacketModel,
        field: WireField,
        limit: nat,
    ) -> Option<EncodedVideoPacketModel> {
        if field.tag == 1 {
            match field.value {
                WireValue::Varint(value) => Some(
                    EncodedVideoPacketModel { sequence: value, ..model },
                ),
                _ => None,
            }
        } else if field.tag == 2 {
            match field.value {
                WireValue::Varint(value) => Some(
                    EncodedVideoPacketModel { captured_at_micros: value, ..model },
                ),
                _ => None,
            }
        } else if field.tag == 3 {
            match field.value {
                WireValue::Varint(value) => Some(
                    EncodedVideoPacketModel { keyframe: value != 0, ..model },
                ),
                _ => None,
            }
        } else if field.tag == 4 {
            match field.value {
                WireValue::Bytes(value) => Some(
                    EncodedVideoPacketModel { payload: value, ..model },
                ),
                _ => None,
            }
        } else {
            Some(model)
        }
    }

    fn empty() -> (message: Self) {
        EncodedVideoPacket {
            sequence: 0,
            captured_at_micros: 0,
            keyframe: false,
            payload: Vec::new(),
        }
    }

    fn put(&self, out: &mut Vec<u8>) {
        broadcast use message::lemma_concatenation_associates;

        put_varint_field(out, 1, self.sequence);
        put_varint_field(out, 2, self.captured_at_micros);
        put_varint_field(out, 3, scalar::bool_number(self.keyframe));
        put_bytes_field(out, 4, self.payload.as_slice());
    }

    fn take(&mut self, field: &Field<'_>, limit: u32) -> (accepted: bool) {
        if field.tag == 1 {
            match field.value {
                FieldValue::Varint(value) => {
                    self.sequence = value;
                    true
                },
                _ => false,
            }
        } else if field.tag == 2 {
            match field.value {
                FieldValue::Varint(value) => {
                    self.captured_at_micros = value;
                    true
                },
                _ => false,
            }
        } else if field.tag == 3 {
            match field.value {
                FieldValue::Varint(value) => {
                    self.keyframe = value != 0;
                    true
                },
                _ => false,
            }
        } else if field.tag == 4 {
            match field.value {
                FieldValue::Bytes(value) => {
                    self.payload = bytes::owned(value);
                    true
                },
                _ => false,
            }
        } else {
            true
        }
    }
}

impl EncodedVideoPacket {
    /// A written message is read back.
    pub proof fn lemma_round_trip(model: EncodedVideoPacketModel, limit: nat)
        requires
            limit >= 1,
            Self::wire(model).len() <= u64::MAX,
        ensures
            message::merge_all::<Self>(Self::initial(), Self::wire(model), limit) == Some(model),
    {
        let start = Self::initial();
        let at_sequence = EncodedVideoPacketModel { sequence: model.sequence, ..start };
        message::lemma_after_varint::<Self>(
            start,
            Seq::<u8>::empty(),
            start,
            1,
            model.sequence,
            at_sequence,
            limit,
        );
        assert(Seq::<u8>::empty() + field::varint_field(1, model.sequence)
            =~= field::varint_field(1, model.sequence));
        let w1 = field::varint_field(1, model.sequence);
        let at_captured_at_micros = EncodedVideoPacketModel {
            captured_at_micros: model.captured_at_micros,
            ..at_sequence
        };
        message::lemma_after_varint::<Self>(
            start,
            w1,
            at_sequence,
            2,
            model.captured_at_micros,
            at_captured_at_micros,
            limit,
        );
        let w2 = w1 + field::varint_field(2, model.captured_at_micros);
        let at_keyframe = EncodedVideoPacketModel {
            keyframe: model.keyframe,
            ..at_captured_at_micros
        };
        message::lemma_after_varint::<Self>(
            start,
            w2,
            at_captured_at_micros,
            3,
            scalar::spec_bool_number(model.keyframe),
            at_keyframe,
            limit,
        );
        let w3 = w2 + field::varint_field(3, scalar::spec_bool_number(model.keyframe));
        let at_payload = EncodedVideoPacketModel { payload: model.payload, ..at_keyframe };
        assert(model.payload.len() <= field::bytes_field(4, model.payload).len());
        if model.payload.len() == 0 {
            assert(model.payload =~= Seq::empty());
        }
        message::lemma_after_bytes::<Self>(
            start,
            w3,
            at_keyframe,
            4,
            model.payload,
            at_payload,
            limit,
        );
        assert(at_payload =~= model);
    }
}

impl VideoStreamState {
    /// The stream has to be set up anew, for `cause`.
    #[must_use]
    pub fn reconfiguration_required(cause: VideoReconfigurationCause) -> (state: Self)
        ensures
            state == (VideoStreamState {
                status: VideoStreamStatus::ReconfigurationRequired.spec_number(),
                cause: cause.spec_number(),
            }),
    {
        VideoStreamState {
            status: VideoStreamStatus::ReconfigurationRequired.number(),
            cause: cause.number(),
        }
    }

    /// Why the stream has to be set up anew, where it has to and says why.
    #[must_use]
    pub fn reconfiguration_cause(self) -> (cause: Option<VideoReconfigurationCause>)
        ensures
            match cause {
                Some(cause) => self.status
                    == VideoStreamStatus::ReconfigurationRequired.spec_number() && self.cause
                    == cause.spec_number() && cause != VideoReconfigurationCause::Unspecified,
                None => self.status != VideoStreamStatus::ReconfigurationRequired.spec_number()
                    || forall|cause: VideoReconfigurationCause|
                    cause.spec_number() == self.cause ==> cause
                        == VideoReconfigurationCause::Unspecified,
            },
    {
        match VideoStreamStatus::try_from(self.status) {
            Ok(VideoStreamStatus::ReconfigurationRequired) => {
                match VideoReconfigurationCause::try_from(self.cause) {
                    Ok(cause) => if cause != VideoReconfigurationCause::Unspecified {
                        Some(cause)
                    } else {
                        None
                    },
                    Err(_) => None,
                }
            },
            _ => None,
        }
    }
}

/// The cause that a state was made with is read from it, unless it says nothing.
pub proof fn law_reconfiguration_cause_is_kept(
    cause: VideoReconfigurationCause,
    state: VideoStreamState,
    read: VideoReconfigurationCause,
)
    requires
        state == (VideoStreamState {
            status: VideoStreamStatus::ReconfigurationRequired.spec_number(),
            cause: cause.spec_number(),
        }),
        read.spec_number() == state.cause,
    ensures
        read == cause,
{
}

} // verus!
