//! Audio negotiation and state.

use super::field;
use super::field::{put_bytes_field, put_varint_field, Field, FieldValue, WireField, WireValue};
use super::message;
use super::message::{WireMessage};
use super::scalar;
use super::enums::AudioStatus;
use crate::text;
use crate::text::truncated;
use vstd::prelude::*;

verus! {

/// A form of audio transport.
#[derive(Clone, Copy, Debug, PartialEq, Eq, Structural)]
pub struct AudioConfiguration {
    pub version: u32,
    pub codec: u32,
    pub sample_rate: u32,
    pub channels: u32,
    pub packet_duration_micros: u32,
    pub bitrate_bits_per_second: u32,
}

impl View for AudioConfiguration {
    type V = AudioConfiguration;

    open spec fn view(&self) -> AudioConfiguration {
        *self
    }
}

impl Default for AudioConfiguration {
    fn default() -> (message: Self)
        ensures
            message@ == Self::initial(),
    {
        Self::empty()
    }
}

impl WireMessage for AudioConfiguration {
    open spec fn initial() -> AudioConfiguration {
        AudioConfiguration {
            version: 0,
            codec: 0,
            sample_rate: 0,
            channels: 0,
            packet_duration_micros: 0,
            bitrate_bits_per_second: 0,
        }
    }

    open spec fn wire(model: AudioConfiguration) -> Seq<u8> {
        field::varint_field(1, model.version as u64)
            + field::varint_field(2, model.codec as u64)
            + field::varint_field(3, model.sample_rate as u64)
            + field::varint_field(4, model.channels as u64)
            + field::varint_field(5, model.packet_duration_micros as u64)
            + field::varint_field(6, model.bitrate_bits_per_second as u64)
    }

    open spec fn merge(
        model: AudioConfiguration,
        field: WireField,
        limit: nat,
    ) -> Option<AudioConfiguration> {
        if field.tag == 1 {
            match field.value {
                WireValue::Varint(value) => Some(
                    AudioConfiguration { version: value as u32, ..model },
                ),
                _ => None,
            }
        } else if field.tag == 2 {
            match field.value {
                WireValue::Varint(value) => Some(
                    AudioConfiguration { codec: value as u32, ..model },
                ),
                _ => None,
            }
        } else if field.tag == 3 {
            match field.value {
                WireValue::Varint(value) => Some(
                    AudioConfiguration { sample_rate: value as u32, ..model },
                ),
                _ => None,
            }
        } else if field.tag == 4 {
            match field.value {
                WireValue::Varint(value) => Some(
                    AudioConfiguration { channels: value as u32, ..model },
                ),
                _ => None,
            }
        } else if field.tag == 5 {
            match field.value {
                WireValue::Varint(value) => Some(
                    AudioConfiguration { packet_duration_micros: value as u32, ..model },
                ),
                _ => None,
            }
        } else if field.tag == 6 {
            match field.value {
                WireValue::Varint(value) => Some(
                    AudioConfiguration { bitrate_bits_per_second: value as u32, ..model },
                ),
                _ => None,
            }
        } else {
            Some(model)
        }
    }

    fn empty() -> (message: Self) {
        AudioConfiguration {
            version: 0,
            codec: 0,
            sample_rate: 0,
            channels: 0,
            packet_duration_micros: 0,
            bitrate_bits_per_second: 0,
        }
    }

    fn put(&self, out: &mut Vec<u8>) {
        broadcast use message::lemma_concatenation_associates;

        put_varint_field(out, 1, self.version as u64);
        put_varint_field(out, 2, self.codec as u64);
        put_varint_field(out, 3, self.sample_rate as u64);
        put_varint_field(out, 4, self.channels as u64);
        put_varint_field(out, 5, self.packet_duration_micros as u64);
        put_varint_field(out, 6, self.bitrate_bits_per_second as u64);
    }

    fn take(&mut self, field: &Field<'_>, limit: u32) -> (accepted: bool) {
        if field.tag == 1 {
            match field.value {
                FieldValue::Varint(value) => {
                    self.version = value as u32;
                    true
                },
                _ => false,
            }
        } else if field.tag == 2 {
            match field.value {
                FieldValue::Varint(value) => {
                    self.codec = value as u32;
                    true
                },
                _ => false,
            }
        } else if field.tag == 3 {
            match field.value {
                FieldValue::Varint(value) => {
                    self.sample_rate = value as u32;
                    true
                },
                _ => false,
            }
        } else if field.tag == 4 {
            match field.value {
                FieldValue::Varint(value) => {
                    self.channels = value as u32;
                    true
                },
                _ => false,
            }
        } else if field.tag == 5 {
            match field.value {
                FieldValue::Varint(value) => {
                    self.packet_duration_micros = value as u32;
                    true
                },
                _ => false,
            }
        } else if field.tag == 6 {
            match field.value {
                FieldValue::Varint(value) => {
                    self.bitrate_bits_per_second = value as u32;
                    true
                },
                _ => false,
            }
        } else {
            true
        }
    }
}

impl AudioConfiguration {
    /// A written message is read back.
    pub proof fn lemma_round_trip(model: AudioConfiguration, limit: nat)
        requires
            limit >= 1,
            Self::wire(model).len() <= u64::MAX,
        ensures
            message::merge_all::<Self>(Self::initial(), Self::wire(model), limit) == Some(model),
    {
        let start = Self::initial();
        let at_version = AudioConfiguration { version: model.version, ..start };
        message::lemma_after_varint::<Self>(
            start,
            Seq::<u8>::empty(),
            start,
            1,
            model.version as u64,
            at_version,
            limit,
        );
        assert(Seq::<u8>::empty() + field::varint_field(1, model.version as u64)
            =~= field::varint_field(1, model.version as u64));
        let w1 = field::varint_field(1, model.version as u64);
        let at_codec = AudioConfiguration { codec: model.codec, ..at_version };
        message::lemma_after_varint::<Self>(
            start,
            w1,
            at_version,
            2,
            model.codec as u64,
            at_codec,
            limit,
        );
        let w2 = w1 + field::varint_field(2, model.codec as u64);
        let at_sample_rate = AudioConfiguration { sample_rate: model.sample_rate, ..at_codec };
        message::lemma_after_varint::<Self>(
            start,
            w2,
            at_codec,
            3,
            model.sample_rate as u64,
            at_sample_rate,
            limit,
        );
        let w3 = w2 + field::varint_field(3, model.sample_rate as u64);
        let at_channels = AudioConfiguration { channels: model.channels, ..at_sample_rate };
        message::lemma_after_varint::<Self>(
            start,
            w3,
            at_sample_rate,
            4,
            model.channels as u64,
            at_channels,
            limit,
        );
        let w4 = w3 + field::varint_field(4, model.channels as u64);
        let at_packet_duration_micros = AudioConfiguration {
            packet_duration_micros: model.packet_duration_micros,
            ..at_channels
        };
        message::lemma_after_varint::<Self>(
            start,
            w4,
            at_channels,
            5,
            model.packet_duration_micros as u64,
            at_packet_duration_micros,
            limit,
        );
        let w5 = w4 + field::varint_field(5, model.packet_duration_micros as u64);
        let at_bitrate_bits_per_second = AudioConfiguration {
            bitrate_bits_per_second: model.bitrate_bits_per_second,
            ..at_packet_duration_micros
        };
        message::lemma_after_varint::<Self>(
            start,
            w5,
            at_packet_duration_micros,
            6,
            model.bitrate_bits_per_second as u64,
            at_bitrate_bits_per_second,
            limit,
        );
        assert(at_bitrate_bits_per_second == model);
    }
}

/// The state of the audio stream.
#[derive(Clone, Debug, PartialEq)]
pub struct AudioStreamState {
    pub generation: u64,
    pub status: i32,
    pub dropped_packets: u64,
    pub detail: String,
}

/// The contents of a [`AudioStreamState`].
#[verifier::ext_equal]
pub struct AudioStreamStateModel {
    pub generation: u64,
    pub status: i32,
    pub dropped_packets: u64,
    pub detail: Seq<char>,
}

impl View for AudioStreamState {
    type V = AudioStreamStateModel;

    open spec fn view(&self) -> AudioStreamStateModel {
        AudioStreamStateModel {
            generation: self.generation,
            status: self.status,
            dropped_packets: self.dropped_packets,
            detail: self.detail@,
        }
    }
}

impl Default for AudioStreamState {
    fn default() -> (message: Self)
        ensures
            message@ == Self::initial(),
    {
        Self::empty()
    }
}

impl WireMessage for AudioStreamState {
    open spec fn initial() -> AudioStreamStateModel {
        AudioStreamStateModel { generation: 0, status: 0, dropped_packets: 0, detail: Seq::empty() }
    }

    open spec fn wire(model: AudioStreamStateModel) -> Seq<u8> {
        field::varint_field(1, model.generation)
            + field::varint_field(2, scalar::spec_int32_number(model.status))
            + field::varint_field(3, model.dropped_packets)
            + field::bytes_field(4, vstd::utf8::encode_utf8(model.detail))
    }

    open spec fn merge(
        model: AudioStreamStateModel,
        field: WireField,
        limit: nat,
    ) -> Option<AudioStreamStateModel> {
        if field.tag == 1 {
            match field.value {
                WireValue::Varint(value) => Some(
                    AudioStreamStateModel { generation: value, ..model },
                ),
                _ => None,
            }
        } else if field.tag == 2 {
            match field.value {
                WireValue::Varint(value) => Some(
                    AudioStreamStateModel { status: scalar::spec_int32_value(value), ..model },
                ),
                _ => None,
            }
        } else if field.tag == 3 {
            match field.value {
                WireValue::Varint(value) => Some(
                    AudioStreamStateModel { dropped_packets: value, ..model },
                ),
                _ => None,
            }
        } else if field.tag == 4 {
            match field.value {
                WireValue::Bytes(value) => if vstd::utf8::valid_utf8(value) {
                    Some(AudioStreamStateModel { detail: vstd::utf8::decode_utf8(value), ..model })
                } else {
                    None
                },
                _ => None,
            }
        } else {
            Some(model)
        }
    }

    fn empty() -> (message: Self) {
        AudioStreamState { generation: 0, status: 0, dropped_packets: 0, detail: String::new() }
    }

    fn put(&self, out: &mut Vec<u8>) {
        broadcast use message::lemma_concatenation_associates;

        put_varint_field(out, 1, self.generation);
        put_varint_field(out, 2, scalar::int32_number(self.status));
        put_varint_field(out, 3, self.dropped_packets);
        put_bytes_field(out, 4, self.detail.as_str().as_bytes());
    }

    fn take(&mut self, field: &Field<'_>, limit: u32) -> (accepted: bool) {
        if field.tag == 1 {
            match field.value {
                FieldValue::Varint(value) => {
                    self.generation = value;
                    true
                },
                _ => false,
            }
        } else if field.tag == 2 {
            match field.value {
                FieldValue::Varint(value) => {
                    self.status = scalar::int32_value(value);
                    true
                },
                _ => false,
            }
        } else if field.tag == 3 {
            match field.value {
                FieldValue::Varint(value) => {
                    self.dropped_packets = value;
                    true
                },
                _ => false,
            }
        } else if field.tag == 4 {
            match field.value {
                FieldValue::Bytes(value) => match text::owned_string(value) {
                    Some(text) => {
                        self.detail = text;
                        true
                    },
                    None => false,
                },
                _ => false,
            }
        } else {
            true
        }
    }
}

impl AudioStreamState {
    /// A written message is read back.
    pub proof fn lemma_round_trip(model: AudioStreamStateModel, limit: nat)
        requires
            limit >= 1,
            Self::wire(model).len() <= u64::MAX,
        ensures
            message::merge_all::<Self>(Self::initial(), Self::wire(model), limit) == Some(model),
    {
        let start = Self::initial();
        let at_generation = AudioStreamStateModel { generation: model.generation, ..start };
        message::lemma_after_varint::<Self>(
            start,
            Seq::<u8>::empty(),
            start,
            1,
            model.generation,
            at_generation,
            limit,
        );
        assert(Seq::<u8>::empty() + field::varint_field(1, model.generation)
            =~= field::varint_field(1, model.generation));
        let w1 = field::varint_field(1, model.generation);
        let at_status = AudioStreamStateModel { status: model.status, ..at_generation };
        scalar::lemma_int32_round_trip(model.status);
        message::lemma_after_varint::<Self>(
            start,
            w1,
            at_generation,
            2,
            scalar::spec_int32_number(model.status),
            at_status,
            limit,
        );
        let w2 = w1 + field::varint_field(2, scalar::spec_int32_number(model.status));
        let at_dropped_packets = AudioStreamStateModel {
            dropped_packets: model.dropped_packets,
            ..at_status
        };
        message::lemma_after_varint::<Self>(
            start,
            w2,
            at_status,
            3,
            model.dropped_packets,
            at_dropped_packets,
            limit,
        );
        let w3 = w2 + field::varint_field(3, model.dropped_packets);
        let at_detail = AudioStreamStateModel { detail: model.detail, ..at_dropped_packets };
        let detail_bytes = vstd::utf8::encode_utf8(model.detail);
        text::lemma_text_round_trip(model.detail);
        assert(detail_bytes.len() <= field::bytes_field(4, detail_bytes).len());
        if detail_bytes.len() == 0 {
            assert(model.detail =~= Seq::empty());
        }
        message::lemma_after_bytes::<Self>(
            start,
            w3,
            at_dropped_packets,
            4,
            detail_bytes,
            at_detail,
            limit,
        );
        assert(at_detail =~= model);
    }
}

impl AudioConfiguration {
    pub open spec fn spec_standard() -> AudioConfiguration {
        AudioConfiguration {
            version: 1,
            codec: 1,
            sample_rate: 48_000,
            channels: 2,
            packet_duration_micros: 10_000,
            bitrate_bits_per_second: 128_000,
        }
    }

    /// The one configuration in use: Opus, 48 kHz stereo, 10 ms packets at 128 kbit/s.
    pub fn standard() -> (configuration: AudioConfiguration)
        ensures
            configuration == AudioConfiguration::spec_standard(),
    {
        AudioConfiguration {
            version: 1,
            codec: 1,
            sample_rate: 48_000,
            channels: 2,
            packet_duration_micros: 10_000,
            bitrate_bits_per_second: 128_000,
        }
    }

    /// Only the standard configuration is supported.
    pub fn supported(self) -> (result: bool)
        ensures
            result == (self == AudioConfiguration::spec_standard()),
    {
        self == AudioConfiguration::standard()
    }
}

/// Most bytes of a state's detail.
pub const MAX_DETAIL_SIZE: usize = 256;

impl AudioStreamState {
    /// A state whose detail is cut to 256 bytes, between two characters.
    pub fn new(
        generation: u64,
        status: AudioStatus,
        dropped_packets: u64,
        detail: String,
    ) -> (state: Self)
        ensures
            state.generation == generation,
            state.status == status.spec_number(),
            state.dropped_packets == dropped_packets,
            text::is_truncated(state.detail@, detail@, MAX_DETAIL_SIZE as int),
    {
        AudioStreamState {
            generation,
            status: status.number(),
            dropped_packets,
            detail: truncated(detail.as_str(), MAX_DETAIL_SIZE),
        }
    }

    /// The detail is bounded and the status is known.
    pub fn valid(&self) -> (result: bool)
        ensures
            result == (vstd::utf8::encode_utf8(self.detail@).len() <= MAX_DETAIL_SIZE
                && AudioStatus::is_number(self.status)),
    {
        let short = self.detail.as_str().as_bytes().len() <= MAX_DETAIL_SIZE;
        match AudioStatus::try_from(self.status) {
            Ok(_) => short,
            Err(_) => false,
        }
    }
}

/// Every state that is made is valid, and a detail of at most 256 bytes is kept whole.
pub proof fn law_new_states_are_valid(detail: Seq<char>, kept: Seq<char>, status: AudioStatus)
    requires
        text::is_truncated(kept, detail, MAX_DETAIL_SIZE as int),
    ensures
        text::byte_length(kept) <= MAX_DETAIL_SIZE,
        text::byte_length(detail) <= MAX_DETAIL_SIZE ==> kept == detail,
        AudioStatus::is_number(status.spec_number()),
{
    text::lemma_truncated(kept, detail, MAX_DETAIL_SIZE as int);
}

} // verus!
