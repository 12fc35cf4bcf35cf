//! Negotiation of the video stream.

use super::field;
use super::field::{put_varint_field, Field, FieldValue, WireField, WireValue};
use super::message;
use super::message::{put_nested, put_repeated, take_nested, WireMessage};
use super::scalar;
use super::audio_messages::AudioConfiguration;
use vstd::prelude::*;

verus! {

/// One mode that a codec supports, and its limits.
#[derive(Clone, Copy, Debug, PartialEq, Eq, Structural)]
pub struct Av1HardwareCapability {
    pub chroma_subsampling: i32,
    pub bit_depth: i32,
    pub maximum_width: u32,
    pub maximum_height: u32,
    pub maximum_frames_per_second: u32,
}

impl View for Av1HardwareCapability {
    type V = Av1HardwareCapability;

    open spec fn view(&self) -> Av1HardwareCapability {
        *self
    }
}

impl Default for Av1HardwareCapability {
    fn default() -> (message: Self)
        ensures
            message@ == Self::initial(),
    {
        Self::empty()
    }
}

impl WireMessage for Av1HardwareCapability {
    open spec fn initial() -> Av1HardwareCapability {
        Av1HardwareCapability {
            chroma_subsampling: 0,
            bit_depth: 0,
            maximum_width: 0,
            maximum_height: 0,
            maximum_frames_per_second: 0,
        }
    }

    open spec fn wire(model: Av1HardwareCapability) -> Seq<u8> {
        field::varint_field(1, scalar::spec_int32_number(model.chroma_subsampling))
            + field::varint_field(2, scalar::spec_int32_number(model.bit_depth))
            + field::varint_field(3, model.maximum_width as u64)
            + field::varint_field(4, model.maximum_height as u64)
            + field::varint_field(5, model.maximum_frames_per_second as u64)
    }

    open spec fn merge(
        model: Av1HardwareCapability,
        field: WireField,
        limit: nat,
    ) -> Option<Av1HardwareCapability> {
        if field.tag == 1 {
            match field.value {
                WireValue::Varint(value) => Some(
                    Av1HardwareCapability {
                        chroma_subsampling: scalar::spec_int32_value(value),
                        ..model
                    },
                ),
                _ => None,
            }
        } else if field.tag == 2 {
            match field.value {
                WireValue::Varint(value) => Some(
                    Av1HardwareCapability { bit_depth: scalar::spec_int32_value(value), ..model },
                ),
                _ => None,
            }
        } else if field.tag == 3 {
            match field.value {
                WireValue::Varint(value) => Some(
                    Av1HardwareCapability { maximum_width: value as u32, ..model },
                ),
                _ => None,
            }
        } else if field.tag == 4 {
            match field.value {
                WireValue::Varint(value) => Some(
                    Av1HardwareCapability { maximum_height: value as u32, ..model },
                ),
                _ => None,
            }
        } else if field.tag == 5 {
            match field.value {
                WireValue::Varint(value) => Some(
                    Av1HardwareCapability { maximum_frames_per_second: value as u32, ..model },
                ),
                _ => None,
            }
        } else {
            Some(model)
        }
    }

    fn empty() -> (message: Self) {
        Av1HardwareCapability {
            chroma_subsampling: 0,
            bit_depth: 0,
            maximum_width: 0,
            maximum_height: 0,
            maximum_frames_per_second: 0,
        }
    }

    fn put(&self, out: &mut Vec<u8>) {
        broadcast use message::lemma_concatenation_associates;

        put_varint_field(out, 1, scalar::int32_number(self.chroma_subsampling));
        put_varint_field(out, 2, scalar::int32_number(self.bit_depth));
        put_varint_field(out, 3, self.maximum_width as u64);
        put_varint_field(out, 4, self.maximum_height as u64);
        put_varint_field(out, 5, self.maximum_frames_per_second as u64);
    }

    fn take(&mut self, field: &Field<'_>, limit: u32) -> (accepted: bool) {
        if field.tag == 1 {
            match field.value {
                FieldValue::Varint(value) => {
                    self.chroma_subsampling = scalar::int32_value(value);
                    true
                },
                _ => false,
            }
        } else if field.tag == 2 {
            match field.value {
                FieldValue::Varint(value) => {
                    self.bit_depth = scalar::int32_value(value);
                    true
                },
                _ => false,
            }
        } else if field.tag == 3 {
            match field.value {
                FieldValue::Varint(value) => {
                    self.maximum_width = value as u32;
                    true
                },
                _ => false,
            }
        } else if field.tag == 4 {
            match field.value {
                FieldValue::Varint(value) => {
                    self.maximum_height = value as u32;
                    true
                },
                _ => false,
            }
        } else if field.tag == 5 {
            match field.value {
                FieldValue::Varint(value) => {
                    self.maximum_frames_per_second = value as u32;
                    true
                },
                _ => false,
            }
        } else {
            true
        }
    }
}

impl Av1HardwareCapability {
    /// A written message is read back.
    pub proof fn lemma_round_trip(model: Av1HardwareCapability, limit: nat)
        requires
            limit >= 1,
            Self::wire(model).len() <= u64::MAX,
        ensures
            message::merge_all::<Self>(Self::initial(), Self::wire(model), limit) == Some(model),
    {
        let start = Self::initial();
        let at_chroma_subsampling = Av1HardwareCapability {
            chroma_subsampling: model.chroma_subsampling,
            ..start
        };
        scalar::lemma_int32_round_trip(model.chroma_subsampling);
        message::lemma_after_varint::<Self>(
            start,
            Seq::<u8>::empty(),
            start,
            1,
            scalar::spec_int32_number(model.chroma_subsampling),
            at_chroma_subsampling,
            limit,
        );
        assert(Seq::<u8>::empty() + field::varint_field(
            1,
            scalar::spec_int32_number(model.chroma_subsampling),
        )
            =~= field::varint_field(1, scalar::spec_int32_number(model.chroma_subsampling)));
        let w1 = field::varint_field(1, scalar::spec_int32_number(model.chroma_subsampling));
        let at_bit_depth = Av1HardwareCapability {
            bit_depth: model.bit_depth,
            ..at_chroma_subsampling
        };
        scalar::lemma_int32_round_trip(model.bit_depth);
        message::lemma_after_varint::<Self>(
            start,
            w1,
            at_chroma_subsampling,
            2,
            scalar::spec_int32_number(model.bit_depth),
            at_bit_depth,
            limit,
        );
        let w2 = w1 + field::varint_field(2, scalar::spec_int32_number(model.bit_depth));
        let at_maximum_width = Av1HardwareCapability {
            maximum_width: model.maximum_width,
            ..at_bit_depth
        };
        message::lemma_after_varint::<Self>(
            start,
            w2,
            at_bit_depth,
            3,
            model.maximum_width as u64,
            at_maximum_width,
            limit,
        );
        let w3 = w2 + field::varint_field(3, model.maximum_width as u64);
        let at_maximum_height = Av1HardwareCapability {
            maximum_height: model.maximum_height,
            ..at_maximum_width
        };
        message::lemma_after_varint::<Self>(
            start,
            w3,
            at_maximum_width,
            4,
            model.maximum_height as u64,
            at_maximum_height,
            limit,
        );
        let w4 = w3 + field::varint_field(4, model.maximum_height as u64);
        let at_maximum_frames_per_second = Av1HardwareCapability {
            maximum_frames_per_second: model.maximum_frames_per_second,
            ..at_maximum_height
        };
        message::lemma_after_varint::<Self>(
            start,
            w4,
            at_maximum_height,
            5,
            model.maximum_frames_per_second as u64,
            at_maximum_frames_per_second,
            limit,
        );
        assert(at_maximum_frames_per_second == model);
    }
}

/// A chroma subsampling and a bit depth, by their numbers.
#[derive(Clone, Copy, Debug, PartialEq, Eq, Structural)]
pub struct Av1Mode {
    pub chroma_subsampling: i32,
    pub bit_depth: i32,
}

impl View for Av1Mode {
    type V = Av1Mode;

    open spec fn view(&self) -> Av1Mode {
        *self
    }
}

impl Default for Av1Mode {
    fn default() -> (message: Self)
        ensures
            message@ == Self::initial(),
    {
        Self::empty()
    }
}

impl WireMessage for Av1Mode {
    open spec fn initial() -> Av1Mode {
        Av1Mode { chroma_subsampling: 0, bit_depth: 0 }
    }

    open spec fn wire(model: Av1Mode) -> Seq<u8> {
        field::varint_field(1, scalar::spec_int32_number(model.chroma_subsampling))
            + field::varint_field(2, scalar::spec_int32_number(model.bit_depth))
    }

    open spec fn merge(model: Av1Mode, field: WireField, limit: nat) -> Option<Av1Mode> {
        if field.tag == 1 {
            match field.value {
                WireValue::Varint(value) => Some(
                    Av1Mode { chroma_subsampling: scalar::spec_int32_value(value), ..model },
                ),
                _ => None,
            }
        } else if field.tag == 2 {
            match field.value {
                WireValue::Varint(value) => Some(
                    Av1Mode { bit_depth: scalar::spec_int32_value(value), ..model },
                ),
                _ => None,
            }
        } else {
            Some(model)
        }
    }

    fn empty() -> (message: Self) {
        Av1Mode { chroma_subsampling: 0, bit_depth: 0 }
    }

    fn put(&self, out: &mut Vec<u8>) {
        broadcast use message::lemma_concatenation_associates;

        put_varint_field(out, 1, scalar::int32_number(self.chroma_subsampling));
        put_varint_field(out, 2, scalar::int32_number(self.bit_depth));
    }

    fn take(&mut self, field: &Field<'_>, limit: u32) -> (accepted: bool) {
        if field.tag == 1 {
            match field.value {
                FieldValue::Varint(value) => {
                    self.chroma_subsampling = scalar::int32_value(value);
                    true
                },
                _ => false,
            }
        } else if field.tag == 2 {
            match field.value {
                FieldValue::Varint(value) => {
                    self.bit_depth = scalar::int32_value(value);
                    true
                },
                _ => false,
            }
        } else {
            true
        }
    }
}

impl Av1Mode {
    /// A written message is read back.
    pub proof fn lemma_round_trip(model: Av1Mode, limit: nat)
        requires
            limit >= 1,
            Self::wire(model).len() <= u64::MAX,
        ensures
            message::merge_all::<Self>(Self::initial(), Self::wire(model), limit) == Some(model),
    {
        let start = Self::initial();
        let at_chroma_subsampling = Av1Mode {
            chroma_subsampling: model.chroma_subsampling,
            ..start
        };
        scalar::lemma_int32_round_trip(model.chroma_subsampling);
        message::lemma_after_varint::<Self>(
            start,
            Seq::<u8>::empty(),
            start,
            1,
            scalar::spec_int32_number(model.chroma_subsampling),
            at_chroma_subsampling,
            limit,
        );
        assert(Seq::<u8>::empty() + field::varint_field(
            1,
            scalar::spec_int32_number(model.chroma_subsampling),
        )
            =~= field::varint_field(1, scalar::spec_int32_number(model.chroma_subsampling)));
        let w1 = field::varint_field(1, scalar::spec_int32_number(model.chroma_subsampling));
        let at_bit_depth = Av1Mode { bit_depth: model.bit_depth, ..at_chroma_subsampling };
        scalar::lemma_int32_round_trip(model.bit_depth);
        message::lemma_after_varint::<Self>(
            start,
            w1,
            at_chroma_subsampling,
            2,
            scalar::spec_int32_number(model.bit_depth),
            at_bit_depth,
            limit,
        );
        assert(at_bit_depth == model);
    }
}

/// What the viewer asks for. Field 6 was the minimum bitrate and is not reused.
#[derive(Clone, Debug, PartialEq)]
pub struct Av1ViewerSettings {
    pub width: u32,
    pub height: u32,
    pub frames_per_second: u32,
    pub mode_preferences: Vec<Av1Mode>,
    pub maximum_bitrate_bits_per_second: u64,
}

/// The contents of a [`Av1ViewerSettings`].
#[verifier::ext_equal]
pub struct Av1ViewerSettingsModel {
    pub width: u32,
    pub height: u32,
    pub frames_per_second: u32,
    pub mode_preferences: Seq<Av1Mode>,
    pub maximum_bitrate_bits_per_second: u64,
}

impl View for Av1ViewerSettings {
    type V = Av1ViewerSettingsModel;

    open spec fn view(&self) -> Av1ViewerSettingsModel {
        Av1ViewerSettingsModel {
            width: self.width,
            height: self.height,
            frames_per_second: self.frames_per_second,
            mode_preferences: self.mode_preferences@.map_values(|item: Av1Mode| item@),
            maximum_bitrate_bits_per_second: self.maximum_bitrate_bits_per_second,
        }
    }
}

impl Default for Av1ViewerSettings {
    fn default() -> (message: Self)
        ensures
            message@ == Self::initial(),
    {
        Self::empty()
    }
}

impl WireMessage for Av1ViewerSettings {
    open spec fn initial() -> Av1ViewerSettingsModel {
        Av1ViewerSettingsModel {
            width: 0,
            height: 0,
            frames_per_second: 0,
            mode_preferences: Seq::empty(),
            maximum_bitrate_bits_per_second: 0,
        }
    }

    open spec fn wire(model: Av1ViewerSettingsModel) -> Seq<u8> {
        field::varint_field(1, model.width as u64)
            + field::varint_field(2, model.height as u64)
            + field::varint_field(3, model.frames_per_second as u64)
            + message::repeated_field::<Av1Mode>(4, model.mode_preferences)
            + field::varint_field(5, model.maximum_bitrate_bits_per_second)
    }

    open spec fn merge(
        model: Av1ViewerSettingsModel,
        field: WireField,
        limit: nat,
    ) -> Option<Av1ViewerSettingsModel> {
        if field.tag == 1 {
            match field.value {
                WireValue::Varint(value) => Some(
                    Av1ViewerSettingsModel { width: value as u32, ..model },
                ),
                _ => None,
            }
        } else if field.tag == 2 {
            match field.value {
                WireValue::Varint(value) => Some(
                    Av1ViewerSettingsModel { height: value as u32, ..model },
                ),
                _ => None,
            }
        } else if field.tag == 3 {
            match field.value {
                WireValue::Varint(value) => Some(
                    Av1ViewerSettingsModel { frames_per_second: value as u32, ..model },
                ),
                _ => None,
            }
        } else if field.tag == 4 {
            match message::merge_nested::<Av1Mode>(
                Av1Mode::initial(),
                field.value,
                limit,
            ) {
                Some(next) => Some(
                    Av1ViewerSettingsModel {
                        mode_preferences: model.mode_preferences.push(next),
                        ..model
                    },
                ),
                None => None,
            }
        } else if field.tag == 5 {
            match field.value {
                WireValue::Varint(value) => Some(
                    Av1ViewerSettingsModel { maximum_bitrate_bits_per_second: value, ..model },
                ),
                _ => None,
            }
        } else {
            Some(model)
        }
    }

    fn empty() -> (message: Self) {
        let message = Av1ViewerSettings {
            width: 0,
            height: 0,
            frames_per_second: 0,
            mode_preferences: Vec::new(),
            maximum_bitrate_bits_per_second: 0,
        };
        assert(message.mode_preferences@.map_values(|item: Av1Mode| item@) =~= Seq::empty());
        message
    }

    fn put(&self, out: &mut Vec<u8>) {
        broadcast use message::lemma_concatenation_associates;

        put_varint_field(out, 1, self.width as u64);
        put_varint_field(out, 2, self.height as u64);
        put_varint_field(out, 3, self.frames_per_second as u64);
        put_repeated(out, 4, &self.mode_preferences);
        put_varint_field(out, 5, self.maximum_bitrate_bits_per_second);
    }

    fn take(&mut self, field: &Field<'_>, limit: u32) -> (accepted: bool) {
        if field.tag == 1 {
            match field.value {
                FieldValue::Varint(value) => {
                    self.width = value as u32;
                    true
                },
                _ => false,
            }
        } else if field.tag == 2 {
            match field.value {
                FieldValue::Varint(value) => {
                    self.height = value as u32;
                    true
                },
                _ => false,
            }
        } else if field.tag == 3 {
            match field.value {
                FieldValue::Varint(value) => {
                    self.frames_per_second = value as u32;
                    true
                },
                _ => false,
            }
        } else if field.tag == 4 {
            let mut inner = Av1Mode::empty();
            if take_nested(&mut inner, &field.value, limit) {
                let ghost models = self.mode_preferences@.map_values(|item: Av1Mode| item@);
                self.mode_preferences.push(inner);
                assert(self.mode_preferences@.map_values(|item: Av1Mode| item@)
                    =~= models.push(inner@));
                true
            } else {
                false
            }
        } else if field.tag == 5 {
            match field.value {
                FieldValue::Varint(value) => {
                    self.maximum_bitrate_bits_per_second = value;
                    true
                },
                _ => false,
            }
        } else {
            true
        }
    }
}

impl Av1ViewerSettings {
    /// A written message is read back.
    pub proof fn lemma_round_trip(model: Av1ViewerSettingsModel, limit: nat)
        requires
            limit >= 2,
            Self::wire(model).len() <= u64::MAX,
        ensures
            message::merge_all::<Self>(Self::initial(), Self::wire(model), limit) == Some(model),
    {
        let start = Self::initial();
        let at_width = Av1ViewerSettingsModel { width: model.width, ..start };
        message::lemma_after_varint::<Self>(
            start,
            Seq::<u8>::empty(),
            start,
            1,
            model.width as u64,
            at_width,
            limit,
        );
        assert(Seq::<u8>::empty() + field::varint_field(1, model.width as u64)
            =~= field::varint_field(1, model.width as u64));
        let w1 = field::varint_field(1, model.width as u64);
        let at_height = Av1ViewerSettingsModel { height: model.height, ..at_width };
        message::lemma_after_varint::<Self>(
            start,
            w1,
            at_width,
            2,
            model.height as u64,
            at_height,
            limit,
        );
        let w2 = w1 + field::varint_field(2, model.height as u64);
        let at_frames_per_second = Av1ViewerSettingsModel {
            frames_per_second: model.frames_per_second,
            ..at_height
        };
        message::lemma_after_varint::<Self>(
            start,
            w2,
            at_height,
            3,
            model.frames_per_second as u64,
            at_frames_per_second,
            limit,
        );
        let w3 = w2 + field::varint_field(3, model.frames_per_second as u64);
        let at_mode_preferences = Av1ViewerSettingsModel {
            mode_preferences: model.mode_preferences,
            ..at_frames_per_second
        };
        let after_mode_preferences = |count: int| Av1ViewerSettingsModel {
            mode_preferences: model.mode_preferences.take(count),
            ..at_frames_per_second
        };
        assert(model.mode_preferences.take(0) =~= Seq::empty());
        assert forall|index: int| 0 <= index < model.mode_preferences.len() implies Self::merge(
            after_mode_preferences(index),
            (
                WireField {
                    tag: 4,
                    value: WireValue::Bytes(
                        Av1Mode::wire(#[trigger] model.mode_preferences[index]),
                    ),
                }
            ),
            limit,
        ) == Some(after_mode_preferences(index + 1)) by {
            message::lemma_repeated_item_size::<Av1Mode>(4, model.mode_preferences, index);
            Av1Mode::lemma_round_trip(model.mode_preferences[index], (limit - 1) as nat);
            assert(model.mode_preferences.take(index).push(model.mode_preferences[index])
                =~= model.mode_preferences.take(index + 1));
        }
        assert(model.mode_preferences.take(model.mode_preferences.len() as int)
            =~= model.mode_preferences);
        message::lemma_after_repeated::<Self, Av1Mode>(
            start,
            w3,
            4,
            model.mode_preferences,
            after_mode_preferences,
            limit,
        );
        let w4 = w3 + message::repeated_field::<Av1Mode>(4, model.mode_preferences);
        let at_maximum_bitrate_bits_per_second = Av1ViewerSettingsModel {
            maximum_bitrate_bits_per_second: model.maximum_bitrate_bits_per_second,
            ..at_mode_preferences
        };
        message::lemma_after_varint::<Self>(
            start,
            w4,
            at_mode_preferences,
            5,
            model.maximum_bitrate_bits_per_second,
            at_maximum_bitrate_bits_per_second,
            limit,
        );
        assert(at_maximum_bitrate_bits_per_second =~= model);
    }
}

/// What the stream will be. Field 6 was the minimum bitrate and is not reused.
#[derive(Clone, Copy, Debug, PartialEq, Eq, Structural)]
pub struct SelectedAv1Configuration {
    pub width: u32,
    pub height: u32,
    pub frames_per_second: u32,
    pub mode: Option<Av1Mode>,
    pub maximum_bitrate_bits_per_second: u64,
    pub audio_transport: Option<AudioConfiguration>,
    pub full_diagnostics: bool,
    pub host_pointer_release: bool,
    pub dedicated_input_stream: bool,
}

impl View for SelectedAv1Configuration {
    type V = SelectedAv1Configuration;

    open spec fn view(&self) -> SelectedAv1Configuration {
        *self
    }
}

impl Default for SelectedAv1Configuration {
    fn default() -> (message: Self)
        ensures
            message@ == Self::initial(),
    {
        Self::empty()
    }
}

impl WireMessage for SelectedAv1Configuration {
    open spec fn initial() -> SelectedAv1Configuration {
        SelectedAv1Configuration {
            width: 0,
            height: 0,
            frames_per_second: 0,
            mode: None,
            maximum_bitrate_bits_per_second: 0,
            audio_transport: None,
            full_diagnostics: false,
            host_pointer_release: false,
            dedicated_input_stream: false,
        }
    }

    open spec fn wire(model: SelectedAv1Configuration) -> Seq<u8> {
        field::varint_field(1, model.width as u64)
            + field::varint_field(2, model.height as u64)
            + field::varint_field(3, model.frames_per_second as u64)
            + message::optional_field::<Av1Mode>(4, model.mode)
            + field::varint_field(5, model.maximum_bitrate_bits_per_second)
            + message::optional_field::<AudioConfiguration>(7, model.audio_transport)
            + field::varint_field(8, scalar::spec_bool_number(model.full_diagnostics))
            + field::varint_field(9, scalar::spec_bool_number(model.host_pointer_release))
            + field::varint_field(10, scalar::spec_bool_number(model.dedicated_input_stream))
    }

    open spec fn merge(
        model: SelectedAv1Configuration,
        field: WireField,
        limit: nat,
    ) -> Option<SelectedAv1Configuration> {
        if field.tag == 1 {
            match field.value {
                WireValue::Varint(value) => Some(
                    SelectedAv1Configuration { width: value as u32, ..model },
                ),
                _ => None,
            }
        } else if field.tag == 2 {
            match field.value {
                WireValue::Varint(value) => Some(
                    SelectedAv1Configuration { height: value as u32, ..model },
                ),
                _ => None,
            }
        } else if field.tag == 3 {
            match field.value {
                WireValue::Varint(value) => Some(
                    SelectedAv1Configuration { frames_per_second: value as u32, ..model },
                ),
                _ => None,
            }
        } else if field.tag == 4 {
            let held = match model.mode {
                Some(held) => held,
                None => Av1Mode::initial(),
            };
            match message::merge_nested::<Av1Mode>(held, field.value, limit) {
                Some(next) => Some(SelectedAv1Configuration { mode: Some(next), ..model }),
                None => None,
            }
        } else if field.tag == 5 {
            match field.value {
                WireValue::Varint(value) => Some(
                    SelectedAv1Configuration { maximum_bitrate_bits_per_second: value, ..model },
                ),
                _ => None,
            }
        } else if field.tag == 7 {
            let held = match model.audio_transport {
                Some(held) => held,
                None => AudioConfiguration::initial(),
            };
            match message::merge_nested::<AudioConfiguration>(held, field.value, limit) {
                Some(next) => Some(
                    SelectedAv1Configuration { audio_transport: Some(next), ..model },
                ),
                None => None,
            }
        } else if field.tag == 8 {
            match field.value {
                WireValue::Varint(value) => Some(
                    SelectedAv1Configuration { full_diagnostics: value != 0, ..model },
                ),
                _ => None,
            }
        } else if field.tag == 9 {
            match field.value {
                WireValue::Varint(value) => Some(
                    SelectedAv1Configuration { host_pointer_release: value != 0, ..model },
                ),
                _ => None,
            }
        } else if field.tag == 10 {
            match field.value {
                WireValue::Varint(value) => Some(
                    SelectedAv1Configuration { dedicated_input_stream: value != 0, ..model },
                ),
                _ => None,
            }
        } else {
            Some(model)
        }
    }

    fn empty() -> (message: Self) {
        SelectedAv1Configuration {
            width: 0,
            height: 0,
            frames_per_second: 0,
            mode: None,
            maximum_bitrate_bits_per_second: 0,
            audio_transport: None,
            full_diagnostics: false,
            host_pointer_release: false,
            dedicated_input_stream: false,
        }
    }

    fn put(&self, out: &mut Vec<u8>) {
        broadcast use message::lemma_concatenation_associates;

        put_varint_field(out, 1, self.width as u64);
        put_varint_field(out, 2, self.height as u64);
        put_varint_field(out, 3, self.frames_per_second as u64);
        match &self.mode {
            Some(inner) => put_nested(out, 4, inner),
            None => {},
        }
        put_varint_field(out, 5, self.maximum_bitrate_bits_per_second);
        match &self.audio_transport {
            Some(inner) => put_nested(out, 7, inner),
            None => {},
        }
        put_varint_field(out, 8, scalar::bool_number(self.full_diagnostics));
        put_varint_field(out, 9, scalar::bool_number(self.host_pointer_release));
        put_varint_field(out, 10, scalar::bool_number(self.dedicated_input_stream));
    }

    fn take(&mut self, field: &Field<'_>, limit: u32) -> (accepted: bool) {
        if field.tag == 1 {
            match field.value {
                FieldValue::Varint(value) => {
                    self.width = value as u32;
                    true
                },
                _ => false,
            }
        } else if field.tag == 2 {
            match field.value {
                FieldValue::Varint(value) => {
                    self.height = value as u32;
                    true
                },
                _ => false,
            }
        } else if field.tag == 3 {
            match field.value {
                FieldValue::Varint(value) => {
                    self.frames_per_second = value as u32;
                    true
                },
                _ => false,
            }
        } else if field.tag == 4 {
            let mut inner = match self.mode.take() {
                Some(inner) => inner,
                None => Av1Mode::empty(),
            };
            if take_nested(&mut inner, &field.value, limit) {
                self.mode = Some(inner);
                true
            } else {
                false
            }
        } else if field.tag == 5 {
            match field.value {
                FieldValue::Varint(value) => {
                    self.maximum_bitrate_bits_per_second = value;
                    true
                },
                _ => false,
            }
        } else if field.tag == 7 {
            let mut inner = match self.audio_transport.take() {
                Some(inner) => inner,
                None => AudioConfiguration::empty(),
            };
            if take_nested(&mut inner, &field.value, limit) {
                self.audio_transport = Some(inner);
                true
            } else {
                false
            }
        } else if field.tag == 8 {
            match field.value {
                FieldValue::Varint(value) => {
                    self.full_diagnostics = value != 0;
                    true
                },
                _ => false,
            }
        } else if field.tag == 9 {
            match field.value {
                FieldValue::Varint(value) => {
                    self.host_pointer_release = value != 0;
                    true
                },
                _ => false,
            }
        } else if field.tag == 10 {
            match field.value {
                FieldValue::Varint(value) => {
                    self.dedicated_input_stream = value != 0;
                    true
                },
                _ => false,
            }
        } else {
            true
        }
    }
}

impl SelectedAv1Configuration {
    /// A written message is read back.
    pub proof fn lemma_round_trip(model: SelectedAv1Configuration, limit: nat)
        requires
            limit >= 2,
            Self::wire(model).len() <= u64::MAX,
        ensures
            message::merge_all::<Self>(Self::initial(), Self::wire(model), limit) == Some(model),
    {
        let start = Self::initial();
        let at_width = SelectedAv1Configuration { width: model.width, ..start };
        message::lemma_after_varint::<Self>(
            start,
            Seq::<u8>::empty(),
            start,
            1,
            model.width as u64,
            at_width,
            limit,
        );
        assert(Seq::<u8>::empty() + field::varint_field(1, model.width as u64)
            =~= field::varint_field(1, model.width as u64));
        let w1 = field::varint_field(1, model.width as u64);
        let at_height = SelectedAv1Configuration { height: model.height, ..at_width };
        message::lemma_after_varint::<Self>(
            start,
            w1,
            at_width,
            2,
            model.height as u64,
            at_height,
            limit,
        );
        let w2 = w1 + field::varint_field(2, model.height as u64);
        let at_frames_per_second = SelectedAv1Configuration {
            frames_per_second: model.frames_per_second,
            ..at_height
        };
        message::lemma_after_varint::<Self>(
            start,
            w2,
            at_height,
            3,
            model.frames_per_second as u64,
            at_frames_per_second,
            limit,
        );
        let w3 = w2 + field::varint_field(3, model.frames_per_second as u64);
        let at_mode = SelectedAv1Configuration { mode: model.mode, ..at_frames_per_second };
        match model.mode {
            Some(inner) => {
                assert(Av1Mode::wire(inner).len() <= field::delimited_field(
                    4,
                    Av1Mode::wire(inner),
                ).len());
                Av1Mode::lemma_round_trip(inner, (limit - 1) as nat);
                message::lemma_after_delimited::<Self>(
                    start,
                    w3,
                    at_frames_per_second,
                    4,
                    Av1Mode::wire(inner),
                    at_mode,
                    limit,
                );
            },
            None => {
                assert(w3 + message::optional_field::<Av1Mode>(4, model.mode) =~= w3);
            },
        }
        let w4 = w3 + message::optional_field::<Av1Mode>(4, model.mode);
        let at_maximum_bitrate_bits_per_second = SelectedAv1Configuration {
            maximum_bitrate_bits_per_second: model.maximum_bitrate_bits_per_second,
            ..at_mode
        };
        message::lemma_after_varint::<Self>(
            start,
            w4,
            at_mode,
            5,
            model.maximum_bitrate_bits_per_second,
            at_maximum_bitrate_bits_per_second,
            limit,
        );
        let w5 = w4 + field::varint_field(5, model.maximum_bitrate_bits_per_second);
        let at_audio_transport = SelectedAv1Configuration {
            audio_transport: model.audio_transport,
            ..at_maximum_bitrate_bits_per_second
        };
        match model.audio_transport {
            Some(inner) => {
                assert(AudioConfiguration::wire(inner).len() <= field::delimited_field(
                    7,
                    AudioConfiguration::wire(inner),
                ).len());
                AudioConfiguration::lemma_round_trip(inner, (limit - 1) as nat);
                message::lemma_after_delimited::<Self>(
                    start,
                    w5,
                    at_maximum_bitrate_bits_per_second,
                    7,
                    AudioConfiguration::wire(inner),
                    at_audio_transport,
                    limit,
                );
            },
            None => {
                assert(w5 + message::optional_field::<AudioConfiguration>(7, model.audio_transport)
                    =~= w5);
            },
        }
        let w6 = w5 + message::optional_field::<AudioConfiguration>(7, model.audio_transport);
        let at_full_diagnostics = SelectedAv1Configuration {
            full_diagnostics: model.full_diagnostics,
            ..at_audio_transport
        };
        message::lemma_after_varint::<Self>(
            start,
            w6,
            at_audio_transport,
            8,
            scalar::spec_bool_number(model.full_diagnostics),
            at_full_diagnostics,
            limit,
        );
        let w7 = w6 + field::varint_field(8, scalar::spec_bool_number(model.full_diagnostics));
        let at_host_pointer_release = SelectedAv1Configuration {
            host_pointer_release: model.host_pointer_release,
            ..at_full_diagnostics
        };
        message::lemma_after_varint::<Self>(
            start,
            w7,
            at_full_diagnostics,
            9,
            scalar::spec_bool_number(model.host_pointer_release),
            at_host_pointer_release,
            limit,
        );
        let w8 = w7 + field::varint_field(9, scalar::spec_bool_number(model.host_pointer_release));
        let at_dedicated_input_stream = SelectedAv1Configuration {
            dedicated_input_stream: model.dedicated_input_stream,
            ..at_host_pointer_release
        };
        message::lemma_after_varint::<Self>(
            start,
            w8,
            at_host_pointer_release,
            10,
            scalar::spec_bool_number(model.dedicated_input_stream),
            at_dedicated_input_stream,
            limit,
        );
        assert(at_dedicated_input_stream == model);
    }
}

} // verus!
