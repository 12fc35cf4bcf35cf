//! The capability offer.

use super::field;
use super::field::{put_varint_field, Field, FieldValue, WireField, WireValue};
use super::message;
use super::message::{put_nested, put_repeated, take_nested, WireMessage};
use super::scalar;
use super::audio_messages::AudioConfiguration;
use super::negotiation_messages::{Av1HardwareCapability, Av1ViewerSettings, Av1ViewerSettingsModel};
use vstd::prelude::*;

verus! {

/// What an endpoint offers for the stream.
#[derive(Clone, Debug, PartialEq)]
pub struct Av1CapabilityOffer {
    pub encoder_capabilities: Vec<Av1HardwareCapability>,
    pub decoder_capabilities: Vec<Av1HardwareCapability>,
    pub viewer_settings: Option<Av1ViewerSettings>,
    pub audio_transport: Option<AudioConfiguration>,
    pub full_diagnostics: bool,
    pub host_pointer_release: bool,
    pub dedicated_input_stream: bool,
}

/// The contents of a [`Av1CapabilityOffer`].
#[verifier::ext_equal]
pub struct Av1CapabilityOfferModel {
    pub encoder_capabilities: Seq<Av1HardwareCapability>,
    pub decoder_capabilities: Seq<Av1HardwareCapability>,
    pub viewer_settings: Option<Av1ViewerSettingsModel>,
    pub audio_transport: Option<AudioConfiguration>,
    pub full_diagnostics: bool,
    pub host_pointer_release: bool,
    pub dedicated_input_stream: bool,
}

impl View for Av1CapabilityOffer {
    type V = Av1CapabilityOfferModel;

    open spec fn view(&self) -> Av1CapabilityOfferModel {
        Av1CapabilityOfferModel {
            encoder_capabilities: self.encoder_capabilities@.map_values(
                |item: Av1HardwareCapability| item@,
            ),
            decoder_capabilities: self.decoder_capabilities@.map_values(
                |item: Av1HardwareCapability| item@,
            ),
            viewer_settings: match self.viewer_settings {
                Some(inner) => Some(inner@),
                None => None,
            },
            audio_transport: self.audio_transport,
            full_diagnostics: self.full_diagnostics,
            host_pointer_release: self.host_pointer_release,
            dedicated_input_stream: self.dedicated_input_stream,
        }
    }
}

impl Default for Av1CapabilityOffer {
    fn default() -> (message: Self)
        ensures
            message@ == Self::initial(),
    {
        Self::empty()
    }
}

impl WireMessage for Av1CapabilityOffer {
    open spec fn initial() -> Av1CapabilityOfferModel {
        Av1CapabilityOfferModel {
            encoder_capabilities: Seq::empty(),
            decoder_capabilities: Seq::empty(),
            viewer_settings: None,
            audio_transport: None,
            full_diagnostics: false,
            host_pointer_release: false,
            dedicated_input_stream: false,
        }
    }

    open spec fn wire(model: Av1CapabilityOfferModel) -> Seq<u8> {
        message::repeated_field::<Av1HardwareCapability>(1, model.encoder_capabilities)
            + message::repeated_field::<Av1HardwareCapability>(2, model.decoder_capabilities)
            + message::optional_field::<Av1ViewerSettings>(3, model.viewer_settings)
            + message::optional_field::<AudioConfiguration>(4, model.audio_transport)
            + field::varint_field(5, scalar::spec_bool_number(model.full_diagnostics))
            + field::varint_field(6, scalar::spec_bool_number(model.host_pointer_release))
            + field::varint_field(7, scalar::spec_bool_number(model.dedicated_input_stream))
    }

    open spec fn merge(
        model: Av1CapabilityOfferModel,
        field: WireField,
        limit: nat,
    ) -> Option<Av1CapabilityOfferModel> {
        if field.tag == 1 {
            match message::merge_nested::<Av1HardwareCapability>(
                Av1HardwareCapability::initial(),
                field.value,
                limit,
            ) {
                Some(next) => Some(
                    Av1CapabilityOfferModel {
                        encoder_capabilities: model.encoder_capabilities.push(next),
                        ..model
                    },
                ),
                None => None,
            }
        } else if field.tag == 2 {
            match message::merge_nested::<Av1HardwareCapability>(
                Av1HardwareCapability::initial(),
                field.value,
                limit,
            ) {
                Some(next) => Some(
                    Av1CapabilityOfferModel {
                        decoder_capabilities: model.decoder_capabilities.push(next),
                        ..model
                    },
                ),
                None => None,
            }
        } else if field.tag == 3 {
            let held = match model.viewer_settings {
                Some(held) => held,
                None => Av1ViewerSettings::initial(),
            };
            match message::merge_nested::<Av1ViewerSettings>(held, field.value, limit) {
                Some(next) => Some(
                    Av1CapabilityOfferModel { viewer_settings: Some(next), ..model },
                ),
                None => None,
            }
        } else if field.tag == 4 {
            let held = match model.audio_transport {
                Some(held) => held,
                None => AudioConfiguration::initial(),
            };
            match message::merge_nested::<AudioConfiguration>(held, field.value, limit) {
                Some(next) => Some(
                    Av1CapabilityOfferModel { audio_transport: Some(next), ..model },
                ),
                None => None,
            }
        } else if field.tag == 5 {
            match field.value {
                WireValue::Varint(value) => Some(
                    Av1CapabilityOfferModel { full_diagnostics: value != 0, ..model },
                ),
                _ => None,
            }
        } else if field.tag == 6 {
            match field.value {
                WireValue::Varint(value) => Some(
                    Av1CapabilityOfferModel { host_pointer_release: value != 0, ..model },
                ),
                _ => None,
            }
        } else if field.tag == 7 {
            match field.value {
                WireValue::Varint(value) => Some(
                    Av1CapabilityOfferModel { dedicated_input_stream: value != 0, ..model },
                ),
                _ => None,
            }
        } else {
            Some(model)
        }
    }

    fn empty() -> (message: Self) {
        let message = Av1CapabilityOffer {
            encoder_capabilities: Vec::new(),
            decoder_capabilities: Vec::new(),
            viewer_settings: None,
            audio_transport: None,
            full_diagnostics: false,
            host_pointer_release: false,
            dedicated_input_stream: false,
        };
        assert(message.encoder_capabilities@.map_values(|item: Av1HardwareCapability| item@)
            =~= Seq::empty());
        assert(message.decoder_capabilities@.map_values(|item: Av1HardwareCapability| item@)
            =~= Seq::empty());
        message
    }

    fn put(&self, out: &mut Vec<u8>) {
        broadcast use message::lemma_concatenation_associates;

        put_repeated(out, 1, &self.encoder_capabilities);
        put_repeated(out, 2, &self.decoder_capabilities);
        match &self.viewer_settings {
            Some(inner) => put_nested(out, 3, inner),
            None => {},
        }
        match &self.audio_transport {
            Some(inner) => put_nested(out, 4, inner),
            None => {},
        }
        put_varint_field(out, 5, scalar::bool_number(self.full_diagnostics));
        put_varint_field(out, 6, scalar::bool_number(self.host_pointer_release));
        put_varint_field(out, 7, scalar::bool_number(self.dedicated_input_stream));
    }

    fn take(&mut self, field: &Field<'_>, limit: u32) -> (accepted: bool) {
        if field.tag == 1 {
            let mut inner = Av1HardwareCapability::empty();
            if take_nested(&mut inner, &field.value, limit) {
                let ghost models = self.encoder_capabilities@.map_values(
                    |item: Av1HardwareCapability| item@,
                );
                self.encoder_capabilities.push(inner);
                assert(self.encoder_capabilities@.map_values(|item: Av1HardwareCapability| item@)
                    =~= models.push(inner@));
                true
            } else {
                false
            }
        } else if field.tag == 2 {
            let mut inner = Av1HardwareCapability::empty();
            if take_nested(&mut inner, &field.value, limit) {
                let ghost models = self.decoder_capabilities@.map_values(
                    |item: Av1HardwareCapability| item@,
                );
                self.decoder_capabilities.push(inner);
                assert(self.decoder_capabilities@.map_values(|item: Av1HardwareCapability| item@)
                    =~= models.push(inner@));
                true
            } else {
                false
            }
        } else if field.tag == 3 {
            let mut inner = match self.viewer_settings.take() {
                Some(inner) => inner,
                None => Av1ViewerSettings::empty(),
            };
            if take_nested(&mut inner, &field.value, limit) {
                self.viewer_settings = Some(inner);
                true
            } else {
                false
            }
        } else if field.tag == 4 {
            let mut inner = match self.audio_transport.take() {
                Some(inner) => inner,
                None => AudioConfiguration::empty(),
            };
            if take_nested(&mut inner, &field.value, limit) {
                self.audio_transport = Some(inner);
                true
            } else {
                false
            }
        } else if field.tag == 5 {
            match field.value {
                FieldValue::Varint(value) => {
                    self.full_diagnostics = value != 0;
                    true
                },
                _ => false,
            }
        } else if field.tag == 6 {
            match field.value {
                FieldValue::Varint(value) => {
                    self.host_pointer_release = value != 0;
                    true
                },
                _ => false,
            }
        } else if field.tag == 7 {
            match field.value {
                FieldValue::Varint(value) => {
                    self.dedicated_input_stream = value != 0;
                    true
                },
                _ => false,
            }
        } else {
            true
        }
    }
}

impl Av1CapabilityOffer {
    /// A written message is read back.
    #[verifier::rlimit(40)]
    pub proof fn lemma_round_trip(model: Av1CapabilityOfferModel, limit: nat)
        requires
            limit >= 3,
            Self::wire(model).len() <= u64::MAX,
        ensures
            message::merge_all::<Self>(Self::initial(), Self::wire(model), limit) == Some(model),
    {
        let start = Self::initial();
        let at_encoder_capabilities = Av1CapabilityOfferModel {
            encoder_capabilities: model.encoder_capabilities,
            ..start
        };
        let after_encoder_capabilities = |count: int| Av1CapabilityOfferModel {
            encoder_capabilities: model.encoder_capabilities.take(count),
            ..start
        };
        assert(model.encoder_capabilities.take(0) =~= Seq::empty());
        assert forall|index: int| 0 <= index < model.encoder_capabilities.len() implies Self::merge(
            after_encoder_capabilities(index),
            (
                WireField {
                    tag: 1,
                    value: WireValue::Bytes(
                        Av1HardwareCapability::wire(#[trigger] model.encoder_capabilities[index]),
                    ),
                }
            ),
            limit,
        ) == Some(after_encoder_capabilities(index + 1)) by {
            message::lemma_repeated_item_size::<Av1HardwareCapability>(
                1,
                model.encoder_capabilities,
                index,
            );
            Av1HardwareCapability::lemma_round_trip(
                model.encoder_capabilities[index],
                (limit - 1) as nat,
            );
            assert(model.encoder_capabilities.take(index).push(model.encoder_capabilities[index])
                =~= model.encoder_capabilities.take(index + 1));
        }
        assert(model.encoder_capabilities.take(model.encoder_capabilities.len() as int)
            =~= model.encoder_capabilities);
        message::lemma_after_repeated::<Self, Av1HardwareCapability>(
            start,
            Seq::<u8>::empty(),
            1,
            model.encoder_capabilities,
            after_encoder_capabilities,
            limit,
        );
        assert(Seq::<u8>::empty() + message::repeated_field::<Av1HardwareCapability>(
            1,
            model.encoder_capabilities,
        )
            =~= message::repeated_field::<Av1HardwareCapability>(1, model.encoder_capabilities));
        let w1 = message::repeated_field::<Av1HardwareCapability>(1, model.encoder_capabilities);
        let at_decoder_capabilities = Av1CapabilityOfferModel {
            decoder_capabilities: model.decoder_capabilities,
            ..at_encoder_capabilities
        };
        let after_decoder_capabilities = |count: int| Av1CapabilityOfferModel {
            decoder_capabilities: model.decoder_capabilities.take(count),
            ..at_encoder_capabilities
        };
        assert(model.decoder_capabilities.take(0) =~= Seq::empty());
        assert forall|index: int| 0 <= index < model.decoder_capabilities.len() implies Self::merge(
            after_decoder_capabilities(index),
            (
                WireField {
                    tag: 2,
                    value: WireValue::Bytes(
                        Av1HardwareCapability::wire(#[trigger] model.decoder_capabilities[index]),
                    ),
                }
            ),
            limit,
        ) == Some(after_decoder_capabilities(index + 1)) by {
            message::lemma_repeated_item_size::<Av1HardwareCapability>(
                2,
                model.decoder_capabilities,
                index,
            );
            Av1HardwareCapability::lemma_round_trip(
                model.decoder_capabilities[index],
                (limit - 1) as nat,
            );
            assert(model.decoder_capabilities.take(index).push(model.decoder_capabilities[index])
                =~= model.decoder_capabilities.take(index + 1));
        }
        assert(model.decoder_capabilities.take(model.decoder_capabilities.len() as int)
            =~= model.decoder_capabilities);
        message::lemma_after_repeated::<Self, Av1HardwareCapability>(
            start,
            w1,
            2,
            model.decoder_capabilities,
            after_decoder_capabilities,
            limit,
        );
        let w2 = w1
            + message::repeated_field::<Av1HardwareCapability>(2, model.decoder_capabilities);
        let at_viewer_settings = Av1CapabilityOfferModel {
            viewer_settings: model.viewer_settings,
            ..at_decoder_capabilities
        };
        match model.viewer_settings {
            Some(inner) => {
                assert(Av1ViewerSettings::wire(inner).len() <= field::delimited_field(
                    3,
                    Av1ViewerSettings::wire(inner),
                ).len());
                Av1ViewerSettings::lemma_round_trip(inner, (limit - 1) as nat);
                message::lemma_after_delimited::<Self>(
                    start,
                    w2,
                    at_decoder_capabilities,
                    3,
                    Av1ViewerSettings::wire(inner),
                    at_viewer_settings,
                    limit,
                );
            },
            None => {
                assert(w2 + message::optional_field::<Av1ViewerSettings>(3, model.viewer_settings)
                    =~= w2);
            },
        }
        let w3 = w2 + message::optional_field::<Av1ViewerSettings>(3, model.viewer_settings);
        let at_audio_transport = Av1CapabilityOfferModel {
            audio_transport: model.audio_transport,
            ..at_viewer_settings
        };
        match model.audio_transport {
            Some(inner) => {
                assert(AudioConfiguration::wire(inner).len() <= field::delimited_field(
                    4,
                    AudioConfiguration::wire(inner),
                ).len());
                AudioConfiguration::lemma_round_trip(inner, (limit - 1) as nat);
                message::lemma_after_delimited::<Self>(
                    start,
                    w3,
                    at_viewer_settings,
                    4,
                    AudioConfiguration::wire(inner),
                    at_audio_transport,
                    limit,
                );
            },
            None => {
                assert(w3 + message::optional_field::<AudioConfiguration>(4, model.audio_transport)
                    =~= w3);
            },
        }
        let w4 = w3 + message::optional_field::<AudioConfiguration>(4, model.audio_transport);
        let at_full_diagnostics = Av1CapabilityOfferModel {
            full_diagnostics: model.full_diagnostics,
            ..at_audio_transport
        };
        message::lemma_after_varint::<Self>(
            start,
            w4,
            at_audio_transport,
            5,
            scalar::spec_bool_number(model.full_diagnostics),
            at_full_diagnostics,
            limit,
        );
        let w5 = w4 + field::varint_field(5, scalar::spec_bool_number(model.full_diagnostics));
        let at_host_pointer_release = Av1CapabilityOfferModel {
            host_pointer_release: model.host_pointer_release,
            ..at_full_diagnostics
        };
        message::lemma_after_varint::<Self>(
            start,
            w5,
            at_full_diagnostics,
            6,
            scalar::spec_bool_number(model.host_pointer_release),
            at_host_pointer_release,
            limit,
        );
        let w6 = w5 + field::varint_field(6, scalar::spec_bool_number(model.host_pointer_release));
        let at_dedicated_input_stream = Av1CapabilityOfferModel {
            dedicated_input_stream: model.dedicated_input_stream,
            ..at_host_pointer_release
        };
        message::lemma_after_varint::<Self>(
            start,
            w6,
            at_host_pointer_release,
            7,
            scalar::spec_bool_number(model.dedicated_input_stream),
            at_dedicated_input_stream,
            limit,
        );
        assert(at_dedicated_input_stream =~= model);
    }
}

} // verus!
