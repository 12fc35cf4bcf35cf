//! Which field of a message has which number on the wire.

use super::audio_messages::{AudioConfiguration, AudioStreamState, AudioStreamStateModel};
use super::input_messages::{
    InputAck, KeyTransition, KeyboardLeds, PointerButtonTransition, PointerModeTransition,
    PointerMotionTransition, PointerPositionTransition, ReleaseAll, WheelTransition,
};
use super::input_pack::{InputPack, InputPackModel, InputTransition};
use super::negotiation_messages::{
    Av1HardwareCapability, Av1Mode, Av1ViewerSettings, Av1ViewerSettingsModel,
    SelectedAv1Configuration,
};
use super::offer_messages::{Av1CapabilityOffer, Av1CapabilityOfferModel};
use super::session_messages::{
    AuthenticationResult, AuthenticationResultModel, ClockPing, ClockPong, FeatureOffer,
    HostIdentityOffer, HostIdentityOfferModel, HostIdentityRequest, HostSessionControl,
    OpaqueCredentialFinalization, OpaqueCredentialFinalizationModel, OpaqueCredentialRequest,
    OpaqueCredentialRequestModel, OpaqueCredentialResponse, OpaqueCredentialResponseModel,
    SessionAvailabilityProbe, SessionAvailabilityResult, VersionOffer, VersionOfferModel,
};
use super::video_messages::{
    EncodedVideoPacket, EncodedVideoPacketModel, VideoControl, VideoReceiverReport,
    VideoStreamState,
};
use super::envelope::BodyModel;
use super::field::{WireField, WireValue};
use super::frame::{Envelope, EnvelopeModel};
use super::input_transition::Action;
use super::message;
use super::message::WireMessage;
use super::scalar;
use vstd::prelude::*;

verus! {

/// A field with a number.
pub open spec fn number_at(tag: u32, number: u64) -> WireField {
    WireField { tag, value: WireValue::Varint(number) }
}

/// A field with bytes.
pub open spec fn bytes_at(tag: u32, bytes: Seq<u8>) -> WireField {
    WireField { tag, value: WireValue::Bytes(bytes) }
}

/// The fields of an [`AudioConfiguration`] by their numbers: each changes its
/// own and no other.
pub proof fn law_fields_of_audio_configuration(model: AudioConfiguration, number: u64, limit: nat)
    ensures
        AudioConfiguration::merge(model, number_at(1, number), limit)
            == Some(AudioConfiguration { version: number as u32, ..model }),
        AudioConfiguration::merge(model, number_at(2, number), limit)
            == Some(AudioConfiguration { codec: number as u32, ..model }),
        AudioConfiguration::merge(model, number_at(3, number), limit)
            == Some(AudioConfiguration { sample_rate: number as u32, ..model }),
        AudioConfiguration::merge(model, number_at(4, number), limit)
            == Some(AudioConfiguration { channels: number as u32, ..model }),
        AudioConfiguration::merge(model, number_at(5, number), limit)
            == Some(AudioConfiguration { packet_duration_micros: number as u32, ..model }),
        AudioConfiguration::merge(model, number_at(6, number), limit)
            == Some(AudioConfiguration { bitrate_bits_per_second: number as u32, ..model }),
{
}

/// The fields of an [`AudioStreamState`] by their numbers: each changes its
/// own and no other.
pub proof fn law_fields_of_audio_stream_state(
    model: AudioStreamStateModel,
    number: u64,
    bytes: Seq<u8>,
    limit: nat,
)
    ensures
        AudioStreamState::merge(model, number_at(1, number), limit)
            == Some(AudioStreamStateModel { generation: number, ..model }),
        AudioStreamState::merge(model, number_at(2, number), limit)
            == Some(AudioStreamStateModel { status: scalar::spec_int32_value(number), ..model }),
        AudioStreamState::merge(model, number_at(3, number), limit)
            == Some(AudioStreamStateModel { dropped_packets: number, ..model }),
        vstd::utf8::valid_utf8(bytes)
            ==> AudioStreamState::merge(model, bytes_at(4, bytes), limit)
                == Some(AudioStreamStateModel { detail: vstd::utf8::decode_utf8(bytes), ..model }),
        !vstd::utf8::valid_utf8(bytes)
            ==> AudioStreamState::merge(model, bytes_at(4, bytes), limit) is None,
{
}

/// The fields of a [`KeyTransition`] by their numbers: each changes its
/// own and no other.
pub proof fn law_fields_of_key_transition(model: KeyTransition, number: u64, limit: nat)
    ensures
        KeyTransition::merge(model, number_at(1, number), limit)
            == Some(KeyTransition { hid_usage: number as u32, ..model }),
        KeyTransition::merge(model, number_at(2, number), limit)
            == Some(KeyTransition { pressed: number != 0, ..model }),
{
}

/// The fields of a [`PointerButtonTransition`] by their numbers: each changes its
/// own and no other.
pub proof fn law_fields_of_pointer_button_transition(
    model: PointerButtonTransition,
    number: u64,
    limit: nat,
)
    ensures
        PointerButtonTransition::merge(model, number_at(1, number), limit)
            == Some(PointerButtonTransition { button: number as u32, ..model }),
        PointerButtonTransition::merge(model, number_at(2, number), limit)
            == Some(PointerButtonTransition { pressed: number != 0, ..model }),
{
}

/// The fields of a [`PointerMotionTransition`] by their numbers: each changes its
/// own and no other.
pub proof fn law_fields_of_pointer_motion_transition(
    model: PointerMotionTransition,
    number: u64,
    limit: nat,
)
    ensures
        PointerMotionTransition::merge(model, number_at(1, number), limit)
            == Some(PointerMotionTransition { delta_x: scalar::spec_unzigzag(number), ..model }),
        PointerMotionTransition::merge(model, number_at(2, number), limit)
            == Some(PointerMotionTransition { delta_y: scalar::spec_unzigzag(number), ..model }),
{
}

/// The fields of a [`PointerPositionTransition`] by their numbers: each changes its
/// own and no other.
pub proof fn law_fields_of_pointer_position_transition(
    model: PointerPositionTransition,
    number: u64,
    limit: nat,
)
    ensures
        PointerPositionTransition::merge(model, number_at(1, number), limit)
            == Some(PointerPositionTransition { x: number as u32, ..model }),
        PointerPositionTransition::merge(model, number_at(2, number), limit)
            == Some(PointerPositionTransition { y: number as u32, ..model }),
{
}

/// The fields of a [`WheelTransition`] by their numbers: each changes its
/// own and no other.
pub proof fn law_fields_of_wheel_transition(model: WheelTransition, number: u64, limit: nat)
    ensures
        WheelTransition::merge(model, number_at(1, number), limit)
            == Some(WheelTransition { horizontal: scalar::spec_unzigzag(number), ..model }),
        WheelTransition::merge(model, number_at(2, number), limit)
            == Some(WheelTransition { vertical: scalar::spec_unzigzag(number), ..model }),
{
}

/// The fields of a [`PointerModeTransition`] by their numbers: each changes its
/// own and no other.
pub proof fn law_fields_of_pointer_mode_transition(
    model: PointerModeTransition,
    number: u64,
    limit: nat,
)
    ensures
        PointerModeTransition::merge(model, number_at(1, number), limit)
            == Some(PointerModeTransition { mode: scalar::spec_int32_value(number) }),
{
}

/// The fields of an [`InputAck`] by their numbers: each changes its
/// own and no other.
pub proof fn law_fields_of_input_ack(model: InputAck, number: u64, limit: nat)
    ensures
        InputAck::merge(model, number_at(1, number), limit)
            == Some(InputAck { generation: number, ..model }),
        InputAck::merge(model, number_at(2, number), limit)
            == Some(InputAck { through_sequence: number, ..model }),
        InputAck::merge(model, number_at(3, number), limit)
            == Some(InputAck { player_sent_at_micros: number, ..model }),
        InputAck::merge(model, number_at(4, number), limit)
            == Some(InputAck { host_received_at_micros: number, ..model }),
        InputAck::merge(model, number_at(5, number), limit)
            == Some(InputAck { host_submitted_at_micros: number, ..model }),
        InputAck::merge(model, number_at(6, number), limit)
            == Some(InputAck { pointer_datagrams_received: number, ..model }),
        InputAck::merge(model, number_at(7, number), limit)
            == Some(InputAck { pointer_updates_applied: number, ..model }),
        InputAck::merge(model, number_at(8, number), limit)
            == Some(InputAck { pointer_updates_ignored: number, ..model }),
        InputAck::merge(model, number_at(9, number), limit)
            == Some(InputAck { mouse_reports_published: number, ..model }),
        InputAck::merge(model, number_at(10, number), limit)
            == Some(InputAck { keyboard_reports_published: number, ..model }),
        InputAck::merge(model, number_at(11, number), limit)
            == Some(InputAck { reliable_transitions_received: number, ..model }),
        InputAck::merge(model, number_at(12, number), limit)
            == Some(InputAck { reliable_transitions_applied: number, ..model }),
        InputAck::merge(model, number_at(13, number), limit)
            == Some(InputAck { reliable_transitions_rejected: number, ..model }),
        InputAck::merge(model, number_at(14, number), limit)
            == Some(InputAck { reliable_transitions_missing: number, ..model }),
        InputAck::merge(model, number_at(15, number), limit)
            == Some(InputAck { reliable_transitions_duplicate_or_late: number, ..model }),
        InputAck::merge(model, number_at(16, number), limit)
            == Some(InputAck { release_all_transitions: number, ..model }),
        InputAck::merge(model, number_at(17, number), limit)
            == Some(InputAck { pointer_missing_datagrams: number, ..model }),
        InputAck::merge(model, number_at(18, number), limit)
            == Some(InputAck { pointer_stale_generations: number, ..model }),
        InputAck::merge(model, number_at(19, number), limit)
            == Some(InputAck { pointer_duplicate_or_late: number, ..model }),
        InputAck::merge(model, number_at(20, number), limit)
            == Some(InputAck { pointer_mode_rejections: number, ..model }),
        InputAck::merge(model, number_at(21, number), limit)
            == Some(InputAck { pointer_relative_baselines: number, ..model }),
{
}

/// The fields of a [`KeyboardLeds`] by their numbers: each changes its
/// own and no other.
pub proof fn law_fields_of_keyboard_leds(model: KeyboardLeds, number: u64, limit: nat)
    ensures
        KeyboardLeds::merge(model, number_at(1, number), limit)
            == Some(KeyboardLeds { generation: number, ..model }),
        KeyboardLeds::merge(model, number_at(2, number), limit)
            == Some(KeyboardLeds { sequence: number, ..model }),
        KeyboardLeds::merge(model, number_at(3, number), limit)
            == Some(KeyboardLeds { mask: number as u32, ..model }),
{
}

/// The fields of an [`InputTransition`] by their numbers: each changes its
/// own and no other.
pub proof fn law_fields_of_input_transition(model: InputTransition, number: u64, limit: nat)
    ensures
        InputTransition::merge(model, number_at(1, number), limit)
            == Some(InputTransition { generation: number, ..model }),
        InputTransition::merge(model, number_at(2, number), limit)
            == Some(InputTransition { sequence: number, ..model }),
        InputTransition::merge(model, number_at(8, number), limit)
            == Some(InputTransition { player_sent_at_micros: number, ..model }),
{
}

/// The fields of an [`InputPack`] by their numbers: each changes its
/// own and no other.
pub proof fn law_fields_of_input_pack(model: InputPackModel, bytes: Seq<u8>, limit: nat)
    ensures
        InputPack::merge(model, bytes_at(1, bytes), limit) matches Some(next)
            ==> next.transitions.len() == model.transitions.len() + 1
                && next.transitions.drop_last() == model.transitions
                && message::merge_nested::<InputTransition>(
                    InputTransition::initial(),
                    WireValue::Bytes(bytes),
                    limit,
                )
                    == Some(next.transitions.last()),
{
}

/// The fields of an [`Av1HardwareCapability`] by their numbers: each changes its
/// own and no other.
pub proof fn law_fields_of_av1_hardware_capability(
    model: Av1HardwareCapability,
    number: u64,
    limit: nat,
)
    ensures
        Av1HardwareCapability::merge(model, number_at(1, number), limit)
            == Some(
                Av1HardwareCapability {
                    chroma_subsampling: scalar::spec_int32_value(number),
                    ..model
                },
            ),
        Av1HardwareCapability::merge(model, number_at(2, number), limit)
            == Some(Av1HardwareCapability { bit_depth: scalar::spec_int32_value(number), ..model }),
        Av1HardwareCapability::merge(model, number_at(3, number), limit)
            == Some(Av1HardwareCapability { maximum_width: number as u32, ..model }),
        Av1HardwareCapability::merge(model, number_at(4, number), limit)
            == Some(Av1HardwareCapability { maximum_height: number as u32, ..model }),
        Av1HardwareCapability::merge(model, number_at(5, number), limit)
            == Some(Av1HardwareCapability { maximum_frames_per_second: number as u32, ..model }),
{
}

/// The fields of an [`Av1Mode`] by their numbers: each changes its
/// own and no other.
pub proof fn law_fields_of_av1_mode(model: Av1Mode, number: u64, limit: nat)
    ensures
        Av1Mode::merge(model, number_at(1, number), limit)
            == Some(Av1Mode { chroma_subsampling: scalar::spec_int32_value(number), ..model }),
        Av1Mode::merge(model, number_at(2, number), limit)
            == Some(Av1Mode { bit_depth: scalar::spec_int32_value(number), ..model }),
{
}

/// The fields of an [`Av1ViewerSettings`] by their numbers: each changes its
/// own and no other.
pub proof fn law_fields_of_av1_viewer_settings(
    model: Av1ViewerSettingsModel,
    number: u64,
    bytes: Seq<u8>,
    limit: nat,
)
    ensures
        Av1ViewerSettings::merge(model, number_at(1, number), limit)
            == Some(Av1ViewerSettingsModel { width: number as u32, ..model }),
        Av1ViewerSettings::merge(model, number_at(2, number), limit)
            == Some(Av1ViewerSettingsModel { height: number as u32, ..model }),
        Av1ViewerSettings::merge(model, number_at(3, number), limit)
            == Some(Av1ViewerSettingsModel { frames_per_second: number as u32, ..model }),
        Av1ViewerSettings::merge(model, bytes_at(4, bytes), limit) matches Some(next)
            ==> next
                == (Av1ViewerSettingsModel { mode_preferences: next.mode_preferences, ..model })
                && next.mode_preferences.len() == model.mode_preferences.len() + 1
                && next.mode_preferences.drop_last() == model.mode_preferences
                && message::merge_nested::<Av1Mode>(
                    Av1Mode::initial(),
                    WireValue::Bytes(bytes),
                    limit,
                )
                    == Some(next.mode_preferences.last()),
        Av1ViewerSettings::merge(model, number_at(5, number), limit)
            == Some(Av1ViewerSettingsModel { maximum_bitrate_bits_per_second: number, ..model }),
{
}

/// The fields of a [`SelectedAv1Configuration`] by their numbers: each changes its
/// own and no other.
pub proof fn law_fields_of_selected_av1_configuration(
    model: SelectedAv1Configuration,
    number: u64,
    bytes: Seq<u8>,
    limit: nat,
)
    ensures
        SelectedAv1Configuration::merge(model, number_at(1, number), limit)
            == Some(SelectedAv1Configuration { width: number as u32, ..model }),
        SelectedAv1Configuration::merge(model, number_at(2, number), limit)
            == Some(SelectedAv1Configuration { height: number as u32, ..model }),
        SelectedAv1Configuration::merge(model, number_at(3, number), limit)
            == Some(SelectedAv1Configuration { frames_per_second: number as u32, ..model }),
        SelectedAv1Configuration::merge(model, bytes_at(4, bytes), limit) matches Some(next)
            ==> next == (SelectedAv1Configuration { mode: next.mode, ..model })
                && next.mode is Some
                && (
                    model.mode is None
                        ==> next.mode
                            == message::merge_nested::<Av1Mode>(
                                Av1Mode::initial(),
                                WireValue::Bytes(bytes),
                                limit,
                            )
                ),
        SelectedAv1Configuration::merge(model, number_at(5, number), limit)
            == Some(SelectedAv1Configuration { maximum_bitrate_bits_per_second: number, ..model }),
        SelectedAv1Configuration::merge(model, bytes_at(7, bytes), limit) matches Some(next)
            ==> next
                == (SelectedAv1Configuration { audio_transport: next.audio_transport, ..model })
                && next.audio_transport is Some
                && (
                    model.audio_transport is None
                        ==> next.audio_transport
                            == message::merge_nested::<AudioConfiguration>(
                                AudioConfiguration::initial(),
                                WireValue::Bytes(bytes),
                                limit,
                            )
                ),
        SelectedAv1Configuration::merge(model, number_at(8, number), limit)
            == Some(SelectedAv1Configuration { full_diagnostics: number != 0, ..model }),
        SelectedAv1Configuration::merge(model, number_at(9, number), limit)
            == Some(SelectedAv1Configuration { host_pointer_release: number != 0, ..model }),
        SelectedAv1Configuration::merge(model, number_at(10, number), limit)
            == Some(SelectedAv1Configuration { dedicated_input_stream: number != 0, ..model }),
{
}

/// The fields of an [`Av1CapabilityOffer`] by their numbers: each changes its
/// own and no other.
pub proof fn law_fields_of_av1_capability_offer(
    model: Av1CapabilityOfferModel,
    number: u64,
    bytes: Seq<u8>,
    limit: nat,
)
    ensures
        Av1CapabilityOffer::merge(model, bytes_at(1, bytes), limit) matches Some(next)
            ==> next
                == (
                    Av1CapabilityOfferModel {
                        encoder_capabilities: next.encoder_capabilities,
                        ..model
                    }
                )
                && next.encoder_capabilities.len() == model.encoder_capabilities.len() + 1
                && next.encoder_capabilities.drop_last() == model.encoder_capabilities
                && message::merge_nested::<Av1HardwareCapability>(
                    Av1HardwareCapability::initial(),
                    WireValue::Bytes(bytes),
                    limit,
                )
                    == Some(next.encoder_capabilities.last()),
        Av1CapabilityOffer::merge(model, bytes_at(2, bytes), limit) matches Some(next)
            ==> next
                == (
                    Av1CapabilityOfferModel {
                        decoder_capabilities: next.decoder_capabilities,
                        ..model
                    }
                )
                && next.decoder_capabilities.len() == model.decoder_capabilities.len() + 1
                && next.decoder_capabilities.drop_last() == model.decoder_capabilities
                && message::merge_nested::<Av1HardwareCapability>(
                    Av1HardwareCapability::initial(),
                    WireValue::Bytes(bytes),
                    limit,
                )
                    == Some(next.decoder_capabilities.last()),
        Av1CapabilityOffer::merge(model, bytes_at(3, bytes), limit) matches Some(next)
            ==> next == (Av1CapabilityOfferModel { viewer_settings: next.viewer_settings, ..model })
                && next.viewer_settings is Some
                && (
                    model.viewer_settings is None
                        ==> next.viewer_settings
                            == message::merge_nested::<Av1ViewerSettings>(
                                Av1ViewerSettings::initial(),
                                WireValue::Bytes(bytes),
                                limit,
                            )
                ),
        Av1CapabilityOffer::merge(model, bytes_at(4, bytes), limit) matches Some(next)
            ==> next == (Av1CapabilityOfferModel { audio_transport: next.audio_transport, ..model })
                && next.audio_transport is Some
                && (
                    model.audio_transport is None
                        ==> next.audio_transport
                            == message::merge_nested::<AudioConfiguration>(
                                AudioConfiguration::initial(),
                                WireValue::Bytes(bytes),
                                limit,
                            )
                ),
        Av1CapabilityOffer::merge(model, number_at(5, number), limit)
            == Some(Av1CapabilityOfferModel { full_diagnostics: number != 0, ..model }),
        Av1CapabilityOffer::merge(model, number_at(6, number), limit)
            == Some(Av1CapabilityOfferModel { host_pointer_release: number != 0, ..model }),
        Av1CapabilityOffer::merge(model, number_at(7, number), limit)
            == Some(Av1CapabilityOfferModel { dedicated_input_stream: number != 0, ..model }),
{
}

/// The fields of an [`OpaqueCredentialRequest`] by their numbers: each changes its
/// own and no other.
pub proof fn law_fields_of_opaque_credential_request(
    model: OpaqueCredentialRequestModel,
    bytes: Seq<u8>,
    limit: nat,
)
    ensures
        OpaqueCredentialRequest::merge(model, bytes_at(1, bytes), limit)
            == Some(OpaqueCredentialRequestModel { credential_identifier: bytes, ..model }),
        OpaqueCredentialRequest::merge(model, bytes_at(2, bytes), limit)
            == Some(OpaqueCredentialRequestModel { message: bytes, ..model }),
{
}

/// The fields of an [`OpaqueCredentialResponse`] by their numbers: each changes its
/// own and no other.
pub proof fn law_fields_of_opaque_credential_response(
    model: OpaqueCredentialResponseModel,
    bytes: Seq<u8>,
    limit: nat,
)
    ensures
        OpaqueCredentialResponse::merge(model, bytes_at(1, bytes), limit)
            == Some(OpaqueCredentialResponseModel { message: bytes }),
{
}

/// The fields of an [`OpaqueCredentialFinalization`] by their numbers: each changes its
/// own and no other.
pub proof fn law_fields_of_opaque_credential_finalization(
    model: OpaqueCredentialFinalizationModel,
    bytes: Seq<u8>,
    limit: nat,
)
    ensures
        OpaqueCredentialFinalization::merge(model, bytes_at(1, bytes), limit)
            == Some(OpaqueCredentialFinalizationModel { message: bytes }),
{
}

/// The fields of an [`AuthenticationResult`] by their numbers: each changes its
/// own and no other.
pub proof fn law_fields_of_authentication_result(
    model: AuthenticationResultModel,
    number: u64,
    bytes: Seq<u8>,
    limit: nat,
)
    ensures
        AuthenticationResult::merge(model, number_at(1, number), limit)
            == Some(AuthenticationResultModel { accepted: number != 0, ..model }),
        AuthenticationResult::merge(model, bytes_at(2, bytes), limit)
            == Some(AuthenticationResultModel { host_identity: bytes, ..model }),
{
}

/// The fields of a [`HostIdentityOffer`] by their numbers: each changes its
/// own and no other.
pub proof fn law_fields_of_host_identity_offer(
    model: HostIdentityOfferModel,
    number: u64,
    bytes: Seq<u8>,
    limit: nat,
)
    ensures
        HostIdentityOffer::merge(model, bytes_at(1, bytes), limit)
            == Some(HostIdentityOfferModel { host_identity: bytes, ..model }),
        vstd::utf8::valid_utf8(bytes)
            ==> HostIdentityOffer::merge(model, bytes_at(2, bytes), limit)
                == Some(
                    HostIdentityOfferModel {
                        display_name: vstd::utf8::decode_utf8(bytes),
                        ..model
                    },
                ),
        !vstd::utf8::valid_utf8(bytes)
            ==> HostIdentityOffer::merge(model, bytes_at(2, bytes), limit) is None,
        HostIdentityOffer::merge(model, number_at(3, number), limit)
            == Some(
                HostIdentityOfferModel {
                    operating_system: scalar::spec_int32_value(number),
                    ..model
                },
            ),
{
}

/// The fields of a [`SessionAvailabilityResult`] by their numbers: each changes its
/// own and no other.
pub proof fn law_fields_of_session_availability_result(
    model: SessionAvailabilityResult,
    number: u64,
    limit: nat,
)
    ensures
        SessionAvailabilityResult::merge(model, number_at(1, number), limit)
            == Some(
                SessionAvailabilityResult {
                    availability: scalar::spec_int32_value(number),
                    ..model
                },
            ),
        SessionAvailabilityResult::merge(model, number_at(2, number), limit)
            == Some(
                SessionAvailabilityResult {
                    vb_cable_status: scalar::spec_int32_value(number),
                    ..model
                },
            ),
        SessionAvailabilityResult::merge(model, number_at(3, number), limit)
            == Some(
                SessionAvailabilityResult {
                    firewall_status: scalar::spec_int32_value(number),
                    ..model
                },
            ),
{
}

/// The fields of a [`HostSessionControl`] by their numbers: each changes its
/// own and no other.
pub proof fn law_fields_of_host_session_control(model: HostSessionControl, number: u64, limit: nat)
    ensures
        HostSessionControl::merge(model, number_at(1, number), limit)
            == Some(HostSessionControl { kind: scalar::spec_int32_value(number) }),
{
}

/// The fields of a [`ClockPing`] by their numbers: each changes its
/// own and no other.
pub proof fn law_fields_of_clock_ping(model: ClockPing, number: u64, limit: nat)
    ensures
        ClockPing::merge(model, number_at(1, number), limit)
            == Some(ClockPing { sequence: number, ..model }),
        ClockPing::merge(model, number_at(2, number), limit)
            == Some(ClockPing { player_sent_at_micros: number, ..model }),
{
}

/// The fields of a [`ClockPong`] by their numbers: each changes its
/// own and no other.
pub proof fn law_fields_of_clock_pong(model: ClockPong, number: u64, limit: nat)
    ensures
        ClockPong::merge(model, number_at(1, number), limit)
            == Some(ClockPong { sequence: number, ..model }),
        ClockPong::merge(model, number_at(2, number), limit)
            == Some(ClockPong { player_sent_at_micros: number, ..model }),
        ClockPong::merge(model, number_at(3, number), limit)
            == Some(ClockPong { host_received_at_micros: number, ..model }),
        ClockPong::merge(model, number_at(4, number), limit)
            == Some(ClockPong { host_sent_at_micros: number, ..model }),
{
}

/// The fields of a [`FeatureOffer`] by their numbers: each changes its
/// own and no other.
pub proof fn law_fields_of_feature_offer(model: FeatureOffer, number: u64, limit: nat)
    ensures
        FeatureOffer::merge(model, number_at(1, number), limit)
            == Some(FeatureOffer { id: number as u32, ..model }),
        FeatureOffer::merge(model, number_at(2, number), limit)
            == Some(FeatureOffer { oldest_version: number as u32, ..model }),
        FeatureOffer::merge(model, number_at(3, number), limit)
            == Some(FeatureOffer { newest_version: number as u32, ..model }),
        FeatureOffer::merge(model, number_at(4, number), limit)
            == Some(FeatureOffer { required: number != 0, ..model }),
{
}

/// The fields of a [`VersionOffer`] by their numbers: each changes its
/// own and no other.
pub proof fn law_fields_of_version_offer(
    model: VersionOfferModel,
    number: u64,
    bytes: Seq<u8>,
    limit: nat,
)
    ensures
        VersionOffer::merge(model, number_at(1, number), limit)
            == Some(VersionOfferModel { protocol_major: number as u32, ..model }),
        VersionOffer::merge(model, number_at(2, number), limit)
            == Some(VersionOfferModel { protocol_minor: number as u32, ..model }),
        VersionOffer::merge(model, bytes_at(3, bytes), limit) matches Some(next)
            ==> next == (VersionOfferModel { features: next.features, ..model })
                && next.features.len() == model.features.len() + 1
                && next.features.drop_last() == model.features
                && message::merge_nested::<FeatureOffer>(
                    FeatureOffer::initial(),
                    WireValue::Bytes(bytes),
                    limit,
                )
                    == Some(next.features.last()),
{
}

/// The fields of a [`VideoControl`] by their numbers: each changes its
/// own and no other.
pub proof fn law_fields_of_video_control(model: VideoControl, number: u64, limit: nat)
    ensures
        VideoControl::merge(model, number_at(1, number), limit)
            == Some(VideoControl { kind: scalar::spec_int32_value(number) }),
{
}

/// The fields of a [`VideoStreamState`] by their numbers: each changes its
/// own and no other.
pub proof fn law_fields_of_video_stream_state(model: VideoStreamState, number: u64, limit: nat)
    ensures
        VideoStreamState::merge(model, number_at(1, number), limit)
            == Some(VideoStreamState { status: scalar::spec_int32_value(number), ..model }),
        VideoStreamState::merge(model, number_at(2, number), limit)
            == Some(VideoStreamState { cause: scalar::spec_int32_value(number), ..model }),
{
}

/// The fields of a [`VideoReceiverReport`] by their numbers: each changes its
/// own and no other.
pub proof fn law_fields_of_video_receiver_report(
    model: VideoReceiverReport,
    number: u64,
    limit: nat,
)
    ensures
        VideoReceiverReport::merge(model, number_at(1, number), limit)
            == Some(VideoReceiverReport { newest_sequence: number, ..model }),
        VideoReceiverReport::merge(model, number_at(2, number), limit)
            == Some(VideoReceiverReport { received_chunks: number, ..model }),
        VideoReceiverReport::merge(model, number_at(3, number), limit)
            == Some(VideoReceiverReport { lost_chunks: number, ..model }),
        VideoReceiverReport::merge(model, number_at(4, number), limit)
            == Some(VideoReceiverReport { late_chunks: number, ..model }),
        VideoReceiverReport::merge(model, number_at(5, number), limit)
            == Some(VideoReceiverReport { assembly_overflows: number, ..model }),
        VideoReceiverReport::merge(model, number_at(6, number), limit)
            == Some(VideoReceiverReport { completed_frames: number, ..model }),
        VideoReceiverReport::merge(model, number_at(7, number), limit)
            == Some(VideoReceiverReport { incomplete_frames: number, ..model }),
        VideoReceiverReport::merge(model, number_at(8, number), limit)
            == Some(VideoReceiverReport { last_completed_assembly_micros: number, ..model }),
        VideoReceiverReport::merge(model, number_at(9, number), limit)
            == Some(VideoReceiverReport { last_assembly_budget_micros: number, ..model }),
        VideoReceiverReport::merge(model, number_at(10, number), limit)
            == Some(VideoReceiverReport { completed_payload_bytes: number, ..model }),
        VideoReceiverReport::merge(model, number_at(11, number), limit)
            == Some(VideoReceiverReport { measurement_interval_micros: number, ..model }),
{
}

/// The fields of an [`EncodedVideoPacket`] by their numbers: each changes its
/// own and no other.
pub proof fn law_fields_of_encoded_video_packet(
    model: EncodedVideoPacketModel,
    number: u64,
    bytes: Seq<u8>,
    limit: nat,
)
    ensures
        EncodedVideoPacket::merge(model, number_at(1, number), limit)
            == Some(EncodedVideoPacketModel { sequence: number, ..model }),
        EncodedVideoPacket::merge(model, number_at(2, number), limit)
            == Some(EncodedVideoPacketModel { captured_at_micros: number, ..model }),
        EncodedVideoPacket::merge(model, number_at(3, number), limit)
            == Some(EncodedVideoPacketModel { keyframe: number != 0, ..model }),
        EncodedVideoPacket::merge(model, bytes_at(4, bytes), limit)
            == Some(EncodedVideoPacketModel { payload: bytes, ..model }),
{
}

/// The bodies of an [`Envelope`] by their numbers. A body that comes where
/// another is held replaces it.
pub proof fn law_bodies_of_an_envelope(bytes: Seq<u8>, limit: nat)
    ensures
        message::merge_nested::<VersionOffer>(
            VersionOffer::initial(),
            WireValue::Bytes(bytes),
            limit,
        ) matches Some(inner)
            ==> Envelope::merge(EnvelopeModel { body: None }, bytes_at(1, bytes), limit)
                == Some(EnvelopeModel { body: Some(BodyModel::VersionOffer(inner)) }),
        message::merge_nested::<Av1CapabilityOffer>(
            Av1CapabilityOffer::initial(),
            WireValue::Bytes(bytes),
            limit,
        ) matches Some(inner)
            ==> Envelope::merge(EnvelopeModel { body: None }, bytes_at(2, bytes), limit)
                == Some(EnvelopeModel { body: Some(BodyModel::Av1CapabilityOffer(inner)) }),
        message::merge_nested::<SelectedAv1Configuration>(
            SelectedAv1Configuration::initial(),
            WireValue::Bytes(bytes),
            limit,
        ) matches Some(inner)
            ==> Envelope::merge(EnvelopeModel { body: None }, bytes_at(3, bytes), limit)
                == Some(EnvelopeModel { body: Some(BodyModel::SelectedAv1Configuration(inner)) }),
        message::merge_nested::<OpaqueCredentialRequest>(
            OpaqueCredentialRequest::initial(),
            WireValue::Bytes(bytes),
            limit,
        ) matches Some(inner)
            ==> Envelope::merge(EnvelopeModel { body: None }, bytes_at(4, bytes), limit)
                == Some(EnvelopeModel { body: Some(BodyModel::OpaqueCredentialRequest(inner)) }),
        message::merge_nested::<OpaqueCredentialResponse>(
            OpaqueCredentialResponse::initial(),
            WireValue::Bytes(bytes),
            limit,
        ) matches Some(inner)
            ==> Envelope::merge(EnvelopeModel { body: None }, bytes_at(5, bytes), limit)
                == Some(EnvelopeModel { body: Some(BodyModel::OpaqueCredentialResponse(inner)) }),
        message::merge_nested::<OpaqueCredentialFinalization>(
            OpaqueCredentialFinalization::initial(),
            WireValue::Bytes(bytes),
            limit,
        ) matches Some(inner)
            ==> Envelope::merge(EnvelopeModel { body: None }, bytes_at(6, bytes), limit)
                == Some(
                    EnvelopeModel { body: Some(BodyModel::OpaqueCredentialFinalization(inner)) },
                ),
        message::merge_nested::<AuthenticationResult>(
            AuthenticationResult::initial(),
            WireValue::Bytes(bytes),
            limit,
        ) matches Some(inner)
            ==> Envelope::merge(EnvelopeModel { body: None }, bytes_at(7, bytes), limit)
                == Some(EnvelopeModel { body: Some(BodyModel::AuthenticationResult(inner)) }),
        message::merge_nested::<VideoControl>(
            VideoControl::initial(),
            WireValue::Bytes(bytes),
            limit,
        ) matches Some(inner)
            ==> Envelope::merge(EnvelopeModel { body: None }, bytes_at(8, bytes), limit)
                == Some(EnvelopeModel { body: Some(BodyModel::VideoControl(inner)) }),
        message::merge_nested::<VideoReceiverReport>(
            VideoReceiverReport::initial(),
            WireValue::Bytes(bytes),
            limit,
        ) matches Some(inner)
            ==> Envelope::merge(EnvelopeModel { body: None }, bytes_at(9, bytes), limit)
                == Some(EnvelopeModel { body: Some(BodyModel::VideoReceiverReport(inner)) }),
        message::merge_nested::<HostIdentityOffer>(
            HostIdentityOffer::initial(),
            WireValue::Bytes(bytes),
            limit,
        ) matches Some(inner)
            ==> Envelope::merge(EnvelopeModel { body: None }, bytes_at(10, bytes), limit)
                == Some(EnvelopeModel { body: Some(BodyModel::HostIdentityOffer(inner)) }),
        message::merge_nested::<HostIdentityRequest>(
            HostIdentityRequest::initial(),
            WireValue::Bytes(bytes),
            limit,
        ) matches Some(inner)
            ==> Envelope::merge(EnvelopeModel { body: None }, bytes_at(11, bytes), limit)
                == Some(EnvelopeModel { body: Some(BodyModel::HostIdentityRequest(inner)) }),
        message::merge_nested::<SessionAvailabilityProbe>(
            SessionAvailabilityProbe::initial(),
            WireValue::Bytes(bytes),
            limit,
        ) matches Some(inner)
            ==> Envelope::merge(EnvelopeModel { body: None }, bytes_at(12, bytes), limit)
                == Some(EnvelopeModel { body: Some(BodyModel::SessionAvailabilityProbe(inner)) }),
        message::merge_nested::<SessionAvailabilityResult>(
            SessionAvailabilityResult::initial(),
            WireValue::Bytes(bytes),
            limit,
        ) matches Some(inner)
            ==> Envelope::merge(EnvelopeModel { body: None }, bytes_at(13, bytes), limit)
                == Some(EnvelopeModel { body: Some(BodyModel::SessionAvailabilityResult(inner)) }),
        message::merge_nested::<AudioStreamState>(
            AudioStreamState::initial(),
            WireValue::Bytes(bytes),
            limit,
        ) matches Some(inner)
            ==> Envelope::merge(EnvelopeModel { body: None }, bytes_at(14, bytes), limit)
                == Some(EnvelopeModel { body: Some(BodyModel::AudioStreamState(inner)) }),
        message::merge_nested::<InputPack>(
            InputPack::initial(),
            WireValue::Bytes(bytes),
            limit,
        ) matches Some(inner)
            ==> Envelope::merge(EnvelopeModel { body: None }, bytes_at(15, bytes), limit)
                == Some(EnvelopeModel { body: Some(BodyModel::InputPack(inner)) }),
        message::merge_nested::<InputAck>(
            InputAck::initial(),
            WireValue::Bytes(bytes),
            limit,
        ) matches Some(inner)
            ==> Envelope::merge(EnvelopeModel { body: None }, bytes_at(16, bytes), limit)
                == Some(EnvelopeModel { body: Some(BodyModel::InputAck(inner)) }),
        message::merge_nested::<KeyboardLeds>(
            KeyboardLeds::initial(),
            WireValue::Bytes(bytes),
            limit,
        ) matches Some(inner)
            ==> Envelope::merge(EnvelopeModel { body: None }, bytes_at(17, bytes), limit)
                == Some(EnvelopeModel { body: Some(BodyModel::KeyboardLeds(inner)) }),
        message::merge_nested::<VideoStreamState>(
            VideoStreamState::initial(),
            WireValue::Bytes(bytes),
            limit,
        ) matches Some(inner)
            ==> Envelope::merge(EnvelopeModel { body: None }, bytes_at(18, bytes), limit)
                == Some(EnvelopeModel { body: Some(BodyModel::VideoStreamState(inner)) }),
        message::merge_nested::<ClockPing>(
            ClockPing::initial(),
            WireValue::Bytes(bytes),
            limit,
        ) matches Some(inner)
            ==> Envelope::merge(EnvelopeModel { body: None }, bytes_at(19, bytes), limit)
                == Some(EnvelopeModel { body: Some(BodyModel::ClockPing(inner)) }),
        message::merge_nested::<ClockPong>(
            ClockPong::initial(),
            WireValue::Bytes(bytes),
            limit,
        ) matches Some(inner)
            ==> Envelope::merge(EnvelopeModel { body: None }, bytes_at(20, bytes), limit)
                == Some(EnvelopeModel { body: Some(BodyModel::ClockPong(inner)) }),
        message::merge_nested::<HostSessionControl>(
            HostSessionControl::initial(),
            WireValue::Bytes(bytes),
            limit,
        ) matches Some(inner)
            ==> Envelope::merge(EnvelopeModel { body: None }, bytes_at(21, bytes), limit)
                == Some(EnvelopeModel { body: Some(BodyModel::HostSessionControl(inner)) }),
{
}

/// The actions of an [`InputTransition`] by their numbers.
pub proof fn law_actions_of_a_transition(model: InputTransition, bytes: Seq<u8>, limit: nat)
    requires
        model.action is None,
    ensures
        message::merge_nested::<KeyTransition>(
            KeyTransition::initial(),
            WireValue::Bytes(bytes),
            limit,
        ) matches Some(inner)
            ==> InputTransition::merge(model, bytes_at(3, bytes), limit)
                == Some(InputTransition { action: Some(Action::Key(inner)), ..model }),
        message::merge_nested::<PointerButtonTransition>(
            PointerButtonTransition::initial(),
            WireValue::Bytes(bytes),
            limit,
        ) matches Some(inner)
            ==> InputTransition::merge(model, bytes_at(4, bytes), limit)
                == Some(InputTransition { action: Some(Action::PointerButton(inner)), ..model }),
        message::merge_nested::<WheelTransition>(
            WheelTransition::initial(),
            WireValue::Bytes(bytes),
            limit,
        ) matches Some(inner)
            ==> InputTransition::merge(model, bytes_at(5, bytes), limit)
                == Some(InputTransition { action: Some(Action::Wheel(inner)), ..model }),
        message::merge_nested::<PointerModeTransition>(
            PointerModeTransition::initial(),
            WireValue::Bytes(bytes),
            limit,
        ) matches Some(inner)
            ==> InputTransition::merge(model, bytes_at(6, bytes), limit)
                == Some(InputTransition { action: Some(Action::PointerMode(inner)), ..model }),
        message::merge_nested::<ReleaseAll>(
            ReleaseAll::initial(),
            WireValue::Bytes(bytes),
            limit,
        ) matches Some(inner)
            ==> InputTransition::merge(model, bytes_at(7, bytes), limit)
                == Some(InputTransition { action: Some(Action::ReleaseAll(inner)), ..model }),
        message::merge_nested::<PointerMotionTransition>(
            PointerMotionTransition::initial(),
            WireValue::Bytes(bytes),
            limit,
        ) matches Some(inner)
            ==> InputTransition::merge(model, bytes_at(9, bytes), limit)
                == Some(InputTransition { action: Some(Action::PointerMotion(inner)), ..model }),
        message::merge_nested::<PointerPositionTransition>(
            PointerPositionTransition::initial(),
            WireValue::Bytes(bytes),
            limit,
        ) matches Some(inner)
            ==> InputTransition::merge(model, bytes_at(10, bytes), limit)
                == Some(InputTransition { action: Some(Action::PointerPosition(inner)), ..model }),
{
}

} // verus!
