//! The fields of every message, by their names.

use super::fault;
use super::fault::{
    find_message_fault, DecodeError, DecodeErrorModel, FieldKind, FieldPlace, WireShape,
};
use super::audio_messages::{AudioConfiguration, AudioStreamState};
use super::frame::Envelope;
use super::input_messages::{
    InputAck, KeyTransition, KeyboardLeds, PointerButtonTransition, PointerModeTransition,
    PointerMotionTransition, PointerPositionTransition, ReleaseAll, WheelTransition,
};
use super::input_pack::{InputPack, InputTransition};
use super::negotiation_messages::{
    Av1HardwareCapability, Av1Mode, Av1ViewerSettings, SelectedAv1Configuration,
};
use super::offer_messages::Av1CapabilityOffer;
use super::session_messages::{
    AuthenticationResult, ClockPing, ClockPong, FeatureOffer, HostIdentityOffer,
    HostIdentityRequest, HostSessionControl, OpaqueCredentialFinalization,
    OpaqueCredentialRequest, OpaqueCredentialResponse, SessionAvailabilityProbe,
    SessionAvailabilityResult, VersionOffer,
};
use super::video_messages::{
    EncodedVideoPacket, VideoControl, VideoReceiverReport, VideoStreamState,
};
use super::field::{WireField, WireValue};
use vstd::prelude::*;

verus! {

impl WireShape for AudioConfiguration {
    open spec fn kind(tag: u32) -> FieldKind {
        if 1 <= tag <= 6 {
            FieldKind::Number
        } else {
            FieldKind::Unknown
        }
    }

    open spec fn place(tag: u32) -> (Seq<char>, Seq<char>) {
        let field = if tag == 1 {
            "version"@
        } else if tag == 2 {
            "codec"@
        } else if tag == 3 {
            "sample_rate"@
        } else if tag == 4 {
            "channels"@
        } else if tag == 5 {
            "packet_duration_micros"@
        } else if tag == 6 {
            "bitrate_bits_per_second"@
        } else {
            ""@
        };
        ("AudioConfiguration"@, field)
    }

    open spec fn nested(tag: u32, bytes: Seq<u8>, length: nat, limit: nat) -> Option<
        DecodeErrorModel,
    > {
        None
    }

    fn shape(tag: u32) -> (shape: (FieldKind, FieldPlace)) {
        let message = "AudioConfiguration";
        let (kind, field) = match tag {
            1 => (FieldKind::Number, "version"),
            2 => (FieldKind::Number, "codec"),
            3 => (FieldKind::Number, "sample_rate"),
            4 => (FieldKind::Number, "channels"),
            5 => (FieldKind::Number, "packet_duration_micros"),
            6 => (FieldKind::Number, "bitrate_bits_per_second"),
            _ => (FieldKind::Unknown, ""),
        };
        (kind, FieldPlace { message, field })
    }

    fn find_nested(_tag: u32, _bytes: &[u8], _length: usize, _limit: u32) -> (error: Option<
        DecodeError,
    >) {
        None
    }

    proof fn lemma_kind(model: Self::V, field: WireField, limit: nat) {
    }
}

impl WireShape for AudioStreamState {
    open spec fn kind(tag: u32) -> FieldKind {
        if 1 <= tag <= 3 {
            FieldKind::Number
        } else if tag == 4 {
            FieldKind::Text
        } else {
            FieldKind::Unknown
        }
    }

    open spec fn place(tag: u32) -> (Seq<char>, Seq<char>) {
        let field = if tag == 1 {
            "generation"@
        } else if tag == 2 {
            "status"@
        } else if tag == 3 {
            "dropped_packets"@
        } else if tag == 4 {
            "detail"@
        } else {
            ""@
        };
        ("AudioStreamState"@, field)
    }

    open spec fn nested(tag: u32, bytes: Seq<u8>, length: nat, limit: nat) -> Option<
        DecodeErrorModel,
    > {
        None
    }

    fn shape(tag: u32) -> (shape: (FieldKind, FieldPlace)) {
        let message = "AudioStreamState";
        let (kind, field) = match tag {
            1 => (FieldKind::Number, "generation"),
            2 => (FieldKind::Number, "status"),
            3 => (FieldKind::Number, "dropped_packets"),
            4 => (FieldKind::Text, "detail"),
            _ => (FieldKind::Unknown, ""),
        };
        (kind, FieldPlace { message, field })
    }

    fn find_nested(_tag: u32, _bytes: &[u8], _length: usize, _limit: u32) -> (error: Option<
        DecodeError,
    >) {
        None
    }

    proof fn lemma_kind(model: Self::V, field: WireField, limit: nat) {
    }
}

impl WireShape for Envelope {
    open spec fn kind(tag: u32) -> FieldKind {
        if 1 <= tag <= 21 {
            FieldKind::Message
        } else {
            FieldKind::Unknown
        }
    }

    open spec fn place(tag: u32) -> (Seq<char>, Seq<char>) {
        let field = if 1 <= tag <= 21 {
            "body"@
        } else {
            ""@
        };
        ("Envelope"@, field)
    }

    open spec fn nested(tag: u32, bytes: Seq<u8>, length: nat, limit: nat) -> Option<
        DecodeErrorModel,
    > {
        if tag == 1 {
            fault::message_fault::<VersionOffer>(bytes, length, limit)
        } else if tag == 2 {
            fault::message_fault::<Av1CapabilityOffer>(bytes, length, limit)
        } else if tag == 3 {
            fault::message_fault::<SelectedAv1Configuration>(bytes, length, limit)
        } else if tag == 4 {
            fault::message_fault::<OpaqueCredentialRequest>(bytes, length, limit)
        } else if tag == 5 {
            fault::message_fault::<OpaqueCredentialResponse>(bytes, length, limit)
        } else if tag == 6 {
            fault::message_fault::<OpaqueCredentialFinalization>(bytes, length, limit)
        } else if tag == 7 {
            fault::message_fault::<AuthenticationResult>(bytes, length, limit)
        } else if tag == 8 {
            fault::message_fault::<VideoControl>(bytes, length, limit)
        } else if tag == 9 {
            fault::message_fault::<VideoReceiverReport>(bytes, length, limit)
        } else if tag == 10 {
            fault::message_fault::<HostIdentityOffer>(bytes, length, limit)
        } else if tag == 11 {
            fault::message_fault::<HostIdentityRequest>(bytes, length, limit)
        } else if tag == 12 {
            fault::message_fault::<SessionAvailabilityProbe>(bytes, length, limit)
        } else if tag == 13 {
            fault::message_fault::<SessionAvailabilityResult>(bytes, length, limit)
        } else if tag == 14 {
            fault::message_fault::<AudioStreamState>(bytes, length, limit)
        } else if tag == 15 {
            fault::message_fault::<InputPack>(bytes, length, limit)
        } else if tag == 16 {
            fault::message_fault::<InputAck>(bytes, length, limit)
        } else if tag == 17 {
            fault::message_fault::<KeyboardLeds>(bytes, length, limit)
        } else if tag == 18 {
            fault::message_fault::<VideoStreamState>(bytes, length, limit)
        } else if tag == 19 {
            fault::message_fault::<ClockPing>(bytes, length, limit)
        } else if tag == 20 {
            fault::message_fault::<ClockPong>(bytes, length, limit)
        } else if tag == 21 {
            fault::message_fault::<HostSessionControl>(bytes, length, limit)
        } else {
            None
        }
    }

    fn shape(tag: u32) -> (shape: (FieldKind, FieldPlace)) {
        let message = "Envelope";
        let (kind, field) = match tag {
            1..=21 => (FieldKind::Message, "body"),
            _ => (FieldKind::Unknown, ""),
        };
        (kind, FieldPlace { message, field })
    }

    fn find_nested(tag: u32, bytes: &[u8], length: usize, limit: u32) -> (error: Option<
        DecodeError,
    >) {
        match tag {
            1 => find_message_fault::<VersionOffer>(bytes, length, limit),
            2 => find_message_fault::<Av1CapabilityOffer>(bytes, length, limit),
            3 => find_message_fault::<SelectedAv1Configuration>(bytes, length, limit),
            4 => find_message_fault::<OpaqueCredentialRequest>(bytes, length, limit),
            5 => find_message_fault::<OpaqueCredentialResponse>(bytes, length, limit),
            6 => find_message_fault::<OpaqueCredentialFinalization>(bytes, length, limit),
            7 => find_message_fault::<AuthenticationResult>(bytes, length, limit),
            8 => find_message_fault::<VideoControl>(bytes, length, limit),
            9 => find_message_fault::<VideoReceiverReport>(bytes, length, limit),
            10 => find_message_fault::<HostIdentityOffer>(bytes, length, limit),
            11 => find_message_fault::<HostIdentityRequest>(bytes, length, limit),
            12 => find_message_fault::<SessionAvailabilityProbe>(bytes, length, limit),
            13 => find_message_fault::<SessionAvailabilityResult>(bytes, length, limit),
            14 => find_message_fault::<AudioStreamState>(bytes, length, limit),
            15 => find_message_fault::<InputPack>(bytes, length, limit),
            16 => find_message_fault::<InputAck>(bytes, length, limit),
            17 => find_message_fault::<KeyboardLeds>(bytes, length, limit),
            18 => find_message_fault::<VideoStreamState>(bytes, length, limit),
            19 => find_message_fault::<ClockPing>(bytes, length, limit),
            20 => find_message_fault::<ClockPong>(bytes, length, limit),
            21 => find_message_fault::<HostSessionControl>(bytes, length, limit),
            _ => None,
        }
    }

    proof fn lemma_kind(model: Self::V, field: WireField, limit: nat) {
        match field.value {
            WireValue::Bytes(bytes) => if limit > 1 {
                assert(bytes.take(bytes.len() as int) =~= bytes);
                if field.tag == 1 {
                    fault::lemma_any_acceptance::<VersionOffer>(bytes, (limit - 1) as nat);
                } else if field.tag == 2 {
                    fault::lemma_any_acceptance::<Av1CapabilityOffer>(bytes, (limit - 1) as nat);
                } else if field.tag == 3 {
                    fault::lemma_any_acceptance::<SelectedAv1Configuration>(
                        bytes,
                        (limit - 1) as nat,
                    );
                } else if field.tag == 4 {
                    fault::lemma_any_acceptance::<OpaqueCredentialRequest>(
                        bytes,
                        (limit - 1) as nat,
                    );
                } else if field.tag == 5 {
                    fault::lemma_any_acceptance::<OpaqueCredentialResponse>(
                        bytes,
                        (limit - 1) as nat,
                    );
                } else if field.tag == 6 {
                    fault::lemma_any_acceptance::<OpaqueCredentialFinalization>(
                        bytes,
                        (limit - 1) as nat,
                    );
                } else if field.tag == 7 {
                    fault::lemma_any_acceptance::<AuthenticationResult>(bytes, (limit - 1) as nat);
                } else if field.tag == 8 {
                    fault::lemma_any_acceptance::<VideoControl>(bytes, (limit - 1) as nat);
                } else if field.tag == 9 {
                    fault::lemma_any_acceptance::<VideoReceiverReport>(bytes, (limit - 1) as nat);
                } else if field.tag == 10 {
                    fault::lemma_any_acceptance::<HostIdentityOffer>(bytes, (limit - 1) as nat);
                } else if field.tag == 11 {
                    fault::lemma_any_acceptance::<HostIdentityRequest>(bytes, (limit - 1) as nat);
                } else if field.tag == 12 {
                    fault::lemma_any_acceptance::<SessionAvailabilityProbe>(
                        bytes,
                        (limit - 1) as nat,
                    );
                } else if field.tag == 13 {
                    fault::lemma_any_acceptance::<SessionAvailabilityResult>(
                        bytes,
                        (limit - 1) as nat,
                    );
                } else if field.tag == 14 {
                    fault::lemma_any_acceptance::<AudioStreamState>(bytes, (limit - 1) as nat);
                } else if field.tag == 15 {
                    fault::lemma_any_acceptance::<InputPack>(bytes, (limit - 1) as nat);
                } else if field.tag == 16 {
                    fault::lemma_any_acceptance::<InputAck>(bytes, (limit - 1) as nat);
                } else if field.tag == 17 {
                    fault::lemma_any_acceptance::<KeyboardLeds>(bytes, (limit - 1) as nat);
                } else if field.tag == 18 {
                    fault::lemma_any_acceptance::<VideoStreamState>(bytes, (limit - 1) as nat);
                } else if field.tag == 19 {
                    fault::lemma_any_acceptance::<ClockPing>(bytes, (limit - 1) as nat);
                } else if field.tag == 20 {
                    fault::lemma_any_acceptance::<ClockPong>(bytes, (limit - 1) as nat);
                } else if field.tag == 21 {
                    fault::lemma_any_acceptance::<HostSessionControl>(bytes, (limit - 1) as nat);
                }
            },
            _ => {},
        }
    }
}

impl WireShape for KeyTransition {
    open spec fn kind(tag: u32) -> FieldKind {
        if 1 <= tag <= 2 {
            FieldKind::Number
        } else {
            FieldKind::Unknown
        }
    }

    open spec fn place(tag: u32) -> (Seq<char>, Seq<char>) {
        let field = if tag == 1 {
            "hid_usage"@
        } else if tag == 2 {
            "pressed"@
        } else {
            ""@
        };
        ("KeyTransition"@, field)
    }

    open spec fn nested(tag: u32, bytes: Seq<u8>, length: nat, limit: nat) -> Option<
        DecodeErrorModel,
    > {
        None
    }

    fn shape(tag: u32) -> (shape: (FieldKind, FieldPlace)) {
        let message = "KeyTransition";
        let (kind, field) = match tag {
            1 => (FieldKind::Number, "hid_usage"),
            2 => (FieldKind::Number, "pressed"),
            _ => (FieldKind::Unknown, ""),
        };
        (kind, FieldPlace { message, field })
    }

    fn find_nested(_tag: u32, _bytes: &[u8], _length: usize, _limit: u32) -> (error: Option<
        DecodeError,
    >) {
        None
    }

    proof fn lemma_kind(model: Self::V, field: WireField, limit: nat) {
    }
}

impl WireShape for PointerButtonTransition {
    open spec fn kind(tag: u32) -> FieldKind {
        if 1 <= tag <= 2 {
            FieldKind::Number
        } else {
            FieldKind::Unknown
        }
    }

    open spec fn place(tag: u32) -> (Seq<char>, Seq<char>) {
        let field = if tag == 1 {
            "button"@
        } else if tag == 2 {
            "pressed"@
        } else {
            ""@
        };
        ("PointerButtonTransition"@, field)
    }

    open spec fn nested(tag: u32, bytes: Seq<u8>, length: nat, limit: nat) -> Option<
        DecodeErrorModel,
    > {
        None
    }

    fn shape(tag: u32) -> (shape: (FieldKind, FieldPlace)) {
        let message = "PointerButtonTransition";
        let (kind, field) = match tag {
            1 => (FieldKind::Number, "button"),
            2 => (FieldKind::Number, "pressed"),
            _ => (FieldKind::Unknown, ""),
        };
        (kind, FieldPlace { message, field })
    }

    fn find_nested(_tag: u32, _bytes: &[u8], _length: usize, _limit: u32) -> (error: Option<
        DecodeError,
    >) {
        None
    }

    proof fn lemma_kind(model: Self::V, field: WireField, limit: nat) {
    }
}

impl WireShape for PointerMotionTransition {
    open spec fn kind(tag: u32) -> FieldKind {
        if 1 <= tag <= 2 {
            FieldKind::Number
        } else {
            FieldKind::Unknown
        }
    }

    open spec fn place(tag: u32) -> (Seq<char>, Seq<char>) {
        let field = if tag == 1 {
            "delta_x"@
        } else if tag == 2 {
            "delta_y"@
        } else {
            ""@
        };
        ("PointerMotionTransition"@, field)
    }

    open spec fn nested(tag: u32, bytes: Seq<u8>, length: nat, limit: nat) -> Option<
        DecodeErrorModel,
    > {
        None
    }

    fn shape(tag: u32) -> (shape: (FieldKind, FieldPlace)) {
        let message = "PointerMotionTransition";
        let (kind, field) = match tag {
            1 => (FieldKind::Number, "delta_x"),
            2 => (FieldKind::Number, "delta_y"),
            _ => (FieldKind::Unknown, ""),
        };
        (kind, FieldPlace { message, field })
    }

    fn find_nested(_tag: u32, _bytes: &[u8], _length: usize, _limit: u32) -> (error: Option<
        DecodeError,
    >) {
        None
    }

    proof fn lemma_kind(model: Self::V, field: WireField, limit: nat) {
    }
}

impl WireShape for PointerPositionTransition {
    open spec fn kind(tag: u32) -> FieldKind {
        if 1 <= tag <= 2 {
            FieldKind::Number
        } else {
            FieldKind::Unknown
        }
    }

    open spec fn place(tag: u32) -> (Seq<char>, Seq<char>) {
        let field = if tag == 1 {
            "x"@
        } else if tag == 2 {
            "y"@
        } else {
            ""@
        };
        ("PointerPositionTransition"@, field)
    }

    open spec fn nested(tag: u32, bytes: Seq<u8>, length: nat, limit: nat) -> Option<
        DecodeErrorModel,
    > {
        None
    }

    fn shape(tag: u32) -> (shape: (FieldKind, FieldPlace)) {
        let message = "PointerPositionTransition";
        let (kind, field) = match tag {
            1 => (FieldKind::Number, "x"),
            2 => (FieldKind::Number, "y"),
            _ => (FieldKind::Unknown, ""),
        };
        (kind, FieldPlace { message, field })
    }

    fn find_nested(_tag: u32, _bytes: &[u8], _length: usize, _limit: u32) -> (error: Option<
        DecodeError,
    >) {
        None
    }

    proof fn lemma_kind(model: Self::V, field: WireField, limit: nat) {
    }
}

impl WireShape for WheelTransition {
    open spec fn kind(tag: u32) -> FieldKind {
        if 1 <= tag <= 2 {
            FieldKind::Number
        } else {
            FieldKind::Unknown
        }
    }

    open spec fn place(tag: u32) -> (Seq<char>, Seq<char>) {
        let field = if tag == 1 {
            "horizontal"@
        } else if tag == 2 {
            "vertical"@
        } else {
            ""@
        };
        ("WheelTransition"@, field)
    }

    open spec fn nested(tag: u32, bytes: Seq<u8>, length: nat, limit: nat) -> Option<
        DecodeErrorModel,
    > {
        None
    }

    fn shape(tag: u32) -> (shape: (FieldKind, FieldPlace)) {
        let message = "WheelTransition";
        let (kind, field) = match tag {
            1 => (FieldKind::Number, "horizontal"),
            2 => (FieldKind::Number, "vertical"),
            _ => (FieldKind::Unknown, ""),
        };
        (kind, FieldPlace { message, field })
    }

    fn find_nested(_tag: u32, _bytes: &[u8], _length: usize, _limit: u32) -> (error: Option<
        DecodeError,
    >) {
        None
    }

    proof fn lemma_kind(model: Self::V, field: WireField, limit: nat) {
    }
}

impl WireShape for PointerModeTransition {
    open spec fn kind(tag: u32) -> FieldKind {
        if tag == 1 {
            FieldKind::Number
        } else {
            FieldKind::Unknown
        }
    }

    open spec fn place(tag: u32) -> (Seq<char>, Seq<char>) {
        let field = if tag == 1 {
            "mode"@
        } else {
            ""@
        };
        ("PointerModeTransition"@, field)
    }

    open spec fn nested(tag: u32, bytes: Seq<u8>, length: nat, limit: nat) -> Option<
        DecodeErrorModel,
    > {
        None
    }

    fn shape(tag: u32) -> (shape: (FieldKind, FieldPlace)) {
        let message = "PointerModeTransition";
        let (kind, field) = match tag {
            1 => (FieldKind::Number, "mode"),
            _ => (FieldKind::Unknown, ""),
        };
        (kind, FieldPlace { message, field })
    }

    fn find_nested(_tag: u32, _bytes: &[u8], _length: usize, _limit: u32) -> (error: Option<
        DecodeError,
    >) {
        None
    }

    proof fn lemma_kind(model: Self::V, field: WireField, limit: nat) {
    }
}

impl WireShape for ReleaseAll {
    open spec fn kind(tag: u32) -> FieldKind {
        FieldKind::Unknown
    }

    open spec fn place(tag: u32) -> (Seq<char>, Seq<char>) {
        ("ReleaseAll"@, ""@)
    }

    open spec fn nested(tag: u32, bytes: Seq<u8>, length: nat, limit: nat) -> Option<
        DecodeErrorModel,
    > {
        None
    }

    fn shape(tag: u32) -> (shape: (FieldKind, FieldPlace)) {
        let message = "ReleaseAll";
        (FieldKind::Unknown, FieldPlace { message, field: "" })
    }

    fn find_nested(_tag: u32, _bytes: &[u8], _length: usize, _limit: u32) -> (error: Option<
        DecodeError,
    >) {
        None
    }

    proof fn lemma_kind(model: Self::V, field: WireField, limit: nat) {
    }
}

impl WireShape for InputAck {
    open spec fn kind(tag: u32) -> FieldKind {
        if 1 <= tag <= 21 {
            FieldKind::Number
        } else {
            FieldKind::Unknown
        }
    }

    open spec fn place(tag: u32) -> (Seq<char>, Seq<char>) {
        let field = if tag == 1 {
            "generation"@
        } else if tag == 2 {
            "through_sequence"@
        } else if tag == 3 {
            "player_sent_at_micros"@
        } else if tag == 4 {
            "host_received_at_micros"@
        } else if tag == 5 {
            "host_submitted_at_micros"@
        } else if tag == 6 {
            "pointer_datagrams_received"@
        } else if tag == 7 {
            "pointer_updates_applied"@
        } else if tag == 8 {
            "pointer_updates_ignored"@
        } else if tag == 9 {
            "mouse_reports_published"@
        } else if tag == 10 {
            "keyboard_reports_published"@
        } else if tag == 11 {
            "reliable_transitions_received"@
        } else if tag == 12 {
            "reliable_transitions_applied"@
        } else if tag == 13 {
            "reliable_transitions_rejected"@
        } else if tag == 14 {
            "reliable_transitions_missing"@
        } else if tag == 15 {
            "reliable_transitions_duplicate_or_late"@
        } else if tag == 16 {
            "release_all_transitions"@
        } else if tag == 17 {
            "pointer_missing_datagrams"@
        } else if tag == 18 {
            "pointer_stale_generations"@
        } else if tag == 19 {
            "pointer_duplicate_or_late"@
        } else if tag == 20 {
            "pointer_mode_rejections"@
        } else if tag == 21 {
            "pointer_relative_baselines"@
        } else {
            ""@
        };
        ("InputAck"@, field)
    }

    open spec fn nested(tag: u32, bytes: Seq<u8>, length: nat, limit: nat) -> Option<
        DecodeErrorModel,
    > {
        None
    }

    fn shape(tag: u32) -> (shape: (FieldKind, FieldPlace)) {
        let message = "InputAck";
        let (kind, field) = match tag {
            1 => (FieldKind::Number, "generation"),
            2 => (FieldKind::Number, "through_sequence"),
            3 => (FieldKind::Number, "player_sent_at_micros"),
            4 => (FieldKind::Number, "host_received_at_micros"),
            5 => (FieldKind::Number, "host_submitted_at_micros"),
            6 => (FieldKind::Number, "pointer_datagrams_received"),
            7 => (FieldKind::Number, "pointer_updates_applied"),
            8 => (FieldKind::Number, "pointer_updates_ignored"),
            9 => (FieldKind::Number, "mouse_reports_published"),
            10 => (FieldKind::Number, "keyboard_reports_published"),
            11 => (FieldKind::Number, "reliable_transitions_received"),
            12 => (FieldKind::Number, "reliable_transitions_applied"),
            13 => (FieldKind::Number, "reliable_transitions_rejected"),
            14 => (FieldKind::Number, "reliable_transitions_missing"),
            15 => (FieldKind::Number, "reliable_transitions_duplicate_or_late"),
            16 => (FieldKind::Number, "release_all_transitions"),
            17 => (FieldKind::Number, "pointer_missing_datagrams"),
            18 => (FieldKind::Number, "pointer_stale_generations"),
            19 => (FieldKind::Number, "pointer_duplicate_or_late"),
            20 => (FieldKind::Number, "pointer_mode_rejections"),
            21 => (FieldKind::Number, "pointer_relative_baselines"),
            _ => (FieldKind::Unknown, ""),
        };
        (kind, FieldPlace { message, field })
    }

    fn find_nested(_tag: u32, _bytes: &[u8], _length: usize, _limit: u32) -> (error: Option<
        DecodeError,
    >) {
        None
    }

    proof fn lemma_kind(model: Self::V, field: WireField, limit: nat) {
    }
}

impl WireShape for KeyboardLeds {
    open spec fn kind(tag: u32) -> FieldKind {
        if 1 <= tag <= 3 {
            FieldKind::Number
        } else {
            FieldKind::Unknown
        }
    }

    open spec fn place(tag: u32) -> (Seq<char>, Seq<char>) {
        let field = if tag == 1 {
            "generation"@
        } else if tag == 2 {
            "sequence"@
        } else if tag == 3 {
            "mask"@
        } else {
            ""@
        };
        ("KeyboardLeds"@, field)
    }

    open spec fn nested(tag: u32, bytes: Seq<u8>, length: nat, limit: nat) -> Option<
        DecodeErrorModel,
    > {
        None
    }

    fn shape(tag: u32) -> (shape: (FieldKind, FieldPlace)) {
        let message = "KeyboardLeds";
        let (kind, field) = match tag {
            1 => (FieldKind::Number, "generation"),
            2 => (FieldKind::Number, "sequence"),
            3 => (FieldKind::Number, "mask"),
            _ => (FieldKind::Unknown, ""),
        };
        (kind, FieldPlace { message, field })
    }

    fn find_nested(_tag: u32, _bytes: &[u8], _length: usize, _limit: u32) -> (error: Option<
        DecodeError,
    >) {
        None
    }

    proof fn lemma_kind(model: Self::V, field: WireField, limit: nat) {
    }
}

impl WireShape for InputTransition {
    open spec fn kind(tag: u32) -> FieldKind {
        if 1 <= tag <= 2 || tag == 8 {
            FieldKind::Number
        } else if 3 <= tag <= 7 || 9 <= tag <= 10 {
            FieldKind::Message
        } else {
            FieldKind::Unknown
        }
    }

    open spec fn place(tag: u32) -> (Seq<char>, Seq<char>) {
        let field = if tag == 1 {
            "generation"@
        } else if tag == 2 {
            "sequence"@
        } else if 3 <= tag <= 7 || 9 <= tag <= 10 {
            "action"@
        } else if tag == 8 {
            "player_sent_at_micros"@
        } else {
            ""@
        };
        ("InputTransition"@, field)
    }

    open spec fn nested(tag: u32, bytes: Seq<u8>, length: nat, limit: nat) -> Option<
        DecodeErrorModel,
    > {
        if tag == 3 {
            fault::message_fault::<KeyTransition>(bytes, length, limit)
        } else if tag == 4 {
            fault::message_fault::<PointerButtonTransition>(bytes, length, limit)
        } else if tag == 5 {
            fault::message_fault::<WheelTransition>(bytes, length, limit)
        } else if tag == 6 {
            fault::message_fault::<PointerModeTransition>(bytes, length, limit)
        } else if tag == 7 {
            fault::message_fault::<ReleaseAll>(bytes, length, limit)
        } else if tag == 9 {
            fault::message_fault::<PointerMotionTransition>(bytes, length, limit)
        } else if tag == 10 {
            fault::message_fault::<PointerPositionTransition>(bytes, length, limit)
        } else {
            None
        }
    }

    fn shape(tag: u32) -> (shape: (FieldKind, FieldPlace)) {
        let message = "InputTransition";
        let (kind, field) = match tag {
            1 => (FieldKind::Number, "generation"),
            2 => (FieldKind::Number, "sequence"),
            3..=7 | 9 | 10 => (FieldKind::Message, "action"),
            8 => (FieldKind::Number, "player_sent_at_micros"),
            _ => (FieldKind::Unknown, ""),
        };
        (kind, FieldPlace { message, field })
    }

    fn find_nested(tag: u32, bytes: &[u8], length: usize, limit: u32) -> (error: Option<
        DecodeError,
    >) {
        match tag {
            3 => find_message_fault::<KeyTransition>(bytes, length, limit),
            4 => find_message_fault::<PointerButtonTransition>(bytes, length, limit),
            5 => find_message_fault::<WheelTransition>(bytes, length, limit),
            6 => find_message_fault::<PointerModeTransition>(bytes, length, limit),
            7 => find_message_fault::<ReleaseAll>(bytes, length, limit),
            9 => find_message_fault::<PointerMotionTransition>(bytes, length, limit),
            10 => find_message_fault::<PointerPositionTransition>(bytes, length, limit),
            _ => None,
        }
    }

    proof fn lemma_kind(model: Self::V, field: WireField, limit: nat) {
        match field.value {
            WireValue::Bytes(bytes) => if limit > 1 {
                assert(bytes.take(bytes.len() as int) =~= bytes);
                if field.tag == 3 {
                    fault::lemma_any_acceptance::<KeyTransition>(bytes, (limit - 1) as nat);
                } else if field.tag == 4 {
                    fault::lemma_any_acceptance::<PointerButtonTransition>(
                        bytes,
                        (limit - 1) as nat,
                    );
                } else if field.tag == 5 {
                    fault::lemma_any_acceptance::<WheelTransition>(bytes, (limit - 1) as nat);
                } else if field.tag == 6 {
                    fault::lemma_any_acceptance::<PointerModeTransition>(bytes, (limit - 1) as nat);
                } else if field.tag == 7 {
                    fault::lemma_any_acceptance::<ReleaseAll>(bytes, (limit - 1) as nat);
                } else if field.tag == 9 {
                    fault::lemma_any_acceptance::<PointerMotionTransition>(
                        bytes,
                        (limit - 1) as nat,
                    );
                } else if field.tag == 10 {
                    fault::lemma_any_acceptance::<PointerPositionTransition>(
                        bytes,
                        (limit - 1) as nat,
                    );
                }
            },
            _ => {},
        }
    }
}

impl WireShape for InputPack {
    open spec fn kind(tag: u32) -> FieldKind {
        if tag == 1 {
            FieldKind::Message
        } else {
            FieldKind::Unknown
        }
    }

    open spec fn place(tag: u32) -> (Seq<char>, Seq<char>) {
        let field = if tag == 1 {
            "transitions"@
        } else {
            ""@
        };
        ("InputPack"@, field)
    }

    open spec fn nested(tag: u32, bytes: Seq<u8>, length: nat, limit: nat) -> Option<
        DecodeErrorModel,
    > {
        if tag == 1 {
            fault::message_fault::<InputTransition>(bytes, length, limit)
        } else {
            None
        }
    }

    fn shape(tag: u32) -> (shape: (FieldKind, FieldPlace)) {
        let message = "InputPack";
        let (kind, field) = match tag {
            1 => (FieldKind::Message, "transitions"),
            _ => (FieldKind::Unknown, ""),
        };
        (kind, FieldPlace { message, field })
    }

    fn find_nested(tag: u32, bytes: &[u8], length: usize, limit: u32) -> (error: Option<
        DecodeError,
    >) {
        match tag {
            1 => find_message_fault::<InputTransition>(bytes, length, limit),
            _ => None,
        }
    }

    proof fn lemma_kind(model: Self::V, field: WireField, limit: nat) {
        match field.value {
            WireValue::Bytes(bytes) => if limit > 1 {
                assert(bytes.take(bytes.len() as int) =~= bytes);
                if field.tag == 1 {
                    fault::lemma_any_acceptance::<InputTransition>(bytes, (limit - 1) as nat);
                }
            },
            _ => {},
        }
    }
}

impl WireShape for Av1HardwareCapability {
    open spec fn kind(tag: u32) -> FieldKind {
        if 1 <= tag <= 5 {
            FieldKind::Number
        } else {
            FieldKind::Unknown
        }
    }

    open spec fn place(tag: u32) -> (Seq<char>, Seq<char>) {
        let field = if tag == 1 {
            "chroma_subsampling"@
        } else if tag == 2 {
            "bit_depth"@
        } else if tag == 3 {
            "maximum_width"@
        } else if tag == 4 {
            "maximum_height"@
        } else if tag == 5 {
            "maximum_frames_per_second"@
        } else {
            ""@
        };
        ("Av1HardwareCapability"@, field)
    }

    open spec fn nested(tag: u32, bytes: Seq<u8>, length: nat, limit: nat) -> Option<
        DecodeErrorModel,
    > {
        None
    }

    fn shape(tag: u32) -> (shape: (FieldKind, FieldPlace)) {
        let message = "Av1HardwareCapability";
        let (kind, field) = match tag {
            1 => (FieldKind::Number, "chroma_subsampling"),
            2 => (FieldKind::Number, "bit_depth"),
            3 => (FieldKind::Number, "maximum_width"),
            4 => (FieldKind::Number, "maximum_height"),
            5 => (FieldKind::Number, "maximum_frames_per_second"),
            _ => (FieldKind::Unknown, ""),
        };
        (kind, FieldPlace { message, field })
    }

    fn find_nested(_tag: u32, _bytes: &[u8], _length: usize, _limit: u32) -> (error: Option<
        DecodeError,
    >) {
        None
    }

    proof fn lemma_kind(model: Self::V, field: WireField, limit: nat) {
    }
}

impl WireShape for Av1Mode {
    open spec fn kind(tag: u32) -> FieldKind {
        if 1 <= tag <= 2 {
            FieldKind::Number
        } else {
            FieldKind::Unknown
        }
    }

    open spec fn place(tag: u32) -> (Seq<char>, Seq<char>) {
        let field = if tag == 1 {
            "chroma_subsampling"@
        } else if tag == 2 {
            "bit_depth"@
        } else {
            ""@
        };
        ("Av1Mode"@, field)
    }

    open spec fn nested(tag: u32, bytes: Seq<u8>, length: nat, limit: nat) -> Option<
        DecodeErrorModel,
    > {
        None
    }

    fn shape(tag: u32) -> (shape: (FieldKind, FieldPlace)) {
        let message = "Av1Mode";
        let (kind, field) = match tag {
            1 => (FieldKind::Number, "chroma_subsampling"),
            2 => (FieldKind::Number, "bit_depth"),
            _ => (FieldKind::Unknown, ""),
        };
        (kind, FieldPlace { message, field })
    }

    fn find_nested(_tag: u32, _bytes: &[u8], _length: usize, _limit: u32) -> (error: Option<
        DecodeError,
    >) {
        None
    }

    proof fn lemma_kind(model: Self::V, field: WireField, limit: nat) {
    }
}

impl WireShape for Av1ViewerSettings {
    open spec fn kind(tag: u32) -> FieldKind {
        if 1 <= tag <= 3 || tag == 5 {
            FieldKind::Number
        } else if tag == 4 {
            FieldKind::Message
        } else {
            FieldKind::Unknown
        }
    }

    open spec fn place(tag: u32) -> (Seq<char>, Seq<char>) {
        let field = if tag == 1 {
            "width"@
        } else if tag == 2 {
            "height"@
        } else if tag == 3 {
            "frames_per_second"@
        } else if tag == 4 {
            "mode_preferences"@
        } else if tag == 5 {
            "maximum_bitrate_bits_per_second"@
        } else {
            ""@
        };
        ("Av1ViewerSettings"@, field)
    }

    open spec fn nested(tag: u32, bytes: Seq<u8>, length: nat, limit: nat) -> Option<
        DecodeErrorModel,
    > {
        if tag == 4 {
            fault::message_fault::<Av1Mode>(bytes, length, limit)
        } else {
            None
        }
    }

    fn shape(tag: u32) -> (shape: (FieldKind, FieldPlace)) {
        let message = "Av1ViewerSettings";
        let (kind, field) = match tag {
            1 => (FieldKind::Number, "width"),
            2 => (FieldKind::Number, "height"),
            3 => (FieldKind::Number, "frames_per_second"),
            4 => (FieldKind::Message, "mode_preferences"),
            5 => (FieldKind::Number, "maximum_bitrate_bits_per_second"),
            _ => (FieldKind::Unknown, ""),
        };
        (kind, FieldPlace { message, field })
    }

    fn find_nested(tag: u32, bytes: &[u8], length: usize, limit: u32) -> (error: Option<
        DecodeError,
    >) {
        match tag {
            4 => find_message_fault::<Av1Mode>(bytes, length, limit),
            _ => None,
        }
    }

    proof fn lemma_kind(model: Self::V, field: WireField, limit: nat) {
        match field.value {
            WireValue::Bytes(bytes) => if limit > 1 {
                assert(bytes.take(bytes.len() as int) =~= bytes);
                if field.tag == 4 {
                    fault::lemma_any_acceptance::<Av1Mode>(bytes, (limit - 1) as nat);
                }
            },
            _ => {},
        }
    }
}

impl WireShape for SelectedAv1Configuration {
    open spec fn kind(tag: u32) -> FieldKind {
        if 1 <= tag <= 3 || tag == 5 || 8 <= tag <= 10 {
            FieldKind::Number
        } else if tag == 4 || tag == 7 {
            FieldKind::Message
        } else {
            FieldKind::Unknown
        }
    }

    open spec fn place(tag: u32) -> (Seq<char>, Seq<char>) {
        let field = if tag == 1 {
            "width"@
        } else if tag == 2 {
            "height"@
        } else if tag == 3 {
            "frames_per_second"@
        } else if tag == 4 {
            "mode"@
        } else if tag == 5 {
            "maximum_bitrate_bits_per_second"@
        } else if tag == 7 {
            "audio_transport"@
        } else if tag == 8 {
            "full_diagnostics"@
        } else if tag == 9 {
            "host_pointer_release"@
        } else if tag == 10 {
            "dedicated_input_stream"@
        } else {
            ""@
        };
        ("SelectedAv1Configuration"@, field)
    }

    open spec fn nested(tag: u32, bytes: Seq<u8>, length: nat, limit: nat) -> Option<
        DecodeErrorModel,
    > {
        if tag == 4 {
            fault::message_fault::<Av1Mode>(bytes, length, limit)
        } else if tag == 7 {
            fault::message_fault::<AudioConfiguration>(bytes, length, limit)
        } else {
            None
        }
    }

    fn shape(tag: u32) -> (shape: (FieldKind, FieldPlace)) {
        let message = "SelectedAv1Configuration";
        let (kind, field) = match tag {
            1 => (FieldKind::Number, "width"),
            2 => (FieldKind::Number, "height"),
            3 => (FieldKind::Number, "frames_per_second"),
            4 => (FieldKind::Message, "mode"),
            5 => (FieldKind::Number, "maximum_bitrate_bits_per_second"),
            7 => (FieldKind::Message, "audio_transport"),
            8 => (FieldKind::Number, "full_diagnostics"),
            9 => (FieldKind::Number, "host_pointer_release"),
            10 => (FieldKind::Number, "dedicated_input_stream"),
            _ => (FieldKind::Unknown, ""),
        };
        (kind, FieldPlace { message, field })
    }

    fn find_nested(tag: u32, bytes: &[u8], length: usize, limit: u32) -> (error: Option<
        DecodeError,
    >) {
        match tag {
            4 => find_message_fault::<Av1Mode>(bytes, length, limit),
            7 => find_message_fault::<AudioConfiguration>(bytes, length, limit),
            _ => None,
        }
    }

    proof fn lemma_kind(model: Self::V, field: WireField, limit: nat) {
        match field.value {
            WireValue::Bytes(bytes) => if limit > 1 {
                assert(bytes.take(bytes.len() as int) =~= bytes);
                if field.tag == 4 {
                    fault::lemma_any_acceptance::<Av1Mode>(bytes, (limit - 1) as nat);
                } else if field.tag == 7 {
                    fault::lemma_any_acceptance::<AudioConfiguration>(bytes, (limit - 1) as nat);
                }
            },
            _ => {},
        }
    }
}

impl WireShape for Av1CapabilityOffer {
    open spec fn kind(tag: u32) -> FieldKind {
        if 5 <= tag <= 7 {
            FieldKind::Number
        } else if 1 <= tag <= 4 {
            FieldKind::Message
        } else {
            FieldKind::Unknown
        }
    }

    open spec fn place(tag: u32) -> (Seq<char>, Seq<char>) {
        let field = if tag == 1 {
            "encoder_capabilities"@
        } else if tag == 2 {
            "decoder_capabilities"@
        } else if tag == 3 {
            "viewer_settings"@
        } else if tag == 4 {
            "audio_transport"@
        } else if tag == 5 {
            "full_diagnostics"@
        } else if tag == 6 {
            "host_pointer_release"@
        } else if tag == 7 {
            "dedicated_input_stream"@
        } else {
            ""@
        };
        ("Av1CapabilityOffer"@, field)
    }

    open spec fn nested(tag: u32, bytes: Seq<u8>, length: nat, limit: nat) -> Option<
        DecodeErrorModel,
    > {
        if 1 <= tag <= 2 {
            fault::message_fault::<Av1HardwareCapability>(bytes, length, limit)
        } else if tag == 3 {
            fault::message_fault::<Av1ViewerSettings>(bytes, length, limit)
        } else if tag == 4 {
            fault::message_fault::<AudioConfiguration>(bytes, length, limit)
        } else {
            None
        }
    }

    fn shape(tag: u32) -> (shape: (FieldKind, FieldPlace)) {
        let message = "Av1CapabilityOffer";
        let (kind, field) = match tag {
            1 => (FieldKind::Message, "encoder_capabilities"),
            2 => (FieldKind::Message, "decoder_capabilities"),
            3 => (FieldKind::Message, "viewer_settings"),
            4 => (FieldKind::Message, "audio_transport"),
            5 => (FieldKind::Number, "full_diagnostics"),
            6 => (FieldKind::Number, "host_pointer_release"),
            7 => (FieldKind::Number, "dedicated_input_stream"),
            _ => (FieldKind::Unknown, ""),
        };
        (kind, FieldPlace { message, field })
    }

    fn find_nested(tag: u32, bytes: &[u8], length: usize, limit: u32) -> (error: Option<
        DecodeError,
    >) {
        match tag {
            1 | 2 => find_message_fault::<Av1HardwareCapability>(bytes, length, limit),
            3 => find_message_fault::<Av1ViewerSettings>(bytes, length, limit),
            4 => find_message_fault::<AudioConfiguration>(bytes, length, limit),
            _ => None,
        }
    }

    proof fn lemma_kind(model: Self::V, field: WireField, limit: nat) {
        match field.value {
            WireValue::Bytes(bytes) => if limit > 1 {
                assert(bytes.take(bytes.len() as int) =~= bytes);
                if 1 <= field.tag <= 2 {
                    fault::lemma_any_acceptance::<Av1HardwareCapability>(bytes, (limit - 1) as nat);
                } else if field.tag == 3 {
                    fault::lemma_any_acceptance::<Av1ViewerSettings>(bytes, (limit - 1) as nat);
                } else if field.tag == 4 {
                    fault::lemma_any_acceptance::<AudioConfiguration>(bytes, (limit - 1) as nat);
                }
            },
            _ => {},
        }
    }
}

impl WireShape for OpaqueCredentialRequest {
    open spec fn kind(tag: u32) -> FieldKind {
        if 1 <= tag <= 2 {
            FieldKind::Bytes
        } else {
            FieldKind::Unknown
        }
    }

    open spec fn place(tag: u32) -> (Seq<char>, Seq<char>) {
        let field = if tag == 1 {
            "credential_identifier"@
        } else if tag == 2 {
            "message"@
        } else {
            ""@
        };
        ("OpaqueCredentialRequest"@, field)
    }

    open spec fn nested(tag: u32, bytes: Seq<u8>, length: nat, limit: nat) -> Option<
        DecodeErrorModel,
    > {
        None
    }

    fn shape(tag: u32) -> (shape: (FieldKind, FieldPlace)) {
        let message = "OpaqueCredentialRequest";
        let (kind, field) = match tag {
            1 => (FieldKind::Bytes, "credential_identifier"),
            2 => (FieldKind::Bytes, "message"),
            _ => (FieldKind::Unknown, ""),
        };
        (kind, FieldPlace { message, field })
    }

    fn find_nested(_tag: u32, _bytes: &[u8], _length: usize, _limit: u32) -> (error: Option<
        DecodeError,
    >) {
        None
    }

    proof fn lemma_kind(model: Self::V, field: WireField, limit: nat) {
    }
}

impl WireShape for OpaqueCredentialResponse {
    open spec fn kind(tag: u32) -> FieldKind {
        if tag == 1 {
            FieldKind::Bytes
        } else {
            FieldKind::Unknown
        }
    }

    open spec fn place(tag: u32) -> (Seq<char>, Seq<char>) {
        let field = if tag == 1 {
            "message"@
        } else {
            ""@
        };
        ("OpaqueCredentialResponse"@, field)
    }

    open spec fn nested(tag: u32, bytes: Seq<u8>, length: nat, limit: nat) -> Option<
        DecodeErrorModel,
    > {
        None
    }

    fn shape(tag: u32) -> (shape: (FieldKind, FieldPlace)) {
        let message = "OpaqueCredentialResponse";
        let (kind, field) = match tag {
            1 => (FieldKind::Bytes, "message"),
            _ => (FieldKind::Unknown, ""),
        };
        (kind, FieldPlace { message, field })
    }

    fn find_nested(_tag: u32, _bytes: &[u8], _length: usize, _limit: u32) -> (error: Option<
        DecodeError,
    >) {
        None
    }

    proof fn lemma_kind(model: Self::V, field: WireField, limit: nat) {
    }
}

impl WireShape for OpaqueCredentialFinalization {
    open spec fn kind(tag: u32) -> FieldKind {
        if tag == 1 {
            FieldKind::Bytes
        } else {
            FieldKind::Unknown
        }
    }

    open spec fn place(tag: u32) -> (Seq<char>, Seq<char>) {
        let field = if tag == 1 {
            "message"@
        } else {
            ""@
        };
        ("OpaqueCredentialFinalization"@, field)
    }

    open spec fn nested(tag: u32, bytes: Seq<u8>, length: nat, limit: nat) -> Option<
        DecodeErrorModel,
    > {
        None
    }

    fn shape(tag: u32) -> (shape: (FieldKind, FieldPlace)) {
        let message = "OpaqueCredentialFinalization";
        let (kind, field) = match tag {
            1 => (FieldKind::Bytes, "message"),
            _ => (FieldKind::Unknown, ""),
        };
        (kind, FieldPlace { message, field })
    }

    fn find_nested(_tag: u32, _bytes: &[u8], _length: usize, _limit: u32) -> (error: Option<
        DecodeError,
    >) {
        None
    }

    proof fn lemma_kind(model: Self::V, field: WireField, limit: nat) {
    }
}

impl WireShape for AuthenticationResult {
    open spec fn kind(tag: u32) -> FieldKind {
        if tag == 1 {
            FieldKind::Number
        } else if tag == 2 {
            FieldKind::Bytes
        } else {
            FieldKind::Unknown
        }
    }

    open spec fn place(tag: u32) -> (Seq<char>, Seq<char>) {
        let field = if tag == 1 {
            "accepted"@
        } else if tag == 2 {
            "host_identity"@
        } else {
            ""@
        };
        ("AuthenticationResult"@, field)
    }

    open spec fn nested(tag: u32, bytes: Seq<u8>, length: nat, limit: nat) -> Option<
        DecodeErrorModel,
    > {
        None
    }

    fn shape(tag: u32) -> (shape: (FieldKind, FieldPlace)) {
        let message = "AuthenticationResult";
        let (kind, field) = match tag {
            1 => (FieldKind::Number, "accepted"),
            2 => (FieldKind::Bytes, "host_identity"),
            _ => (FieldKind::Unknown, ""),
        };
        (kind, FieldPlace { message, field })
    }

    fn find_nested(_tag: u32, _bytes: &[u8], _length: usize, _limit: u32) -> (error: Option<
        DecodeError,
    >) {
        None
    }

    proof fn lemma_kind(model: Self::V, field: WireField, limit: nat) {
    }
}

impl WireShape for HostIdentityOffer {
    open spec fn kind(tag: u32) -> FieldKind {
        if tag == 3 {
            FieldKind::Number
        } else if tag == 1 {
            FieldKind::Bytes
        } else if tag == 2 {
            FieldKind::Text
        } else {
            FieldKind::Unknown
        }
    }

    open spec fn place(tag: u32) -> (Seq<char>, Seq<char>) {
        let field = if tag == 1 {
            "host_identity"@
        } else if tag == 2 {
            "display_name"@
        } else if tag == 3 {
            "operating_system"@
        } else {
            ""@
        };
        ("HostIdentityOffer"@, field)
    }

    open spec fn nested(tag: u32, bytes: Seq<u8>, length: nat, limit: nat) -> Option<
        DecodeErrorModel,
    > {
        None
    }

    fn shape(tag: u32) -> (shape: (FieldKind, FieldPlace)) {
        let message = "HostIdentityOffer";
        let (kind, field) = match tag {
            1 => (FieldKind::Bytes, "host_identity"),
            2 => (FieldKind::Text, "display_name"),
            3 => (FieldKind::Number, "operating_system"),
            _ => (FieldKind::Unknown, ""),
        };
        (kind, FieldPlace { message, field })
    }

    fn find_nested(_tag: u32, _bytes: &[u8], _length: usize, _limit: u32) -> (error: Option<
        DecodeError,
    >) {
        None
    }

    proof fn lemma_kind(model: Self::V, field: WireField, limit: nat) {
    }
}

impl WireShape for HostIdentityRequest {
    open spec fn kind(tag: u32) -> FieldKind {
        FieldKind::Unknown
    }

    open spec fn place(tag: u32) -> (Seq<char>, Seq<char>) {
        ("HostIdentityRequest"@, ""@)
    }

    open spec fn nested(tag: u32, bytes: Seq<u8>, length: nat, limit: nat) -> Option<
        DecodeErrorModel,
    > {
        None
    }

    fn shape(tag: u32) -> (shape: (FieldKind, FieldPlace)) {
        let message = "HostIdentityRequest";
        (FieldKind::Unknown, FieldPlace { message, field: "" })
    }

    fn find_nested(_tag: u32, _bytes: &[u8], _length: usize, _limit: u32) -> (error: Option<
        DecodeError,
    >) {
        None
    }

    proof fn lemma_kind(model: Self::V, field: WireField, limit: nat) {
    }
}

impl WireShape for SessionAvailabilityProbe {
    open spec fn kind(tag: u32) -> FieldKind {
        FieldKind::Unknown
    }

    open spec fn place(tag: u32) -> (Seq<char>, Seq<char>) {
        ("SessionAvailabilityProbe"@, ""@)
    }

    open spec fn nested(tag: u32, bytes: Seq<u8>, length: nat, limit: nat) -> Option<
        DecodeErrorModel,
    > {
        None
    }

    fn shape(tag: u32) -> (shape: (FieldKind, FieldPlace)) {
        let message = "SessionAvailabilityProbe";
        (FieldKind::Unknown, FieldPlace { message, field: "" })
    }

    fn find_nested(_tag: u32, _bytes: &[u8], _length: usize, _limit: u32) -> (error: Option<
        DecodeError,
    >) {
        None
    }

    proof fn lemma_kind(model: Self::V, field: WireField, limit: nat) {
    }
}

impl WireShape for SessionAvailabilityResult {
    open spec fn kind(tag: u32) -> FieldKind {
        if 1 <= tag <= 3 {
            FieldKind::Number
        } else {
            FieldKind::Unknown
        }
    }

    open spec fn place(tag: u32) -> (Seq<char>, Seq<char>) {
        let field = if tag == 1 {
            "availability"@
        } else if tag == 2 {
            "vb_cable_status"@
        } else if tag == 3 {
            "firewall_status"@
        } else {
            ""@
        };
        ("SessionAvailabilityResult"@, field)
    }

    open spec fn nested(tag: u32, bytes: Seq<u8>, length: nat, limit: nat) -> Option<
        DecodeErrorModel,
    > {
        None
    }

    fn shape(tag: u32) -> (shape: (FieldKind, FieldPlace)) {
        let message = "SessionAvailabilityResult";
        let (kind, field) = match tag {
            1 => (FieldKind::Number, "availability"),
            2 => (FieldKind::Number, "vb_cable_status"),
            3 => (FieldKind::Number, "firewall_status"),
            _ => (FieldKind::Unknown, ""),
        };
        (kind, FieldPlace { message, field })
    }

    fn find_nested(_tag: u32, _bytes: &[u8], _length: usize, _limit: u32) -> (error: Option<
        DecodeError,
    >) {
        None
    }

    proof fn lemma_kind(model: Self::V, field: WireField, limit: nat) {
    }
}

impl WireShape for HostSessionControl {
    open spec fn kind(tag: u32) -> FieldKind {
        if tag == 1 {
            FieldKind::Number
        } else {
            FieldKind::Unknown
        }
    }

    open spec fn place(tag: u32) -> (Seq<char>, Seq<char>) {
        let field = if tag == 1 {
            "kind"@
        } else {
            ""@
        };
        ("HostSessionControl"@, field)
    }

    open spec fn nested(tag: u32, bytes: Seq<u8>, length: nat, limit: nat) -> Option<
        DecodeErrorModel,
    > {
        None
    }

    fn shape(tag: u32) -> (shape: (FieldKind, FieldPlace)) {
        let message = "HostSessionControl";
        let (kind, field) = match tag {
            1 => (FieldKind::Number, "kind"),
            _ => (FieldKind::Unknown, ""),
        };
        (kind, FieldPlace { message, field })
    }

    fn find_nested(_tag: u32, _bytes: &[u8], _length: usize, _limit: u32) -> (error: Option<
        DecodeError,
    >) {
        None
    }

    proof fn lemma_kind(model: Self::V, field: WireField, limit: nat) {
    }
}

impl WireShape for ClockPing {
    open spec fn kind(tag: u32) -> FieldKind {
        if 1 <= tag <= 2 {
            FieldKind::Number
        } else {
            FieldKind::Unknown
        }
    }

    open spec fn place(tag: u32) -> (Seq<char>, Seq<char>) {
        let field = if tag == 1 {
            "sequence"@
        } else if tag == 2 {
            "player_sent_at_micros"@
        } else {
            ""@
        };
        ("ClockPing"@, field)
    }

    open spec fn nested(tag: u32, bytes: Seq<u8>, length: nat, limit: nat) -> Option<
        DecodeErrorModel,
    > {
        None
    }

    fn shape(tag: u32) -> (shape: (FieldKind, FieldPlace)) {
        let message = "ClockPing";
        let (kind, field) = match tag {
            1 => (FieldKind::Number, "sequence"),
            2 => (FieldKind::Number, "player_sent_at_micros"),
            _ => (FieldKind::Unknown, ""),
        };
        (kind, FieldPlace { message, field })
    }

    fn find_nested(_tag: u32, _bytes: &[u8], _length: usize, _limit: u32) -> (error: Option<
        DecodeError,
    >) {
        None
    }

    proof fn lemma_kind(model: Self::V, field: WireField, limit: nat) {
    }
}

impl WireShape for ClockPong {
    open spec fn kind(tag: u32) -> FieldKind {
        if 1 <= tag <= 4 {
            FieldKind::Number
        } else {
            FieldKind::Unknown
        }
    }

    open spec fn place(tag: u32) -> (Seq<char>, Seq<char>) {
        let field = if tag == 1 {
            "sequence"@
        } else if tag == 2 {
            "player_sent_at_micros"@
        } else if tag == 3 {
            "host_received_at_micros"@
        } else if tag == 4 {
            "host_sent_at_micros"@
        } else {
            ""@
        };
        ("ClockPong"@, field)
    }

    open spec fn nested(tag: u32, bytes: Seq<u8>, length: nat, limit: nat) -> Option<
        DecodeErrorModel,
    > {
        None
    }

    fn shape(tag: u32) -> (shape: (FieldKind, FieldPlace)) {
        let message = "ClockPong";
        let (kind, field) = match tag {
            1 => (FieldKind::Number, "sequence"),
            2 => (FieldKind::Number, "player_sent_at_micros"),
            3 => (FieldKind::Number, "host_received_at_micros"),
            4 => (FieldKind::Number, "host_sent_at_micros"),
            _ => (FieldKind::Unknown, ""),
        };
        (kind, FieldPlace { message, field })
    }

    fn find_nested(_tag: u32, _bytes: &[u8], _length: usize, _limit: u32) -> (error: Option<
        DecodeError,
    >) {
        None
    }

    proof fn lemma_kind(model: Self::V, field: WireField, limit: nat) {
    }
}

impl WireShape for FeatureOffer {
    open spec fn kind(tag: u32) -> FieldKind {
        if 1 <= tag <= 4 {
            FieldKind::Number
        } else {
            FieldKind::Unknown
        }
    }

    open spec fn place(tag: u32) -> (Seq<char>, Seq<char>) {
        let field = if tag == 1 {
            "id"@
        } else if tag == 2 {
            "oldest_version"@
        } else if tag == 3 {
            "newest_version"@
        } else if tag == 4 {
            "required"@
        } else {
            ""@
        };
        ("FeatureOffer"@, field)
    }

    open spec fn nested(tag: u32, bytes: Seq<u8>, length: nat, limit: nat) -> Option<
        DecodeErrorModel,
    > {
        None
    }

    fn shape(tag: u32) -> (shape: (FieldKind, FieldPlace)) {
        let message = "FeatureOffer";
        let (kind, field) = match tag {
            1 => (FieldKind::Number, "id"),
            2 => (FieldKind::Number, "oldest_version"),
            3 => (FieldKind::Number, "newest_version"),
            4 => (FieldKind::Number, "required"),
            _ => (FieldKind::Unknown, ""),
        };
        (kind, FieldPlace { message, field })
    }

    fn find_nested(_tag: u32, _bytes: &[u8], _length: usize, _limit: u32) -> (error: Option<
        DecodeError,
    >) {
        None
    }

    proof fn lemma_kind(model: Self::V, field: WireField, limit: nat) {
    }
}

impl WireShape for VersionOffer {
    open spec fn kind(tag: u32) -> FieldKind {
        if 1 <= tag <= 2 {
            FieldKind::Number
        } else if tag == 3 {
            FieldKind::Message
        } else {
            FieldKind::Unknown
        }
    }

    open spec fn place(tag: u32) -> (Seq<char>, Seq<char>) {
        let field = if tag == 1 {
            "protocol_major"@
        } else if tag == 2 {
            "protocol_minor"@
        } else if tag == 3 {
            "features"@
        } else {
            ""@
        };
        ("VersionOffer"@, field)
    }

    open spec fn nested(tag: u32, bytes: Seq<u8>, length: nat, limit: nat) -> Option<
        DecodeErrorModel,
    > {
        if tag == 3 {
            fault::message_fault::<FeatureOffer>(bytes, length, limit)
        } else {
            None
        }
    }

    fn shape(tag: u32) -> (shape: (FieldKind, FieldPlace)) {
        let message = "VersionOffer";
        let (kind, field) = match tag {
            1 => (FieldKind::Number, "protocol_major"),
            2 => (FieldKind::Number, "protocol_minor"),
            3 => (FieldKind::Message, "features"),
            _ => (FieldKind::Unknown, ""),
        };
        (kind, FieldPlace { message, field })
    }

    fn find_nested(tag: u32, bytes: &[u8], length: usize, limit: u32) -> (error: Option<
        DecodeError,
    >) {
        match tag {
            3 => find_message_fault::<FeatureOffer>(bytes, length, limit),
            _ => None,
        }
    }

    proof fn lemma_kind(model: Self::V, field: WireField, limit: nat) {
        match field.value {
            WireValue::Bytes(bytes) => if limit > 1 {
                assert(bytes.take(bytes.len() as int) =~= bytes);
                if field.tag == 3 {
                    fault::lemma_any_acceptance::<FeatureOffer>(bytes, (limit - 1) as nat);
                }
            },
            _ => {},
        }
    }
}

impl WireShape for VideoControl {
    open spec fn kind(tag: u32) -> FieldKind {
        if tag == 1 {
            FieldKind::Number
        } else {
            FieldKind::Unknown
        }
    }

    open spec fn place(tag: u32) -> (Seq<char>, Seq<char>) {
        let field = if tag == 1 {
            "kind"@
        } else {
            ""@
        };
        ("VideoControl"@, field)
    }

    open spec fn nested(tag: u32, bytes: Seq<u8>, length: nat, limit: nat) -> Option<
        DecodeErrorModel,
    > {
        None
    }

    fn shape(tag: u32) -> (shape: (FieldKind, FieldPlace)) {
        let message = "VideoControl";
        let (kind, field) = match tag {
            1 => (FieldKind::Number, "kind"),
            _ => (FieldKind::Unknown, ""),
        };
        (kind, FieldPlace { message, field })
    }

    fn find_nested(_tag: u32, _bytes: &[u8], _length: usize, _limit: u32) -> (error: Option<
        DecodeError,
    >) {
        None
    }

    proof fn lemma_kind(model: Self::V, field: WireField, limit: nat) {
    }
}

impl WireShape for VideoStreamState {
    open spec fn kind(tag: u32) -> FieldKind {
        if 1 <= tag <= 2 {
            FieldKind::Number
        } else {
            FieldKind::Unknown
        }
    }

    open spec fn place(tag: u32) -> (Seq<char>, Seq<char>) {
        let field = if tag == 1 {
            "status"@
        } else if tag == 2 {
            "cause"@
        } else {
            ""@
        };
        ("VideoStreamState"@, field)
    }

    open spec fn nested(tag: u32, bytes: Seq<u8>, length: nat, limit: nat) -> Option<
        DecodeErrorModel,
    > {
        None
    }

    fn shape(tag: u32) -> (shape: (FieldKind, FieldPlace)) {
        let message = "VideoStreamState";
        let (kind, field) = match tag {
            1 => (FieldKind::Number, "status"),
            2 => (FieldKind::Number, "cause"),
            _ => (FieldKind::Unknown, ""),
        };
        (kind, FieldPlace { message, field })
    }

    fn find_nested(_tag: u32, _bytes: &[u8], _length: usize, _limit: u32) -> (error: Option<
        DecodeError,
    >) {
        None
    }

    proof fn lemma_kind(model: Self::V, field: WireField, limit: nat) {
    }
}

impl WireShape for VideoReceiverReport {
    open spec fn kind(tag: u32) -> FieldKind {
        if 1 <= tag <= 11 {
            FieldKind::Number
        } else {
            FieldKind::Unknown
        }
    }

    open spec fn place(tag: u32) -> (Seq<char>, Seq<char>) {
        let field = if tag == 1 {
            "newest_sequence"@
        } else if tag == 2 {
            "received_chunks"@
        } else if tag == 3 {
            "lost_chunks"@
        } else if tag == 4 {
            "late_chunks"@
        } else if tag == 5 {
            "assembly_overflows"@
        } else if tag == 6 {
            "completed_frames"@
        } else if tag == 7 {
            "incomplete_frames"@
        } else if tag == 8 {
            "last_completed_assembly_micros"@
        } else if tag == 9 {
            "last_assembly_budget_micros"@
        } else if tag == 10 {
            "completed_payload_bytes"@
        } else if tag == 11 {
            "measurement_interval_micros"@
        } else {
            ""@
        };
        ("VideoReceiverReport"@, field)
    }

    open spec fn nested(tag: u32, bytes: Seq<u8>, length: nat, limit: nat) -> Option<
        DecodeErrorModel,
    > {
        None
    }

    fn shape(tag: u32) -> (shape: (FieldKind, FieldPlace)) {
        let message = "VideoReceiverReport";
        let (kind, field) = match tag {
            1 => (FieldKind::Number, "newest_sequence"),
            2 => (FieldKind::Number, "received_chunks"),
            3 => (FieldKind::Number, "lost_chunks"),
            4 => (FieldKind::Number, "late_chunks"),
            5 => (FieldKind::Number, "assembly_overflows"),
            6 => (FieldKind::Number, "completed_frames"),
            7 => (FieldKind::Number, "incomplete_frames"),
            8 => (FieldKind::Number, "last_completed_assembly_micros"),
            9 => (FieldKind::Number, "last_assembly_budget_micros"),
            10 => (FieldKind::Number, "completed_payload_bytes"),
            11 => (FieldKind::Number, "measurement_interval_micros"),
            _ => (FieldKind::Unknown, ""),
        };
        (kind, FieldPlace { message, field })
    }

    fn find_nested(_tag: u32, _bytes: &[u8], _length: usize, _limit: u32) -> (error: Option<
        DecodeError,
    >) {
        None
    }

    proof fn lemma_kind(model: Self::V, field: WireField, limit: nat) {
    }
}

impl WireShape for EncodedVideoPacket {
    open spec fn kind(tag: u32) -> FieldKind {
        if 1 <= tag <= 3 {
            FieldKind::Number
        } else if tag == 4 {
            FieldKind::Bytes
        } else {
            FieldKind::Unknown
        }
    }

    open spec fn place(tag: u32) -> (Seq<char>, Seq<char>) {
        let field = if tag == 1 {
            "sequence"@
        } else if tag == 2 {
            "captured_at_micros"@
        } else if tag == 3 {
            "keyframe"@
        } else if tag == 4 {
            "payload"@
        } else {
            ""@
        };
        ("EncodedVideoPacket"@, field)
    }

    open spec fn nested(tag: u32, bytes: Seq<u8>, length: nat, limit: nat) -> Option<
        DecodeErrorModel,
    > {
        None
    }

    fn shape(tag: u32) -> (shape: (FieldKind, FieldPlace)) {
        let message = "EncodedVideoPacket";
        let (kind, field) = match tag {
            1 => (FieldKind::Number, "sequence"),
            2 => (FieldKind::Number, "captured_at_micros"),
            3 => (FieldKind::Number, "keyframe"),
            4 => (FieldKind::Bytes, "payload"),
            _ => (FieldKind::Unknown, ""),
        };
        (kind, FieldPlace { message, field })
    }

    fn find_nested(_tag: u32, _bytes: &[u8], _length: usize, _limit: u32) -> (error: Option<
        DecodeError,
    >) {
        None
    }

    proof fn lemma_kind(model: Self::V, field: WireField, limit: nat) {
    }
}

} // verus!
