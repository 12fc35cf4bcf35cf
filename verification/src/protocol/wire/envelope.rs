//! The body of a reliable message.

use super::field;
use super::field::{Field, WireField, WireValue};
use super::message;
use super::message::{put_nested, take_nested, WireMessage};
use super::audio_messages::{AudioStreamState, AudioStreamStateModel};
use super::input_messages::{InputAck, KeyboardLeds};
use super::input_pack::{InputPack, InputPackModel};
use super::negotiation_messages::SelectedAv1Configuration;
use super::offer_messages::{Av1CapabilityOffer, Av1CapabilityOfferModel};
use super::session_messages::{
    AuthenticationResult, AuthenticationResultModel, ClockPing, ClockPong, HostIdentityOffer,
    HostIdentityOfferModel, HostIdentityRequest, HostSessionControl, OpaqueCredentialFinalization,
    OpaqueCredentialFinalizationModel, OpaqueCredentialRequest, OpaqueCredentialRequestModel,
    OpaqueCredentialResponse, OpaqueCredentialResponseModel, SessionAvailabilityProbe,
    SessionAvailabilityResult, VersionOffer, VersionOfferModel,
};
use super::video_messages::{VideoControl, VideoReceiverReport, VideoStreamState};
use vstd::prelude::*;

verus! {

/// What a reliable message says.
#[derive(Clone, Debug, PartialEq)]
pub enum Body {
    VersionOffer(VersionOffer),
    Av1CapabilityOffer(Av1CapabilityOffer),
    SelectedAv1Configuration(SelectedAv1Configuration),
    OpaqueCredentialRequest(OpaqueCredentialRequest),
    OpaqueCredentialResponse(OpaqueCredentialResponse),
    OpaqueCredentialFinalization(OpaqueCredentialFinalization),
    AuthenticationResult(AuthenticationResult),
    VideoControl(VideoControl),
    VideoReceiverReport(VideoReceiverReport),
    HostIdentityOffer(HostIdentityOffer),
    HostIdentityRequest(HostIdentityRequest),
    SessionAvailabilityProbe(SessionAvailabilityProbe),
    SessionAvailabilityResult(SessionAvailabilityResult),
    AudioStreamState(AudioStreamState),
    InputPack(InputPack),
    InputAck(InputAck),
    KeyboardLeds(KeyboardLeds),
    VideoStreamState(VideoStreamState),
    ClockPing(ClockPing),
    ClockPong(ClockPong),
    HostSessionControl(HostSessionControl),
}

/// The contents of a [`Body`].
#[verifier::ext_equal]
pub enum BodyModel {
    VersionOffer(VersionOfferModel),
    Av1CapabilityOffer(Av1CapabilityOfferModel),
    SelectedAv1Configuration(SelectedAv1Configuration),
    OpaqueCredentialRequest(OpaqueCredentialRequestModel),
    OpaqueCredentialResponse(OpaqueCredentialResponseModel),
    OpaqueCredentialFinalization(OpaqueCredentialFinalizationModel),
    AuthenticationResult(AuthenticationResultModel),
    VideoControl(VideoControl),
    VideoReceiverReport(VideoReceiverReport),
    HostIdentityOffer(HostIdentityOfferModel),
    HostIdentityRequest(HostIdentityRequest),
    SessionAvailabilityProbe(SessionAvailabilityProbe),
    SessionAvailabilityResult(SessionAvailabilityResult),
    AudioStreamState(AudioStreamStateModel),
    InputPack(InputPackModel),
    InputAck(InputAck),
    KeyboardLeds(KeyboardLeds),
    VideoStreamState(VideoStreamState),
    ClockPing(ClockPing),
    ClockPong(ClockPong),
    HostSessionControl(HostSessionControl),
}

impl View for Body {
    type V = BodyModel;

    open spec fn view(&self) -> BodyModel {
        match self {
            Body::VersionOffer(inner) => BodyModel::VersionOffer(inner@),
            Body::Av1CapabilityOffer(inner) => BodyModel::Av1CapabilityOffer(inner@),
            Body::SelectedAv1Configuration(inner) => BodyModel::SelectedAv1Configuration(inner@),
            Body::OpaqueCredentialRequest(inner) => BodyModel::OpaqueCredentialRequest(inner@),
            Body::OpaqueCredentialResponse(inner) => BodyModel::OpaqueCredentialResponse(inner@),
            Body::OpaqueCredentialFinalization(inner) => {
                BodyModel::OpaqueCredentialFinalization(inner@)
            },
            Body::AuthenticationResult(inner) => BodyModel::AuthenticationResult(inner@),
            Body::VideoControl(inner) => BodyModel::VideoControl(inner@),
            Body::VideoReceiverReport(inner) => BodyModel::VideoReceiverReport(inner@),
            Body::HostIdentityOffer(inner) => BodyModel::HostIdentityOffer(inner@),
            Body::HostIdentityRequest(inner) => BodyModel::HostIdentityRequest(inner@),
            Body::SessionAvailabilityProbe(inner) => BodyModel::SessionAvailabilityProbe(inner@),
            Body::SessionAvailabilityResult(inner) => BodyModel::SessionAvailabilityResult(inner@),
            Body::AudioStreamState(inner) => BodyModel::AudioStreamState(inner@),
            Body::InputPack(inner) => BodyModel::InputPack(inner@),
            Body::InputAck(inner) => BodyModel::InputAck(inner@),
            Body::KeyboardLeds(inner) => BodyModel::KeyboardLeds(inner@),
            Body::VideoStreamState(inner) => BodyModel::VideoStreamState(inner@),
            Body::ClockPing(inner) => BodyModel::ClockPing(inner@),
            Body::ClockPong(inner) => BodyModel::ClockPong(inner@),
            Body::HostSessionControl(inner) => BodyModel::HostSessionControl(inner@),
        }
    }
}

/// The bytes of what is chosen: one field, present whatever it holds.
pub open spec fn choice_bytes(choice: Option<BodyModel>) -> Seq<u8> {
    match choice {
        Some(BodyModel::VersionOffer(inner)) => {
            field::delimited_field(1, VersionOffer::wire(inner))
        },
        Some(BodyModel::Av1CapabilityOffer(inner)) => {
            field::delimited_field(2, Av1CapabilityOffer::wire(inner))
        },
        Some(BodyModel::SelectedAv1Configuration(inner)) => field::delimited_field(
            3,
            SelectedAv1Configuration::wire(inner),
        ),
        Some(BodyModel::OpaqueCredentialRequest(inner)) => field::delimited_field(
            4,
            OpaqueCredentialRequest::wire(inner),
        ),
        Some(BodyModel::OpaqueCredentialResponse(inner)) => field::delimited_field(
            5,
            OpaqueCredentialResponse::wire(inner),
        ),
        Some(BodyModel::OpaqueCredentialFinalization(inner)) => field::delimited_field(
            6,
            OpaqueCredentialFinalization::wire(inner),
        ),
        Some(BodyModel::AuthenticationResult(inner)) => {
            field::delimited_field(7, AuthenticationResult::wire(inner))
        },
        Some(BodyModel::VideoControl(inner)) => {
            field::delimited_field(8, VideoControl::wire(inner))
        },
        Some(BodyModel::VideoReceiverReport(inner)) => {
            field::delimited_field(9, VideoReceiverReport::wire(inner))
        },
        Some(BodyModel::HostIdentityOffer(inner)) => {
            field::delimited_field(10, HostIdentityOffer::wire(inner))
        },
        Some(BodyModel::HostIdentityRequest(inner)) => {
            field::delimited_field(11, HostIdentityRequest::wire(inner))
        },
        Some(BodyModel::SessionAvailabilityProbe(inner)) => field::delimited_field(
            12,
            SessionAvailabilityProbe::wire(inner),
        ),
        Some(BodyModel::SessionAvailabilityResult(inner)) => field::delimited_field(
            13,
            SessionAvailabilityResult::wire(inner),
        ),
        Some(BodyModel::AudioStreamState(inner)) => {
            field::delimited_field(14, AudioStreamState::wire(inner))
        },
        Some(BodyModel::InputPack(inner)) => field::delimited_field(15, InputPack::wire(inner)),
        Some(BodyModel::InputAck(inner)) => field::delimited_field(16, InputAck::wire(inner)),
        Some(BodyModel::KeyboardLeds(inner)) => {
            field::delimited_field(17, KeyboardLeds::wire(inner))
        },
        Some(BodyModel::VideoStreamState(inner)) => {
            field::delimited_field(18, VideoStreamState::wire(inner))
        },
        Some(BodyModel::ClockPing(inner)) => field::delimited_field(19, ClockPing::wire(inner)),
        Some(BodyModel::ClockPong(inner)) => field::delimited_field(20, ClockPong::wire(inner)),
        Some(BodyModel::HostSessionControl(inner)) => {
            field::delimited_field(21, HostSessionControl::wire(inner))
        },
        None => Seq::empty(),
    }
}

/// The tags that a choice is written under.
pub open spec fn is_choice_tag(tag: u32) -> bool {
    tag == 1
        || tag == 2
        || tag == 3
        || tag == 4
        || tag == 5
        || tag == 6
        || tag == 7
        || tag == 8
        || tag == 9
        || tag == 10
        || tag == 11
        || tag == 12
        || tag == 13
        || tag == 14
        || tag == 15
        || tag == 16
        || tag == 17
        || tag == 18
        || tag == 19
        || tag == 20
        || tag == 21
}

/// The choice after a field of one of its tags. A field of the tag at hand
/// changes what is held; one of another tag replaces it.
pub open spec fn merge_choice(
    choice: Option<BodyModel>,
    field: WireField,
    limit: nat,
) -> Option<BodyModel> {
    if field.tag == 1 {
        let held = match choice {
            Some(BodyModel::VersionOffer(held)) => held,
            _ => VersionOffer::initial(),
        };
        match message::merge_nested::<VersionOffer>(held, field.value, limit) {
            Some(next) => Some(BodyModel::VersionOffer(next)),
            None => None,
        }
    } else if field.tag == 2 {
        let held = match choice {
            Some(BodyModel::Av1CapabilityOffer(held)) => held,
            _ => Av1CapabilityOffer::initial(),
        };
        match message::merge_nested::<Av1CapabilityOffer>(held, field.value, limit) {
            Some(next) => Some(BodyModel::Av1CapabilityOffer(next)),
            None => None,
        }
    } else if field.tag == 3 {
        let held = match choice {
            Some(BodyModel::SelectedAv1Configuration(held)) => held,
            _ => SelectedAv1Configuration::initial(),
        };
        match message::merge_nested::<SelectedAv1Configuration>(held, field.value, limit) {
            Some(next) => Some(BodyModel::SelectedAv1Configuration(next)),
            None => None,
        }
    } else if field.tag == 4 {
        let held = match choice {
            Some(BodyModel::OpaqueCredentialRequest(held)) => held,
            _ => OpaqueCredentialRequest::initial(),
        };
        match message::merge_nested::<OpaqueCredentialRequest>(held, field.value, limit) {
            Some(next) => Some(BodyModel::OpaqueCredentialRequest(next)),
            None => None,
        }
    } else if field.tag == 5 {
        let held = match choice {
            Some(BodyModel::OpaqueCredentialResponse(held)) => held,
            _ => OpaqueCredentialResponse::initial(),
        };
        match message::merge_nested::<OpaqueCredentialResponse>(held, field.value, limit) {
            Some(next) => Some(BodyModel::OpaqueCredentialResponse(next)),
            None => None,
        }
    } else if field.tag == 6 {
        let held = match choice {
            Some(BodyModel::OpaqueCredentialFinalization(held)) => held,
            _ => OpaqueCredentialFinalization::initial(),
        };
        match message::merge_nested::<OpaqueCredentialFinalization>(held, field.value, limit) {
            Some(next) => Some(BodyModel::OpaqueCredentialFinalization(next)),
            None => None,
        }
    } else if field.tag == 7 {
        let held = match choice {
            Some(BodyModel::AuthenticationResult(held)) => held,
            _ => AuthenticationResult::initial(),
        };
        match message::merge_nested::<AuthenticationResult>(held, field.value, limit) {
            Some(next) => Some(BodyModel::AuthenticationResult(next)),
            None => None,
        }
    } else if field.tag == 8 {
        let held = match choice {
            Some(BodyModel::VideoControl(held)) => held,
            _ => VideoControl::initial(),
        };
        match message::merge_nested::<VideoControl>(held, field.value, limit) {
            Some(next) => Some(BodyModel::VideoControl(next)),
            None => None,
        }
    } else if field.tag == 9 {
        let held = match choice {
            Some(BodyModel::VideoReceiverReport(held)) => held,
            _ => VideoReceiverReport::initial(),
        };
        match message::merge_nested::<VideoReceiverReport>(held, field.value, limit) {
            Some(next) => Some(BodyModel::VideoReceiverReport(next)),
            None => None,
        }
    } else if field.tag == 10 {
        let held = match choice {
            Some(BodyModel::HostIdentityOffer(held)) => held,
            _ => HostIdentityOffer::initial(),
        };
        match message::merge_nested::<HostIdentityOffer>(held, field.value, limit) {
            Some(next) => Some(BodyModel::HostIdentityOffer(next)),
            None => None,
        }
    } else if field.tag == 11 {
        let held = match choice {
            Some(BodyModel::HostIdentityRequest(held)) => held,
            _ => HostIdentityRequest::initial(),
        };
        match message::merge_nested::<HostIdentityRequest>(held, field.value, limit) {
            Some(next) => Some(BodyModel::HostIdentityRequest(next)),
            None => None,
        }
    } else if field.tag == 12 {
        let held = match choice {
            Some(BodyModel::SessionAvailabilityProbe(held)) => held,
            _ => SessionAvailabilityProbe::initial(),
        };
        match message::merge_nested::<SessionAvailabilityProbe>(held, field.value, limit) {
            Some(next) => Some(BodyModel::SessionAvailabilityProbe(next)),
            None => None,
        }
    } else if field.tag == 13 {
        let held = match choice {
            Some(BodyModel::SessionAvailabilityResult(held)) => held,
            _ => SessionAvailabilityResult::initial(),
        };
        match message::merge_nested::<SessionAvailabilityResult>(held, field.value, limit) {
            Some(next) => Some(BodyModel::SessionAvailabilityResult(next)),
            None => None,
        }
    } else if field.tag == 14 {
        let held = match choice {
            Some(BodyModel::AudioStreamState(held)) => held,
            _ => AudioStreamState::initial(),
        };
        match message::merge_nested::<AudioStreamState>(held, field.value, limit) {
            Some(next) => Some(BodyModel::AudioStreamState(next)),
            None => None,
        }
    } else if field.tag == 15 {
        let held = match choice {
            Some(BodyModel::InputPack(held)) => held,
            _ => InputPack::initial(),
        };
        match message::merge_nested::<InputPack>(held, field.value, limit) {
            Some(next) => Some(BodyModel::InputPack(next)),
            None => None,
        }
    } else if field.tag == 16 {
        let held = match choice {
            Some(BodyModel::InputAck(held)) => held,
            _ => InputAck::initial(),
        };
        match message::merge_nested::<InputAck>(held, field.value, limit) {
            Some(next) => Some(BodyModel::InputAck(next)),
            None => None,
        }
    } else if field.tag == 17 {
        let held = match choice {
            Some(BodyModel::KeyboardLeds(held)) => held,
            _ => KeyboardLeds::initial(),
        };
        match message::merge_nested::<KeyboardLeds>(held, field.value, limit) {
            Some(next) => Some(BodyModel::KeyboardLeds(next)),
            None => None,
        }
    } else if field.tag == 18 {
        let held = match choice {
            Some(BodyModel::VideoStreamState(held)) => held,
            _ => VideoStreamState::initial(),
        };
        match message::merge_nested::<VideoStreamState>(held, field.value, limit) {
            Some(next) => Some(BodyModel::VideoStreamState(next)),
            None => None,
        }
    } else if field.tag == 19 {
        let held = match choice {
            Some(BodyModel::ClockPing(held)) => held,
            _ => ClockPing::initial(),
        };
        match message::merge_nested::<ClockPing>(held, field.value, limit) {
            Some(next) => Some(BodyModel::ClockPing(next)),
            None => None,
        }
    } else if field.tag == 20 {
        let held = match choice {
            Some(BodyModel::ClockPong(held)) => held,
            _ => ClockPong::initial(),
        };
        match message::merge_nested::<ClockPong>(held, field.value, limit) {
            Some(next) => Some(BodyModel::ClockPong(next)),
            None => None,
        }
    } else if field.tag == 21 {
        let held = match choice {
            Some(BodyModel::HostSessionControl(held)) => held,
            _ => HostSessionControl::initial(),
        };
        match message::merge_nested::<HostSessionControl>(held, field.value, limit) {
            Some(next) => Some(BodyModel::HostSessionControl(next)),
            None => None,
        }
    } else {
        None
    }
}

/// Appends what is chosen.
pub fn put_choice(out: &mut Vec<u8>, choice: &Option<Body>)
    ensures
        final(out)@ == old(out)@ + choice_bytes(choice_model(*choice)),
{
    match choice {
        Some(Body::VersionOffer(inner)) => put_nested(out, 1, inner),
        Some(Body::Av1CapabilityOffer(inner)) => put_nested(out, 2, inner),
        Some(Body::SelectedAv1Configuration(inner)) => put_nested(out, 3, inner),
        Some(Body::OpaqueCredentialRequest(inner)) => put_nested(out, 4, inner),
        Some(Body::OpaqueCredentialResponse(inner)) => put_nested(out, 5, inner),
        Some(Body::OpaqueCredentialFinalization(inner)) => put_nested(out, 6, inner),
        Some(Body::AuthenticationResult(inner)) => put_nested(out, 7, inner),
        Some(Body::VideoControl(inner)) => put_nested(out, 8, inner),
        Some(Body::VideoReceiverReport(inner)) => put_nested(out, 9, inner),
        Some(Body::HostIdentityOffer(inner)) => put_nested(out, 10, inner),
        Some(Body::HostIdentityRequest(inner)) => put_nested(out, 11, inner),
        Some(Body::SessionAvailabilityProbe(inner)) => put_nested(out, 12, inner),
        Some(Body::SessionAvailabilityResult(inner)) => put_nested(out, 13, inner),
        Some(Body::AudioStreamState(inner)) => put_nested(out, 14, inner),
        Some(Body::InputPack(inner)) => put_nested(out, 15, inner),
        Some(Body::InputAck(inner)) => put_nested(out, 16, inner),
        Some(Body::KeyboardLeds(inner)) => put_nested(out, 17, inner),
        Some(Body::VideoStreamState(inner)) => put_nested(out, 18, inner),
        Some(Body::ClockPing(inner)) => put_nested(out, 19, inner),
        Some(Body::ClockPong(inner)) => put_nested(out, 20, inner),
        Some(Body::HostSessionControl(inner)) => put_nested(out, 21, inner),
        None => {
            assert(out@ =~= old(out)@ + choice_bytes(choice_model(*choice)));
        },
    }
}

/// The contents of an optional [`Body`].
pub open spec fn choice_model(choice: Option<Body>) -> Option<BodyModel> {
    match choice {
        Some(choice) => Some(choice@),
        None => None,
    }
}

/// Reads a field of one of the choice's tags.
pub fn take_choice(choice: &mut Option<Body>, field: &Field<'_>, limit: u32) -> (accepted: bool)
    requires
        is_choice_tag(field.tag),
    ensures
        accepted
            ==> merge_choice(choice_model(*old(choice)), field@, limit as nat)
                == choice_model(*final(choice))
                && choice_model(*final(choice)) is Some,
        !accepted ==> merge_choice(choice_model(*old(choice)), field@, limit as nat) is None,
{
    if field.tag == 1 {
        let mut inner = match choice.take() {
            Some(Body::VersionOffer(inner)) => inner,
            _ => VersionOffer::empty(),
        };
        let accepted = take_nested(&mut inner, &field.value, limit);
        *choice = Some(Body::VersionOffer(inner));
        accepted
    } else if field.tag == 2 {
        let mut inner = match choice.take() {
            Some(Body::Av1CapabilityOffer(inner)) => inner,
            _ => Av1CapabilityOffer::empty(),
        };
        let accepted = take_nested(&mut inner, &field.value, limit);
        *choice = Some(Body::Av1CapabilityOffer(inner));
        accepted
    } else if field.tag == 3 {
        let mut inner = match choice.take() {
            Some(Body::SelectedAv1Configuration(inner)) => inner,
            _ => SelectedAv1Configuration::empty(),
        };
        let accepted = take_nested(&mut inner, &field.value, limit);
        *choice = Some(Body::SelectedAv1Configuration(inner));
        accepted
    } else if field.tag == 4 {
        let mut inner = match choice.take() {
            Some(Body::OpaqueCredentialRequest(inner)) => inner,
            _ => OpaqueCredentialRequest::empty(),
        };
        let accepted = take_nested(&mut inner, &field.value, limit);
        *choice = Some(Body::OpaqueCredentialRequest(inner));
        accepted
    } else if field.tag == 5 {
        let mut inner = match choice.take() {
            Some(Body::OpaqueCredentialResponse(inner)) => inner,
            _ => OpaqueCredentialResponse::empty(),
        };
        let accepted = take_nested(&mut inner, &field.value, limit);
        *choice = Some(Body::OpaqueCredentialResponse(inner));
        accepted
    } else if field.tag == 6 {
        let mut inner = match choice.take() {
            Some(Body::OpaqueCredentialFinalization(inner)) => inner,
            _ => OpaqueCredentialFinalization::empty(),
        };
        let accepted = take_nested(&mut inner, &field.value, limit);
        *choice = Some(Body::OpaqueCredentialFinalization(inner));
        accepted
    } else if field.tag == 7 {
        let mut inner = match choice.take() {
            Some(Body::AuthenticationResult(inner)) => inner,
            _ => AuthenticationResult::empty(),
        };
        let accepted = take_nested(&mut inner, &field.value, limit);
        *choice = Some(Body::AuthenticationResult(inner));
        accepted
    } else if field.tag == 8 {
        let mut inner = match choice.take() {
            Some(Body::VideoControl(inner)) => inner,
            _ => VideoControl::empty(),
        };
        let accepted = take_nested(&mut inner, &field.value, limit);
        *choice = Some(Body::VideoControl(inner));
        accepted
    } else if field.tag == 9 {
        let mut inner = match choice.take() {
            Some(Body::VideoReceiverReport(inner)) => inner,
            _ => VideoReceiverReport::empty(),
        };
        let accepted = take_nested(&mut inner, &field.value, limit);
        *choice = Some(Body::VideoReceiverReport(inner));
        accepted
    } else if field.tag == 10 {
        let mut inner = match choice.take() {
            Some(Body::HostIdentityOffer(inner)) => inner,
            _ => HostIdentityOffer::empty(),
        };
        let accepted = take_nested(&mut inner, &field.value, limit);
        *choice = Some(Body::HostIdentityOffer(inner));
        accepted
    } else if field.tag == 11 {
        let mut inner = match choice.take() {
            Some(Body::HostIdentityRequest(inner)) => inner,
            _ => HostIdentityRequest::empty(),
        };
        let accepted = take_nested(&mut inner, &field.value, limit);
        *choice = Some(Body::HostIdentityRequest(inner));
        accepted
    } else if field.tag == 12 {
        let mut inner = match choice.take() {
            Some(Body::SessionAvailabilityProbe(inner)) => inner,
            _ => SessionAvailabilityProbe::empty(),
        };
        let accepted = take_nested(&mut inner, &field.value, limit);
        *choice = Some(Body::SessionAvailabilityProbe(inner));
        accepted
    } else if field.tag == 13 {
        let mut inner = match choice.take() {
            Some(Body::SessionAvailabilityResult(inner)) => inner,
            _ => SessionAvailabilityResult::empty(),
        };
        let accepted = take_nested(&mut inner, &field.value, limit);
        *choice = Some(Body::SessionAvailabilityResult(inner));
        accepted
    } else if field.tag == 14 {
        let mut inner = match choice.take() {
            Some(Body::AudioStreamState(inner)) => inner,
            _ => AudioStreamState::empty(),
        };
        let accepted = take_nested(&mut inner, &field.value, limit);
        *choice = Some(Body::AudioStreamState(inner));
        accepted
    } else if field.tag == 15 {
        let mut inner = match choice.take() {
            Some(Body::InputPack(inner)) => inner,
            _ => InputPack::empty(),
        };
        let accepted = take_nested(&mut inner, &field.value, limit);
        *choice = Some(Body::InputPack(inner));
        accepted
    } else if field.tag == 16 {
        let mut inner = match choice.take() {
            Some(Body::InputAck(inner)) => inner,
            _ => InputAck::empty(),
        };
        let accepted = take_nested(&mut inner, &field.value, limit);
        *choice = Some(Body::InputAck(inner));
        accepted
    } else if field.tag == 17 {
        let mut inner = match choice.take() {
            Some(Body::KeyboardLeds(inner)) => inner,
            _ => KeyboardLeds::empty(),
        };
        let accepted = take_nested(&mut inner, &field.value, limit);
        *choice = Some(Body::KeyboardLeds(inner));
        accepted
    } else if field.tag == 18 {
        let mut inner = match choice.take() {
            Some(Body::VideoStreamState(inner)) => inner,
            _ => VideoStreamState::empty(),
        };
        let accepted = take_nested(&mut inner, &field.value, limit);
        *choice = Some(Body::VideoStreamState(inner));
        accepted
    } else if field.tag == 19 {
        let mut inner = match choice.take() {
            Some(Body::ClockPing(inner)) => inner,
            _ => ClockPing::empty(),
        };
        let accepted = take_nested(&mut inner, &field.value, limit);
        *choice = Some(Body::ClockPing(inner));
        accepted
    } else if field.tag == 20 {
        let mut inner = match choice.take() {
            Some(Body::ClockPong(inner)) => inner,
            _ => ClockPong::empty(),
        };
        let accepted = take_nested(&mut inner, &field.value, limit);
        *choice = Some(Body::ClockPong(inner));
        accepted
    } else if field.tag == 21 {
        let mut inner = match choice.take() {
            Some(Body::HostSessionControl(inner)) => inner,
            _ => HostSessionControl::empty(),
        };
        let accepted = take_nested(&mut inner, &field.value, limit);
        *choice = Some(Body::HostSessionControl(inner));
        accepted
    } else {
        false
    }
}

/// A written choice is read back.
pub proof fn lemma_choice_round_trip(choice: BodyModel, limit: nat)
    requires
        limit >= 4,
        choice_bytes(Some(choice)).len() <= u64::MAX,
    ensures
        exists|tag: u32, value: Seq<u8>|
            #![trigger field::delimited_field(tag, value)]
            {
                &&& is_choice_tag(tag)
                &&& field::valid_tag(tag)
                &&& value.len() <= u64::MAX
                &&& choice_bytes(Some(choice)) == field::delimited_field(tag, value)
                &&& merge_choice(
                    None,
                    (WireField { tag, value: WireValue::Bytes(value) }),
                    limit,
                ) == Some(choice)
            },
{
    match choice {
        BodyModel::VersionOffer(inner) => {
            let value = VersionOffer::wire(inner);
            assert(value.len() <= field::delimited_field(1, value).len());
            VersionOffer::lemma_round_trip(inner, (limit - 1) as nat);
        },
        BodyModel::Av1CapabilityOffer(inner) => {
            let value = Av1CapabilityOffer::wire(inner);
            assert(value.len() <= field::delimited_field(2, value).len());
            Av1CapabilityOffer::lemma_round_trip(inner, (limit - 1) as nat);
        },
        BodyModel::SelectedAv1Configuration(inner) => {
            let value = SelectedAv1Configuration::wire(inner);
            assert(value.len() <= field::delimited_field(3, value).len());
            SelectedAv1Configuration::lemma_round_trip(inner, (limit - 1) as nat);
        },
        BodyModel::OpaqueCredentialRequest(inner) => {
            let value = OpaqueCredentialRequest::wire(inner);
            assert(value.len() <= field::delimited_field(4, value).len());
            OpaqueCredentialRequest::lemma_round_trip(inner, (limit - 1) as nat);
        },
        BodyModel::OpaqueCredentialResponse(inner) => {
            let value = OpaqueCredentialResponse::wire(inner);
            assert(value.len() <= field::delimited_field(5, value).len());
            OpaqueCredentialResponse::lemma_round_trip(inner, (limit - 1) as nat);
        },
        BodyModel::OpaqueCredentialFinalization(inner) => {
            let value = OpaqueCredentialFinalization::wire(inner);
            assert(value.len() <= field::delimited_field(6, value).len());
            OpaqueCredentialFinalization::lemma_round_trip(inner, (limit - 1) as nat);
        },
        BodyModel::AuthenticationResult(inner) => {
            let value = AuthenticationResult::wire(inner);
            assert(value.len() <= field::delimited_field(7, value).len());
            AuthenticationResult::lemma_round_trip(inner, (limit - 1) as nat);
        },
        BodyModel::VideoControl(inner) => {
            let value = VideoControl::wire(inner);
            assert(value.len() <= field::delimited_field(8, value).len());
            VideoControl::lemma_round_trip(inner, (limit - 1) as nat);
        },
        BodyModel::VideoReceiverReport(inner) => {
            let value = VideoReceiverReport::wire(inner);
            assert(value.len() <= field::delimited_field(9, value).len());
            VideoReceiverReport::lemma_round_trip(inner, (limit - 1) as nat);
        },
        BodyModel::HostIdentityOffer(inner) => {
            let value = HostIdentityOffer::wire(inner);
            assert(value.len() <= field::delimited_field(10, value).len());
            HostIdentityOffer::lemma_round_trip(inner, (limit - 1) as nat);
        },
        BodyModel::HostIdentityRequest(inner) => {
            let value = HostIdentityRequest::wire(inner);
            assert(value.len() <= field::delimited_field(11, value).len());
            HostIdentityRequest::lemma_round_trip(inner, (limit - 1) as nat);
        },
        BodyModel::SessionAvailabilityProbe(inner) => {
            let value = SessionAvailabilityProbe::wire(inner);
            assert(value.len() <= field::delimited_field(12, value).len());
            SessionAvailabilityProbe::lemma_round_trip(inner, (limit - 1) as nat);
        },
        BodyModel::SessionAvailabilityResult(inner) => {
            let value = SessionAvailabilityResult::wire(inner);
            assert(value.len() <= field::delimited_field(13, value).len());
            SessionAvailabilityResult::lemma_round_trip(inner, (limit - 1) as nat);
        },
        BodyModel::AudioStreamState(inner) => {
            let value = AudioStreamState::wire(inner);
            assert(value.len() <= field::delimited_field(14, value).len());
            AudioStreamState::lemma_round_trip(inner, (limit - 1) as nat);
        },
        BodyModel::InputPack(inner) => {
            let value = InputPack::wire(inner);
            assert(value.len() <= field::delimited_field(15, value).len());
            InputPack::lemma_round_trip(inner, (limit - 1) as nat);
        },
        BodyModel::InputAck(inner) => {
            let value = InputAck::wire(inner);
            assert(value.len() <= field::delimited_field(16, value).len());
            InputAck::lemma_round_trip(inner, (limit - 1) as nat);
        },
        BodyModel::KeyboardLeds(inner) => {
            let value = KeyboardLeds::wire(inner);
            assert(value.len() <= field::delimited_field(17, value).len());
            KeyboardLeds::lemma_round_trip(inner, (limit - 1) as nat);
        },
        BodyModel::VideoStreamState(inner) => {
            let value = VideoStreamState::wire(inner);
            assert(value.len() <= field::delimited_field(18, value).len());
            VideoStreamState::lemma_round_trip(inner, (limit - 1) as nat);
        },
        BodyModel::ClockPing(inner) => {
            let value = ClockPing::wire(inner);
            assert(value.len() <= field::delimited_field(19, value).len());
            ClockPing::lemma_round_trip(inner, (limit - 1) as nat);
        },
        BodyModel::ClockPong(inner) => {
            let value = ClockPong::wire(inner);
            assert(value.len() <= field::delimited_field(20, value).len());
            ClockPong::lemma_round_trip(inner, (limit - 1) as nat);
        },
        BodyModel::HostSessionControl(inner) => {
            let value = HostSessionControl::wire(inner);
            assert(value.len() <= field::delimited_field(21, value).len());
            HostSessionControl::lemma_round_trip(inner, (limit - 1) as nat);
        },
    }
}

} // verus!
