//! Identity, login, availability and clocks.

use super::field;
use super::field::{put_bytes_field, put_varint_field, Field, FieldValue, WireField, WireValue};
use super::message;
use super::message::{put_repeated, take_nested, WireMessage};
use super::scalar;
use crate::text;
use crate::bytes;
use vstd::prelude::*;

verus! {

/// The first message of a login.
#[derive(Clone, Debug, PartialEq)]
pub struct OpaqueCredentialRequest {
    pub credential_identifier: Vec<u8>,
    pub message: Vec<u8>,
}

/// The contents of a [`OpaqueCredentialRequest`].
#[verifier::ext_equal]
pub struct OpaqueCredentialRequestModel {
    pub credential_identifier: Seq<u8>,
    pub message: Seq<u8>,
}

impl View for OpaqueCredentialRequest {
    type V = OpaqueCredentialRequestModel;

    open spec fn view(&self) -> OpaqueCredentialRequestModel {
        OpaqueCredentialRequestModel {
            credential_identifier: self.credential_identifier@,
            message: self.message@,
        }
    }
}

impl Default for OpaqueCredentialRequest {
    fn default() -> (message: Self)
        ensures
            message@ == Self::initial(),
    {
        Self::empty()
    }
}

impl WireMessage for OpaqueCredentialRequest {
    open spec fn initial() -> OpaqueCredentialRequestModel {
        OpaqueCredentialRequestModel { credential_identifier: Seq::empty(), message: Seq::empty() }
    }

    open spec fn wire(model: OpaqueCredentialRequestModel) -> Seq<u8> {
        field::bytes_field(1, model.credential_identifier)
            + field::bytes_field(2, model.message)
    }

    open spec fn merge(
        model: OpaqueCredentialRequestModel,
        field: WireField,
        limit: nat,
    ) -> Option<OpaqueCredentialRequestModel> {
        if field.tag == 1 {
            match field.value {
                WireValue::Bytes(value) => Some(
                    OpaqueCredentialRequestModel { credential_identifier: value, ..model },
                ),
                _ => None,
            }
        } else if field.tag == 2 {
            match field.value {
                WireValue::Bytes(value) => Some(
                    OpaqueCredentialRequestModel { message: value, ..model },
                ),
                _ => None,
            }
        } else {
            Some(model)
        }
    }

    fn empty() -> (message: Self) {
        OpaqueCredentialRequest { credential_identifier: Vec::new(), message: Vec::new() }
    }

    fn put(&self, out: &mut Vec<u8>) {
        broadcast use message::lemma_concatenation_associates;

        put_bytes_field(out, 1, self.credential_identifier.as_slice());
        put_bytes_field(out, 2, self.message.as_slice());
    }

    fn take(&mut self, field: &Field<'_>, limit: u32) -> (accepted: bool) {
        if field.tag == 1 {
            match field.value {
                FieldValue::Bytes(value) => {
                    self.credential_identifier = bytes::owned(value);
                    true
                },
                _ => false,
            }
        } else if field.tag == 2 {
            match field.value {
                FieldValue::Bytes(value) => {
                    self.message = bytes::owned(value);
                    true
                },
                _ => false,
            }
        } else {
            true
        }
    }
}

impl OpaqueCredentialRequest {
    /// A written message is read back.
    pub proof fn lemma_round_trip(model: OpaqueCredentialRequestModel, limit: nat)
        requires
            limit >= 1,
            Self::wire(model).len() <= u64::MAX,
        ensures
            message::merge_all::<Self>(Self::initial(), Self::wire(model), limit) == Some(model),
    {
        let start = Self::initial();
        let at_credential_identifier = OpaqueCredentialRequestModel {
            credential_identifier: model.credential_identifier,
            ..start
        };
        assert(model.credential_identifier.len() <= field::bytes_field(
            1,
            model.credential_identifier,
        ).len());
        if model.credential_identifier.len() == 0 {
            assert(model.credential_identifier =~= Seq::empty());
        }
        message::lemma_after_bytes::<Self>(
            start,
            Seq::<u8>::empty(),
            start,
            1,
            model.credential_identifier,
            at_credential_identifier,
            limit,
        );
        assert(Seq::<u8>::empty() + field::bytes_field(1, model.credential_identifier)
            =~= field::bytes_field(1, model.credential_identifier));
        let w1 = field::bytes_field(1, model.credential_identifier);
        let at_message = OpaqueCredentialRequestModel {
            message: model.message,
            ..at_credential_identifier
        };
        assert(model.message.len() <= field::bytes_field(2, model.message).len());
        if model.message.len() == 0 {
            assert(model.message =~= Seq::empty());
        }
        message::lemma_after_bytes::<Self>(
            start,
            w1,
            at_credential_identifier,
            2,
            model.message,
            at_message,
            limit,
        );
        assert(at_message =~= model);
    }
}

/// The host's answer to a login request.
#[derive(Clone, Debug, PartialEq)]
pub struct OpaqueCredentialResponse {
    pub message: Vec<u8>,
}

/// The contents of a [`OpaqueCredentialResponse`].
#[verifier::ext_equal]
pub struct OpaqueCredentialResponseModel {
    pub message: Seq<u8>,
}

impl View for OpaqueCredentialResponse {
    type V = OpaqueCredentialResponseModel;

    open spec fn view(&self) -> OpaqueCredentialResponseModel {
        OpaqueCredentialResponseModel {
            message: self.message@,
        }
    }
}

impl Default for OpaqueCredentialResponse {
    fn default() -> (message: Self)
        ensures
            message@ == Self::initial(),
    {
        Self::empty()
    }
}

impl WireMessage for OpaqueCredentialResponse {
    open spec fn initial() -> OpaqueCredentialResponseModel {
        OpaqueCredentialResponseModel { message: Seq::empty() }
    }

    open spec fn wire(model: OpaqueCredentialResponseModel) -> Seq<u8> {
        field::bytes_field(1, model.message)
    }

    open spec fn merge(
        model: OpaqueCredentialResponseModel,
        field: WireField,
        limit: nat,
    ) -> Option<OpaqueCredentialResponseModel> {
        if field.tag == 1 {
            match field.value {
                WireValue::Bytes(value) => Some(OpaqueCredentialResponseModel { message: value }),
                _ => None,
            }
        } else {
            Some(model)
        }
    }

    fn empty() -> (message: Self) {
        OpaqueCredentialResponse { message: Vec::new() }
    }

    fn put(&self, out: &mut Vec<u8>) {
        put_bytes_field(out, 1, self.message.as_slice());
    }

    fn take(&mut self, field: &Field<'_>, limit: u32) -> (accepted: bool) {
        if field.tag == 1 {
            match field.value {
                FieldValue::Bytes(value) => {
                    self.message = bytes::owned(value);
                    true
                },
                _ => false,
            }
        } else {
            true
        }
    }
}

impl OpaqueCredentialResponse {
    /// A written message is read back.
    pub proof fn lemma_round_trip(model: OpaqueCredentialResponseModel, limit: nat)
        requires
            limit >= 1,
            Self::wire(model).len() <= u64::MAX,
        ensures
            message::merge_all::<Self>(Self::initial(), Self::wire(model), limit) == Some(model),
    {
        let start = Self::initial();
        let at_message = OpaqueCredentialResponseModel { message: model.message };
        assert(model.message.len() <= field::bytes_field(1, model.message).len());
        if model.message.len() == 0 {
            assert(model.message =~= Seq::empty());
        }
        message::lemma_after_bytes::<Self>(
            start,
            Seq::<u8>::empty(),
            start,
            1,
            model.message,
            at_message,
            limit,
        );
        assert(Seq::<u8>::empty() + field::bytes_field(1, model.message)
            =~= field::bytes_field(1, model.message));
        assert(at_message =~= model);
    }
}

/// The last message of a login.
#[derive(Clone, Debug, PartialEq)]
pub struct OpaqueCredentialFinalization {
    pub message: Vec<u8>,
}

/// The contents of a [`OpaqueCredentialFinalization`].
#[verifier::ext_equal]
pub struct OpaqueCredentialFinalizationModel {
    pub message: Seq<u8>,
}

impl View for OpaqueCredentialFinalization {
    type V = OpaqueCredentialFinalizationModel;

    open spec fn view(&self) -> OpaqueCredentialFinalizationModel {
        OpaqueCredentialFinalizationModel {
            message: self.message@,
        }
    }
}

impl Default for OpaqueCredentialFinalization {
    fn default() -> (message: Self)
        ensures
            message@ == Self::initial(),
    {
        Self::empty()
    }
}

impl WireMessage for OpaqueCredentialFinalization {
    open spec fn initial() -> OpaqueCredentialFinalizationModel {
        OpaqueCredentialFinalizationModel { message: Seq::empty() }
    }

    open spec fn wire(model: OpaqueCredentialFinalizationModel) -> Seq<u8> {
        field::bytes_field(1, model.message)
    }

    open spec fn merge(
        model: OpaqueCredentialFinalizationModel,
        field: WireField,
        limit: nat,
    ) -> Option<OpaqueCredentialFinalizationModel> {
        if field.tag == 1 {
            match field.value {
                WireValue::Bytes(value) => Some(
                    OpaqueCredentialFinalizationModel { message: value },
                ),
                _ => None,
            }
        } else {
            Some(model)
        }
    }

    fn empty() -> (message: Self) {
        OpaqueCredentialFinalization { message: Vec::new() }
    }

    fn put(&self, out: &mut Vec<u8>) {
        put_bytes_field(out, 1, self.message.as_slice());
    }

    fn take(&mut self, field: &Field<'_>, limit: u32) -> (accepted: bool) {
        if field.tag == 1 {
            match field.value {
                FieldValue::Bytes(value) => {
                    self.message = bytes::owned(value);
                    true
                },
                _ => false,
            }
        } else {
            true
        }
    }
}

impl OpaqueCredentialFinalization {
    /// A written message is read back.
    pub proof fn lemma_round_trip(model: OpaqueCredentialFinalizationModel, limit: nat)
        requires
            limit >= 1,
            Self::wire(model).len() <= u64::MAX,
        ensures
            message::merge_all::<Self>(Self::initial(), Self::wire(model), limit) == Some(model),
    {
        let start = Self::initial();
        let at_message = OpaqueCredentialFinalizationModel { message: model.message };
        assert(model.message.len() <= field::bytes_field(1, model.message).len());
        if model.message.len() == 0 {
            assert(model.message =~= Seq::empty());
        }
        message::lemma_after_bytes::<Self>(
            start,
            Seq::<u8>::empty(),
            start,
            1,
            model.message,
            at_message,
            limit,
        );
        assert(Seq::<u8>::empty() + field::bytes_field(1, model.message)
            =~= field::bytes_field(1, model.message));
        assert(at_message =~= model);
    }
}

/// Whether the login was accepted, and who the host is.
#[derive(Clone, Debug, PartialEq)]
pub struct AuthenticationResult {
    pub accepted: bool,
    pub host_identity: Vec<u8>,
}

/// The contents of a [`AuthenticationResult`].
#[verifier::ext_equal]
pub struct AuthenticationResultModel {
    pub accepted: bool,
    pub host_identity: Seq<u8>,
}

impl View for AuthenticationResult {
    type V = AuthenticationResultModel;

    open spec fn view(&self) -> AuthenticationResultModel {
        AuthenticationResultModel {
            accepted: self.accepted,
            host_identity: self.host_identity@,
        }
    }
}

impl Default for AuthenticationResult {
    fn default() -> (message: Self)
        ensures
            message@ == Self::initial(),
    {
        Self::empty()
    }
}

impl WireMessage for AuthenticationResult {
    open spec fn initial() -> AuthenticationResultModel {
        AuthenticationResultModel { accepted: false, host_identity: Seq::empty() }
    }

    open spec fn wire(model: AuthenticationResultModel) -> Seq<u8> {
        field::varint_field(1, scalar::spec_bool_number(model.accepted))
            + field::bytes_field(2, model.host_identity)
    }

    open spec fn merge(
        model: AuthenticationResultModel,
        field: WireField,
        limit: nat,
    ) -> Option<AuthenticationResultModel> {
        if field.tag == 1 {
            match field.value {
                WireValue::Varint(value) => Some(
                    AuthenticationResultModel { accepted: value != 0, ..model },
                ),
                _ => None,
            }
        } else if field.tag == 2 {
            match field.value {
                WireValue::Bytes(value) => Some(
                    AuthenticationResultModel { host_identity: value, ..model },
                ),
                _ => None,
            }
        } else {
            Some(model)
        }
    }

    fn empty() -> (message: Self) {
        AuthenticationResult { accepted: false, host_identity: Vec::new() }
    }

    fn put(&self, out: &mut Vec<u8>) {
        broadcast use message::lemma_concatenation_associates;

        put_varint_field(out, 1, scalar::bool_number(self.accepted));
        put_bytes_field(out, 2, self.host_identity.as_slice());
    }

    fn take(&mut self, field: &Field<'_>, limit: u32) -> (accepted: bool) {
        if field.tag == 1 {
            match field.value {
                FieldValue::Varint(value) => {
                    self.accepted = value != 0;
                    true
                },
                _ => false,
            }
        } else if field.tag == 2 {
            match field.value {
                FieldValue::Bytes(value) => {
                    self.host_identity = bytes::owned(value);
                    true
                },
                _ => false,
            }
        } else {
            true
        }
    }
}

impl AuthenticationResult {
    /// A written message is read back.
    pub proof fn lemma_round_trip(model: AuthenticationResultModel, limit: nat)
        requires
            limit >= 1,
            Self::wire(model).len() <= u64::MAX,
        ensures
            message::merge_all::<Self>(Self::initial(), Self::wire(model), limit) == Some(model),
    {
        let start = Self::initial();
        let at_accepted = AuthenticationResultModel { accepted: model.accepted, ..start };
        message::lemma_after_varint::<Self>(
            start,
            Seq::<u8>::empty(),
            start,
            1,
            scalar::spec_bool_number(model.accepted),
            at_accepted,
            limit,
        );
        assert(Seq::<u8>::empty() + field::varint_field(1, scalar::spec_bool_number(model.accepted))
            =~= field::varint_field(1, scalar::spec_bool_number(model.accepted)));
        let w1 = field::varint_field(1, scalar::spec_bool_number(model.accepted));
        let at_host_identity = AuthenticationResultModel {
            host_identity: model.host_identity,
            ..at_accepted
        };
        assert(model.host_identity.len() <= field::bytes_field(2, model.host_identity).len());
        if model.host_identity.len() == 0 {
            assert(model.host_identity =~= Seq::empty());
        }
        message::lemma_after_bytes::<Self>(
            start,
            w1,
            at_accepted,
            2,
            model.host_identity,
            at_host_identity,
            limit,
        );
        assert(at_host_identity =~= model);
    }
}

/// Who a host says it is.
#[derive(Clone, Debug, PartialEq)]
pub struct HostIdentityOffer {
    pub host_identity: Vec<u8>,
    pub display_name: String,
    pub operating_system: i32,
}

/// The contents of a [`HostIdentityOffer`].
#[verifier::ext_equal]
pub struct HostIdentityOfferModel {
    pub host_identity: Seq<u8>,
    pub display_name: Seq<char>,
    pub operating_system: i32,
}

impl View for HostIdentityOffer {
    type V = HostIdentityOfferModel;

    open spec fn view(&self) -> HostIdentityOfferModel {
        HostIdentityOfferModel {
            host_identity: self.host_identity@,
            display_name: self.display_name@,
            operating_system: self.operating_system,
        }
    }
}

impl Default for HostIdentityOffer {
    fn default() -> (message: Self)
        ensures
            message@ == Self::initial(),
    {
        Self::empty()
    }
}

impl WireMessage for HostIdentityOffer {
    open spec fn initial() -> HostIdentityOfferModel {
        HostIdentityOfferModel {
            host_identity: Seq::empty(),
            display_name: Seq::empty(),
            operating_system: 0,
        }
    }

    open spec fn wire(model: HostIdentityOfferModel) -> Seq<u8> {
        field::bytes_field(1, model.host_identity)
            + field::bytes_field(2, vstd::utf8::encode_utf8(model.display_name))
            + field::varint_field(3, scalar::spec_int32_number(model.operating_system))
    }

    open spec fn merge(
        model: HostIdentityOfferModel,
        field: WireField,
        limit: nat,
    ) -> Option<HostIdentityOfferModel> {
        if field.tag == 1 {
            match field.value {
                WireValue::Bytes(value) => Some(
                    HostIdentityOfferModel { host_identity: value, ..model },
                ),
                _ => None,
            }
        } else if field.tag == 2 {
            match field.value {
                WireValue::Bytes(value) => if vstd::utf8::valid_utf8(value) {
                    Some(
                        HostIdentityOfferModel {
                            display_name: vstd::utf8::decode_utf8(value),
                            ..model
                        },
                    )
                } else {
                    None
                },
                _ => None,
            }
        } else if field.tag == 3 {
            match field.value {
                WireValue::Varint(value) => Some(
                    HostIdentityOfferModel {
                        operating_system: scalar::spec_int32_value(value),
                        ..model
                    },
                ),
                _ => None,
            }
        } else {
            Some(model)
        }
    }

    fn empty() -> (message: Self) {
        HostIdentityOffer {
            host_identity: Vec::new(),
            display_name: String::new(),
            operating_system: 0,
        }
    }

    fn put(&self, out: &mut Vec<u8>) {
        broadcast use message::lemma_concatenation_associates;

        put_bytes_field(out, 1, self.host_identity.as_slice());
        put_bytes_field(out, 2, self.display_name.as_str().as_bytes());
        put_varint_field(out, 3, scalar::int32_number(self.operating_system));
    }

    fn take(&mut self, field: &Field<'_>, limit: u32) -> (accepted: bool) {
        if field.tag == 1 {
            match field.value {
                FieldValue::Bytes(value) => {
                    self.host_identity = bytes::owned(value);
                    true
                },
                _ => false,
            }
        } else if field.tag == 2 {
            match field.value {
                FieldValue::Bytes(value) => match text::owned_string(value) {
                    Some(text) => {
                        self.display_name = text;
                        true
                    },
                    None => false,
                },
                _ => false,
            }
        } else if field.tag == 3 {
            match field.value {
                FieldValue::Varint(value) => {
                    self.operating_system = scalar::int32_value(value);
                    true
                },
                _ => false,
            }
        } else {
            true
        }
    }
}

impl HostIdentityOffer {
    /// A written message is read back.
    pub proof fn lemma_round_trip(model: HostIdentityOfferModel, limit: nat)
        requires
            limit >= 1,
            Self::wire(model).len() <= u64::MAX,
        ensures
            message::merge_all::<Self>(Self::initial(), Self::wire(model), limit) == Some(model),
    {
        let start = Self::initial();
        let at_host_identity = HostIdentityOfferModel {
            host_identity: model.host_identity,
            ..start
        };
        assert(model.host_identity.len() <= field::bytes_field(1, model.host_identity).len());
        if model.host_identity.len() == 0 {
            assert(model.host_identity =~= Seq::empty());
        }
        message::lemma_after_bytes::<Self>(
            start,
            Seq::<u8>::empty(),
            start,
            1,
            model.host_identity,
            at_host_identity,
            limit,
        );
        assert(Seq::<u8>::empty() + field::bytes_field(1, model.host_identity)
            =~= field::bytes_field(1, model.host_identity));
        let w1 = field::bytes_field(1, model.host_identity);
        let at_display_name = HostIdentityOfferModel {
            display_name: model.display_name,
            ..at_host_identity
        };
        let display_name_bytes = vstd::utf8::encode_utf8(model.display_name);
        text::lemma_text_round_trip(model.display_name);
        assert(display_name_bytes.len() <= field::bytes_field(2, display_name_bytes).len());
        if display_name_bytes.len() == 0 {
            assert(model.display_name =~= Seq::empty());
        }
        message::lemma_after_bytes::<Self>(
            start,
            w1,
            at_host_identity,
            2,
            display_name_bytes,
            at_display_name,
            limit,
        );
        let w2 = w1 + field::bytes_field(2, vstd::utf8::encode_utf8(model.display_name));
        let at_operating_system = HostIdentityOfferModel {
            operating_system: model.operating_system,
            ..at_display_name
        };
        scalar::lemma_int32_round_trip(model.operating_system);
        message::lemma_after_varint::<Self>(
            start,
            w2,
            at_display_name,
            3,
            scalar::spec_int32_number(model.operating_system),
            at_operating_system,
            limit,
        );
        assert(at_operating_system =~= model);
    }
}

/// Asks a host who it is.
#[derive(Clone, Copy, Debug, PartialEq, Eq, Structural)]
pub struct HostIdentityRequest {}

impl View for HostIdentityRequest {
    type V = HostIdentityRequest;

    open spec fn view(&self) -> HostIdentityRequest {
        *self
    }
}

impl Default for HostIdentityRequest {
    fn default() -> (message: Self)
        ensures
            message@ == Self::initial(),
    {
        Self::empty()
    }
}

impl WireMessage for HostIdentityRequest {
    open spec fn initial() -> HostIdentityRequest {
        HostIdentityRequest {}
    }

    open spec fn wire(model: HostIdentityRequest) -> Seq<u8> {
        Seq::empty()
    }

    open spec fn merge(
        model: HostIdentityRequest,
        field: WireField,
        limit: nat,
    ) -> Option<HostIdentityRequest> {
        Some(model)
    }

    fn empty() -> (message: Self) {
        HostIdentityRequest {}
    }

    fn put(&self, out: &mut Vec<u8>) {
        assert(out@ =~= old(out)@ + Self::wire(self@));
    }

    fn take(&mut self, field: &Field<'_>, limit: u32) -> (accepted: bool) {
        true
    }
}

impl HostIdentityRequest {
    /// A written message is read back.
    pub proof fn lemma_round_trip(model: HostIdentityRequest, limit: nat)
        requires
            limit >= 1,
            Self::wire(model).len() <= u64::MAX,
        ensures
            message::merge_all::<Self>(Self::initial(), Self::wire(model), limit) == Some(model),
    {
    }
}

/// Asks a host whether a session can start.
#[derive(Clone, Copy, Debug, PartialEq, Eq, Structural)]
pub struct SessionAvailabilityProbe {}

impl View for SessionAvailabilityProbe {
    type V = SessionAvailabilityProbe;

    open spec fn view(&self) -> SessionAvailabilityProbe {
        *self
    }
}

impl Default for SessionAvailabilityProbe {
    fn default() -> (message: Self)
        ensures
            message@ == Self::initial(),
    {
        Self::empty()
    }
}

impl WireMessage for SessionAvailabilityProbe {
    open spec fn initial() -> SessionAvailabilityProbe {
        SessionAvailabilityProbe {}
    }

    open spec fn wire(model: SessionAvailabilityProbe) -> Seq<u8> {
        Seq::empty()
    }

    open spec fn merge(
        model: SessionAvailabilityProbe,
        field: WireField,
        limit: nat,
    ) -> Option<SessionAvailabilityProbe> {
        Some(model)
    }

    fn empty() -> (message: Self) {
        SessionAvailabilityProbe {}
    }

    fn put(&self, out: &mut Vec<u8>) {
        assert(out@ =~= old(out)@ + Self::wire(self@));
    }

    fn take(&mut self, field: &Field<'_>, limit: u32) -> (accepted: bool) {
        true
    }
}

impl SessionAvailabilityProbe {
    /// A written message is read back.
    pub proof fn lemma_round_trip(model: SessionAvailabilityProbe, limit: nat)
        requires
            limit >= 1,
            Self::wire(model).len() <= u64::MAX,
        ensures
            message::merge_all::<Self>(Self::initial(), Self::wire(model), limit) == Some(model),
    {
    }
}

/// Whether a session can start, each state by its number.
#[derive(Clone, Copy, Debug, PartialEq, Eq, Structural)]
pub struct SessionAvailabilityResult {
    pub availability: i32,
    pub vb_cable_status: i32,
    pub firewall_status: i32,
}

impl View for SessionAvailabilityResult {
    type V = SessionAvailabilityResult;

    open spec fn view(&self) -> SessionAvailabilityResult {
        *self
    }
}

impl Default for SessionAvailabilityResult {
    fn default() -> (message: Self)
        ensures
            message@ == Self::initial(),
    {
        Self::empty()
    }
}

impl WireMessage for SessionAvailabilityResult {
    open spec fn initial() -> SessionAvailabilityResult {
        SessionAvailabilityResult { availability: 0, vb_cable_status: 0, firewall_status: 0 }
    }

    open spec fn wire(model: SessionAvailabilityResult) -> Seq<u8> {
        field::varint_field(1, scalar::spec_int32_number(model.availability))
            + field::varint_field(2, scalar::spec_int32_number(model.vb_cable_status))
            + field::varint_field(3, scalar::spec_int32_number(model.firewall_status))
    }

    open spec fn merge(
        model: SessionAvailabilityResult,
        field: WireField,
        limit: nat,
    ) -> Option<SessionAvailabilityResult> {
        if field.tag == 1 {
            match field.value {
                WireValue::Varint(value) => Some(
                    SessionAvailabilityResult {
                        availability: scalar::spec_int32_value(value),
                        ..model
                    },
                ),
                _ => None,
            }
        } else if field.tag == 2 {
            match field.value {
                WireValue::Varint(value) => Some(
                    SessionAvailabilityResult {
                        vb_cable_status: scalar::spec_int32_value(value),
                        ..model
                    },
                ),
                _ => None,
            }
        } else if field.tag == 3 {
            match field.value {
                WireValue::Varint(value) => Some(
                    SessionAvailabilityResult {
                        firewall_status: scalar::spec_int32_value(value),
                        ..model
                    },
                ),
                _ => None,
            }
        } else {
            Some(model)
        }
    }

    fn empty() -> (message: Self) {
        SessionAvailabilityResult { availability: 0, vb_cable_status: 0, firewall_status: 0 }
    }

    fn put(&self, out: &mut Vec<u8>) {
        broadcast use message::lemma_concatenation_associates;

        put_varint_field(out, 1, scalar::int32_number(self.availability));
        put_varint_field(out, 2, scalar::int32_number(self.vb_cable_status));
        put_varint_field(out, 3, scalar::int32_number(self.firewall_status));
    }

    fn take(&mut self, field: &Field<'_>, limit: u32) -> (accepted: bool) {
        if field.tag == 1 {
            match field.value {
                FieldValue::Varint(value) => {
                    self.availability = scalar::int32_value(value);
                    true
                },
                _ => false,
            }
        } else if field.tag == 2 {
            match field.value {
                FieldValue::Varint(value) => {
                    self.vb_cable_status = scalar::int32_value(value);
                    true
                },
                _ => false,
            }
        } else if field.tag == 3 {
            match field.value {
                FieldValue::Varint(value) => {
                    self.firewall_status = scalar::int32_value(value);
                    true
                },
                _ => false,
            }
        } else {
            true
        }
    }
}

impl SessionAvailabilityResult {
    /// A written message is read back.
    pub proof fn lemma_round_trip(model: SessionAvailabilityResult, limit: nat)
        requires
            limit >= 1,
            Self::wire(model).len() <= u64::MAX,
        ensures
            message::merge_all::<Self>(Self::initial(), Self::wire(model), limit) == Some(model),
    {
        let start = Self::initial();
        let at_availability = SessionAvailabilityResult {
            availability: model.availability,
            ..start
        };
        scalar::lemma_int32_round_trip(model.availability);
        message::lemma_after_varint::<Self>(
            start,
            Seq::<u8>::empty(),
            start,
            1,
            scalar::spec_int32_number(model.availability),
            at_availability,
            limit,
        );
        assert(Seq::<u8>::empty() + field::varint_field(
            1,
            scalar::spec_int32_number(model.availability),
        )
            =~= field::varint_field(1, scalar::spec_int32_number(model.availability)));
        let w1 = field::varint_field(1, scalar::spec_int32_number(model.availability));
        let at_vb_cable_status = SessionAvailabilityResult {
            vb_cable_status: model.vb_cable_status,
            ..at_availability
        };
        scalar::lemma_int32_round_trip(model.vb_cable_status);
        message::lemma_after_varint::<Self>(
            start,
            w1,
            at_availability,
            2,
            scalar::spec_int32_number(model.vb_cable_status),
            at_vb_cable_status,
            limit,
        );
        let w2 = w1 + field::varint_field(2, scalar::spec_int32_number(model.vb_cable_status));
        let at_firewall_status = SessionAvailabilityResult {
            firewall_status: model.firewall_status,
            ..at_vb_cable_status
        };
        scalar::lemma_int32_round_trip(model.firewall_status);
        message::lemma_after_varint::<Self>(
            start,
            w2,
            at_vb_cable_status,
            3,
            scalar::spec_int32_number(model.firewall_status),
            at_firewall_status,
            limit,
        );
        assert(at_firewall_status == model);
    }
}

/// A request of the host about the session, by its number.
#[derive(Clone, Copy, Debug, PartialEq, Eq, Structural)]
pub struct HostSessionControl {
    pub kind: i32,
}

impl View for HostSessionControl {
    type V = HostSessionControl;

    open spec fn view(&self) -> HostSessionControl {
        *self
    }
}

impl Default for HostSessionControl {
    fn default() -> (message: Self)
        ensures
            message@ == Self::initial(),
    {
        Self::empty()
    }
}

impl WireMessage for HostSessionControl {
    open spec fn initial() -> HostSessionControl {
        HostSessionControl { kind: 0 }
    }

    open spec fn wire(model: HostSessionControl) -> Seq<u8> {
        field::varint_field(1, scalar::spec_int32_number(model.kind))
    }

    open spec fn merge(
        model: HostSessionControl,
        field: WireField,
        limit: nat,
    ) -> Option<HostSessionControl> {
        if field.tag == 1 {
            match field.value {
                WireValue::Varint(value) => Some(
                    HostSessionControl { kind: scalar::spec_int32_value(value) },
                ),
                _ => None,
            }
        } else {
            Some(model)
        }
    }

    fn empty() -> (message: Self) {
        HostSessionControl { kind: 0 }
    }

    fn put(&self, out: &mut Vec<u8>) {
        put_varint_field(out, 1, scalar::int32_number(self.kind));
    }

    fn take(&mut self, field: &Field<'_>, limit: u32) -> (accepted: bool) {
        if field.tag == 1 {
            match field.value {
                FieldValue::Varint(value) => {
                    self.kind = scalar::int32_value(value);
                    true
                },
                _ => false,
            }
        } else {
            true
        }
    }
}

impl HostSessionControl {
    /// A written message is read back.
    pub proof fn lemma_round_trip(model: HostSessionControl, limit: nat)
        requires
            limit >= 1,
            Self::wire(model).len() <= u64::MAX,
        ensures
            message::merge_all::<Self>(Self::initial(), Self::wire(model), limit) == Some(model),
    {
        let start = Self::initial();
        let at_kind = HostSessionControl { kind: model.kind };
        scalar::lemma_int32_round_trip(model.kind);
        message::lemma_after_varint::<Self>(
            start,
            Seq::<u8>::empty(),
            start,
            1,
            scalar::spec_int32_number(model.kind),
            at_kind,
            limit,
        );
        assert(Seq::<u8>::empty() + field::varint_field(1, scalar::spec_int32_number(model.kind))
            =~= field::varint_field(1, scalar::spec_int32_number(model.kind)));
        assert(at_kind == model);
    }
}

/// A clock reading of the player.
#[derive(Clone, Copy, Debug, PartialEq, Eq, Structural)]
pub struct ClockPing {
    pub sequence: u64,
    pub player_sent_at_micros: u64,
}

impl View for ClockPing {
    type V = ClockPing;

    open spec fn view(&self) -> ClockPing {
        *self
    }
}

impl Default for ClockPing {
    fn default() -> (message: Self)
        ensures
            message@ == Self::initial(),
    {
        Self::empty()
    }
}

impl WireMessage for ClockPing {
    open spec fn initial() -> ClockPing {
        ClockPing { sequence: 0, player_sent_at_micros: 0 }
    }

    open spec fn wire(model: ClockPing) -> Seq<u8> {
        field::varint_field(1, model.sequence)
            + field::varint_field(2, model.player_sent_at_micros)
    }

    open spec fn merge(model: ClockPing, field: WireField, limit: nat) -> Option<ClockPing> {
        if field.tag == 1 {
            match field.value {
                WireValue::Varint(value) => Some(ClockPing { sequence: value, ..model }),
                _ => None,
            }
        } else if field.tag == 2 {
            match field.value {
                WireValue::Varint(value) => Some(
                    ClockPing { player_sent_at_micros: value, ..model },
                ),
                _ => None,
            }
        } else {
            Some(model)
        }
    }

    fn empty() -> (message: Self) {
        ClockPing { sequence: 0, player_sent_at_micros: 0 }
    }

    fn put(&self, out: &mut Vec<u8>) {
        broadcast use message::lemma_concatenation_associates;

        put_varint_field(out, 1, self.sequence);
        put_varint_field(out, 2, self.player_sent_at_micros);
    }

    fn take(&mut self, field: &Field<'_>, limit: u32) -> (accepted: bool) {
        if field.tag == 1 {
            match field.value {
                FieldValue::Varint(value) => {
                    self.sequence = value;
                    true
                },
                _ => false,
            }
        } else if field.tag == 2 {
            match field.value {
                FieldValue::Varint(value) => {
                    self.player_sent_at_micros = value;
                    true
                },
                _ => false,
            }
        } else {
            true
        }
    }
}

impl ClockPing {
    /// A written message is read back.
    pub proof fn lemma_round_trip(model: ClockPing, limit: nat)
        requires
            limit >= 1,
            Self::wire(model).len() <= u64::MAX,
        ensures
            message::merge_all::<Self>(Self::initial(), Self::wire(model), limit) == Some(model),
    {
        let start = Self::initial();
        let at_sequence = ClockPing { sequence: model.sequence, ..start };
        message::lemma_after_varint::<Self>(
            start,
            Seq::<u8>::empty(),
            start,
            1,
            model.sequence,
            at_sequence,
            limit,
        );
        assert(Seq::<u8>::empty() + field::varint_field(1, model.sequence)
            =~= field::varint_field(1, model.sequence));
        let w1 = field::varint_field(1, model.sequence);
        let at_player_sent_at_micros = ClockPing {
            player_sent_at_micros: model.player_sent_at_micros,
            ..at_sequence
        };
        message::lemma_after_varint::<Self>(
            start,
            w1,
            at_sequence,
            2,
            model.player_sent_at_micros,
            at_player_sent_at_micros,
            limit,
        );
        assert(at_player_sent_at_micros == model);
    }
}

/// The host's answer to a clock reading.
#[derive(Clone, Copy, Debug, PartialEq, Eq, Structural)]
pub struct ClockPong {
    pub sequence: u64,
    pub player_sent_at_micros: u64,
    pub host_received_at_micros: u64,
    pub host_sent_at_micros: u64,
}

impl View for ClockPong {
    type V = ClockPong;

    open spec fn view(&self) -> ClockPong {
        *self
    }
}

impl Default for ClockPong {
    fn default() -> (message: Self)
        ensures
            message@ == Self::initial(),
    {
        Self::empty()
    }
}

impl WireMessage for ClockPong {
    open spec fn initial() -> ClockPong {
        ClockPong {
            sequence: 0,
            player_sent_at_micros: 0,
            host_received_at_micros: 0,
            host_sent_at_micros: 0,
        }
    }

    open spec fn wire(model: ClockPong) -> Seq<u8> {
        field::varint_field(1, model.sequence)
            + field::varint_field(2, model.player_sent_at_micros)
            + field::varint_field(3, model.host_received_at_micros)
            + field::varint_field(4, model.host_sent_at_micros)
    }

    open spec fn merge(model: ClockPong, field: WireField, limit: nat) -> Option<ClockPong> {
        if field.tag == 1 {
            match field.value {
                WireValue::Varint(value) => Some(ClockPong { sequence: value, ..model }),
                _ => None,
            }
        } else if field.tag == 2 {
            match field.value {
                WireValue::Varint(value) => Some(
                    ClockPong { player_sent_at_micros: value, ..model },
                ),
                _ => None,
            }
        } else if field.tag == 3 {
            match field.value {
                WireValue::Varint(value) => Some(
                    ClockPong { host_received_at_micros: value, ..model },
                ),
                _ => None,
            }
        } else if field.tag == 4 {
            match field.value {
                WireValue::Varint(value) => Some(ClockPong { host_sent_at_micros: value, ..model }),
                _ => None,
            }
        } else {
            Some(model)
        }
    }

    fn empty() -> (message: Self) {
        ClockPong {
            sequence: 0,
            player_sent_at_micros: 0,
            host_received_at_micros: 0,
            host_sent_at_micros: 0,
        }
    }

    fn put(&self, out: &mut Vec<u8>) {
        broadcast use message::lemma_concatenation_associates;

        put_varint_field(out, 1, self.sequence);
        put_varint_field(out, 2, self.player_sent_at_micros);
        put_varint_field(out, 3, self.host_received_at_micros);
        put_varint_field(out, 4, self.host_sent_at_micros);
    }

    fn take(&mut self, field: &Field<'_>, limit: u32) -> (accepted: bool) {
        if field.tag == 1 {
            match field.value {
                FieldValue::Varint(value) => {
                    self.sequence = value;
                    true
                },
                _ => false,
            }
        } else if field.tag == 2 {
            match field.value {
                FieldValue::Varint(value) => {
                    self.player_sent_at_micros = value;
                    true
                },
                _ => false,
            }
        } else if field.tag == 3 {
            match field.value {
                FieldValue::Varint(value) => {
                    self.host_received_at_micros = value;
                    true
                },
                _ => false,
            }
        } else if field.tag == 4 {
            match field.value {
                FieldValue::Varint(value) => {
                    self.host_sent_at_micros = value;
                    true
                },
                _ => false,
            }
        } else {
            true
        }
    }
}

impl ClockPong {
    /// A written message is read back.
    pub proof fn lemma_round_trip(model: ClockPong, limit: nat)
        requires
            limit >= 1,
            Self::wire(model).len() <= u64::MAX,
        ensures
            message::merge_all::<Self>(Self::initial(), Self::wire(model), limit) == Some(model),
    {
        let start = Self::initial();
        let at_sequence = ClockPong { sequence: model.sequence, ..start };
        message::lemma_after_varint::<Self>(
            start,
            Seq::<u8>::empty(),
            start,
            1,
            model.sequence,
            at_sequence,
            limit,
        );
        assert(Seq::<u8>::empty() + field::varint_field(1, model.sequence)
            =~= field::varint_field(1, model.sequence));
        let w1 = field::varint_field(1, model.sequence);
        let at_player_sent_at_micros = ClockPong {
            player_sent_at_micros: model.player_sent_at_micros,
            ..at_sequence
        };
        message::lemma_after_varint::<Self>(
            start,
            w1,
            at_sequence,
            2,
            model.player_sent_at_micros,
            at_player_sent_at_micros,
            limit,
        );
        let w2 = w1 + field::varint_field(2, model.player_sent_at_micros);
        let at_host_received_at_micros = ClockPong {
            host_received_at_micros: model.host_received_at_micros,
            ..at_player_sent_at_micros
        };
        message::lemma_after_varint::<Self>(
            start,
            w2,
            at_player_sent_at_micros,
            3,
            model.host_received_at_micros,
            at_host_received_at_micros,
            limit,
        );
        let w3 = w2 + field::varint_field(3, model.host_received_at_micros);
        let at_host_sent_at_micros = ClockPong {
            host_sent_at_micros: model.host_sent_at_micros,
            ..at_host_received_at_micros
        };
        message::lemma_after_varint::<Self>(
            start,
            w3,
            at_host_received_at_micros,
            4,
            model.host_sent_at_micros,
            at_host_sent_at_micros,
            limit,
        );
        assert(at_host_sent_at_micros == model);
    }
}

/// A feature and the versions of it that are offered.
#[derive(Clone, Copy, Debug, PartialEq, Eq, Structural)]
pub struct FeatureOffer {
    pub id: u32,
    pub oldest_version: u32,
    pub newest_version: u32,
    pub required: bool,
}

impl View for FeatureOffer {
    type V = FeatureOffer;

    open spec fn view(&self) -> FeatureOffer {
        *self
    }
}

impl Default for FeatureOffer {
    fn default() -> (message: Self)
        ensures
            message@ == Self::initial(),
    {
        Self::empty()
    }
}

impl WireMessage for FeatureOffer {
    open spec fn initial() -> FeatureOffer {
        FeatureOffer { id: 0, oldest_version: 0, newest_version: 0, required: false }
    }

    open spec fn wire(model: FeatureOffer) -> Seq<u8> {
        field::varint_field(1, model.id as u64)
            + field::varint_field(2, model.oldest_version as u64)
            + field::varint_field(3, model.newest_version as u64)
            + field::varint_field(4, scalar::spec_bool_number(model.required))
    }

    open spec fn merge(model: FeatureOffer, field: WireField, limit: nat) -> Option<FeatureOffer> {
        if field.tag == 1 {
            match field.value {
                WireValue::Varint(value) => Some(FeatureOffer { id: value as u32, ..model }),
                _ => None,
            }
        } else if field.tag == 2 {
            match field.value {
                WireValue::Varint(value) => Some(
                    FeatureOffer { oldest_version: value as u32, ..model },
                ),
                _ => None,
            }
        } else if field.tag == 3 {
            match field.value {
                WireValue::Varint(value) => Some(
                    FeatureOffer { newest_version: value as u32, ..model },
                ),
                _ => None,
            }
        } else if field.tag == 4 {
            match field.value {
                WireValue::Varint(value) => Some(FeatureOffer { required: value != 0, ..model }),
                _ => None,
            }
        } else {
            Some(model)
        }
    }

    fn empty() -> (message: Self) {
        FeatureOffer { id: 0, oldest_version: 0, newest_version: 0, required: false }
    }

    fn put(&self, out: &mut Vec<u8>) {
        broadcast use message::lemma_concatenation_associates;

        put_varint_field(out, 1, self.id as u64);
        put_varint_field(out, 2, self.oldest_version as u64);
        put_varint_field(out, 3, self.newest_version as u64);
        put_varint_field(out, 4, scalar::bool_number(self.required));
    }

    fn take(&mut self, field: &Field<'_>, limit: u32) -> (accepted: bool) {
        if field.tag == 1 {
            match field.value {
                FieldValue::Varint(value) => {
                    self.id = value as u32;
                    true
                },
                _ => false,
            }
        } else if field.tag == 2 {
            match field.value {
                FieldValue::Varint(value) => {
                    self.oldest_version = value as u32;
                    true
                },
                _ => false,
            }
        } else if field.tag == 3 {
            match field.value {
                FieldValue::Varint(value) => {
                    self.newest_version = value as u32;
                    true
                },
                _ => false,
            }
        } else if field.tag == 4 {
            match field.value {
                FieldValue::Varint(value) => {
                    self.required = value != 0;
                    true
                },
                _ => false,
            }
        } else {
            true
        }
    }
}

impl FeatureOffer {
    /// A written message is read back.
    pub proof fn lemma_round_trip(model: FeatureOffer, limit: nat)
        requires
            limit >= 1,
            Self::wire(model).len() <= u64::MAX,
        ensures
            message::merge_all::<Self>(Self::initial(), Self::wire(model), limit) == Some(model),
    {
        let start = Self::initial();
        let at_id = FeatureOffer { id: model.id, ..start };
        message::lemma_after_varint::<Self>(
            start,
            Seq::<u8>::empty(),
            start,
            1,
            model.id as u64,
            at_id,
            limit,
        );
        assert(Seq::<u8>::empty() + field::varint_field(1, model.id as u64)
            =~= field::varint_field(1, model.id as u64));
        let w1 = field::varint_field(1, model.id as u64);
        let at_oldest_version = FeatureOffer { oldest_version: model.oldest_version, ..at_id };
        message::lemma_after_varint::<Self>(
            start,
            w1,
            at_id,
            2,
            model.oldest_version as u64,
            at_oldest_version,
            limit,
        );
        let w2 = w1 + field::varint_field(2, model.oldest_version as u64);
        let at_newest_version = FeatureOffer {
            newest_version: model.newest_version,
            ..at_oldest_version
        };
        message::lemma_after_varint::<Self>(
            start,
            w2,
            at_oldest_version,
            3,
            model.newest_version as u64,
            at_newest_version,
            limit,
        );
        let w3 = w2 + field::varint_field(3, model.newest_version as u64);
        let at_required = FeatureOffer { required: model.required, ..at_newest_version };
        message::lemma_after_varint::<Self>(
            start,
            w3,
            at_newest_version,
            4,
            scalar::spec_bool_number(model.required),
            at_required,
            limit,
        );
        assert(at_required == model);
    }
}

/// The protocol version and the features on offer.
#[derive(Clone, Debug, PartialEq)]
pub struct VersionOffer {
    pub protocol_major: u32,
    pub protocol_minor: u32,
    pub features: Vec<FeatureOffer>,
}

/// The contents of a [`VersionOffer`].
#[verifier::ext_equal]
pub struct VersionOfferModel {
    pub protocol_major: u32,
    pub protocol_minor: u32,
    pub features: Seq<FeatureOffer>,
}

impl View for VersionOffer {
    type V = VersionOfferModel;

    open spec fn view(&self) -> VersionOfferModel {
        VersionOfferModel {
            protocol_major: self.protocol_major,
            protocol_minor: self.protocol_minor,
            features: self.features@.map_values(|item: FeatureOffer| item@),
        }
    }
}

impl Default for VersionOffer {
    fn default() -> (message: Self)
        ensures
            message@ == Self::initial(),
    {
        Self::empty()
    }
}

impl WireMessage for VersionOffer {
    open spec fn initial() -> VersionOfferModel {
        VersionOfferModel { protocol_major: 0, protocol_minor: 0, features: Seq::empty() }
    }

    open spec fn wire(model: VersionOfferModel) -> Seq<u8> {
        field::varint_field(1, model.protocol_major as u64)
            + field::varint_field(2, model.protocol_minor as u64)
            + message::repeated_field::<FeatureOffer>(3, model.features)
    }

    open spec fn merge(
        model: VersionOfferModel,
        field: WireField,
        limit: nat,
    ) -> Option<VersionOfferModel> {
        if field.tag == 1 {
            match field.value {
                WireValue::Varint(value) => Some(
                    VersionOfferModel { protocol_major: value as u32, ..model },
                ),
                _ => None,
            }
        } else if field.tag == 2 {
            match field.value {
                WireValue::Varint(value) => Some(
                    VersionOfferModel { protocol_minor: value as u32, ..model },
                ),
                _ => None,
            }
        } else if field.tag == 3 {
            match message::merge_nested::<FeatureOffer>(
                FeatureOffer::initial(),
                field.value,
                limit,
            ) {
                Some(next) => Some(
                    VersionOfferModel { features: model.features.push(next), ..model },
                ),
                None => None,
            }
        } else {
            Some(model)
        }
    }

    fn empty() -> (message: Self) {
        let message = VersionOffer { protocol_major: 0, protocol_minor: 0, features: Vec::new() };
        assert(message.features@.map_values(|item: FeatureOffer| item@) =~= Seq::empty());
        message
    }

    fn put(&self, out: &mut Vec<u8>) {
        broadcast use message::lemma_concatenation_associates;

        put_varint_field(out, 1, self.protocol_major as u64);
        put_varint_field(out, 2, self.protocol_minor as u64);
        put_repeated(out, 3, &self.features);
    }

    fn take(&mut self, field: &Field<'_>, limit: u32) -> (accepted: bool) {
        if field.tag == 1 {
            match field.value {
                FieldValue::Varint(value) => {
                    self.protocol_major = value as u32;
                    true
                },
                _ => false,
            }
        } else if field.tag == 2 {
            match field.value {
                FieldValue::Varint(value) => {
                    self.protocol_minor = value as u32;
                    true
                },
                _ => false,
            }
        } else if field.tag == 3 {
            let mut inner = FeatureOffer::empty();
            if take_nested(&mut inner, &field.value, limit) {
                let ghost models = self.features@.map_values(|item: FeatureOffer| item@);
                self.features.push(inner);
                assert(self.features@.map_values(|item: FeatureOffer| item@)
                    =~= models.push(inner@));
                true
            } else {
                false
            }
        } else {
            true
        }
    }
}

impl VersionOffer {
    /// A written message is read back.
    pub proof fn lemma_round_trip(model: VersionOfferModel, limit: nat)
        requires
            limit >= 2,
            Self::wire(model).len() <= u64::MAX,
        ensures
            message::merge_all::<Self>(Self::initial(), Self::wire(model), limit) == Some(model),
    {
        let start = Self::initial();
        let at_protocol_major = VersionOfferModel { protocol_major: model.protocol_major, ..start };
        message::lemma_after_varint::<Self>(
            start,
            Seq::<u8>::empty(),
            start,
            1,
            model.protocol_major as u64,
            at_protocol_major,
            limit,
        );
        assert(Seq::<u8>::empty() + field::varint_field(1, model.protocol_major as u64)
            =~= field::varint_field(1, model.protocol_major as u64));
        let w1 = field::varint_field(1, model.protocol_major as u64);
        let at_protocol_minor = VersionOfferModel {
            protocol_minor: model.protocol_minor,
            ..at_protocol_major
        };
        message::lemma_after_varint::<Self>(
            start,
            w1,
            at_protocol_major,
            2,
            model.protocol_minor as u64,
            at_protocol_minor,
            limit,
        );
        let w2 = w1 + field::varint_field(2, model.protocol_minor as u64);
        let at_features = VersionOfferModel { features: model.features, ..at_protocol_minor };
        let after_features = |count: int| VersionOfferModel {
            features: model.features.take(count),
            ..at_protocol_minor
        };
        assert(model.features.take(0) =~= Seq::empty());
        assert forall|index: int| 0 <= index < model.features.len() implies Self::merge(
            after_features(index),
            (
                WireField {
                    tag: 3,
                    value: WireValue::Bytes(FeatureOffer::wire(#[trigger] model.features[index])),
                }
            ),
            limit,
        ) == Some(after_features(index + 1)) by {
            message::lemma_repeated_item_size::<FeatureOffer>(3, model.features, index);
            FeatureOffer::lemma_round_trip(model.features[index], (limit - 1) as nat);
            assert(model.features.take(index).push(model.features[index])
                =~= model.features.take(index + 1));
        }
        assert(model.features.take(model.features.len() as int) =~= model.features);
        message::lemma_after_repeated::<Self, FeatureOffer>(
            start,
            w2,
            3,
            model.features,
            after_features,
            limit,
        );
        assert(at_features =~= model);
    }
}

} // verus!
