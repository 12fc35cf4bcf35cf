//! What hosts say of themselves before anyone is authenticated.

use crate::bytes;
use crate::bytes::get_be;
use crate::protocol::wire::session_messages::HostIdentityOfferModel;
use crate::protocol::wire::{
    HostIdentityOffer, HostOperatingSystem, ReliableFrameError, MAX_RELIABLE_MESSAGE_SIZE,
    RELIABLE_FRAME_PREFIX_SIZE,
};
use crate::session::authentication::{AuthenticationError, HostIdentity, HOST_IDENTITY_SIZE};
use crate::text;
use vstd::prelude::*;

verus! {

pub const AUTHENTICATION_STREAM_LIMIT: usize = MAX_RELIABLE_MESSAGE_SIZE;

pub const MAX_DISCOVERY_DISPLAY_NAME_SIZE: usize = 63;

/// How a peer broke the protocol.
#[derive(Clone, Debug, PartialEq)]
pub enum ProtocolFault {
    Authentication(AuthenticationError),
    Frame(ReliableFrameError),
    UnknownOperatingSystem(i32),
}

#[derive(Clone, Debug, PartialEq)]
pub enum QuicAuthenticationError {
    Setup(String),
    Transport(String),
    Protocol(ProtocolFault),
    MessageTooLarge(usize),
    InvalidAuthenticationSequence,
    AuthenticationFailed,
    RateLimiterUnavailable,
    CredentialUnavailable,
    Timeout,
    InvalidDiscoveryMetadata,
}

/// `rustconsole/1`.
pub open spec fn spec_alpn_protocol() -> Seq<u8> {
    seq![
        0x72, 0x75, 0x73, 0x74, 0x63, 0x6f, 0x6e, 0x73, 0x6f, 0x6c, 0x65, 0x2f, 0x31,
    ]
}

/// The name under which both ends negotiate this protocol in TLS.
pub fn alpn_protocol() -> (name: Vec<u8>)
    ensures
        name@ == spec_alpn_protocol(),
{
    let name: Vec<u8> = vec![
        0x72, 0x75, 0x73, 0x74, 0x63, 0x6f, 0x6e, 0x73, 0x6f, 0x6c, 0x65, 0x2f, 0x31,
    ];
    assert(name@ =~= spec_alpn_protocol());
    name
}

/// A name that a host may show: not empty, short, and without control
/// characters.
pub open spec fn is_display_name(name: Seq<char>) -> bool {
    name.len() > 0 && text::byte_length(name) <= MAX_DISCOVERY_DISPLAY_NAME_SIZE
        && text::is_printable(name)
}

fn validate_display_name(display_name: &String) -> (result: Result<(), QuicAuthenticationError>)
    ensures
        match result {
            Ok(()) => is_display_name(display_name@),
            Err(error) => !is_display_name(display_name@) && error
                == QuicAuthenticationError::InvalidDiscoveryMetadata,
        },
{
    let size: usize = display_name.as_str().as_bytes().len();
    if size == 0 || size > MAX_DISCOVERY_DISPLAY_NAME_SIZE || text::has_control(
        display_name.as_str(),
    ) {
        proof {
            if display_name@.len() > 0 {
                lemma_text_has_bytes(display_name@);
            }
        }
        return Err(QuicAuthenticationError::InvalidDiscoveryMetadata);
    }
    proof {
        if display_name@.len() == 0 {
            assert(vstd::utf8::encode_utf8(display_name@).len() == 0);
        }
    }
    Ok(())
}

proof fn lemma_text_has_bytes(text: Seq<char>)
    requires
        text.len() > 0,
    ensures
        text::byte_length(text) > 0,
{
    reveal_with_fuel(vstd::utf8::encode_utf8, 2);
}

/// What a host tells whoever asks.
#[derive(Clone, Debug, PartialEq)]
pub struct HostMetadata {
    pub display_name: String,
    pub operating_system: HostOperatingSystem,
}

impl HostMetadata {
    pub fn new(display_name: String, operating_system: HostOperatingSystem) -> (result: Result<
        Self,
        QuicAuthenticationError,
    >)
        ensures
            match result {
                Ok(metadata) => is_display_name(display_name@) && metadata.display_name@
                    == display_name@ && metadata.operating_system == operating_system,
                Err(error) => !is_display_name(display_name@) && error
                    == QuicAuthenticationError::InvalidDiscoveryMetadata,
            },
    {
        match validate_display_name(&display_name) {
            Ok(()) => Ok(HostMetadata { display_name, operating_system }),
            Err(error) => Err(error),
        }
    }
}

/// A host as it described itself.
#[derive(Clone, Debug, PartialEq)]
pub struct DiscoveredHost {
    pub host_identity: HostIdentity,
    pub display_name: Option<String>,
    pub operating_system: HostOperatingSystem,
}

/// The contents of a [`DiscoveredHost`].
#[verifier::ext_equal]
pub struct DiscoveredHostModel {
    pub host_identity: Seq<u8>,
    pub display_name: Option<Seq<char>>,
    pub operating_system: HostOperatingSystem,
}

/// The text, where there is one.
pub open spec fn text_model(text: Option<String>) -> Option<Seq<char>> {
    match text {
        Some(text) => Some(text@),
        None => None,
    }
}

impl View for DiscoveredHost {
    type V = DiscoveredHostModel;

    open spec fn view(&self) -> DiscoveredHostModel {
        DiscoveredHostModel {
            host_identity: self.host_identity@,
            display_name: text_model(self.display_name),
            operating_system: self.operating_system,
        }
    }
}

/// The host that an offer describes. A host may leave its name out.
pub open spec fn host_of(offer: HostIdentityOfferModel) -> Result<
    DiscoveredHostModel,
    QuicAuthenticationError,
> {
    if offer.host_identity.len() != HOST_IDENTITY_SIZE {
        Err(
            QuicAuthenticationError::Protocol(
                ProtocolFault::Authentication(AuthenticationError::InvalidHostIdentity),
            ),
        )
    } else if offer.display_name.len() > 0 && !is_display_name(offer.display_name) {
        Err(QuicAuthenticationError::InvalidDiscoveryMetadata)
    } else if !HostOperatingSystem::is_number(offer.operating_system) {
        Err(
            QuicAuthenticationError::Protocol(
                ProtocolFault::UnknownOperatingSystem(offer.operating_system),
            ),
        )
    } else {
        Ok(
            DiscoveredHostModel {
                host_identity: offer.host_identity,
                display_name: if offer.display_name.len() == 0 {
                    None
                } else {
                    Some(offer.display_name)
                },
                operating_system: if offer.operating_system
                    == HostOperatingSystem::Windows.spec_number() {
                    HostOperatingSystem::Windows
                } else {
                    HostOperatingSystem::Unknown
                },
            },
        )
    }
}

pub fn parse_host_identity_offer(offer: HostIdentityOffer) -> (result: Result<
    DiscoveredHost,
    QuicAuthenticationError,
>)
    ensures
        match result {
            Ok(host) => host_of(offer@) == Ok::<_, QuicAuthenticationError>(host@),
            Err(error) => host_of(offer@) == Err::<DiscoveredHostModel, _>(error),
        },
{
    let host_identity = match HostIdentity::from_bytes(offer.host_identity.as_slice()) {
        Ok(identity) => identity,
        Err(error) => {
            return Err(
                QuicAuthenticationError::Protocol(ProtocolFault::Authentication(error)),
            );
        },
    };
    let ghost name = offer.display_name@;
    let display_name = if offer.display_name.as_str().as_bytes().len() == 0 {
        proof {
            if name.len() > 0 {
                lemma_text_has_bytes(name);
            }
        }
        None
    } else {
        proof {
            if name.len() == 0 {
                assert(vstd::utf8::encode_utf8(name).len() == 0);
            }
        }
        match validate_display_name(&offer.display_name) {
            Ok(()) => {},
            Err(error) => {
                return Err(error);
            },
        }
        Some(offer.display_name)
    };
    match HostOperatingSystem::try_from(offer.operating_system) {
        Ok(operating_system) => {
            let host = DiscoveredHost { host_identity, display_name, operating_system };
            assert(host@ =~= host_of(offer@)->Ok_0);
            Ok(host)
        },
        Err(error) => Err(
            QuicAuthenticationError::Protocol(ProtocolFault::UnknownOperatingSystem(error.0)),
        ),
    }
}

/// The size of the message that a frame's prefix announces, where one of that
/// size is taken.
pub fn announced_size(prefix: &[u8]) -> (result: Result<usize, QuicAuthenticationError>)
    requires
        prefix@.len() == RELIABLE_FRAME_PREFIX_SIZE,
    ensures
        match result {
            Ok(size) => size == bytes::be_value(prefix@) && size <= AUTHENTICATION_STREAM_LIMIT,
            Err(error) => bytes::be_value(prefix@) > AUTHENTICATION_STREAM_LIMIT && error
                == QuicAuthenticationError::MessageTooLarge(bytes::be_value(prefix@) as usize),
        },
{
    proof {
        bytes::lemma_be_bounds();
    }
    let size: usize = get_be(prefix, 0, RELIABLE_FRAME_PREFIX_SIZE) as usize;
    assert(prefix@.subrange(0, 4) =~= prefix@);
    if size > AUTHENTICATION_STREAM_LIMIT {
        return Err(QuicAuthenticationError::MessageTooLarge(size));
    }
    Ok(size)
}

/// A name that is shown has one to 63 bytes, and none of its characters is a
/// control character.
pub proof fn law_display_names(name: Seq<char>)
    ensures
        is_display_name(name) ==> name.len() > 0,
        is_display_name(name) ==> vstd::utf8::encode_utf8(name).len() <= 63,
        is_display_name(name) ==> forall|i: int|
            0 <= i < name.len() ==> (#[trigger] name[i]) as u32 >= 0x20 && !(0x7f <= name[i] as u32
                && name[i] as u32 <= 0x9f),
        name.len() > 0 && vstd::utf8::encode_utf8(name).len() <= 63 && (forall|i: int|
            0 <= i < name.len() ==> (#[trigger] name[i]) as u32 >= 0x20 && !(0x7f <= name[i] as u32
                && name[i] as u32 <= 0x9f)) ==> is_display_name(name),
{
    text::law_printable(name);
}

/// What an offer tells of its host: the identity of 32 bytes, the name where
/// there is one, and the operating system. A wrong identity is found first, then
/// a name that cannot be shown, then an operating system that has no number.
pub proof fn law_offers_tell_of_their_host(offer: HostIdentityOfferModel)
    ensures
        ({
            let named = offer.display_name.len() > 0;
            &&& host_of(offer) matches Ok(host) ==> {
                &&& host.host_identity == offer.host_identity
                &&& offer.host_identity.len() == 32
                &&& named <==> host.display_name is Some
                &&& host.display_name matches Some(name) ==> name == offer.display_name
                    && is_display_name(name)
                &&& offer.operating_system == 0 <==> host.operating_system is Unknown
                &&& offer.operating_system == 1 <==> host.operating_system is Windows
            }
            &&& host_of(offer) is Ok <==> {
                &&& offer.host_identity.len() == 32
                &&& named ==> is_display_name(offer.display_name)
                &&& 0 <= offer.operating_system <= 1
            }
            &&& offer.host_identity.len() != 32 <==> (host_of(offer) matches Err(error) && error
                == QuicAuthenticationError::Protocol(
                ProtocolFault::Authentication(AuthenticationError::InvalidHostIdentity),
            ))
            &&& offer.host_identity.len() == 32 && named && !is_display_name(offer.display_name)
                <==> (host_of(offer) matches Err(error) && error
                == QuicAuthenticationError::InvalidDiscoveryMetadata)
        }),
{
}

/// The protocol's name on the connection is "rustconsole/1".
pub proof fn law_connection_protocol()
    ensures
        spec_alpn_protocol().len() == 13,
        forall|i: int|
            0 <= i < 13 ==> #[trigger] spec_alpn_protocol()[i] as char == "rustconsole/1"@[i],
{
    reveal_strlit("rustconsole/1");
    assert forall|i: int| 0 <= i < 13 implies #[trigger] spec_alpn_protocol()[i] as char
        == "rustconsole/1"@[i] by {
        assert(i == 0 || i == 1 || i == 2 || i == 3 || i == 4 || i == 5 || i == 6 || i == 7 || i
            == 8 || i == 9 || i == 10 || i == 11 || i == 12);
    }
}

} // verus!
