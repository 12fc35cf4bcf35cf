//! The order of messages in which a viewer and a host authenticate, as one step
//! for each event.

use crate::bytes::owned;
use crate::protocol::wire::envelope::{Body, BodyModel};
use crate::protocol::wire::frame::EnvelopeModel;
use crate::protocol::wire::session_messages::{
    AuthenticationResultModel, HostIdentityOfferModel, OpaqueCredentialFinalizationModel,
    OpaqueCredentialRequestModel, OpaqueCredentialResponseModel,
};
use crate::protocol::wire::{
    AuthenticationResult, Envelope, HostIdentityOffer, HostIdentityRequest, HostOperatingSystem,
    OpaqueCredentialFinalization, OpaqueCredentialRequest, OpaqueCredentialResponse,
};
use crate::session::authentication;
use crate::session::authentication::{
    validate_credential_identifier, AuthenticationError, HostIdentity, SessionIdentity,
};
use crate::session::quic;
use crate::session::quic::{
    parse_host_identity_offer, DiscoveredHost, DiscoveredHostModel, HostMetadata, ProtocolFault,
    QuicAuthenticationError,
};
use vstd::prelude::*;

verus! {

/// An OPAQUE failure as an error of the handshake.
pub open spec fn opaque_fault(error: AuthenticationError) -> QuicAuthenticationError {
    QuicAuthenticationError::Protocol(ProtocolFault::Authentication(error))
}

/// A session that both ends have come to.
#[derive(Clone, Debug, PartialEq)]
pub struct AuthenticatedHost {
    pub session_identity: SessionIdentity,
    pub host_identity: HostIdentity,
    pub display_name: Option<String>,
    pub operating_system: HostOperatingSystem,
}

/// The contents of an [`AuthenticatedHost`].
#[verifier::ext_equal]
pub struct AuthenticatedHostModel {
    pub session_identity: Seq<u8>,
    pub host_identity: Seq<u8>,
    pub display_name: Option<Seq<char>>,
    pub operating_system: HostOperatingSystem,
}

impl View for AuthenticatedHost {
    type V = AuthenticatedHostModel;

    open spec fn view(&self) -> AuthenticatedHostModel {
        AuthenticatedHostModel {
            session_identity: self.session_identity@,
            host_identity: self.host_identity@,
            display_name: quic::text_model(self.display_name),
            operating_system: self.operating_system,
        }
    }
}

/// What came of the password for a host.
pub enum CredentialOutcome {
    /// There is no password for this host.
    Unavailable,
    /// OPAQUE could not start with the password.
    Failed(AuthenticationError),
    /// OPAQUE gave the first message.
    Started { credential_identifier: Vec<u8>, message: Vec<u8> },
}

/// What came of a host's response.
pub enum FinishOutcome {
    /// The response is no OPAQUE message.
    Failed(AuthenticationError),
    /// There is a last message; a session only where OPAQUE agreed.
    Finished { message: Vec<u8>, session_identity: Option<SessionIdentity> },
}

/// Where a viewer is.
pub enum ClientHandshake {
    AwaitingOffer,
    AwaitingCredential(DiscoveredHost),
    AwaitingResponse(DiscoveredHost),
    AwaitingFinish(DiscoveredHost),
    AwaitingResult(DiscoveredHost, Option<SessionIdentity>),
    Done,
}

pub enum ClientEvent {
    Received(Envelope),
    Credential(CredentialOutcome),
    Finish(FinishOutcome),
}

/// What a viewer does next.
pub enum ClientAction {
    /// Look for the password of this host and start OPAQUE with it.
    FindCredential(HostIdentity),
    /// Send the message, then wait for an answer.
    Send(Envelope),
    /// Finish OPAQUE with the host's response.
    Finish(Vec<u8>),
    /// The session stands.
    Accept(AuthenticatedHost),
}

/// What a [`ClientHandshake`] knows.
#[verifier::ext_equal]
pub enum ClientHandshakeModel {
    AwaitingOffer,
    AwaitingCredential(DiscoveredHostModel),
    AwaitingResponse(DiscoveredHostModel),
    AwaitingFinish(DiscoveredHostModel),
    AwaitingResult(DiscoveredHostModel, Option<Seq<u8>>),
    Done,
}

/// The contents of a [`ClientEvent`].
#[verifier::ext_equal]
pub enum ClientEventModel {
    Received(EnvelopeModel),
    Unavailable,
    CredentialFailed(AuthenticationError),
    Started { credential_identifier: Seq<u8>, message: Seq<u8> },
    FinishFailed(AuthenticationError),
    Finished { message: Seq<u8>, session_identity: Option<Seq<u8>> },
}

/// The contents of a [`ClientAction`].
#[verifier::ext_equal]
pub enum ClientActionModel {
    FindCredential(Seq<u8>),
    Send(EnvelopeModel),
    Finish(Seq<u8>),
    Accept(AuthenticatedHostModel),
}

pub open spec fn identity_model(identity: Option<SessionIdentity>) -> Option<Seq<u8>> {
    match identity {
        Some(identity) => Some(identity@),
        None => None,
    }
}

impl View for ClientHandshake {
    type V = ClientHandshakeModel;

    open spec fn view(&self) -> ClientHandshakeModel {
        match self {
            ClientHandshake::AwaitingOffer => ClientHandshakeModel::AwaitingOffer,
            ClientHandshake::AwaitingCredential(host) => ClientHandshakeModel::AwaitingCredential(
                host@,
            ),
            ClientHandshake::AwaitingResponse(host) => ClientHandshakeModel::AwaitingResponse(
                host@,
            ),
            ClientHandshake::AwaitingFinish(host) => ClientHandshakeModel::AwaitingFinish(host@),
            ClientHandshake::AwaitingResult(host, identity) => ClientHandshakeModel::AwaitingResult(
                host@,
                identity_model(*identity),
            ),
            ClientHandshake::Done => ClientHandshakeModel::Done,
        }
    }
}

impl View for ClientEvent {
    type V = ClientEventModel;

    open spec fn view(&self) -> ClientEventModel {
        match self {
            ClientEvent::Received(envelope) => ClientEventModel::Received(envelope@),
            ClientEvent::Credential(CredentialOutcome::Unavailable) => {
                ClientEventModel::Unavailable
            },
            ClientEvent::Credential(
                CredentialOutcome::Failed(error),
            ) => ClientEventModel::CredentialFailed(*error),
            ClientEvent::Credential(
                CredentialOutcome::Started { credential_identifier, message },
            ) => ClientEventModel::Started {
                credential_identifier: credential_identifier@,
                message: message@,
            },
            ClientEvent::Finish(FinishOutcome::Failed(error)) => ClientEventModel::FinishFailed(
                *error,
            ),
            ClientEvent::Finish(
                FinishOutcome::Finished { message, session_identity },
            ) => ClientEventModel::Finished {
                message: message@,
                session_identity: identity_model(*session_identity),
            },
        }
    }
}

impl View for ClientAction {
    type V = ClientActionModel;

    open spec fn view(&self) -> ClientActionModel {
        match self {
            ClientAction::FindCredential(identity) => ClientActionModel::FindCredential(identity@),
            ClientAction::Send(envelope) => ClientActionModel::Send(envelope@),
            ClientAction::Finish(message) => ClientActionModel::Finish(message@),
            ClientAction::Accept(host) => ClientActionModel::Accept(host@),
        }
    }
}

pub open spec fn envelope_of(body: BodyModel) -> EnvelopeModel {
    EnvelopeModel { body: Some(body) }
}

/// The session a viewer has come to, where the host accepted, OPAQUE agreed, and
/// the host is still the one it said it was.
pub open spec fn client_verdict(
    host: DiscoveredHostModel,
    session_identity: Option<Seq<u8>>,
    result: AuthenticationResultModel,
) -> Option<AuthenticatedHostModel> {
    match session_identity {
        Some(identity) if result.accepted && result.host_identity == host.host_identity => Some(
            AuthenticatedHostModel {
                session_identity: identity,
                host_identity: host.host_identity,
                display_name: host.display_name,
                operating_system: host.operating_system,
            },
        ),
        _ => None,
    }
}

/// What a viewer does on an event. An event that is not awaited ends the
/// handshake.
pub open spec fn client_step(state: ClientHandshakeModel, event: ClientEventModel) -> Result<
    (ClientHandshakeModel, ClientActionModel),
    QuicAuthenticationError,
> {
    match (state, event) {
        (
            ClientHandshakeModel::AwaitingOffer,
            ClientEventModel::Received(
                EnvelopeModel { body: Some(BodyModel::HostIdentityOffer(offer)) },
            ),
        ) => match quic::host_of(offer) {
            Ok(host) => Ok(
                (
                    ClientHandshakeModel::AwaitingCredential(host),
                    ClientActionModel::FindCredential(host.host_identity),
                ),
            ),
            Err(error) => Err(error),
        },
        (ClientHandshakeModel::AwaitingCredential(_), ClientEventModel::Unavailable) => Err(
            QuicAuthenticationError::CredentialUnavailable,
        ),
        (
            ClientHandshakeModel::AwaitingCredential(_),
            ClientEventModel::CredentialFailed(error),
        ) => Err(opaque_fault(error)),
        (
            ClientHandshakeModel::AwaitingCredential(host),
            ClientEventModel::Started { credential_identifier, message },
        ) => Ok(
            (
                ClientHandshakeModel::AwaitingResponse(host),
                ClientActionModel::Send(
                    envelope_of(
                        BodyModel::OpaqueCredentialRequest(
                            OpaqueCredentialRequestModel { credential_identifier, message },
                        ),
                    ),
                ),
            ),
        ),
        (
            ClientHandshakeModel::AwaitingResponse(host),
            ClientEventModel::Received(
                EnvelopeModel { body: Some(BodyModel::OpaqueCredentialResponse(response)) },
            ),
        ) => Ok(
            (
                ClientHandshakeModel::AwaitingFinish(host),
                ClientActionModel::Finish(response.message),
            ),
        ),
        (ClientHandshakeModel::AwaitingFinish(_), ClientEventModel::FinishFailed(error)) => Err(
            opaque_fault(error),
        ),
        (
            ClientHandshakeModel::AwaitingFinish(host),
            ClientEventModel::Finished { message, session_identity },
        ) => Ok(
            (
                ClientHandshakeModel::AwaitingResult(host, session_identity),
                ClientActionModel::Send(
                    envelope_of(
                        BodyModel::OpaqueCredentialFinalization(
                            OpaqueCredentialFinalizationModel { message },
                        ),
                    ),
                ),
            ),
        ),
        (
            ClientHandshakeModel::AwaitingResult(host, identity),
            ClientEventModel::Received(
                EnvelopeModel { body: Some(BodyModel::AuthenticationResult(result)) },
            ),
        ) => match client_verdict(host, identity, result) {
            Some(session) => Ok(
                (ClientHandshakeModel::Done, ClientActionModel::Accept(session)),
            ),
            None => Err(QuicAuthenticationError::AuthenticationFailed),
        },
        _ => Err(QuicAuthenticationError::InvalidAuthenticationSequence),
    }
}

/// The message with which a viewer opens, and asks a host who it is.
pub fn host_identity_request() -> (envelope: Envelope)
    ensures
        envelope@ == envelope_of(BodyModel::HostIdentityRequest(HostIdentityRequest {  })),
{
    Envelope { body: Some(Body::HostIdentityRequest(HostIdentityRequest {  })) }
}

/// The host that answered the opening message.
pub fn read_host_offer(envelope: Envelope) -> (result: Result<
    DiscoveredHost,
    QuicAuthenticationError,
>)
    ensures
        match envelope@.body {
            Some(BodyModel::HostIdentityOffer(offer)) => match result {
                Ok(host) => quic::host_of(offer) == Ok::<_, QuicAuthenticationError>(host@),
                Err(error) => quic::host_of(offer) == Err::<DiscoveredHostModel, _>(error),
            },
            _ => result == Err::<DiscoveredHost, _>(
                QuicAuthenticationError::InvalidAuthenticationSequence,
            ),
        },
{
    match envelope.body {
        Some(Body::HostIdentityOffer(offer)) => parse_host_identity_offer(offer),
        _ => Err(QuicAuthenticationError::InvalidAuthenticationSequence),
    }
}

fn verdict(
    host: DiscoveredHost,
    session_identity: Option<SessionIdentity>,
    result: &AuthenticationResult,
) -> (verdict: Option<AuthenticatedHost>)
    ensures
        match verdict {
            Some(session) => client_verdict(host@, identity_model(session_identity), result@)
                == Some(session@),
            None => client_verdict(host@, identity_model(session_identity), result@) is None,
        },
{
    proof {
        host.host_identity.lemma_size();
    }
    match (session_identity, HostIdentity::from_bytes(result.host_identity.as_slice())) {
        (Some(session_identity), Ok(confirmed)) => {
            if result.accepted && confirmed.same_as(&host.host_identity) {
                let session = AuthenticatedHost {
                    session_identity,
                    host_identity: confirmed,
                    display_name: host.display_name,
                    operating_system: host.operating_system,
                };
                Some(session)
            } else {
                None
            }
        },
        _ => None,
    }
}

impl ClientHandshake {
    /// What a viewer does on an event.
    pub fn step(self, event: ClientEvent) -> (result: Result<
        (ClientHandshake, ClientAction),
        QuicAuthenticationError,
    >)
        ensures
            match result {
                Ok((next, action)) => client_step(self@, event@) == Ok::<
                    _,
                    QuicAuthenticationError,
                >((next@, action@)),
                Err(error) => client_step(self@, event@) == Err::<
                    (ClientHandshakeModel, ClientActionModel),
                    _,
                >(error),
            },
    {
        match (self, event) {
            (
                ClientHandshake::AwaitingOffer,
                ClientEvent::Received(Envelope { body: Some(Body::HostIdentityOffer(offer)) }),
            ) => match parse_host_identity_offer(offer) {
                Ok(host) => {
                    let identity = host.host_identity;
                    Ok(
                        (
                            ClientHandshake::AwaitingCredential(host),
                            ClientAction::FindCredential(identity),
                        ),
                    )
                },
                Err(error) => Err(error),
            },
            (ClientHandshake::AwaitingCredential(host), ClientEvent::Credential(outcome)) => {
                match outcome {
                    CredentialOutcome::Unavailable => Err(
                        QuicAuthenticationError::CredentialUnavailable,
                    ),
                    CredentialOutcome::Failed(error) => Err(
                        QuicAuthenticationError::Protocol(ProtocolFault::Authentication(error)),
                    ),
                    CredentialOutcome::Started { credential_identifier, message } => Ok(
                        (
                            ClientHandshake::AwaitingResponse(host),
                            ClientAction::Send(
                                Envelope {
                                    body: Some(
                                        Body::OpaqueCredentialRequest(
                                            OpaqueCredentialRequest {
                                                credential_identifier,
                                                message,
                                            },
                                        ),
                                    ),
                                },
                            ),
                        ),
                    ),
                }
            },
            (
                ClientHandshake::AwaitingResponse(host),
                ClientEvent::Received(
                    Envelope { body: Some(Body::OpaqueCredentialResponse(response)) },
                ),
            ) => Ok(
                (ClientHandshake::AwaitingFinish(host), ClientAction::Finish(response.message)),
            ),
            (ClientHandshake::AwaitingFinish(host), ClientEvent::Finish(outcome)) => {
                match outcome {
                    FinishOutcome::Failed(error) => Err(
                        QuicAuthenticationError::Protocol(ProtocolFault::Authentication(error)),
                    ),
                    FinishOutcome::Finished { message, session_identity } => Ok(
                        (
                            ClientHandshake::AwaitingResult(host, session_identity),
                            ClientAction::Send(
                                Envelope {
                                    body: Some(
                                        Body::OpaqueCredentialFinalization(
                                            OpaqueCredentialFinalization { message },
                                        ),
                                    ),
                                },
                            ),
                        ),
                    ),
                }
            },
            (
                ClientHandshake::AwaitingResult(host, identity),
                ClientEvent::Received(Envelope { body: Some(Body::AuthenticationResult(result)) }),
            ) => {
                match verdict(host, identity, &result) {
                    Some(session) => Ok((ClientHandshake::Done, ClientAction::Accept(session))),
                    None => Err(QuicAuthenticationError::AuthenticationFailed),
                }
            },
            _ => Err(QuicAuthenticationError::InvalidAuthenticationSequence),
        }
    }
}

/// Where a host is.
#[derive(Clone, Copy, Debug, PartialEq, Eq, Structural)]
pub enum ServerHandshake {
    AwaitingIdentityRequest,
    AwaitingCredentialRequest,
    AwaitingStart,
    AwaitingFinalization,
    AwaitingVerdict,
    Done,
}

pub enum ServerEvent {
    Received(Envelope),
    /// What OPAQUE answers the request.
    Started(Result<Vec<u8>, AuthenticationError>),
    /// The session, where OPAQUE accepted the viewer's last message.
    Verdict(Option<SessionIdentity>),
}

/// What a host does next.
pub enum ServerAction {
    /// Send the message, then wait for an answer.
    Send(Envelope),
    /// Start OPAQUE with the request.
    Start { credential_identifier: Vec<u8>, message: Vec<u8> },
    /// Finish OPAQUE with the viewer's last message.
    Finish(Vec<u8>),
    /// Send the message, and keep the session if there is one. The verdict was
    /// settled with the rate limiter when OPAQUE finished.
    Conclude { envelope: Envelope, session: Option<AuthenticatedHost> },
}

/// The contents of a [`ServerEvent`].
#[verifier::ext_equal]
pub enum ServerEventModel {
    Received(EnvelopeModel),
    Started(Seq<u8>),
    StartFailed(AuthenticationError),
    Verdict(Option<Seq<u8>>),
}

/// The contents of a [`ServerAction`].
#[verifier::ext_equal]
pub enum ServerActionModel {
    Send(EnvelopeModel),
    Start { credential_identifier: Seq<u8>, message: Seq<u8> },
    Finish(Seq<u8>),
    Conclude { envelope: EnvelopeModel, session: Option<AuthenticatedHostModel> },
}

impl View for ServerEvent {
    type V = ServerEventModel;

    open spec fn view(&self) -> ServerEventModel {
        match self {
            ServerEvent::Received(envelope) => ServerEventModel::Received(envelope@),
            ServerEvent::Started(Ok(message)) => ServerEventModel::Started(message@),
            ServerEvent::Started(Err(error)) => ServerEventModel::StartFailed(*error),
            ServerEvent::Verdict(identity) => ServerEventModel::Verdict(identity_model(*identity)),
        }
    }
}

pub open spec fn session_model(session: Option<AuthenticatedHost>) -> Option<
    AuthenticatedHostModel,
> {
    match session {
        Some(session) => Some(session@),
        None => None,
    }
}

impl View for ServerAction {
    type V = ServerActionModel;

    open spec fn view(&self) -> ServerActionModel {
        match self {
            ServerAction::Send(envelope) => ServerActionModel::Send(envelope@),
            ServerAction::Start { credential_identifier, message } => ServerActionModel::Start {
                credential_identifier: credential_identifier@,
                message: message@,
            },
            ServerAction::Finish(message) => ServerActionModel::Finish(message@),
            ServerAction::Conclude { envelope, session } => ServerActionModel::Conclude {
                envelope: envelope@,
                session: session_model(*session),
            },
        }
    }
}

/// What a host tells a viewer in the end: its identity only where it accepts.
pub open spec fn server_answer(accepted: bool, host_identity: Seq<u8>) -> EnvelopeModel {
    envelope_of(
        BodyModel::AuthenticationResult(
            AuthenticationResultModel {
                accepted,
                host_identity: if accepted {
                    host_identity
                } else {
                    Seq::empty()
                },
            },
        ),
    )
}

/// What a host with this identity and metadata does on an event. An event that
/// is not awaited ends the handshake.
pub open spec fn server_step(
    state: ServerHandshake,
    event: ServerEventModel,
    host_identity: Seq<u8>,
    display_name: Seq<char>,
    operating_system: HostOperatingSystem,
) -> Result<(ServerHandshake, ServerActionModel), QuicAuthenticationError> {
    match (state, event) {
        (
            ServerHandshake::AwaitingIdentityRequest,
            ServerEventModel::Received(
                EnvelopeModel { body: Some(BodyModel::HostIdentityRequest(_)) },
            ),
        ) => Ok(
            (
                ServerHandshake::AwaitingCredentialRequest,
                ServerActionModel::Send(
                    envelope_of(
                        BodyModel::HostIdentityOffer(
                            HostIdentityOfferModel {
                                host_identity,
                                display_name,
                                operating_system: operating_system.spec_number(),
                            },
                        ),
                    ),
                ),
            ),
        ),
        (
            ServerHandshake::AwaitingCredentialRequest,
            ServerEventModel::Received(
                EnvelopeModel { body: Some(BodyModel::OpaqueCredentialRequest(request)) },
            ),
        ) => if authentication::is_credential_identifier(request.credential_identifier) {
            Ok(
                (
                    ServerHandshake::AwaitingStart,
                    ServerActionModel::Start {
                        credential_identifier: request.credential_identifier,
                        message: request.message,
                    },
                ),
            )
        } else {
            Err(QuicAuthenticationError::InvalidAuthenticationSequence)
        },
        (ServerHandshake::AwaitingStart, ServerEventModel::StartFailed(error)) => Err(
            opaque_fault(error),
        ),
        (ServerHandshake::AwaitingStart, ServerEventModel::Started(message)) => Ok(
            (
                ServerHandshake::AwaitingFinalization,
                ServerActionModel::Send(
                    envelope_of(
                        BodyModel::OpaqueCredentialResponse(
                            OpaqueCredentialResponseModel { message },
                        ),
                    ),
                ),
            ),
        ),
        (
            ServerHandshake::AwaitingFinalization,
            ServerEventModel::Received(
                EnvelopeModel { body: Some(BodyModel::OpaqueCredentialFinalization(finalization)) },
            ),
        ) => Ok(
            (
                ServerHandshake::AwaitingVerdict,
                ServerActionModel::Finish(finalization.message),
            ),
        ),
        (ServerHandshake::AwaitingVerdict, ServerEventModel::Verdict(identity)) => Ok(
            (
                ServerHandshake::Done,
                ServerActionModel::Conclude {
                    envelope: server_answer(identity is Some, host_identity),
                    session: server_session(
                        identity,
                        host_identity,
                        display_name,
                        operating_system,
                    ),
                },
            ),
        ),
        _ => Err(QuicAuthenticationError::InvalidAuthenticationSequence),
    }
}

/// The session that a host keeps of a verdict.
pub open spec fn server_session(
    identity: Option<Seq<u8>>,
    host_identity: Seq<u8>,
    display_name: Seq<char>,
    operating_system: HostOperatingSystem,
) -> Option<AuthenticatedHostModel> {
    match identity {
        Some(session_identity) => Some(
            AuthenticatedHostModel {
                session_identity,
                host_identity,
                display_name: Some(display_name),
                operating_system,
            },
        ),
        None => None,
    }
}

/// What a host tells a viewer in the end, and the session that it keeps.
pub fn conclude(
    identity: Option<SessionIdentity>,
    host_identity: HostIdentity,
    metadata: &HostMetadata,
) -> (conclusion: (Envelope, Option<AuthenticatedHost>))
    ensures
        conclusion.0@ == server_answer(identity is Some, host_identity@),
        session_model(conclusion.1) == server_session(
            identity_model(identity),
            host_identity@,
            metadata.display_name@,
            metadata.operating_system,
        ),
{
    let revealed: Vec<u8> = match identity {
        Some(_) => owned(host_identity.as_bytes().as_slice()),
        None => Vec::new(),
    };
    let accepted = identity.is_some();
    proof {
        if identity is None {
            assert(revealed@ =~= Seq::<u8>::empty());
        }
    }
    let envelope = Envelope {
        body: Some(
            Body::AuthenticationResult(AuthenticationResult { accepted, host_identity: revealed }),
        ),
    };
    let session = match identity {
        Some(session_identity) => Some(
            AuthenticatedHost {
                session_identity,
                host_identity,
                display_name: Some(metadata.display_name.clone()),
                operating_system: metadata.operating_system,
            },
        ),
        None => None,
    };
    (envelope, session)
}

impl ServerHandshake {
    /// What a host does on an event.
    pub fn step(
        self,
        event: ServerEvent,
        host_identity: HostIdentity,
        metadata: &HostMetadata,
    ) -> (result: Result<(ServerHandshake, ServerAction), QuicAuthenticationError>)
        ensures
            match result {
                Ok((next, action)) => server_step(
                    self,
                    event@,
                    host_identity@,
                    metadata.display_name@,
                    metadata.operating_system,
                ) == Ok::<_, QuicAuthenticationError>((next, action@)),
                Err(error) => server_step(
                    self,
                    event@,
                    host_identity@,
                    metadata.display_name@,
                    metadata.operating_system,
                ) == Err::<(ServerHandshake, ServerActionModel), _>(error),
            },
    {
        match (self, event) {
            (
                ServerHandshake::AwaitingIdentityRequest,
                ServerEvent::Received(Envelope { body: Some(Body::HostIdentityRequest(_)) }),
            ) => Ok(
                (
                    ServerHandshake::AwaitingCredentialRequest,
                    ServerAction::Send(
                        Envelope {
                            body: Some(
                                Body::HostIdentityOffer(
                                    HostIdentityOffer {
                                        host_identity: owned(host_identity.as_bytes().as_slice()),
                                        display_name: metadata.display_name.clone(),
                                        operating_system: metadata.operating_system.number(),
                                    },
                                ),
                            ),
                        },
                    ),
                ),
            ),
            (
                ServerHandshake::AwaitingCredentialRequest,
                ServerEvent::Received(
                    Envelope { body: Some(Body::OpaqueCredentialRequest(request)) },
                ),
            ) => match validate_credential_identifier(request.credential_identifier.as_slice()) {
                Ok(()) => Ok(
                    (
                        ServerHandshake::AwaitingStart,
                        ServerAction::Start {
                            credential_identifier: request.credential_identifier,
                            message: request.message,
                        },
                    ),
                ),
                Err(_) => Err(QuicAuthenticationError::InvalidAuthenticationSequence),
            },
            (ServerHandshake::AwaitingStart, ServerEvent::Started(outcome)) => match outcome {
                Err(error) => Err(
                    QuicAuthenticationError::Protocol(ProtocolFault::Authentication(error)),
                ),
                Ok(message) => Ok(
                    (
                        ServerHandshake::AwaitingFinalization,
                        ServerAction::Send(
                            Envelope {
                                body: Some(
                                    Body::OpaqueCredentialResponse(
                                        OpaqueCredentialResponse { message },
                                    ),
                                ),
                            },
                        ),
                    ),
                ),
            },
            (
                ServerHandshake::AwaitingFinalization,
                ServerEvent::Received(
                    Envelope { body: Some(Body::OpaqueCredentialFinalization(finalization)) },
                ),
            ) => Ok(
                (
                    ServerHandshake::AwaitingVerdict,
                    ServerAction::Finish(finalization.message),
                ),
            ),
            (ServerHandshake::AwaitingVerdict, ServerEvent::Verdict(identity)) => {
                let (envelope, session) = conclude(identity, host_identity, metadata);
                Ok((ServerHandshake::Done, ServerAction::Conclude { envelope, session }))
            },
            _ => Err(QuicAuthenticationError::InvalidAuthenticationSequence),
        }
    }
}

/// A viewer accepts a session only where the host said so, OPAQUE agreed, and
/// the host confirmed the identity that it had offered.
pub proof fn law_acceptance_needs_the_offered_identity(
    state: ClientHandshakeModel,
    event: ClientEventModel,
    session: AuthenticatedHostModel,
)
    requires
        client_step(state, event) matches Ok((_, ClientActionModel::Accept(accepted))) && accepted
            == session,
    ensures
        exists|host: DiscoveredHostModel, result: AuthenticationResultModel|
            {
                &&& state == ClientHandshakeModel::AwaitingResult(
                    host,
                    Some(session.session_identity),
                )
                &&& event == ClientEventModel::Received(
                    #[trigger] envelope_of(BodyModel::AuthenticationResult(result)),
                )
                &&& result.accepted
                &&& result.host_identity == #[trigger] host.host_identity
                &&& session.host_identity == host.host_identity
            },
{
    if let ClientHandshakeModel::AwaitingResult(host, _) = state {
        if let ClientEventModel::Received(
            EnvelopeModel { body: Some(BodyModel::AuthenticationResult(result)) },
        ) = event {
            assert(event == ClientEventModel::Received(
                envelope_of(BodyModel::AuthenticationResult(result)),
            ));
            assert(result.host_identity == host.host_identity);
        }
    }
}

/// A refused viewer is told so, and nothing of the host's identity with it.
pub proof fn law_refusal_reveals_nothing(
    host_identity: Seq<u8>,
    display_name: Seq<char>,
    operating_system: HostOperatingSystem,
)
    ensures
        server_step(
            ServerHandshake::AwaitingVerdict,
            ServerEventModel::Verdict(None),
            host_identity,
            display_name,
            operating_system,
        ) == Ok::<_, QuicAuthenticationError>(
            (
                ServerHandshake::Done,
                ServerActionModel::Conclude {
                    envelope: envelope_of(
                        BodyModel::AuthenticationResult(
                            AuthenticationResultModel {
                                accepted: false,
                                host_identity: Seq::empty(),
                            },
                        ),
                    ),
                    session: None,
                },
            ),
        ),
{
}

/// A viewer that is answered by a host with valid metadata finds that host in
/// the offer.
pub proof fn law_offers_are_understood(
    host_identity: Seq<u8>,
    display_name: Seq<char>,
    operating_system: HostOperatingSystem,
)
    requires
        host_identity.len() == authentication::HOST_IDENTITY_SIZE,
        quic::is_display_name(display_name),
    ensures
        quic::host_of(
            HostIdentityOfferModel {
                host_identity,
                display_name,
                operating_system: operating_system.spec_number(),
            },
        ) == Ok::<_, QuicAuthenticationError>(
            DiscoveredHostModel {
                host_identity,
                display_name: Some(display_name),
                operating_system,
            },
        ),
{
}

/// What the client does with each message of the host, and with nothing else:
/// it looks for the credential of the identity that was offered, sends its
/// request and its finalization as they are, and takes the host that it was
/// offered where the result is positive and of the same identity.
pub proof fn law_client_steps(state: ClientHandshakeModel, event: ClientEventModel)
    ensures
        client_step(state, event) matches Ok((next, action)) ==> match action {
            ClientActionModel::FindCredential(identity) => {
                &&& state is AwaitingOffer
                &&& event matches ClientEventModel::Received(envelope)
                &&& envelope.body matches Some(BodyModel::HostIdentityOffer(offer))
                &&& identity == offer.host_identity
                &&& next matches ClientHandshakeModel::AwaitingCredential(host)
                &&& quic::host_of(offer) == Ok::<_, QuicAuthenticationError>(host)
            },
            ClientActionModel::Send(envelope) => {
                ||| {
                    &&& state matches ClientHandshakeModel::AwaitingCredential(host)
                    &&& event matches ClientEventModel::Started { credential_identifier, message }
                    &&& envelope.body matches Some(BodyModel::OpaqueCredentialRequest(request))
                    &&& request.credential_identifier == credential_identifier
                    &&& request.message == message
                    &&& next == ClientHandshakeModel::AwaitingResponse(host)
                }
                ||| {
                    &&& state matches ClientHandshakeModel::AwaitingFinish(host)
                    &&& event matches ClientEventModel::Finished { message, session_identity }
                    &&& envelope.body matches Some(
                        BodyModel::OpaqueCredentialFinalization(finalization),
                    )
                    &&& finalization.message == message
                    &&& next == ClientHandshakeModel::AwaitingResult(host, session_identity)
                }
            },
            ClientActionModel::Finish(message) => {
                &&& state matches ClientHandshakeModel::AwaitingResponse(host)
                &&& event matches ClientEventModel::Received(envelope)
                &&& envelope.body matches Some(BodyModel::OpaqueCredentialResponse(response))
                &&& message == response.message
                &&& next == ClientHandshakeModel::AwaitingFinish(host)
            },
            ClientActionModel::Accept(session) => {
                &&& state matches ClientHandshakeModel::AwaitingResult(host, Some(identity))
                &&& event matches ClientEventModel::Received(envelope)
                &&& envelope.body matches Some(BodyModel::AuthenticationResult(result))
                &&& result.accepted
                &&& result.host_identity == host.host_identity
                &&& session.session_identity == identity
                &&& session.host_identity == host.host_identity
                &&& session.display_name == host.display_name
                &&& session.operating_system == host.operating_system
                &&& next is Done
            },
        },
{
}

/// When the client goes on: in each state with the one event that it waits
/// for. The result ends it either way.
pub proof fn law_client_goes_on(state: ClientHandshakeModel, event: ClientEventModel)
    ensures
        ({
            let result = client_step(state, event);
            &&& state is AwaitingCredential && event is Started ==> result is Ok
            &&& state is AwaitingCredential && event is Unavailable ==> (result matches Err(error)
                && error == QuicAuthenticationError::CredentialUnavailable)
            &&& state is AwaitingFinish && event is Finished ==> result is Ok
            &&& state is AwaitingResponse && (event matches ClientEventModel::Received(envelope)
                && envelope.body matches Some(body) && body is OpaqueCredentialResponse)
                ==> result is Ok
            &&& state matches ClientHandshakeModel::AwaitingResult(host, identity) ==> (
            event matches ClientEventModel::Received(envelope) ==> (
            envelope.body matches Some(BodyModel::AuthenticationResult(answer)) ==> {
                let taken = answer.accepted && answer.host_identity == host.host_identity
                    && identity is Some;
                &&& taken <==> result is Ok
                &&& !taken <==> (result matches Err(error) && error
                    == QuicAuthenticationError::AuthenticationFailed)
            }))
            &&& state is Done ==> (result matches Err(error) && error
                == QuicAuthenticationError::InvalidAuthenticationSequence)
        }),
{
}

/// What the host does with each message of the client, and with nothing else:
/// it offers its own identity, name and system, hands the request and the
/// finalization on as they are, and sends the response that it was given.
pub proof fn law_server_steps(
    state: ServerHandshake,
    event: ServerEventModel,
    host_identity: Seq<u8>,
    display_name: Seq<char>,
    operating_system: HostOperatingSystem,
)
    ensures
        server_step(state, event, host_identity, display_name, operating_system) matches Ok(
            (next, action),
        ) ==> match action {
            ServerActionModel::Send(envelope) => {
                ||| {
                    &&& state is AwaitingIdentityRequest
                    &&& event matches ServerEventModel::Received(request)
                    &&& request.body matches Some(BodyModel::HostIdentityRequest(_))
                    &&& envelope.body matches Some(BodyModel::HostIdentityOffer(offer))
                    &&& offer.host_identity == host_identity
                    &&& offer.display_name == display_name
                    &&& offer.operating_system == if operating_system is Windows {
                        1i32
                    } else {
                        0i32
                    }
                    &&& next is AwaitingCredentialRequest
                }
                ||| {
                    &&& state is AwaitingStart
                    &&& event matches ServerEventModel::Started(message)
                    &&& envelope.body matches Some(BodyModel::OpaqueCredentialResponse(response))
                    &&& response.message == message
                    &&& next is AwaitingFinalization
                }
            },
            ServerActionModel::Start { credential_identifier, message } => {
                &&& state is AwaitingCredentialRequest
                &&& event matches ServerEventModel::Received(envelope)
                &&& envelope.body matches Some(BodyModel::OpaqueCredentialRequest(request))
                &&& credential_identifier == request.credential_identifier
                &&& message == request.message
                &&& 1 <= credential_identifier.len() <= 255
                &&& next is AwaitingStart
            },
            ServerActionModel::Finish(message) => {
                &&& state is AwaitingFinalization
                &&& event matches ServerEventModel::Received(envelope)
                &&& envelope.body matches Some(
                    BodyModel::OpaqueCredentialFinalization(finalization),
                )
                &&& message == finalization.message
                &&& next is AwaitingVerdict
            },
            ServerActionModel::Conclude { envelope, session } => {
                &&& state is AwaitingVerdict
                &&& event matches ServerEventModel::Verdict(identity)
                &&& next is Done
                &&& envelope.body matches Some(BodyModel::AuthenticationResult(answer))
                &&& answer.accepted <==> identity is Some
                &&& session is Some <==> identity is Some
                &&& answer.accepted ==> answer.host_identity == host_identity
                &&& !answer.accepted ==> answer.host_identity.len() == 0
                &&& session matches Some(host) ==> identity == Some(host.session_identity)
                    && host.host_identity == host_identity && host.display_name == Some(
                    display_name,
                ) && host.operating_system == operating_system
            },
        },
{
}

} // verus!
