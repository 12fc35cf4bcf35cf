//! A login from one message to the next: the order of the messages, the OPAQUE
//! exchange that they carry and, for a host, the rate limiter that it settles with.

use crate::protocol::wire::envelope::BodyModel;
use crate::protocol::wire::frame::EnvelopeModel;
use crate::protocol::wire::session_messages::AuthenticationResultModel;
use crate::protocol::wire::{Envelope, HostOperatingSystem};
use crate::session::authentication;
use crate::session::authentication::{
    default_credential_identifier, start_client_authentication, start_server_authentication,
    AuthenticationError, ClientAuthentication, ClientAuthenticationFinish,
    ClientAuthenticationModel, ClientAuthenticationStart, HostIdentity, OpaqueServerRecord,
    RecordModel, ServerAuthentication, ServerAuthenticationModel, ServerAuthenticationStart,
    SessionIdentity, TLS_EXPORTER_SIZE,
};
use crate::session::handshake;
use crate::session::handshake::{
    conclude, AuthenticatedHost, AuthenticatedHostModel, ClientAction, ClientActionModel,
    ClientEvent, ClientEventModel, ClientHandshake, ClientHandshakeModel, CredentialOutcome,
    FinishOutcome, ServerAction, ServerActionModel, ServerEvent, ServerEventModel,
    ServerHandshake,
};
use crate::session::quic::{HostMetadata, QuicAuthenticationError};
use crate::session::rate_limiter;
use crate::session::rate_limiter::{AuthenticationRateLimiter, FailureState, PeerAddress};
use crate::time::{Duration, Instant};
use vstd::prelude::*;

verus! {

/// A viewer between two messages, on the connection that `binding` was exported
/// from.
pub struct ViewerLogin {
    state: ClientHandshake,
    started: Option<ClientAuthentication>,
    binding: [u8; TLS_EXPORTER_SIZE],
}

/// The contents of a [`ViewerLogin`].
#[verifier::ext_equal]
pub struct ViewerLoginModel {
    pub state: ClientHandshakeModel,
    pub started: Option<ClientAuthenticationModel>,
    pub binding: Seq<u8>,
}

pub open spec fn client_model(started: Option<ClientAuthentication>) -> Option<
    ClientAuthenticationModel,
> {
    match started {
        Some(started) => Some(started@),
        None => None,
    }
}

impl View for ViewerLogin {
    type V = ViewerLoginModel;

    closed spec fn view(&self) -> ViewerLoginModel {
        ViewerLoginModel {
            state: self.state@,
            started: client_model(self.started),
            binding: self.binding@,
        }
    }
}

/// What a viewer does after a message or a password.
pub enum ViewerTurn {
    /// Look for the password of this host, and go on with it.
    FindCredential(HostIdentity, ViewerLogin),
    /// Send the message, then wait for an answer.
    Send(Envelope, ViewerLogin),
    /// Nothing more is sent: the session, unless the viewer was refused.
    Concluded(Option<AuthenticatedHost>),
}

/// The contents of a [`ViewerTurn`].
#[verifier::ext_equal]
pub enum ViewerTurnModel {
    FindCredential(Seq<u8>, ViewerLoginModel),
    Send(EnvelopeModel, ViewerLoginModel),
    Concluded(Option<AuthenticatedHostModel>),
}

impl View for ViewerTurn {
    type V = ViewerTurnModel;

    open spec fn view(&self) -> ViewerTurnModel {
        match self {
            ViewerTurn::FindCredential(identity, login) => {
                ViewerTurnModel::FindCredential(identity@, login@)
            },
            ViewerTurn::Send(envelope, login) => ViewerTurnModel::Send(envelope@, login@),
            ViewerTurn::Concluded(session) => {
                ViewerTurnModel::Concluded(handshake::session_model(*session))
            },
        }
    }
}

pub open spec fn viewer_outcome(result: Result<ViewerTurn, QuicAuthenticationError>) -> Result<
    ViewerTurnModel,
    QuicAuthenticationError,
> {
    match result {
        Ok(turn) => Ok(turn@),
        Err(error) => Err(error),
    }
}

/// A step of the viewer that sends something, or the error it ends with.
pub open spec fn viewer_sends(
    step: Result<(ClientHandshakeModel, ClientActionModel), QuicAuthenticationError>,
    started: Option<ClientAuthenticationModel>,
    binding: Seq<u8>,
) -> Result<ViewerTurnModel, QuicAuthenticationError> {
    match step {
        Ok((state, ClientActionModel::Send(envelope))) => Ok(
            ViewerTurnModel::Send(envelope, ViewerLoginModel { state, started, binding }),
        ),
        Ok(_) => Err(QuicAuthenticationError::InvalidAuthenticationSequence),
        Err(error) => Err(error),
    }
}

/// How OPAQUE started, as an event.
pub open spec fn start_event(
    start: Result<ClientAuthenticationStart, AuthenticationError>,
) -> ClientEventModel {
    match start {
        Ok(start) => ClientEventModel::Started {
            credential_identifier: start.credential_identifier@,
            message: start.message@,
        },
        Err(error) => ClientEventModel::CredentialFailed(error),
    }
}

/// How OPAQUE finished, as an event.
pub open spec fn finish_event(
    finish: Result<ClientAuthenticationFinish, AuthenticationError>,
) -> ClientEventModel {
    match finish {
        Ok(finish) => ClientEventModel::Finished {
            message: finish.message@,
            session_identity: handshake::identity_model(finish.session_identity),
        },
        Err(error) => ClientEventModel::FinishFailed(error),
    }
}

/// What a viewer does where OPAQUE finishes with `finish`.
pub open spec fn is_finish_turn(
    login: ViewerLoginModel,
    state: ClientHandshakeModel,
    message: Seq<u8>,
    finish: Result<ClientAuthenticationFinish, AuthenticationError>,
    outcome: Result<ViewerTurnModel, QuicAuthenticationError>,
) -> bool {
    &&& authentication::is_client_finish(login.started->0, message, login.binding, finish)
    &&& outcome == viewer_sends(
        handshake::client_step(state, finish_event(finish)),
        None,
        login.binding,
    )
}

/// What a viewer may do on a response.
pub open spec fn may_finish(
    login: ViewerLoginModel,
    state: ClientHandshakeModel,
    message: Seq<u8>,
    outcome: Result<ViewerTurnModel, QuicAuthenticationError>,
) -> bool {
    exists|finish: Result<ClientAuthenticationFinish, AuthenticationError>| #[trigger]
        is_finish_turn(login, state, message, finish, outcome)
}

/// What a viewer does where OPAQUE starts with `start`.
pub open spec fn is_start_turn(
    login: ViewerLoginModel,
    password: Seq<u8>,
    start: Result<ClientAuthenticationStart, AuthenticationError>,
    outcome: Result<ViewerTurnModel, QuicAuthenticationError>,
) -> bool {
    &&& authentication::is_client_start(
        password,
        authentication::spec_default_credential_identifier(),
        start,
    )
    &&& outcome == viewer_sends(
        handshake::client_step(login.state, start_event(start)),
        match start {
            Ok(start) => Some(start.state@),
            Err(_) => None,
        },
        login.binding,
    )
}

/// What a viewer may do with a password.
pub open spec fn may_start(
    login: ViewerLoginModel,
    password: Seq<u8>,
    outcome: Result<ViewerTurnModel, QuicAuthenticationError>,
) -> bool {
    exists|start: Result<ClientAuthenticationStart, AuthenticationError>| #[trigger]
        is_start_turn(login, password, start, outcome)
}

/// What a viewer may do on a message: a host's response goes through OPAQUE, and
/// a refusal concludes the login without a session.
pub open spec fn is_viewer_turn(
    login: ViewerLoginModel,
    envelope: EnvelopeModel,
    outcome: Result<ViewerTurnModel, QuicAuthenticationError>,
) -> bool {
    match handshake::client_step(login.state, ClientEventModel::Received(envelope)) {
        Ok((state, ClientActionModel::FindCredential(identity))) => outcome == Ok::<
            _,
            QuicAuthenticationError,
        >(ViewerTurnModel::FindCredential(identity, ViewerLoginModel { state, ..login })),
        Ok((state, ClientActionModel::Finish(message))) => may_finish(
            login,
            state,
            message,
            outcome,
        ),
        Ok((_, ClientActionModel::Accept(session))) => outcome == Ok::<_, QuicAuthenticationError>(
            ViewerTurnModel::Concluded(Some(session)),
        ),
        Ok((_, ClientActionModel::Send(_))) => outcome == Err::<ViewerTurnModel, _>(
            QuicAuthenticationError::InvalidAuthenticationSequence,
        ),
        Err(QuicAuthenticationError::AuthenticationFailed) => outcome == Ok::<
            _,
            QuicAuthenticationError,
        >(ViewerTurnModel::Concluded(None)),
        Err(error) => outcome == Err::<ViewerTurnModel, _>(error),
    }
}

/// What a viewer may do with a password, or without one.
pub open spec fn is_credential_turn(
    login: ViewerLoginModel,
    password: Option<Seq<u8>>,
    outcome: Result<ViewerTurnModel, QuicAuthenticationError>,
) -> bool {
    match password {
        None => outcome == viewer_sends(
            handshake::client_step(login.state, ClientEventModel::Unavailable),
            None,
            login.binding,
        ),
        Some(password) => may_start(login, password, outcome),
    }
}

impl ViewerLogin {
    /// Whoever waits for a response has started OPAQUE.
    #[verifier::type_invariant]
    spec fn has_started(self) -> bool {
        self.state is AwaitingResponse ==> self.started is Some
    }

    /// A viewer that has asked the host who it is.
    pub fn new(binding: [u8; TLS_EXPORTER_SIZE]) -> (login: ViewerLogin)
        ensures
            login@ == (ViewerLoginModel {
                state: ClientHandshakeModel::AwaitingOffer,
                started: None,
                binding: binding@,
            }),
    {
        ViewerLogin { state: ClientHandshake::AwaitingOffer, started: None, binding }
    }

    fn sends(
        step: Result<(ClientHandshake, ClientAction), QuicAuthenticationError>,
        started: Option<ClientAuthentication>,
        binding: [u8; TLS_EXPORTER_SIZE],
    ) -> (result: Result<ViewerTurn, QuicAuthenticationError>)
        requires
            step matches Ok((state, _)) ==> (state is AwaitingResponse ==> started is Some),
        ensures
            viewer_outcome(result) == viewer_sends(
                match step {
                    Ok((state, action)) => Ok((state@, action@)),
                    Err(error) => Err(error),
                },
                client_model(started),
                binding@,
            ),
    {
        match step {
            Ok((state, ClientAction::Send(envelope))) => Ok(
                ViewerTurn::Send(envelope, ViewerLogin { state, started, binding }),
            ),
            Ok(_) => Err(QuicAuthenticationError::InvalidAuthenticationSequence),
            Err(error) => Err(error),
        }
    }

    /// What a viewer does on a message of the host.
    pub fn receive(self, envelope: Envelope) -> (result: Result<
        ViewerTurn,
        QuicAuthenticationError,
    >)
        ensures
            is_viewer_turn(self@, envelope@, viewer_outcome(result)),
    {
        proof {
            use_type_invariant(&self);
        }
        let ViewerLogin { state, started, binding } = self;
        match state.step(ClientEvent::Received(envelope)) {
            Ok((state, ClientAction::FindCredential(identity))) => Ok(
                ViewerTurn::FindCredential(identity, ViewerLogin { state, started, binding }),
            ),
            Ok((state, ClientAction::Finish(message))) => match started {
                Some(started) => {
                    let finish = started.finish(message.as_slice(), binding);
                    let ghost told = finish;
                    let event = ClientEvent::Finish(
                        match finish {
                            Ok(finish) => FinishOutcome::Finished {
                                message: finish.message,
                                session_identity: finish.session_identity,
                            },
                            Err(error) => FinishOutcome::Failed(error),
                        },
                    );
                    assert(event@ == finish_event(told));
                    let ghost next = state@;
                    let result = Self::sends(state.step(event), None, binding);
                    assert(is_finish_turn(self@, next, message@, told, viewer_outcome(result)));
                    result
                },
                None => Err(QuicAuthenticationError::InvalidAuthenticationSequence),
            },
            Ok((_, ClientAction::Accept(session))) => Ok(ViewerTurn::Concluded(Some(session))),
            Ok((_, ClientAction::Send(_))) => Err(
                QuicAuthenticationError::InvalidAuthenticationSequence,
            ),
            Err(QuicAuthenticationError::AuthenticationFailed) => Ok(ViewerTurn::Concluded(None)),
            Err(error) => Err(error),
        }
    }

    /// What a viewer does with the password of the host, if there is one.
    pub fn use_credential(self, password: Option<Vec<u8>>) -> (result: Result<
        ViewerTurn,
        QuicAuthenticationError,
    >)
        ensures
            is_credential_turn(
                self@,
                match password {
                    Some(password) => Some(password@),
                    None => None,
                },
                viewer_outcome(result),
            ),
    {
        let ViewerLogin { state, started: _, binding } = self;
        match password {
            None => {
                let event = ClientEvent::Credential(CredentialOutcome::Unavailable);
                Self::sends(state.step(event), None, binding)
            },
            Some(password) => {
                let start = start_client_authentication(
                    password,
                    default_credential_identifier(),
                );
                let ghost told = start;
                let (outcome, started) = match start {
                    Ok(start) => (
                        CredentialOutcome::Started {
                            credential_identifier: start.credential_identifier,
                            message: start.message,
                        },
                        Some(start.state),
                    ),
                    Err(error) => (CredentialOutcome::Failed(error), None),
                };
                let event = ClientEvent::Credential(outcome);
                assert(event@ == start_event(told));
                let result = Self::sends(state.step(event), started, binding);
                assert(is_start_turn(self@, password@, told, viewer_outcome(result)));
                result
            },
        }
    }
}

/// A host between two messages, with the peer at `peer` on the connection that
/// `binding` was exported from.
pub struct HostLogin {
    state: ServerHandshake,
    started: Option<ServerAuthentication>,
    peer: PeerAddress,
    binding: [u8; TLS_EXPORTER_SIZE],
}

/// The contents of a [`HostLogin`].
#[verifier::ext_equal]
pub struct HostLoginModel {
    pub state: ServerHandshake,
    pub started: Option<ServerAuthenticationModel>,
    pub peer: PeerAddress,
    pub binding: Seq<u8>,
}

pub open spec fn server_model(started: Option<ServerAuthentication>) -> Option<
    ServerAuthenticationModel,
> {
    match started {
        Some(started) => Some(started@),
        None => None,
    }
}

impl View for HostLogin {
    type V = HostLoginModel;

    closed spec fn view(&self) -> HostLoginModel {
        HostLoginModel {
            state: self.state,
            started: server_model(self.started),
            peer: self.peer,
            binding: self.binding@,
        }
    }
}

/// What OPAQUE says of a viewer, which nobody was told yet.
pub struct HostVerdict {
    identity: Option<SessionIdentity>,
    peer: PeerAddress,
}

/// The contents of a [`HostVerdict`].
#[verifier::ext_equal]
pub struct HostVerdictModel {
    pub identity: Option<Seq<u8>>,
    pub peer: PeerAddress,
}

impl View for HostVerdict {
    type V = HostVerdictModel;

    closed spec fn view(&self) -> HostVerdictModel {
        HostVerdictModel {
            identity: handshake::identity_model(self.identity),
            peer: self.peer,
        }
    }
}

/// What a host does after a message.
pub enum HostTurn {
    /// Send the message, then wait for an answer.
    Answer(Envelope, HostLogin),
    /// Settle the verdict with the rate limiter, which gives the last message.
    Settle(HostVerdict),
}

/// The contents of a [`HostTurn`].
#[verifier::ext_equal]
pub enum HostTurnModel {
    Answer(EnvelopeModel, HostLoginModel),
    Settle(HostVerdictModel),
}

impl View for HostTurn {
    type V = HostTurnModel;

    open spec fn view(&self) -> HostTurnModel {
        match self {
            HostTurn::Answer(envelope, login) => HostTurnModel::Answer(envelope@, login@),
            HostTurn::Settle(verdict) => HostTurnModel::Settle(verdict@),
        }
    }
}

pub open spec fn host_outcome(result: Result<HostTurn, QuicAuthenticationError>) -> Result<
    HostTurnModel,
    QuicAuthenticationError,
> {
    match result {
        Ok(turn) => Ok(turn@),
        Err(error) => Err(error),
    }
}

/// The end of a login: wait for `delay`, send the message, and keep the session if
/// there is one.
pub struct HostConclusion {
    pub delay: Duration,
    pub envelope: Envelope,
    pub session: Option<AuthenticatedHost>,
}

/// The contents of a [`HostConclusion`].
#[verifier::ext_equal]
pub struct HostConclusionModel {
    pub delay: Duration,
    pub envelope: EnvelopeModel,
    pub session: Option<AuthenticatedHostModel>,
}

impl View for HostConclusion {
    type V = HostConclusionModel;

    open spec fn view(&self) -> HostConclusionModel {
        HostConclusionModel {
            delay: self.delay,
            envelope: self.envelope@,
            session: handshake::session_model(self.session),
        }
    }
}

/// How OPAQUE answers a request, as an event.
pub open spec fn answer_event(
    start: Result<ServerAuthenticationStart, AuthenticationError>,
) -> ServerEventModel {
    match start {
        Ok(start) => ServerEventModel::Started(start.message@),
        Err(error) => ServerEventModel::StartFailed(error),
    }
}

/// A step of the host that sends something, or the error it ends with.
pub open spec fn host_sends(
    step: Result<(ServerHandshake, ServerActionModel), QuicAuthenticationError>,
    started: Option<ServerAuthenticationModel>,
    peer: PeerAddress,
    binding: Seq<u8>,
) -> Result<HostTurnModel, QuicAuthenticationError> {
    match step {
        Ok((state, ServerActionModel::Send(envelope))) => Ok(
            HostTurnModel::Answer(envelope, HostLoginModel { state, started, peer, binding }),
        ),
        Ok(_) => Err(QuicAuthenticationError::InvalidAuthenticationSequence),
        Err(error) => Err(error),
    }
}

/// What a host does where OPAQUE answers a request with `start`.
pub open spec fn is_answer_turn(
    login: HostLoginModel,
    record: RecordModel,
    credential_identifier: Seq<u8>,
    message: Seq<u8>,
    state: ServerHandshake,
    display_name: Seq<char>,
    operating_system: HostOperatingSystem,
    start: Result<ServerAuthenticationStart, AuthenticationError>,
    outcome: Result<HostTurnModel, QuicAuthenticationError>,
) -> bool {
    &&& authentication::is_server_start(
        record,
        credential_identifier,
        message,
        login.binding,
        start,
    )
    &&& outcome == host_sends(
        handshake::server_step(
            state,
            answer_event(start),
            record.host_identity,
            display_name,
            operating_system,
        ),
        match start {
            Ok(start) => Some(start.state@),
            Err(_) => None,
        },
        login.peer,
        login.binding,
    )
}

/// What a host may do on a request.
pub open spec fn may_answer(
    login: HostLoginModel,
    record: RecordModel,
    credential_identifier: Seq<u8>,
    message: Seq<u8>,
    state: ServerHandshake,
    display_name: Seq<char>,
    operating_system: HostOperatingSystem,
    outcome: Result<HostTurnModel, QuicAuthenticationError>,
) -> bool {
    exists|start: Result<ServerAuthenticationStart, AuthenticationError>| #[trigger]
        is_answer_turn(
            login,
            record,
            credential_identifier,
            message,
            state,
            display_name,
            operating_system,
            start,
            outcome,
        )
}

/// What a host does where OPAQUE comes to `session` of the last message.
pub open spec fn is_verdict_turn(
    login: HostLoginModel,
    message: Seq<u8>,
    session: Result<SessionIdentity, AuthenticationError>,
    outcome: Result<HostTurnModel, QuicAuthenticationError>,
) -> bool {
    &&& authentication::is_server_finish(login.started->0, message, session)
    &&& outcome == Ok::<_, QuicAuthenticationError>(
        HostTurnModel::Settle(
            HostVerdictModel {
                identity: match session {
                    Ok(identity) => Some(identity@),
                    Err(_) => None,
                },
                peer: login.peer,
            },
        ),
    )
}

/// What a host may do on the last message.
pub open spec fn may_judge(
    login: HostLoginModel,
    message: Seq<u8>,
    outcome: Result<HostTurnModel, QuicAuthenticationError>,
) -> bool {
    exists|session: Result<SessionIdentity, AuthenticationError>| #[trigger]
        is_verdict_turn(login, message, session, outcome)
}

/// What a host with this record and metadata may do on a message: a request goes
/// through OPAQUE, and so does the last message, whose verdict is settled next.
pub open spec fn is_host_turn(
    login: HostLoginModel,
    envelope: EnvelopeModel,
    record: RecordModel,
    display_name: Seq<char>,
    operating_system: HostOperatingSystem,
    outcome: Result<HostTurnModel, QuicAuthenticationError>,
) -> bool {
    let step = handshake::server_step(
        login.state,
        ServerEventModel::Received(envelope),
        record.host_identity,
        display_name,
        operating_system,
    );
    match step {
        Ok((state, ServerActionModel::Start { credential_identifier, message })) => may_answer(
            login,
            record,
            credential_identifier,
            message,
            state,
            display_name,
            operating_system,
            outcome,
        ),
        Ok((_, ServerActionModel::Finish(message))) => may_judge(login, message, outcome),
        _ => outcome == host_sends(step, login.started, login.peer, login.binding),
    }
}

/// The known addresses after a verdict, and how the login ends.
pub open spec fn settled(
    known: Seq<FailureState>,
    verdict: HostVerdictModel,
    now: Instant,
    host_identity: Seq<u8>,
    display_name: Seq<char>,
    operating_system: HostOperatingSystem,
) -> (Seq<FailureState>, HostConclusionModel) {
    let accepted = verdict.identity is Some;
    (
        if accepted {
            rate_limiter::after_success(known, verdict.peer)
        } else {
            rate_limiter::after_failure(known, verdict.peer, now)
        },
        HostConclusionModel {
            delay: if accepted {
                Duration { nanos: 0 }
            } else {
                rate_limiter::delay_after(
                    rate_limiter::failures_of(known, verdict.peer).saturating_add(1),
                )
            },
            envelope: handshake::server_answer(accepted, host_identity),
            session: handshake::server_session(
                verdict.identity,
                host_identity,
                display_name,
                operating_system,
            ),
        },
    )
}

impl HostVerdict {
    /// Notes the verdict with the rate limiter, and gives what is told of it.
    pub fn settle(
        self,
        limiter: &mut AuthenticationRateLimiter,
        now: Instant,
        host_identity: HostIdentity,
        metadata: &HostMetadata,
    ) -> (conclusion: HostConclusion)
        requires
            rate_limiter::well_formed(old(limiter)@),
        ensures
            rate_limiter::well_formed(final(limiter)@),
            (final(limiter)@, conclusion@) == settled(
                old(limiter)@,
                self@,
                now,
                host_identity@,
                metadata.display_name@,
                metadata.operating_system,
            ),
    {
        let delay = limiter.settle(self.peer, self.identity.is_some(), now);
        let (envelope, session) = conclude(self.identity, host_identity, metadata);
        HostConclusion { delay, envelope, session }
    }
}

impl HostLogin {
    /// Whoever waits for the last message has answered a request.
    #[verifier::type_invariant]
    spec fn has_started(self) -> bool {
        self.state == ServerHandshake::AwaitingFinalization ==> self.started is Some
            && self.started->0@.well_formed()
    }

    /// A host that waits to be asked who it is.
    pub fn new(peer: PeerAddress, binding: [u8; TLS_EXPORTER_SIZE]) -> (login: HostLogin)
        ensures
            login@ == (HostLoginModel {
                state: ServerHandshake::AwaitingIdentityRequest,
                started: None,
                peer,
                binding: binding@,
            }),
    {
        HostLogin {
            state: ServerHandshake::AwaitingIdentityRequest,
            started: None,
            peer,
            binding,
        }
    }

    fn sends(
        step: Result<(ServerHandshake, ServerAction), QuicAuthenticationError>,
        started: Option<ServerAuthentication>,
        peer: PeerAddress,
        binding: [u8; TLS_EXPORTER_SIZE],
    ) -> (result: Result<HostTurn, QuicAuthenticationError>)
        requires
            step matches Ok((state, _)) ==> (state == ServerHandshake::AwaitingFinalization
                ==> started is Some && started->0@.well_formed()),
        ensures
            host_outcome(result) == host_sends(
                match step {
                    Ok((state, action)) => Ok((state, action@)),
                    Err(error) => Err(error),
                },
                server_model(started),
                peer,
                binding@,
            ),
    {
        match step {
            Ok((state, ServerAction::Send(envelope))) => Ok(
                HostTurn::Answer(envelope, HostLogin { state, started, peer, binding }),
            ),
            Ok(_) => Err(QuicAuthenticationError::InvalidAuthenticationSequence),
            Err(error) => Err(error),
        }
    }

    /// What a host does on a message of the viewer.
    pub fn receive(
        self,
        envelope: Envelope,
        record: &OpaqueServerRecord,
        metadata: &HostMetadata,
    ) -> (result: Result<HostTurn, QuicAuthenticationError>)
        ensures
            is_host_turn(
                self@,
                envelope@,
                record@,
                metadata.display_name@,
                metadata.operating_system,
                host_outcome(result),
            ),
    {
        proof {
            use_type_invariant(&self);
        }
        let HostLogin { state, started, peer, binding } = self;
        let host_identity = record.host_identity();
        match state.step(ServerEvent::Received(envelope), host_identity, metadata) {
            Ok((state, ServerAction::Start { credential_identifier, message })) => {
                let start = start_server_authentication(
                    record,
                    credential_identifier.as_slice(),
                    message.as_slice(),
                    binding,
                );
                let ghost told = start;
                let (answer, started) = match start {
                    Ok(start) => (Ok(start.message), Some(start.state)),
                    Err(error) => (Err(error), None),
                };
                let event = ServerEvent::Started(answer);
                assert(event@ == answer_event(told));
                let result = Self::sends(
                    state.step(event, host_identity, metadata),
                    started,
                    peer,
                    binding,
                );
                assert(is_answer_turn(
                    self@,
                    record@,
                    credential_identifier@,
                    message@,
                    state,
                    metadata.display_name@,
                    metadata.operating_system,
                    told,
                    host_outcome(result),
                ));
                result
            },
            Ok((_, ServerAction::Finish(message))) => match started {
                Some(started) => {
                    let session = started.finish(message.as_slice());
                    let identity = match session {
                        Ok(identity) => Some(identity),
                        Err(_) => None,
                    };
                    let result = Ok(HostTurn::Settle(HostVerdict { identity, peer }));
                    assert(is_verdict_turn(self@, message@, session, host_outcome(result)));
                    result
                },
                None => Err(QuicAuthenticationError::InvalidAuthenticationSequence),
            },
            step => Self::sends(step, started, peer, binding),
        }
    }
}

/// Something that a host does in a login.
pub ghost enum HostStep {
    /// It takes a message.
    Receive {
        login: HostLoginModel,
        envelope: EnvelopeModel,
        outcome: Result<HostTurnModel, QuicAuthenticationError>,
    },
    /// It settles a verdict.
    Settle { verdict: HostVerdictModel, now: Instant },
}

/// A step that a host with this record and metadata may take.
pub open spec fn is_host_step(
    step: HostStep,
    record: RecordModel,
    display_name: Seq<char>,
    operating_system: HostOperatingSystem,
) -> bool {
    match step {
        HostStep::Receive { login, envelope, outcome } => is_host_turn(
            login,
            envelope,
            record,
            display_name,
            operating_system,
            outcome,
        ),
        HostStep::Settle { .. } => true,
    }
}

/// The known addresses after a step, and the message that it gives to be sent.
pub open spec fn after_host_step(
    known: Seq<FailureState>,
    step: HostStep,
    record: RecordModel,
    display_name: Seq<char>,
    operating_system: HostOperatingSystem,
) -> (Seq<FailureState>, Option<EnvelopeModel>) {
    match step {
        HostStep::Receive { outcome, .. } => (
            known,
            match outcome {
                Ok(HostTurnModel::Answer(envelope, _)) => Some(envelope),
                _ => None,
            },
        ),
        HostStep::Settle { verdict, now } => {
            let (after, conclusion) = settled(
                known,
                verdict,
                now,
                record.host_identity,
                display_name,
                operating_system,
            );
            (after, Some(conclusion.envelope))
        },
    }
}

/// A refusal is recorded before it is answered: no step of a host gives a refusal
/// to be sent but the one that counts it as a failure of the peer, and what is
/// sent then tells nothing of the host.
pub proof fn law_a_refusal_is_recorded_before_it_is_answered(
    known: Seq<FailureState>,
    step: HostStep,
    record: RecordModel,
    display_name: Seq<char>,
    operating_system: HostOperatingSystem,
    result: AuthenticationResultModel,
)
    requires
        rate_limiter::well_formed(known),
        is_host_step(step, record, display_name, operating_system),
        after_host_step(known, step, record, display_name, operating_system).1 == Some(
            handshake::envelope_of(BodyModel::AuthenticationResult(result)),
        ),
        !result.accepted,
    ensures
        step matches HostStep::Settle { verdict, now } && {
            let after = after_host_step(known, step, record, display_name, operating_system).0;
            &&& verdict.identity is None
            &&& after == rate_limiter::after_failure(known, verdict.peer, now)
            &&& rate_limiter::failures_of(after, verdict.peer) == rate_limiter::failures_of(
                known,
                verdict.peer,
            ).saturating_add(1)
        },
        result.host_identity == Seq::<u8>::empty(),
{
    match step {
        HostStep::Receive { login, envelope, outcome } => {
            assert(outcome is Ok);
        },
        HostStep::Settle { verdict, now } => {
            rate_limiter::law_a_failure_is_counted(known, verdict.peer, now);
        },
    }
}

/// A refused viewer waits for its answer, the longer the more often it failed.
pub proof fn law_a_refusal_is_delayed(
    known: Seq<FailureState>,
    verdict: HostVerdictModel,
    now: Instant,
    host_identity: Seq<u8>,
    display_name: Seq<char>,
    operating_system: HostOperatingSystem,
)
    requires
        verdict.identity is None,
    ensures
        ({
            let conclusion = settled(
                known,
                verdict,
                now,
                host_identity,
                display_name,
                operating_system,
            ).1;
            &&& conclusion.delay.nanos >= rate_limiter::INITIAL_FAILURE_DELAY_NANOS
            &&& conclusion.delay == rate_limiter::delay_after(
                rate_limiter::failures_of(known, verdict.peer).saturating_add(1),
            )
            &&& conclusion.session is None
        }),
{
}

/// How a login ends for the host: with a session its peer is forgotten and
/// answered at once with the host's identity, without one its peer has failed
/// once more and is answered late, negatively and with no identity.
pub proof fn law_verdicts_are_settled(
    known: Seq<FailureState>,
    verdict: HostVerdictModel,
    now: Instant,
    host_identity: Seq<u8>,
    display_name: Seq<char>,
    operating_system: HostOperatingSystem,
)
    requires
        rate_limiter::well_formed(known),
    ensures
        ({
            let (after, conclusion) = settled(
                known,
                verdict,
                now,
                host_identity,
                display_name,
                operating_system,
            );
            &&& conclusion.envelope.body matches Some(BodyModel::AuthenticationResult(answer))
            &&& answer.accepted <==> verdict.identity is Some
            &&& conclusion.delay.nanos == 0 <==> verdict.identity is Some
            &&& conclusion.session is Some <==> verdict.identity is Some
            &&& verdict.identity matches Some(identity) ==> {
                &&& answer.host_identity == host_identity
                &&& conclusion.session matches Some(session)
                &&& session.session_identity == identity
                &&& session.host_identity == host_identity
                &&& session.display_name == Some(display_name)
                &&& session.operating_system == operating_system
                &&& forall|state: FailureState| #[trigger]
                    after.contains(state) <==> known.contains(state) && state.address
                        != verdict.peer
            }
            &&& verdict.identity is None ==> {
                &&& answer.host_identity.len() == 0
                &&& 250_000_000 <= conclusion.delay.nanos <= 4_000_000_000
                &&& after == rate_limiter::after_failure(known, verdict.peer, now)
            }
        }),
{
    rate_limiter::law_a_success_forgets_its_address(known, verdict.peer);
}

/// A viewer is in a session only where it waited for the result with a session
/// of its own, and the host accepted it under the identity that it had offered.
/// A result that says otherwise ends the login without one.
pub proof fn law_viewers_conclude(
    login: ViewerLoginModel,
    envelope: EnvelopeModel,
    outcome: Result<ViewerTurnModel, QuicAuthenticationError>,
)
    requires
        is_viewer_turn(login, envelope, outcome),
    ensures
        login.state matches ClientHandshakeModel::AwaitingResult(host, identity) ==> (
        envelope.body matches Some(BodyModel::AuthenticationResult(result)) ==> {
            &&& outcome matches Ok(ViewerTurnModel::Concluded(session))
            &&& session is Some <==> result.accepted && result.host_identity == host.host_identity
                && identity is Some
            &&& session matches Some(session) ==> identity == Some(session.session_identity)
                && session.host_identity == host.host_identity && session.display_name
                == host.display_name && session.operating_system == host.operating_system
        }),
        login.state is AwaitingOffer ==> (envelope.body matches Some(
            BodyModel::HostIdentityOffer(offer),
        ) ==> (outcome matches Ok(turn) ==> (
        turn matches ViewerTurnModel::FindCredential(identity, next) && identity
            == offer.host_identity && next.binding == login.binding))),
{
}

/// A viewer that has no password for the host it is to log in to says so and
/// sends nothing.
pub proof fn law_no_password_no_login(
    login: ViewerLoginModel,
    outcome: Result<ViewerTurnModel, QuicAuthenticationError>,
)
    requires
        login.state is AwaitingCredential,
        is_credential_turn(login, None, outcome),
    ensures
        outcome == Err::<ViewerTurnModel, _>(QuicAuthenticationError::CredentialUnavailable),
{
}

} // verus!
