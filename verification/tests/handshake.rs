//! The login of a viewer at a host, message by message.

use rustconsole::protocol::wire::envelope::Body;
use rustconsole::protocol::wire::{
    AuthenticationResult, Envelope, HostIdentityOffer, HostOperatingSystem,
    OpaqueCredentialResponse,
};
use rustconsole::session::authentication::{
    default_credential_identifier, start_client_authentication, start_server_authentication,
    AuthenticationError, OpaqueServerRecord, TLS_EXPORTER_SIZE,
};
use rustconsole::session::handshake::{
    host_identity_request, read_host_offer, AuthenticatedHost, ClientAction, ClientEvent,
    ClientHandshake, CredentialOutcome, FinishOutcome, ServerAction, ServerEvent, ServerHandshake,
};
use rustconsole::session::quic::{HostMetadata, ProtocolFault, QuicAuthenticationError};

const BINDING: [u8; TLS_EXPORTER_SIZE] = [0x24; TLS_EXPORTER_SIZE];

fn metadata() -> HostMetadata {
    HostMetadata::new("Study".to_owned(), HostOperatingSystem::Windows).expect("a name")
}

/// Both ends in memory, with the given password on the viewer's side.
fn login(
    record: &OpaqueServerRecord,
    password: &[u8],
    viewer_binding: [u8; TLS_EXPORTER_SIZE],
) -> (
    Result<AuthenticatedHost, QuicAuthenticationError>,
    Option<AuthenticatedHost>,
) {
    let mut client = ClientHandshake::AwaitingOffer;
    let mut server = ServerHandshake::AwaitingIdentityRequest;
    let mut client_state = None;
    let mut server_state = None;
    let mut to_server = host_identity_request();
    loop {
        let mut event = ServerEvent::Received(to_server);
        let mut session = None;
        let mut over = false;
        let to_client = loop {
            let (next, action) = server
                .step(event, record.host_identity(), &metadata())
                .expect("an ordinary viewer");
            server = next;
            match action {
                ServerAction::Send(envelope) => break envelope,
                ServerAction::Start {
                    credential_identifier,
                    message,
                } => {
                    let start = start_server_authentication(
                        record,
                        &credential_identifier,
                        &message,
                        BINDING,
                    );
                    event = ServerEvent::Started(start.map(|start| {
                        server_state = Some(start.state);
                        start.message
                    }));
                }
                ServerAction::Finish(message) => {
                    let state = server_state.take().expect("a started login");
                    event = ServerEvent::Verdict(state.finish(&message).ok());
                }
                ServerAction::Conclude {
                    envelope,
                    session: concluded,
                } => {
                    session = concluded;
                    over = true;
                    break envelope;
                }
            }
        };
        let mut event = ClientEvent::Received(to_client);
        to_server = loop {
            let (next, action) = match client.step(event) {
                Ok(step) => step,
                Err(error) => return (Err(error), session),
            };
            client = next;
            match action {
                ClientAction::FindCredential(identity) => {
                    assert!(identity.same_as(&record.host_identity()));
                    let start = start_client_authentication(
                        password.to_vec(),
                        default_credential_identifier(),
                    )
                    .expect("a password");
                    client_state = Some(start.state);
                    event = ClientEvent::Credential(CredentialOutcome::Started {
                        credential_identifier: start.credential_identifier,
                        message: start.message,
                    });
                }
                ClientAction::Finish(message) => {
                    let state = client_state.take().expect("a started login");
                    event = ClientEvent::Finish(match state.finish(&message, viewer_binding) {
                        Ok(finish) => FinishOutcome::Finished {
                            message: finish.message,
                            session_identity: finish.session_identity,
                        },
                        Err(error) => FinishOutcome::Failed(error),
                    });
                }
                ClientAction::Send(envelope) => break envelope,
                ClientAction::Accept(host) => return (Ok(host), session),
            }
        };
        assert!(!over, "the viewer answers no verdict");
    }
}

#[test]
fn the_right_password_opens_one_session_at_both_ends() {
    let record = OpaqueServerRecord::enroll(b"open sesame".to_vec()).expect("a record");
    let (viewer, host) = login(&record, b"open sesame", BINDING);
    let viewer = viewer.expect("an accepted viewer");
    let host = host.expect("an accepted viewer");
    assert_eq!(viewer.session_identity, host.session_identity);
    assert!(viewer.host_identity.same_as(&record.host_identity()));
    assert_eq!(viewer.display_name.as_deref(), Some("Study"));
    assert_eq!(viewer.operating_system, HostOperatingSystem::Windows);
}

#[test]
fn a_wrong_password_or_connection_is_refused_at_both_ends() {
    let record = OpaqueServerRecord::enroll(b"open sesame".to_vec()).expect("a record");
    for (password, binding) in [
        (&b"open barley"[..], BINDING),
        (&b"open sesame"[..], [0x25; TLS_EXPORTER_SIZE]),
    ] {
        let (viewer, host) = login(&record, password, binding);
        assert_eq!(viewer, Err(QuicAuthenticationError::AuthenticationFailed));
        assert!(host.is_none());
    }
}

fn offer(host_identity: Vec<u8>, operating_system: i32) -> Envelope {
    Envelope {
        body: Some(Body::HostIdentityOffer(HostIdentityOffer {
            host_identity,
            display_name: String::new(),
            operating_system,
        })),
    }
}

#[test]
fn an_offer_is_read_or_refused() {
    let host = read_host_offer(offer(vec![7; 32], 0)).expect("a host");
    assert_eq!(host.host_identity.as_bytes(), &[7; 32]);
    assert_eq!(host.display_name, None);
    assert_eq!(host.operating_system, HostOperatingSystem::Unknown);
    assert!(matches!(
        read_host_offer(offer(vec![7; 31], 0)),
        Err(QuicAuthenticationError::Protocol(ProtocolFault::Authentication(
            AuthenticationError::InvalidHostIdentity
        )))
    ));
    assert!(matches!(
        read_host_offer(offer(vec![7; 32], 9)),
        Err(QuicAuthenticationError::Protocol(
            ProtocolFault::UnknownOperatingSystem(9)
        ))
    ));
    assert!(matches!(
        read_host_offer(host_identity_request()),
        Err(QuicAuthenticationError::InvalidAuthenticationSequence)
    ));
}

#[test]
fn a_viewer_takes_only_the_next_message() {
    let response = Envelope {
        body: Some(Body::OpaqueCredentialResponse(OpaqueCredentialResponse {
            message: Vec::new(),
        })),
    };
    assert!(matches!(
        ClientHandshake::AwaitingOffer.step(ClientEvent::Received(response)),
        Err(QuicAuthenticationError::InvalidAuthenticationSequence)
    ));
    let host = read_host_offer(offer(vec![7; 32], 1)).expect("a host");
    assert!(matches!(
        ClientHandshake::AwaitingCredential(host.clone())
            .step(ClientEvent::Credential(CredentialOutcome::Unavailable)),
        Err(QuicAuthenticationError::CredentialUnavailable)
    ));
    assert!(matches!(
        ClientHandshake::AwaitingCredential(host.clone()).step(ClientEvent::Credential(
            CredentialOutcome::Failed(AuthenticationError::EmptyPassword)
        )),
        Err(QuicAuthenticationError::Protocol(ProtocolFault::Authentication(
            AuthenticationError::EmptyPassword
        )))
    ));
    let accepted = |identity: u8| Envelope {
        body: Some(Body::AuthenticationResult(AuthenticationResult {
            accepted: true,
            host_identity: vec![identity; 32],
        })),
    };
    for identity in [7, 8] {
        assert!(matches!(
            ClientHandshake::AwaitingResult(host.clone(), None)
                .step(ClientEvent::Received(accepted(identity))),
            Err(QuicAuthenticationError::AuthenticationFailed)
        ));
    }
}

#[test]
fn a_host_takes_only_the_next_message() {
    let record = OpaqueServerRecord::enroll(b"open sesame".to_vec()).expect("a record");
    for state in [
        ServerHandshake::AwaitingCredentialRequest,
        ServerHandshake::AwaitingFinalization,
        ServerHandshake::Done,
    ] {
        assert!(matches!(
            state.step(
                ServerEvent::Received(host_identity_request()),
                record.host_identity(),
                &metadata()
            ),
            Err(QuicAuthenticationError::InvalidAuthenticationSequence)
        ));
    }
    let (_, action) = ServerHandshake::AwaitingVerdict
        .step(ServerEvent::Verdict(None), record.host_identity(), &metadata())
        .expect("a verdict");
    let ServerAction::Conclude { envelope, session } = action else {
        panic!("expected the end");
    };
    assert!(session.is_none());
    assert_eq!(
        envelope.body,
        Some(Body::AuthenticationResult(AuthenticationResult {
            accepted: false,
            host_identity: Vec::new(),
        }))
    );
}
