//! A login from one message to the next, with the OPAQUE exchange in it.

use rustconsole::protocol::wire::envelope::Body;
use rustconsole::protocol::wire::{AuthenticationResult, Envelope, HostOperatingSystem};
use rustconsole::session::authentication::{OpaqueServerRecord, TLS_EXPORTER_SIZE};
use rustconsole::session::handshake::{host_identity_request, AuthenticatedHost};
use rustconsole::session::login::{
    HostConclusion, HostLogin, HostTurn, ViewerLogin, ViewerTurn,
};
use rustconsole::session::quic::{HostMetadata, QuicAuthenticationError};
use rustconsole::session::rate_limiter::{AuthenticationRateLimiter, PeerAddress};
use rustconsole::time::{Duration, Instant};

const BINDING: [u8; TLS_EXPORTER_SIZE] = [0x24; TLS_EXPORTER_SIZE];
const PEER: PeerAddress = PeerAddress::V4(0x7f00_0001);

fn metadata() -> HostMetadata {
    HostMetadata::new("Study".to_owned(), HostOperatingSystem::Windows).expect("a name")
}

/// Both ends in memory: how the host ends it, and the viewer's session.
fn login(
    record: &OpaqueServerRecord,
    limiter: &mut AuthenticationRateLimiter,
    password: &[u8],
    now: Instant,
) -> (HostConclusion, Option<AuthenticatedHost>) {
    let mut host = HostLogin::new(PEER, BINDING);
    let mut viewer = ViewerLogin::new(BINDING);
    let mut message = host_identity_request();
    loop {
        match host.receive(message, record, &metadata()).expect("an ordinary viewer") {
            HostTurn::Settle(verdict) => {
                let conclusion =
                    verdict.settle(limiter, now, record.host_identity(), &metadata());
                let answer = Envelope {
                    body: conclusion.envelope.body.clone(),
                };
                let Ok(ViewerTurn::Concluded(session)) = viewer.receive(answer) else {
                    panic!("the viewer goes on");
                };
                return (conclusion, session);
            }
            HostTurn::Answer(envelope, next) => {
                host = next;
                let mut turn = viewer.receive(envelope).expect("an ordinary host");
                if let ViewerTurn::FindCredential(identity, login) = turn {
                    assert_eq!(identity, record.host_identity());
                    turn = login
                        .use_credential(Some(password.to_vec()))
                        .expect("a password");
                }
                let ViewerTurn::Send(envelope, next) = turn else {
                    panic!("the viewer stops");
                };
                message = envelope;
                viewer = next;
            }
        }
    }
}

#[test]
fn the_right_password_logs_in_and_clears_the_failures() {
    let record = OpaqueServerRecord::enroll(b"open sesame".to_vec()).expect("a record");
    let mut limiter = AuthenticationRateLimiter::default();
    let now = Instant::from_nanos(1_000_000);
    limiter.record_failure(PEER, now);
    let (conclusion, session) = login(&record, &mut limiter, b"open sesame", now);
    assert_eq!(conclusion.delay, Duration::from_nanos(0));
    assert_eq!(limiter.tracked_addresses(), 0);
    let session = session.expect("a session");
    assert_eq!(session.display_name.as_deref(), Some("Study"));
    assert_eq!(conclusion.session, Some(session));
}

#[test]
fn a_refusal_is_recorded_before_it_is_answered() {
    let record = OpaqueServerRecord::enroll(b"open sesame".to_vec()).expect("a record");
    let mut limiter = AuthenticationRateLimiter::default();
    let now = Instant::from_nanos(1_000_000);
    for delay in [250, 500, 1_000] {
        let (conclusion, session) = login(&record, &mut limiter, b"open barley", now);
        assert_eq!(conclusion.delay, Duration::from_millis(delay));
        assert_eq!(
            limiter.remaining_delay(PEER, now),
            Duration::from_millis(delay)
        );
        assert_eq!(
            conclusion.envelope.body,
            Some(Body::AuthenticationResult(AuthenticationResult {
                accepted: false,
                host_identity: Vec::new(),
            }))
        );
        assert_eq!(conclusion.session, None);
        assert_eq!(session, None);
    }
}

#[test]
fn a_message_out_of_order_ends_a_login() {
    let record = OpaqueServerRecord::enroll(b"open sesame".to_vec()).expect("a record");
    let empty = || Envelope { body: None };
    assert!(matches!(
        HostLogin::new(PEER, BINDING).receive(empty(), &record, &metadata()),
        Err(QuicAuthenticationError::InvalidAuthenticationSequence)
    ));
    assert!(matches!(
        ViewerLogin::new(BINDING).receive(empty()),
        Err(QuicAuthenticationError::InvalidAuthenticationSequence)
    ));
    let Ok(HostTurn::Answer(offer, host)) =
        HostLogin::new(PEER, BINDING).receive(host_identity_request(), &record, &metadata())
    else {
        panic!("no offer");
    };
    assert!(matches!(
        host.receive(host_identity_request(), &record, &metadata()),
        Err(QuicAuthenticationError::InvalidAuthenticationSequence)
    ));
    let Ok(ViewerTurn::FindCredential(_, viewer)) = ViewerLogin::new(BINDING).receive(offer) else {
        panic!("no host");
    };
    assert!(matches!(
        viewer.use_credential(None),
        Err(QuicAuthenticationError::CredentialUnavailable)
    ));
}
