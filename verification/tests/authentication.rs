//! Enrollment and login with a password.

use rustconsole::session::authentication::{
    default_credential_identifier, start_client_authentication_with_rng,
    start_server_authentication_with_rng, AuthenticationError, OpaqueServerRecord,
    SessionIdentity, TLS_EXPORTER_SIZE,
};
use opaque_ke::rand::SeedableRng;
use rand_chacha::ChaCha20Rng;
use sha2::{Digest, Sha256};

fn record(password: &[u8]) -> OpaqueServerRecord {
    let mut rng = ChaCha20Rng::from_seed([7; 32]);
    OpaqueServerRecord::enroll_with_rng(None, password.to_vec(), &mut rng).unwrap()
}

fn login(
    record: &OpaqueServerRecord,
    password: &[u8],
    client_binding: [u8; TLS_EXPORTER_SIZE],
    server_binding: [u8; TLS_EXPORTER_SIZE],
    credential_identifier: &[u8],
) -> (
    Option<SessionIdentity>,
    Result<SessionIdentity, AuthenticationError>,
) {
    let mut client_rng = ChaCha20Rng::from_seed([11; 32]);
    let client = start_client_authentication_with_rng(
        password.to_vec(),
        credential_identifier.to_vec(),
        &mut client_rng,
    )
    .unwrap();
    let mut server_rng = ChaCha20Rng::from_seed([13; 32]);
    let server = start_server_authentication_with_rng(
        record,
        &client.credential_identifier,
        &client.message,
        server_binding,
        &mut server_rng,
    )
    .unwrap();
    let client = client
        .state
        .finish_with_rng(&server.message, client_binding, &mut client_rng)
        .unwrap();
    let server = server.state.finish(&client.message);
    (client.session_identity, server)
}

#[test]
fn correct_password_and_connection_binding_produce_one_identity() {
    let record = record(b"correct horse battery staple");
    let binding = [0x42; TLS_EXPORTER_SIZE];
    let (client, server) = login(
        &record,
        b"correct horse battery staple",
        binding,
        binding,
        &default_credential_identifier(),
    );

    assert_eq!(client.unwrap(), server.unwrap());
}

#[test]
fn wrong_password_completes_the_message_flow_but_authentication_fails() {
    let record = record(b"right password");
    let binding = [3; TLS_EXPORTER_SIZE];
    let (client, server) = login(
        &record,
        b"wrong password",
        binding,
        binding,
        &default_credential_identifier(),
    );

    assert_eq!(client, None);
    assert_eq!(server, Err(AuthenticationError::AuthenticationFailed));
}

#[test]
fn active_interception_with_different_tls_exporters_fails() {
    let record = record(b"password");
    let (client, server) = login(
        &record,
        b"password",
        [1; TLS_EXPORTER_SIZE],
        [2; TLS_EXPORTER_SIZE],
        &default_credential_identifier(),
    );

    assert_eq!(client, None);
    assert_eq!(server, Err(AuthenticationError::AuthenticationFailed));
}

#[test]
fn unknown_credential_uses_a_full_dummy_exchange() {
    let record = record(b"password");
    let binding = [4; TLS_EXPORTER_SIZE];
    let (client, server) = login(
        &record,
        b"password",
        binding,
        binding,
        b"unknown-credential",
    );

    assert_eq!(client, None);
    assert_eq!(server, Err(AuthenticationError::AuthenticationFailed));
}

#[test]
fn password_replacement_preserves_setup_and_invalidates_old_password() {
    let record = record(b"old password");
    let old_setup = record.setup().to_vec();
    let host_identity = record.host_identity();
    let mut rng = ChaCha20Rng::from_seed([17; 32]);
    let replaced =
        OpaqueServerRecord::enroll_with_rng(Some(&record), b"new password".to_vec(), &mut rng)
            .unwrap();

    assert_eq!(replaced.setup().to_vec(), old_setup);
    assert_eq!(replaced.host_identity(), host_identity);
    assert!(
        login(
            &replaced,
            b"new password",
            [5; TLS_EXPORTER_SIZE],
            [5; TLS_EXPORTER_SIZE],
            &default_credential_identifier(),
        )
        .1
        .is_ok()
    );
    assert_eq!(
        login(
            &replaced,
            b"old password",
            [5; TLS_EXPORTER_SIZE],
            [5; TLS_EXPORTER_SIZE],
            &default_credential_identifier(),
        )
        .1,
        Err(AuthenticationError::AuthenticationFailed)
    );
}

#[test]
fn serialized_record_round_trips_and_rejects_trailing_data() {
    let record = record(b"password");
    let bytes = record.serialize();
    let restored = OpaqueServerRecord::deserialize(&bytes).unwrap();
    assert_eq!(restored.host_identity(), record.host_identity());
    assert!(
        login(
            &restored,
            b"password",
            [9; TLS_EXPORTER_SIZE],
            [9; TLS_EXPORTER_SIZE],
            &default_credential_identifier(),
        )
        .1
        .is_ok()
    );

    let mut invalid = bytes;
    invalid.push(0);
    assert!(matches!(
        OpaqueServerRecord::deserialize(&invalid),
        Err(AuthenticationError::InvalidRecord)
    ));
}

#[test]
fn opaque_transcript_matches_fixed_vector() {
    let record = record(b"vector password");
    let binding = [0x5a; TLS_EXPORTER_SIZE];
    let mut client_rng = ChaCha20Rng::from_seed([23; 32]);
    let client = start_client_authentication_with_rng(
        b"vector password".to_vec(),
        default_credential_identifier(),
        &mut client_rng,
    )
    .unwrap();
    let mut server_rng = ChaCha20Rng::from_seed([29; 32]);
    let server = start_server_authentication_with_rng(
        &record,
        &client.credential_identifier,
        &client.message,
        binding,
        &mut server_rng,
    )
    .unwrap();
    let client_finish = client
        .state
        .finish_with_rng(&server.message, binding, &mut client_rng)
        .unwrap();
    let server_identity = server.state.finish(&client_finish.message).unwrap();
    let client_identity = client_finish.session_identity.unwrap();
    assert_eq!(client_identity, server_identity);

    let mut vector = Sha256::new();
    for part in [
        record.serialize().as_slice(),
        client.message.as_slice(),
        server.message.as_slice(),
        client_finish.message.as_slice(),
        binding.as_slice(),
        client_identity.as_bytes().as_slice(),
    ] {
        vector.update((part.len() as u32).to_be_bytes());
        vector.update(part);
    }
    assert_eq!(
        <[u8; 32]>::from(vector.finalize()),
        [
            0x1b, 0xe4, 0x6b, 0x6a, 0xb7, 0xa9, 0x98, 0x00, 0x12, 0xd6, 0xa8, 0x30, 0x1a, 0x2a,
            0x1f, 0x52, 0xd2, 0xb3, 0xe3, 0x74, 0xb2, 0x76, 0x3c, 0x3d, 0xf7, 0x7f, 0xf7, 0x23,
            0x99, 0xfc, 0xc5, 0x91,
        ]
    );
}
