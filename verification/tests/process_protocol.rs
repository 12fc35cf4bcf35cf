//! Messages between the launcher and the player.

use rustconsole::player::process_protocol::{
    read_command, read_event, write_event, write_launch, write_reconnect, write_stop,
    LaunchRequest, PlayerCommand, PlayerEvent, ProcessProtocolError, MAX_MESSAGE_SIZE,
    MAX_PASSWORD_SIZE,
};
use rustconsole::secret::Secret;

fn launch() -> LaunchRequest {
    LaunchRequest {
        address: "127.0.0.1:47999".to_owned(),
        password: Secret::new(b"not logged".to_vec()),
        remember_password: true,
        maximum_bitrate_bits_per_second: 100_000_000,
        latency_diagnostics: true,
    }
}

#[test]
fn launch_round_trip_preserves_bounded_fields() {
    let expected = launch();
    let mut bytes = Vec::new();
    write_launch(&mut bytes, &expected).unwrap();

    let PlayerCommand::Launch(actual) = read_command(&mut bytes.as_slice()).unwrap() else {
        panic!("expected launch command");
    };
    let actual = actual.finish(true).unwrap();
    assert_eq!(actual.address, expected.address);
    assert_eq!(actual.password.as_slice(), expected.password.as_slice());
    assert_eq!(actual.remember_password, expected.remember_password);
    assert_eq!(actual.latency_diagnostics, expected.latency_diagnostics);
    assert_eq!(
        actual.maximum_bitrate_bits_per_second,
        expected.maximum_bitrate_bits_per_second
    );
}

#[test]
fn launch_rejects_maximum_bitrate_outside_ui_range() {
    for maximum_bitrate_bits_per_second in [4_999_999, 100_000_001] {
        let request = LaunchRequest {
            maximum_bitrate_bits_per_second,
            ..launch()
        };
        assert!(matches!(
            write_launch(&mut Vec::new(), &request),
            Err(ProcessProtocolError::InvalidMessage(_))
        ));
    }
}

#[test]
fn events_and_control_commands_round_trip() {
    for expected in [
        PlayerEvent::Authenticated {
            host_identity: [7; 32],
        },
        PlayerEvent::Started,
        PlayerEvent::Ended,
        PlayerEvent::Error("renderer stopped".into()),
    ] {
        let mut bytes = Vec::new();
        write_event(&mut bytes, &expected).unwrap();
        assert_eq!(read_event(&mut bytes.as_slice()).unwrap(), expected);
    }

    let mut bytes = Vec::new();
    write_stop(&mut bytes).unwrap();
    assert!(matches!(
        read_command(&mut bytes.as_slice()).unwrap(),
        PlayerCommand::Stop
    ));

    let mut bytes = Vec::new();
    write_reconnect(&mut bytes).unwrap();
    assert!(matches!(
        read_command(&mut bytes.as_slice()).unwrap(),
        PlayerCommand::Reconnect
    ));
}

#[test]
fn outer_bound_is_checked_before_allocation() {
    let bytes = ((MAX_MESSAGE_SIZE + 1) as u32).to_be_bytes();
    assert!(matches!(
        read_event(&mut bytes.as_slice()),
        Err(ProcessProtocolError::MessageTooLarge { maximum, .. })
            if maximum == MAX_MESSAGE_SIZE
    ));
}

#[test]
fn password_bound_is_enforced() {
    let request = LaunchRequest {
        password: Secret::new(vec![0; MAX_PASSWORD_SIZE + 1]),
        ..launch()
    };
    assert!(matches!(
        write_launch(&mut Vec::new(), &request),
        Err(ProcessProtocolError::MessageTooLarge { maximum, .. })
            if maximum == MAX_PASSWORD_SIZE
    ));
}

#[test]
fn a_refused_size_is_read_and_what_follows_it_is_not() {
    let mut pipe = ((MAX_MESSAGE_SIZE + 1) as u32).to_be_bytes().to_vec();
    pipe.extend_from_slice(b"behind");
    let mut reader = pipe.as_slice();
    assert!(read_command(&mut reader).is_err());
    assert_eq!(reader, b"behind");

    let mut ends = &[0, 0, 0, 9, 1, 2][..];
    assert!(matches!(
        read_event(&mut ends),
        Err(ProcessProtocolError::UnexpectedEnd)
    ));
    assert!(ends.is_empty());
}
