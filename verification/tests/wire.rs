//! Messages on reliable streams.

use rustconsole::protocol::wire::envelope;
use rustconsole::protocol::wire::input_transition;
use rustconsole::protocol::wire::{
    decode_reliable_frame, decode_video_packet_frame, encode_reliable_frame,
    encode_video_packet_frame, AudioConfiguration, AudioStatus, AudioStreamState,
    Av1CapabilityOffer, Av1Mode, Av1ViewerSettings, ChromaSubsampling, EncodedVideoPacket,
    Envelope, FeatureOffer, HostFirewallStatus, HostIdentityOffer, HostOperatingSystem,
    HostSessionControl, HostSessionControlKind, InputPack, InputTransition, KeyTransition, Message,
    OpaqueCredentialRequest, OpaqueCredentialResponse, PointerMotionTransition,
    ReliableFrameError, SelectedAv1Configuration, SessionAvailability, SessionAvailabilityProbe,
    SessionAvailabilityResult, VbCableStatus, VersionOffer, VideoBitDepth, VideoControl,
    VideoControlKind, VideoReceiverReport, VideoReconfigurationCause, VideoStreamState,
    MAX_ENCODED_VIDEO_PACKET_SIZE, MAX_RELIABLE_MESSAGE_SIZE, RELIABLE_FRAME_PREFIX_SIZE,
};

const VERSION_OFFER_FIXTURE: [u8; 18] = [
    0x00, 0x00, 0x00, 0x0e, 0x0a, 0x0c, 0x08, 0x01, 0x1a, 0x08, 0x08, 0x07, 0x10, 0x01, 0x18,
    0x03, 0x20, 0x01,
];
const AV1_VIEWER_SETTINGS_FIXTURE: [u8; 19] = [
    0x08, 0x80, 0x14, 0x10, 0xa0, 0x0b, 0x18, 0x78, 0x22, 0x04, 0x08, 0x01, 0x10, 0x01, 0x28,
    0x80, 0xc2, 0xd7, 0x2f,
];
const SELECTED_AV1_CONFIGURATION_FIXTURE: [u8; 19] = AV1_VIEWER_SETTINGS_FIXTURE;

fn version_offer() -> Envelope {
    Envelope {
        body: Some(envelope::Body::VersionOffer(VersionOffer {
            protocol_major: 1,
            protocol_minor: 0,
            features: vec![FeatureOffer {
                id: 7,
                oldest_version: 1,
                newest_version: 3,
                required: true,
            }],
        })),
    }
}

#[test]
fn version_offer_matches_permanent_wire_fixture() {
    let encoded = encode_reliable_frame(&version_offer()).unwrap();

    assert_eq!(encoded, VERSION_OFFER_FIXTURE);
    assert_eq!(decode_reliable_frame(&encoded).unwrap(), version_offer());
}

#[test]
fn maximum_only_av1_messages_match_permanent_wire_fixtures() {
    let mode = Av1Mode {
        chroma_subsampling: ChromaSubsampling::Yuv420.number(),
        bit_depth: VideoBitDepth::Eight.number(),
    };
    let settings = Av1ViewerSettings {
        width: 2_560,
        height: 1_440,
        frames_per_second: 120,
        mode_preferences: vec![mode],
        maximum_bitrate_bits_per_second: 100_000_000,
    };
    let selected = SelectedAv1Configuration {
        dedicated_input_stream: false,
        host_pointer_release: false,
        full_diagnostics: false,
        audio_transport: None,
        width: 2_560,
        height: 1_440,
        frames_per_second: 120,
        mode: Some(mode),
        maximum_bitrate_bits_per_second: 100_000_000,
    };

    assert_eq!(settings.encode_to_vec(), AV1_VIEWER_SETTINGS_FIXTURE);
    assert_eq!(selected.encode_to_vec(), SELECTED_AV1_CONFIGURATION_FIXTURE);
    assert_eq!(
        Av1ViewerSettings::decode(AV1_VIEWER_SETTINGS_FIXTURE.as_slice()).unwrap(),
        settings
    );
    assert_eq!(
        SelectedAv1Configuration::decode(SELECTED_AV1_CONFIGURATION_FIXTURE.as_slice())
            .unwrap(),
        selected
    );
}

#[test]
fn reliable_input_pack_preserves_order_and_pointer_motion() {
    let envelope = Envelope {
        body: Some(envelope::Body::InputPack(InputPack {
            transitions: vec![
                InputTransition {
                    generation: 3,
                    sequence: 8,
                    action: Some(input_transition::Action::Key(KeyTransition {
                        hid_usage: 4,
                        pressed: true,
                    })),
                    player_sent_at_micros: 100,
                },
                InputTransition {
                    generation: 3,
                    sequence: 9,
                    action: Some(input_transition::Action::PointerMotion(
                        PointerMotionTransition {
                            delta_x: -5,
                            delta_y: 7,
                        },
                    )),
                    player_sent_at_micros: 100,
                },
            ],
        })),
    };

    assert_eq!(
        decode_reliable_frame(&encode_reliable_frame(&envelope).unwrap()).unwrap(),
        envelope
    );
}

#[test]
fn unknown_optional_protobuf_field_is_ignored() {
    let mut payload = VERSION_OFFER_FIXTURE[RELIABLE_FRAME_PREFIX_SIZE..].to_vec();
    payload.extend_from_slice(&[0x98, 0x06, 0x01]);
    let mut frame = Vec::from((payload.len() as u32).to_be_bytes());
    frame.extend_from_slice(&payload);

    assert_eq!(decode_reliable_frame(&frame).unwrap(), version_offer());
}

#[test]
fn oversized_declared_payload_is_rejected_before_decode() {
    let frame = ((MAX_RELIABLE_MESSAGE_SIZE + 1) as u32).to_be_bytes();

    assert!(matches!(
        decode_reliable_frame(&frame),
        Err(ReliableFrameError::PayloadTooLarge {
            size,
            maximum: MAX_RELIABLE_MESSAGE_SIZE,
        }) if size == MAX_RELIABLE_MESSAGE_SIZE + 1
    ));
}

#[test]
fn truncated_length_prefix_is_rejected() {
    assert!(matches!(
        decode_reliable_frame(&[0, 0, 0]),
        Err(ReliableFrameError::TruncatedPrefix { size: 3 })
    ));
}

#[test]
fn mismatched_payload_length_is_rejected() {
    let frame = [0, 0, 0, 2, 0];

    assert!(matches!(
        decode_reliable_frame(&frame),
        Err(ReliableFrameError::LengthMismatch {
            declared: 2,
            actual: 1,
        })
    ));
}

#[test]
fn encoded_video_packet_has_an_independent_bound() {
    let packet = EncodedVideoPacket {
        sequence: 7,
        captured_at_micros: 42,
        keyframe: true,
        payload: vec![0x12; MAX_RELIABLE_MESSAGE_SIZE],
    };
    let frame = encode_video_packet_frame(&packet).unwrap();

    assert_eq!(decode_video_packet_frame(&frame).unwrap(), packet);
    assert!(matches!(
        encode_video_packet_frame(&EncodedVideoPacket {
            sequence: 0,
            captured_at_micros: 0,
            keyframe: false,
            payload: vec![0; MAX_ENCODED_VIDEO_PACKET_SIZE],
        }),
        Err(ReliableFrameError::PayloadTooLarge { maximum, .. })
            if maximum == MAX_ENCODED_VIDEO_PACKET_SIZE
    ));
}

#[test]
fn opaque_messages_are_bounded_by_reliable_framing() {
    let request = Envelope {
        body: Some(envelope::Body::OpaqueCredentialRequest(
            OpaqueCredentialRequest {
                credential_identifier: b"default".to_vec(),
                message: vec![0x55; 512],
            },
        )),
    };

    let encoded = encode_reliable_frame(&request).unwrap();
    assert_eq!(decode_reliable_frame(&encoded).unwrap(), request);

    let oversized = Envelope {
        body: Some(envelope::Body::OpaqueCredentialResponse(
            OpaqueCredentialResponse {
                message: vec![0; MAX_RELIABLE_MESSAGE_SIZE],
            },
        )),
    };
    assert!(matches!(
        encode_reliable_frame(&oversized),
        Err(ReliableFrameError::PayloadTooLarge { maximum, .. })
            if maximum == MAX_RELIABLE_MESSAGE_SIZE
    ));
}

#[test]
fn video_control_and_receiver_report_round_trip() {
    for body in [
        envelope::Body::VideoControl(VideoControl {
            kind: VideoControlKind::RequestKeyframe.number(),
        }),
        envelope::Body::VideoReceiverReport(VideoReceiverReport {
            newest_sequence: 90,
            received_chunks: 400,
            lost_chunks: 3,
            late_chunks: 2,
            assembly_overflows: 1,
            completed_frames: 30,
            incomplete_frames: 2,
            last_completed_assembly_micros: 7_000,
            last_assembly_budget_micros: 25_000,
            completed_payload_bytes: 1_500_000,
            measurement_interval_micros: 500_000,
        }),
    ] {
        let envelope = Envelope { body: Some(body) };
        let encoded = encode_reliable_frame(&envelope).unwrap();
        assert_eq!(decode_reliable_frame(&encoded).unwrap(), envelope);
    }
}

#[test]
fn video_reconfiguration_state_round_trips_and_requires_a_cause() {
    let state =
        VideoStreamState::reconfiguration_required(VideoReconfigurationCause::PixelFormat);
    let envelope = Envelope {
        body: Some(envelope::Body::VideoStreamState(state)),
    };
    let encoded = encode_reliable_frame(&envelope).unwrap();
    assert_eq!(decode_reliable_frame(&encoded).unwrap(), envelope);
    assert_eq!(
        state.reconfiguration_cause(),
        Some(VideoReconfigurationCause::PixelFormat)
    );
    assert_eq!(VideoStreamState::default().reconfiguration_cause(), None);
}

#[test]
fn session_availability_messages_round_trip() {
    for body in [
        envelope::Body::SessionAvailabilityProbe(SessionAvailabilityProbe {}),
        envelope::Body::SessionAvailabilityResult(SessionAvailabilityResult {
            availability: SessionAvailability::DesktopSessionUnavailable.number(),
            vb_cable_status: VbCableStatus::Unavailable.number(),
            firewall_status: HostFirewallStatus::AllProfilesLocalSubnet.number(),
        }),
    ] {
        let envelope = Envelope { body: Some(body) };
        let encoded = encode_reliable_frame(&envelope).unwrap();
        assert_eq!(decode_reliable_frame(&encoded).unwrap(), envelope);
    }
}

#[test]
fn older_availability_response_has_an_unspecified_vb_cable_status() {
    let old = [0x08, SessionAvailability::Available.number() as u8];
    let current = SessionAvailabilityResult::decode(old.as_slice()).unwrap();
    assert_eq!(current.availability, SessionAvailability::Available.number());
    assert_eq!(current.vb_cable_status, VbCableStatus::Unspecified.number());
    assert_eq!(current.firewall_status, HostFirewallStatus::Unknown.number());
}

#[test]
fn older_identity_offer_has_unknown_metadata() {
    let identity = vec![0x5a; 32];
    let mut old = vec![0x0a, 32];
    old.extend_from_slice(&identity);
    let current = HostIdentityOffer::decode(old.as_slice()).unwrap();
    assert_eq!(current.host_identity, identity);
    assert!(current.display_name.is_empty());
    assert_eq!(
        current.operating_system,
        HostOperatingSystem::Unknown.number()
    );
}

/// What a peer that knows only the fields up to `newest` writes after reading `offer`.
fn written_by_a_peer_that_knows(newest: u8, offer: &Av1CapabilityOffer) -> Vec<u8> {
    let bytes = offer.encode_to_vec();
    let mut written = Vec::new();
    let mut at = 0;
    while at < bytes.len() {
        let (tag, kind) = (bytes[at] >> 3, bytes[at] & 7);
        let end = match kind {
            0 => at + 2,
            2 => at + 2 + usize::from(bytes[at + 1]),
            other => panic!("unexpected wire type {other}"),
        };
        if tag <= newest {
            written.extend_from_slice(&bytes[at..end]);
        }
        at = end;
    }
    written
}

#[test]
fn audio_offer_has_a_fixed_fixture_and_is_optional_to_older_peers() {
    let offer = Av1CapabilityOffer {
        dedicated_input_stream: false,
        host_pointer_release: false,
        full_diagnostics: false,
        encoder_capabilities: Vec::new(),
        decoder_capabilities: Vec::new(),
        viewer_settings: None,
        audio_transport: Some(AudioConfiguration::standard()),
    };
    let frame = encode_reliable_frame(&Envelope {
        body: Some(envelope::Body::Av1CapabilityOffer(offer.clone())),
    })
    .unwrap();
    assert_eq!(
        frame,
        [
            0, 0, 0, 21, 18, 19, 34, 17, 8, 1, 16, 1, 24, 128, 247, 2, 32, 2, 40, 144, 78, 48, 128,
            232, 7
        ]
    );
    let old_bytes = written_by_a_peer_that_knows(3, &offer);
    assert!(old_bytes.is_empty());
    assert_eq!(
        Av1CapabilityOffer::decode(old_bytes.as_slice())
            .unwrap()
            .audio_transport,
        None
    );
    assert!(AudioConfiguration::standard().supported());
    assert!(
        !AudioConfiguration {
            version: 2,
            ..AudioConfiguration::standard()
        }
        .supported()
    );
}

#[test]
fn host_pointer_release_is_negotiated_as_an_optional_field() {
    let offer = Av1CapabilityOffer {
        dedicated_input_stream: false,
        host_pointer_release: true,
        full_diagnostics: false,
        encoder_capabilities: Vec::new(),
        decoder_capabilities: Vec::new(),
        viewer_settings: None,
        audio_transport: None,
    };
    assert!(
        Av1CapabilityOffer::decode(offer.encode_to_vec().as_slice())
            .unwrap()
            .host_pointer_release
    );

    let old = written_by_a_peer_that_knows(1, &offer);
    let decoded = Av1CapabilityOffer::decode(old.as_slice()).unwrap();
    assert!(!decoded.host_pointer_release);

    let envelope = Envelope {
        body: Some(envelope::Body::HostSessionControl(HostSessionControl {
            kind: HostSessionControlKind::ReleasePointerCapture.number(),
        })),
    };
    let frame = encode_reliable_frame(&envelope).unwrap();
    assert_eq!(frame, [0, 0, 0, 5, 0xaa, 0x01, 0x02, 0x08, 0x01]);
    assert_eq!(decode_reliable_frame(&frame).unwrap(), envelope);
}

#[test]
fn dedicated_input_stream_is_negotiated_as_an_optional_field() {
    let offer = Av1CapabilityOffer {
        dedicated_input_stream: true,
        host_pointer_release: false,
        full_diagnostics: false,
        encoder_capabilities: Vec::new(),
        decoder_capabilities: Vec::new(),
        viewer_settings: None,
        audio_transport: None,
    };
    assert!(
        Av1CapabilityOffer::decode(offer.encode_to_vec().as_slice())
            .unwrap()
            .dedicated_input_stream
    );

    let old = written_by_a_peer_that_knows(1, &offer);
    let decoded = Av1CapabilityOffer::decode(old.as_slice()).unwrap();
    assert!(!decoded.dedicated_input_stream);
}

#[test]
fn audio_state_bounds_unicode_and_rejects_unknown_status() {
    let mut state = AudioStreamState::new(7, AudioStatus::Failed, 2, "\u{20ac}".repeat(200));
    assert!(state.valid());
    assert!(state.detail.len() <= 256);
    let envelope = Envelope {
        body: Some(envelope::Body::AudioStreamState(state.clone())),
    };
    assert_eq!(
        decode_reliable_frame(&encode_reliable_frame(&envelope).unwrap()).unwrap(),
        envelope
    );
    state.status = 999;
    assert!(!state.valid());
}
