//! What is told of errors.

use rustconsole::player::availability::AvailabilityFault;
use rustconsole::player::frame_decoding::DecodedFrameFault;
use rustconsole::player::input_pipeline::InputError;
use rustconsole::player::keyboard_leds::KeyboardLedError;
use rustconsole::player::negotiation::NegotiationFault;
use rustconsole::player::one_frame::TrialFault;
use rustconsole::player::process_protocol::{MessageFault, ProcessProtocolError};
use rustconsole::player::stream_control::StreamFault;
use rustconsole::protocol::av1::{Av1Mode, Av1NegotiationError, ChromaSubsampling, VideoBitDepth};
use rustconsole::protocol::display::DisplayError;
use rustconsole::protocol::features::{
    FeatureId, FeatureNegotiationError, FeatureVersionRange, ProtocolVersion,
};
use rustconsole::protocol::wire::ReliableFrameError;
use rustconsole::session::authentication::AuthenticationError;
use rustconsole::session::input_datagram::InputDatagramError;
use rustconsole::session::lifecycle::{SessionPhase, SessionTransitionError};
use rustconsole::session::quic::{ProtocolFault, QuicAuthenticationError};
use rustconsole::session::statistics::InvalidDistribution;
use rustconsole::session::video_datagram::VideoDatagramError;
use rustconsole::text::{decimal_text, owned_string, signed_text, truncated, wide};

#[test]
fn protocol_errors_name_what_differs() {
    let mismatch = ProtocolVersion::new(1, 2)
        .negotiate(ProtocolVersion::new(3, 4))
        .expect_err("different majors");
    assert_eq!(
        mismatch.message(),
        "protocol major mismatch: local 1.2, peer 3.4"
    );
    assert_eq!(
        FeatureVersionRange::new(5, 4).expect_err("a range").message(),
        "invalid feature version range: 5 is newer than 4"
    );
    let id = FeatureId::new(65_535).expect("a number");
    assert_eq!(
        FeatureNegotiationError::MissingRequiredPeerFeature(id).message(),
        "local is missing required peer feature: 65535"
    );
    let mode = Av1Mode {
        chroma_subsampling: ChromaSubsampling::Yuv420,
        bit_depth: VideoBitDepth::Ten,
    };
    let error = Av1NegotiationError::DuplicateModePreference(mode);
    assert_eq!(
        error.message(),
        format!("duplicate AV1 mode preference: {mode:?}")
    );
    assert_eq!(
        Av1NegotiationError::MaximumBitrateTooHigh.message(),
        "AV1 maximum bitrate exceeds 100 Mbit/s"
    );
    assert_eq!(
        DisplayError::Ambiguous.message(),
        "display selection is ambiguous"
    );
    assert_eq!(
        ReliableFrameError::TruncatedPrefix { size: 3 }.message(),
        "reliable frame has 3 prefix bytes; expected 4"
    );
    assert_eq!(
        ReliableFrameError::LengthMismatch {
            declared: 10,
            actual: 9
        }
        .message(),
        "reliable frame declares 10 payload bytes but contains 9"
    );
}

#[test]
fn session_errors_name_what_failed() {
    assert_eq!(
        SessionTransitionError {
            current: SessionPhase::Connected,
            attempted: SessionPhase::Streaming
        }
        .message(),
        "cannot transition session from Connected to Streaming"
    );
    assert_eq!(
        AuthenticationError::UnsupportedRecordVersion(9).message(),
        "OPAQUE server record version 9 is unsupported"
    );
    assert_eq!(InputDatagramError.message(), "malformed input datagram");
    assert_eq!(
        InvalidDistribution::NoSamples.message(),
        "a distribution requires at least one sample"
    );
    assert_eq!(
        VideoDatagramError::DatagramTooSmall(40).message(),
        "datagram size 40 has no payload"
    );
    assert_eq!(
        QuicAuthenticationError::MessageTooLarge(70_000).message(),
        format!(
            "authentication message is 70000 bytes; maximum is {}",
            rustconsole::session::quic::AUTHENTICATION_STREAM_LIMIT
        )
    );
    assert_eq!(
        QuicAuthenticationError::Protocol(ProtocolFault::UnknownOperatingSystem(-1)).message(),
        "authentication protocol failed: unknown enumeration value -1"
    );
    assert_eq!(
        QuicAuthenticationError::Transport("reset".to_owned()).message(),
        "QUIC transport failed: reset"
    );
}

#[test]
fn viewer_errors_name_what_was_wrong() {
    assert_eq!(
        ProcessProtocolError::MessageTooLarge {
            size: 5_000,
            maximum: 4_096
        }
        .message(),
        "player process message is 5000 bytes; maximum is 4096"
    );
    assert_eq!(
        ProcessProtocolError::InvalidMessage(MessageFault::BitrateOutOfRange).message(),
        "player maximum bitrate is outside 5-100 Mbit/s"
    );
    assert_eq!(
        StreamFault::KeyboardLeds(KeyboardLedError::OutOfOrder).message(),
        "out-of-order keyboard LED sequence"
    );
    assert_eq!(
        StreamFault::UnnegotiatedSessionControl.message(),
        "host sent an unnegotiated session control"
    );
    assert_eq!(
        InputError::RelativeYOverflow.message(),
        "relative pointer y counter overflow"
    );
    assert_eq!(
        NegotiationFault::DifferentConfiguration.message(),
        "host selected a different AV1 configuration"
    );
    assert_eq!(
        AvailabilityFault::UnknownAvailability(12).message(),
        "unknown enumeration value 12"
    );
    assert_eq!(
        TrialFault::FrameTooLarge {
            size: 9,
            maximum: 8
        }
        .message(),
        "TCP frame declares 9 bytes; maximum is 8"
    );
    assert_eq!(
        DecodedFrameFault::ColorContradictsDepth.message(),
        "decoded AV1 color metadata contradicts the negotiated bit depth"
    );
}

#[test]
fn numbers_and_texts_are_written_exactly() {
    assert_eq!(decimal_text(0), "0");
    assert_eq!(decimal_text(u64::MAX), u64::MAX.to_string());
    assert_eq!(signed_text(i64::MIN), i64::MIN.to_string());
    assert_eq!(signed_text(-7), "-7");
    assert_eq!(truncated("h\u{e9}llo", 2), "h");
    assert_eq!(truncated("h\u{e9}llo", 3), "h\u{e9}");
    assert_eq!(truncated("short", 1_024), "short");
    assert_eq!(owned_string(&[0xc3, 0xa9]).as_deref(), Some("\u{e9}"));
    assert_eq!(owned_string(&[0xc3]), None);
    let mut units: Vec<u16> = "a\u{1f3ae}".encode_utf16().collect();
    units.push(0);
    assert_eq!(wide("a\u{1f3ae}"), units);
}
