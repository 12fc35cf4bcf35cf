//! The choice of a video configuration.

use rustconsole::protocol::av1::{
    negotiate_av1_configuration, Av1HardwareCapability, Av1Mode, Av1NegotiationError,
    Av1ViewerSettings, ChromaSubsampling, MAXIMUM_VIDEO_BITRATE_BITS_PER_SECOND, VideoBitDepth,
};

const YUV420_8: Av1Mode = Av1Mode {
    chroma_subsampling: ChromaSubsampling::Yuv420,
    bit_depth: VideoBitDepth::Eight,
};
const YUV420_10: Av1Mode = Av1Mode {
    chroma_subsampling: ChromaSubsampling::Yuv420,
    bit_depth: VideoBitDepth::Ten,
};
const YUV444_10: Av1Mode = Av1Mode {
    chroma_subsampling: ChromaSubsampling::Yuv444,
    bit_depth: VideoBitDepth::Ten,
};

fn capability(mode: Av1Mode) -> Av1HardwareCapability {
    Av1HardwareCapability {
        mode,
        maximum_width: 3_840,
        maximum_height: 2_160,
        maximum_frames_per_second: 120,
    }
}

fn settings() -> Av1ViewerSettings {
    Av1ViewerSettings {
        width: 2_560,
        height: 1_440,
        frames_per_second: 120,
        mode_preferences: vec![YUV444_10, YUV420_10, YUV420_8],
        maximum_bitrate_bits_per_second: 80_000_000,
    }
}

#[test]
fn both_peers_compute_the_same_first_supported_preference() {
    let encoder = [
        capability(YUV420_8),
        capability(YUV420_10),
        capability(YUV444_10),
    ];
    let decoder = [capability(YUV420_8), capability(YUV420_10)];
    let settings = settings();

    let host_result = negotiate_av1_configuration(&encoder, &decoder, &settings).unwrap();
    let viewer_result = negotiate_av1_configuration(&encoder, &decoder, &settings).unwrap();

    assert_eq!(host_result, viewer_result);
    assert_eq!(host_result.mode, YUV420_10);
    assert_eq!(host_result.maximum_bitrate_bits_per_second, 80_000_000);
}

#[test]
fn preference_order_is_authoritative() {
    let capabilities = [capability(YUV420_8), capability(YUV420_10)];
    let mut settings = settings();
    settings.mode_preferences = vec![YUV420_8, YUV420_10];

    let result = negotiate_av1_configuration(&capabilities, &capabilities, &settings).unwrap();

    assert_eq!(result.mode, YUV420_8);
}

#[test]
fn changed_decoder_capabilities_rerun_selection() {
    let encoder = [capability(YUV420_8), capability(YUV420_10)];
    let initial_decoder = [capability(YUV420_8), capability(YUV420_10)];
    let changed_decoder = [capability(YUV420_8)];
    let settings = settings();

    assert_eq!(
        negotiate_av1_configuration(&encoder, &initial_decoder, &settings)
            .unwrap()
            .mode,
        YUV420_10
    );
    assert_eq!(
        negotiate_av1_configuration(&encoder, &changed_decoder, &settings)
            .unwrap()
            .mode,
        YUV420_8
    );
}

#[test]
fn limits_must_support_the_complete_requested_configuration() {
    let encoder = [Av1HardwareCapability {
        maximum_frames_per_second: 60,
        ..capability(YUV420_10)
    }];
    let decoder = [capability(YUV420_10)];
    let mut settings = settings();
    settings.mode_preferences = vec![YUV420_10];

    assert_eq!(
        negotiate_av1_configuration(&encoder, &decoder, &settings),
        Err(Av1NegotiationError::NoCompatibleHardwareMode)
    );
}

#[test]
fn no_hardware_intersection_is_rejected() {
    let encoder = [capability(YUV444_10)];
    let decoder = [capability(YUV420_10)];

    assert_eq!(
        negotiate_av1_configuration(&encoder, &decoder, &settings()),
        Err(Av1NegotiationError::NoCompatibleHardwareMode)
    );
}

#[test]
fn empty_and_duplicate_lists_are_rejected() {
    let valid = [capability(YUV420_10)];

    assert_eq!(
        negotiate_av1_configuration(&[], &valid, &settings()),
        Err(Av1NegotiationError::EmptyEncoderCapabilities)
    );
    assert_eq!(
        negotiate_av1_configuration(&valid, &[], &settings()),
        Err(Av1NegotiationError::EmptyDecoderCapabilities)
    );
    assert_eq!(
        negotiate_av1_configuration(&[valid[0], valid[0]], &valid, &settings()),
        Err(Av1NegotiationError::DuplicateEncoderCapability(YUV420_10))
    );

    let mut duplicate_preferences = settings();
    duplicate_preferences.mode_preferences = vec![YUV420_10, YUV420_10];
    assert_eq!(
        negotiate_av1_configuration(&valid, &valid, &duplicate_preferences),
        Err(Av1NegotiationError::DuplicateModePreference(YUV420_10))
    );
}

#[test]
fn zero_settings_and_capability_limits_are_rejected() {
    let valid = [capability(YUV420_10)];
    let invalid = [Av1HardwareCapability {
        maximum_width: 0,
        ..valid[0]
    }];
    let mut zero_bitrate = settings();
    zero_bitrate.maximum_bitrate_bits_per_second = 0;
    let mut excessive_bitrate = settings();
    excessive_bitrate.maximum_bitrate_bits_per_second =
        MAXIMUM_VIDEO_BITRATE_BITS_PER_SECOND + 1;

    assert_eq!(
        negotiate_av1_configuration(&invalid, &valid, &settings()),
        Err(Av1NegotiationError::InvalidEncoderCapability(YUV420_10))
    );
    assert_eq!(
        negotiate_av1_configuration(&valid, &valid, &zero_bitrate),
        Err(Av1NegotiationError::ZeroMaximumBitrate)
    );
    assert_eq!(
        negotiate_av1_configuration(&valid, &valid, &excessive_bitrate),
        Err(Av1NegotiationError::MaximumBitrateTooHigh)
    );
}
