//! What the Linux viewer decides.

use rustconsole::player::audio_decoder::{silence_samples, StreamAudioDecoder};
use rustconsole::player::audio_ordering::AudioPlaybackEvent;
use rustconsole::player::audio_output::{bytes_to_micros, MAX_SDL_BYTES, PREBUFFER_BYTES};
use rustconsole::player::audio_planning::AudioDecodeAction;
use rustconsole::player::diagnostic_marker::{
    diagnostic_marker_state, take_diagnostic_marker_probe,
};
use rustconsole::protocol::audio::AudioPacket;
use rustconsole::time::Instant;

#[test]
fn byte_depth_uses_stereo_float_frames() {
    assert_eq!(bytes_to_micros(480 * 2 * size_of::<f32>()), 10_000);
    assert_eq!(bytes_to_micros(PREBUFFER_BYTES), 40_000);
    assert_eq!(bytes_to_micros(MAX_SDL_BYTES), 80_000);
}

fn packet(generation: u64, sequence: u64, payload: Vec<u8>) -> AudioPlaybackEvent {
    AudioPlaybackEvent::Packet {
        packet: AudioPacket {
            generation,
            sequence,
            captured_at_micros: 1_000_000,
            decoded_samples: 480,
            skip_start_samples: 312,
            skip_end_samples: 0,
            payload,
        },
        assembled_at: Instant::from_nanos(1),
        released_at: Instant::from_nanos(2),
        assembled_at_micros: 20,
        assembled_payload_sha256: None,
    }
}

#[test]
fn stream_decoder_bounds_missing_audio_and_contains_codec_failure() {
    let mut decoder = StreamAudioDecoder::default();
    let missing = decoder.event(AudioPlaybackEvent::Missing {
        generation: 2,
        sequence: 4,
        captured_at_micros: 20_000,
        missing_packets: 20,
    });
    let AudioDecodeAction::Conceal { packets, .. } = &missing[1] else {
        panic!("expected bounded silence");
    };
    assert_eq!(silence_samples(*packets), 4 * 480 * 2);

    let actions = decoder.event(packet(3, 0, Vec::new()));
    assert!(matches!(
        actions.last(),
        Some(AudioDecodeAction::Decode(input)) if input.packet.generation == 3
    ));
    decoder.failed(3);
    assert_eq!(decoder.failed_generation, Some(3));
    assert!(decoder.event(packet(3, 1, vec![1])).is_empty());
    assert!(!decoder.event(packet(4, 0, vec![1])).is_empty());
}

#[test]
fn diagnostic_marker_requires_anchors_and_a_binary_state() {
    assert_eq!(diagnostic_marker_state(&[255, 0, 255], 8), Some(true));
    assert_eq!(diagnostic_marker_state(&[940, 64, 64], 10), Some(false));
    assert_eq!(diagnostic_marker_state(&[255, 255, 0], 8), None);
    assert_eq!(diagnostic_marker_state(&[255, 0, 128], 8), None);
    assert_eq!(diagnostic_marker_state(&[255, 0], 8), None);
}

#[test]
fn diagnostic_marker_probe_waits_for_the_applied_input_sequence() {
    let mut last_probe_sequence = 0;
    let mut active_probe_sequence = 0;
    let mut probe_attempts = 0;
    assert!(take_diagnostic_marker_probe(
        true,
        false,
        0,
        0,
        &mut last_probe_sequence,
        &mut active_probe_sequence,
        &mut probe_attempts,
    ));
    assert!(!take_diagnostic_marker_probe(
        true,
        true,
        6,
        7,
        &mut last_probe_sequence,
        &mut active_probe_sequence,
        &mut probe_attempts,
    ));
    assert!(take_diagnostic_marker_probe(
        true,
        true,
        7,
        7,
        &mut last_probe_sequence,
        &mut active_probe_sequence,
        &mut probe_attempts,
    ));
    assert!(take_diagnostic_marker_probe(
        true,
        true,
        8,
        7,
        &mut last_probe_sequence,
        &mut active_probe_sequence,
        &mut probe_attempts,
    ));
    last_probe_sequence = 7;
    assert!(!take_diagnostic_marker_probe(
        true,
        true,
        9,
        7,
        &mut last_probe_sequence,
        &mut active_probe_sequence,
        &mut probe_attempts,
    ));
}
