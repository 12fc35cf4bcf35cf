//! What a viewer makes of datagrams and control messages.

use rustconsole::player::audio_ordering::{AudioPlaybackEvent, OrderedAudioPackets};
use rustconsole::player::continuity::DecodeContinuity;
use rustconsole::player::keyboard_leds::{KeyboardLedReceiver, KeyboardLedSnapshot};
use rustconsole::player::payload_integrity::{
    local_payload_digest, PayloadDigestEvent, PayloadDigestMatcher,
};
use rustconsole::player::receiver::Receiver;
use rustconsole::protocol::audio::AudioPacket;
use rustconsole::protocol::diagnostics::{MediaKind, PayloadDigest};
use rustconsole::protocol::wire::{AudioStatus, AudioStreamState, KeyboardLeds};
use rustconsole::session::audio_datagram::packetize;
use rustconsole::session::video_datagram::{packetize_video_frame, VideoFramePayload};
use rustconsole::time::{Duration, Instant};

fn video(sequence: u64) -> VideoFramePayload {
    VideoFramePayload {
        sequence,
        captured_at_micros: 1000,
        encoded_at_micros: 1100,
        packetized_at_micros: 1200,
        input_sequence: 0,
        keyframe: sequence == 0,
        target_bitrate_bits_per_second: 1_000_000,
        estimated_capacity_bits_per_second: 2_000_000,
        payload: vec![42; 100],
    }
}

fn audio(generation: u64, sequence: u64) -> AudioPacket {
    AudioPacket {
        generation,
        sequence,
        captured_at_micros: 1_000 + sequence * 10_000,
        decoded_samples: 480,
        skip_start_samples: 0,
        skip_end_samples: 0,
        payload: vec![42],
    }
}

#[test]
fn payload_digest_matcher_reports_identity_and_mismatch() {
    let local = local_payload_digest(MediaKind::Audio, 2, 3, b"payload", 7, 20);
    let mut host = PayloadDigest {
        kind: MediaKind::Audio,
        generation: 2,
        sequence: 3,
        payload_size: local.payload_size,
        hashed_at_micros: 10,
        producer_hash_duration_micros: 10,
        boundary_hash_duration_micros: 11,
        producer_dropped_records: 12,
        boundary_matched: true,
        sha256: local.sha256,
        encode_started_at_micros: 1,
        encoded_at_micros: 2,
        worker_queued_at_micros: 3,
        service_received_at_micros: 4,
        packetized_at_micros: 5,
        captured_at_micros: 0,
        mirror_decode_micros: 6,
        quality_present: false,
        quality_presentation_timestamp: 0,
        source_readback_micros: 0,
        decoded_readback_micros: 0,
        scoring_micros: 0,
        readback_bytes: 0,
        luma_psnr_millidecibels: 0,
        luma_mean_absolute_error_ppm: 0,
        packetization_completed_at_micros: 0,
        first_send_attempt_at_micros: 0,
        last_send_completed_at_micros: 0,
        capture_acquisition_micros: 0,
        cross_adapter_copy_micros: 0,
        color_conversion_micros: 0,
        encoder_call_micros: 0,
        audio_capture_buffer_frames: 0,
        audio_capture_discontinuities: 0,
        audio_invalid_capture_timestamps: 0,
        audio_device_reopens: 0,
        audio_encoder_resets: 0,
        audio_capture_queue_depth: 0,
        audio_capture_queue_capacity: 0,
        audio_capture_queue_drops: 0,
    };
    let mut matcher = PayloadDigestMatcher::default();
    assert!(matcher.push(PayloadDigestEvent::Host(host)).is_none());
    let matched = matcher
        .push(PayloadDigestEvent::Local(local))
        .expect("matching sides should produce a sample");
    assert!(matched.matched);
    assert_eq!(matched.host_dropped_records, 12);
    host.sequence = 4;
    matcher.push(PayloadDigestEvent::Host(host));
    let mut changed = local;
    changed.sequence = 4;
    changed.sha256[0] ^= 1;
    assert!(
        !matcher
            .push(PayloadDigestEvent::Local(changed))
            .unwrap()
            .matched
    );
    assert_eq!(matcher.counters().pending_host_records, 0);
}

#[test]
fn audio_playout_reorders_four_packets_before_release() {
    let now = Instant::from_nanos(1_000_000);
    let mut ordered = OrderedAudioPackets::default();
    assert!(ordered.push(audio(1, 2), now, 2, None).is_empty());
    assert!(ordered.push(audio(1, 0), now, 0, None).is_empty());
    assert!(ordered.push(audio(1, 3), now, 3, None).is_empty());
    let ready = ordered.push(audio(1, 1), now, 1, None);
    let sequences = ready
        .into_iter()
        .map(|event| match event {
            AudioPlaybackEvent::Packet { packet, .. } => packet.sequence,
            AudioPlaybackEvent::Missing { .. } => panic!("unexpected missing packet"),
        })
        .collect::<Vec<_>>();
    assert_eq!(sequences, [0, 1, 2, 3]);
}

#[test]
fn audio_playout_reports_a_confirmed_gap_once() {
    let now = Instant::from_nanos(1_000_000);
    let mut ordered = OrderedAudioPackets::default();
    for sequence in [0, 2, 3, 4] {
        ordered.push(audio(1, sequence), now, sequence, None);
    }
    let ready = ordered.push(audio(1, 5), now, 5, None);
    assert!(matches!(
        ready.first(),
        Some(AudioPlaybackEvent::Missing {
            generation: 1,
            sequence: 1,
            captured_at_micros: 11_000,
            missing_packets: 1,
        })
    ));
    assert_eq!(ready.len(), 5);
}

#[test]
fn audio_playout_follows_on_over_several_calls() {
    let now = Instant::from_nanos(1_000_000);
    let later = now.after(Duration::from_millis(40));
    let mut ordered = OrderedAudioPackets::default();
    let mut events = ordered.push(audio(1, 10), now, 0, None);
    events.append(&mut ordered.push(audio(1, 11), now, 0, None));
    assert!(ordered.expire(now.after(Duration::from_millis(39))).is_empty());
    assert!(events.is_empty());
    events.append(&mut ordered.expire(later));
    events.append(&mut ordered.push(audio(1, 10), later, 0, None));
    events.append(&mut ordered.push(audio(1, 15), later, 0, None));
    events.append(&mut ordered.push(audio(1, 13), later, 0, None));
    events.append(&mut ordered.expire(later.after(Duration::from_millis(40))));
    events.append(&mut ordered.push(audio(1, 14), later, 0, None));
    events.append(&mut ordered.push(audio(1, 16), later, 0, None));
    let mut expected = 10;
    let mut gaps = Vec::new();
    for event in events {
        match event {
            AudioPlaybackEvent::Packet { packet, .. } => {
                assert_eq!(packet.sequence, expected);
                expected += 1;
            }
            AudioPlaybackEvent::Missing {
                sequence,
                missing_packets,
                ..
            } => {
                assert_eq!(sequence, expected);
                expected += missing_packets;
                gaps.push((sequence, missing_packets));
            }
        }
    }
    assert_eq!(expected, 17);
    assert_eq!(gaps, [(12, 1), (14, 1)]);
}

#[test]
fn audio_playout_generation_discards_old_pending_packets() {
    let now = Instant::from_nanos(1_000_000);
    let mut ordered = OrderedAudioPackets::default();
    ordered.push(audio(1, 8), now, 8, None);
    for sequence in 0..3 {
        assert!(
            ordered
                .push(audio(2, sequence), now, sequence, None)
                .is_empty()
        );
    }
    let ready = ordered.push(audio(2, 3), now, 3, None);
    assert!(ready.into_iter().all(|event| matches!(
        event,
        AudioPlaybackEvent::Packet {
            packet: AudioPacket { generation: 2, .. },
            ..
        }
    )));
}

#[test]
fn stalled_video_consumer_does_not_block_audio_or_audio_failure_state() {
    let mut receiver = Receiver::new(120, true, false, Duration::from_nanos(0));
    let now = Instant::from_nanos(1_000_000);
    for sequence in 0..3 {
        for data in
            packetize_video_frame(&video(sequence), 1200)
                .unwrap()
        {
            receiver.datagram(&data, now, Duration::from_nanos(0), 0, 0).unwrap();
        }
    }
    let packet = AudioPacket {
        generation: 1,
        sequence: 0,
        captured_at_micros: 1000,
        decoded_samples: 480,
        skip_start_samples: 312,
        skip_end_samples: 0,
        payload: vec![9; 100],
    };
    for data in packetize(&packet, 80)
        .unwrap()
        .into_iter()
        .rev()
    {
        receiver.datagram(&data, now, Duration::from_nanos(0), 0, 0).unwrap();
    }
    receiver
        .datagram(b"RA broken", now, Duration::from_nanos(0), 0, 0)
        .unwrap();
    receiver.state(AudioStreamState::new(
        1,
        AudioStatus::Failed,
        0,
        "test failure".into(),
    ));
    let stats = receiver.snapshot.clone();
    assert_eq!(stats.audio.receive.completed_packets, 1);
    assert_eq!(stats.audio.receive.malformed_fragments, 1);
    assert_eq!(stats.audio.host.status, AudioStatus::Failed.number());
    assert_eq!(stats.audio.video_queue_drops, 1);
    assert_eq!(
        receiver.frames.pop_timeout(Duration::from_nanos(0)).unwrap().frame.sequence,
        1
    );
    assert_eq!(
        receiver.frames.pop_timeout(Duration::from_nanos(0)).unwrap().frame.sequence,
        2
    );
}

#[test]
fn keyboard_led_receiver_requires_valid_monotonic_states() {
    let mut receiver = KeyboardLedReceiver::default();
    let state = |generation, sequence, mask| KeyboardLeds {
        generation,
        sequence,
        mask,
    };
    assert_eq!(
        receiver.push(state(9, 4, 0x07)).unwrap(),
        KeyboardLedSnapshot {
            generation: 9,
            sequence: 4,
            mask: 0x07,
        }
    );
    assert!(receiver.push(state(9, 6, 0)).is_err());
    assert!(receiver.push(state(8, 5, 0)).is_err());
    assert!(receiver.push(state(9, 5, 0x20)).is_err());
    assert!(receiver.push(state(10, 1, 0x10)).is_ok());
}

#[test]
fn dropped_video_requires_a_keyframe() {
    let mut state = DecodeContinuity::default();
    assert!(!state.accept(1, false));
    assert!(state.accept(2, true));
    assert!(state.accept(3, false));
    assert!(!state.accept(5, false));
    assert!(!state.accept(6, false));
    assert!(state.accept(7, true));
}

#[test]
fn a_refused_datagram_is_told_with_its_length_and_its_first_bytes() {
    let mut receiver = Receiver::new(120, true, false, Duration::from_nanos(0));
    let now = Instant::from_nanos(1_000_000);
    let mut refused = |bytes: &[u8]| {
        receiver
            .datagram(bytes, now, Duration::from_nanos(0), 0, 0)
            .unwrap_err()
    };
    assert_eq!(
        refused(b"RC\x04\xffabc"),
        "malformed video datagram header: length=7 prefix=[52, 43, 04, ff]"
    );
    assert_eq!(
        refused(&[0x0a]),
        "malformed video datagram header: length=1 prefix=[0a]"
    );
    assert_eq!(
        refused(&[]),
        "malformed video datagram header: length=0 prefix=[]"
    );
}

#[test]
fn the_time_that_a_digest_took_comes_with_it() {
    let mut receiver = Receiver::new(120, true, true, Duration::from_nanos(0));
    let now = Instant::from_nanos(1_000_000);
    for data in packetize_video_frame(&video(0), 1200).unwrap() {
        receiver
            .datagram(&data, now, Duration::from_nanos(0), 31, 9)
            .unwrap();
    }
    let mut digests = receiver.payload_digests.take().unwrap();
    match digests.pop_timeout(Duration::from_nanos(0)) {
        Some(PayloadDigestEvent::Local(local)) => {
            assert_eq!(local.hash_duration_micros, 31);
            assert_eq!(local.assembled_at_micros, 9);
        }
        _ => panic!("no digest of the viewer"),
    }
}

#[test]
fn a_frame_is_decoded_only_with_all_since_a_keyframe() {
    let mut state = DecodeContinuity::default();
    let mut decoded = Vec::new();
    for (sequence, keyframe) in [(1, false), (2, true), (3, false), (5, false), (6, false)] {
        decoded.push(state.accept(sequence, keyframe));
    }
    assert_eq!(decoded, [false, true, true, false, false]);
    assert!(state.accept(7, true));
    state.interrupt();
    assert!(!state.accept(8, false));
    assert!(state.accept(9, true));
    assert!(state.accept(10, false));
}
