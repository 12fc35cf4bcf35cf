//! The queues between decoding and presentation.

use rustconsole::player::audio_ordering::AudioPlaybackEvent;
use rustconsole::player::audio_planning::{AudioDecodeAction, AudioDecodePlanner};
use rustconsole::player::audio_playback::{
    AudioPlaybackDecision, AudioPlaybackQueue, DecodedAudioEvent, DecodedAudioSamples,
    AUDIO_QUEUE_CAPACITY,
};
use rustconsole::player::progress::{StreamTransportStatistics, VideoStreamSample};
use rustconsole::player::video_playback::{LatestVideoQueue, VideoPlaybackClock};
use rustconsole::protocol::audio::AudioPacket;
use rustconsole::session::video_assembly::VideoAssemblyStats;
use rustconsole::session::video_datagram::VideoFramePayload;
use rustconsole::time::{Duration, Instant};

fn start() -> Instant {
    Instant::from_nanos(1_000_000)
}

fn packet(generation: u64, sequence: u64) -> AudioPlaybackEvent {
    AudioPlaybackEvent::Packet {
        packet: AudioPacket {
            generation,
            sequence,
            captured_at_micros: sequence * 10_000,
            decoded_samples: 480,
            skip_start_samples: 0,
            skip_end_samples: 0,
            payload: vec![1],
        },
        assembled_at: start(),
        released_at: start(),
        assembled_at_micros: 0,
        assembled_payload_sha256: None,
    }
}

fn samples(sequence: u64, timestamp: u64) -> DecodedAudioSamples<Vec<f32>> {
    DecodedAudioSamples {
        generation: 1,
        sequence,
        diagnostics: false,
        assembled_at: start(),
        assembled_at_micros: timestamp,
        decoded_at: start(),
        ordered_playout_duration: None,
        decoder_queue_duration: None,
        decode_duration: Duration::from_nanos(0),
        encoded_bytes: 1,
        concealed_packets: 0,
        decoder_input_hash_duration: Duration::from_nanos(0),
        assembly_to_decoder_matched: None,
        captured_at_micros: timestamp,
        samples: vec![0.0; 960],
    }
}

#[test]
fn latest_video_queue_bounds_latency_and_reports_drops() {
    let mut queue = LatestVideoQueue::default();
    queue.push(1);
    queue.push(2);
    queue.push(3);
    assert_eq!(queue.take_latest(), (Some(3), 2));
    assert_eq!(queue.dropped(), 2);
}

#[test]
fn audio_waits_when_ahead_and_drops_when_late() {
    let mut queue = AudioPlaybackQueue::default();
    queue.push(DecodedAudioEvent::Samples(samples(1, 100_000)), start());
    assert!(queue.pop_for_video(Some(50_000), start()).is_none());
    assert!(matches!(
        queue.pop_for_video(Some(100_000), start()),
        Some(AudioPlaybackDecision::Samples { .. })
    ));
    queue.push(DecodedAudioEvent::Samples(samples(2, 100_000)), start());
    assert!(matches!(
        queue.pop_for_video(Some(150_000), start()),
        Some(AudioPlaybackDecision::Late { sequence: 2, .. })
    ));
}

#[test]
fn audio_queue_is_bounded_and_reset_clears_pending_samples() {
    let mut queue = AudioPlaybackQueue::default();
    for sequence in 0..=AUDIO_QUEUE_CAPACITY as u64 {
        queue.push(DecodedAudioEvent::Samples(samples(
            sequence,
            sequence * 10_000,
        )), start());
    }
    assert_eq!(queue.snapshot().pending_packets, AUDIO_QUEUE_CAPACITY);
    assert_eq!(queue.snapshot().queue_drops, 1);
    queue.push(DecodedAudioEvent::Reset { generation: 2 }, start());
    assert_eq!(queue.take_reset(), Some(2));
    assert_eq!(queue.snapshot().pending_packets, 0);
    assert_eq!(queue.snapshot().resets, 1);
}

#[test]
fn audio_queue_reports_a_completed_video_sync_hold() {
    let mut queue = AudioPlaybackQueue::default();
    let mut decoded = samples(1, 100_001);
    decoded.diagnostics = true;
    queue.push(DecodedAudioEvent::Samples(decoded), start());
    assert!(queue.pop_for_video(Some(60_000), start()).is_none());
    assert!(matches!(
        queue.pop_for_video(Some(60_001), start()),
        Some(AudioPlaybackDecision::Samples {
            sync_hold_duration: Some(_),
            ..
        })
    ));
}

#[test]
fn audio_decode_planner_resets_generations_and_bounds_gap_concealment() {
    let mut planner = AudioDecodePlanner::default();
    assert!(matches!(
        planner.plan(packet(1, 0)).as_slice(),
        [
            AudioDecodeAction::Reset { generation: 1 },
            AudioDecodeAction::Decode(_)
        ]
    ));
    let actions = planner.plan(packet(1, 10));
    assert!(matches!(
        actions.as_slice(),
        [
            AudioDecodeAction::Reset { generation: 1 },
            AudioDecodeAction::Conceal {
                sequence: 1,
                packets: 4,
                ..
            },
            AudioDecodeAction::Decode(_)
        ]
    ));
}

#[test]
fn audio_decode_planner_discards_stale_generations_after_recovery() {
    let mut planner = AudioDecodePlanner::default();
    planner.plan(packet(2, 0));
    assert!(planner.plan(packet(1, 1)).is_empty());
    planner.decoder_failed(2);
    assert!(planner.plan(packet(2, 1)).is_empty());
    assert!(matches!(
        planner.plan(packet(3, 0)).as_slice(),
        [
            AudioDecodeAction::Reset { generation: 3 },
            AudioDecodeAction::Decode(_)
        ]
    ));
}

#[test]
fn fake_audio_decode_reaches_the_playback_queue() {
    let mut planner = AudioDecodePlanner::default();
    let actions = planner.plan(packet(1, 7));
    let encoded = actions
        .into_iter()
        .find_map(|action| match action {
            AudioDecodeAction::Decode(input) => Some(input),
            _ => None,
        })
        .unwrap();
    let mut queue = AudioPlaybackQueue::default();
    queue.push(DecodedAudioEvent::Samples(samples(
        encoded.packet.sequence,
        encoded.packet.captured_at_micros,
    )), start());

    assert!(matches!(
        queue.pop_for_video(Some(70_000), start()),
        Some(AudioPlaybackDecision::Samples { decoded, .. })
            if decoded.sequence == 7 && decoded.samples.len() == 960
    ));
}

#[test]
fn video_clock_advances_from_the_presented_source_timestamp() {
    let presented_at = start();
    let clock = VideoPlaybackClock::new(5_000, presented_at);
    assert_eq!(
        clock.timestamp_at(presented_at.after(Duration::from_millis(100))),
        105_000
    );
}

#[test]
fn fake_received_frame_reaches_the_presentation_queue() {
    #[derive(Debug, Eq, PartialEq)]
    struct FakeDecodedFrame {
        sequence: u64,
        payload: Vec<u8>,
    }

    let frame = VideoFramePayload {
        sequence: 7,
        captured_at_micros: 10,
        encoded_at_micros: 20,
        packetized_at_micros: 30,
        input_sequence: 4,
        keyframe: true,
        target_bitrate_bits_per_second: 40_000_000,
        estimated_capacity_bits_per_second: 50_000_000,
        payload: vec![42; 64 * 1024],
    };
    let transport = StreamTransportStatistics {
        round_trip_time: Duration::from_millis(5),
        assembly: VideoAssemblyStats {
            completed_frames: 1,
            completed_payload_bytes: frame.payload.len() as u64,
            ..VideoAssemblyStats::default()
        },
        assembled_at: Some(start()),
        assembled_at_micros: 40,
        assembly_duration: Duration::from_millis(1),
        assembled_payload_sha256: None,
    };
    let sample = VideoStreamSample::from_frame(&frame, transport);

    // This is the codec boundary: a deterministic fake decoder preserves the
    // sequence and makes the encoded payload available as a fake frame.
    let decoded = FakeDecodedFrame {
        sequence: frame.sequence,
        payload: frame.payload,
    };
    let mut queue = LatestVideoQueue::default();
    queue.push(decoded);
    let (presented, depth) = queue.take_latest();

    assert_eq!(depth, 1);
    assert_eq!(sample.encoded_frame_bytes, 64 * 1024);
    assert_eq!(
        presented,
        Some(FakeDecodedFrame {
            sequence: 7,
            payload: vec![42; 64 * 1024],
        })
    );
}

#[test]
fn every_pushed_frame_is_taken_dropped_cleared_or_waits() {
    let mut queue = LatestVideoQueue::default();
    let mut taken = 0;
    let mut cleared = 0;
    for frame in 0..10_u64 {
        queue.push(frame);
        match frame {
            4 | 8 => {
                assert_eq!(queue.take_latest().0, Some(frame));
                taken += 1;
            }
            6 => {
                queue.clear();
                cleared += 2;
            }
            _ => {}
        }
    }
    assert_eq!(queue.dropped(), 10 - taken - cleared - 1);
    assert_eq!(queue.take_latest(), (Some(9), 1));
    assert_eq!(queue.take_latest(), (None, 0));
}
