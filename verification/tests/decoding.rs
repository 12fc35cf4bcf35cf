//! What becomes of packets and frames at the decoders.

use rustconsole::player::audio_decoder::{begin_decoding, conceal, StreamAudioDecoder};
use rustconsole::player::audio_planning::EncodedAudioDecodeInput;
use rustconsole::player::audio_playback::DecodedAudioEvent;
use rustconsole::player::frame_decoding::{
    Av1ColorDescription, DecodeTimes, DecodedFrameFault, MarkerCopy, StreamVideoDecoder,
};
use rustconsole::player::frame_sink::NativeVideoSink;
use rustconsole::player::payload_integrity::local_payload_digest;
use rustconsole::player::progress::{
    StreamProgress, StreamTransportStatistics, VideoStreamSample,
};
use rustconsole::protocol::audio::AudioPacket;
use rustconsole::protocol::av1::{
    Av1Mode, ChromaSubsampling, NegotiatedAv1Configuration, VideoBitDepth,
};
use rustconsole::protocol::diagnostics::MediaKind;
use rustconsole::session::video_assembly::VideoAssemblyStats;
use rustconsole::session::video_datagram::VideoFramePayload;
use rustconsole::time::{Duration, Instant};

fn at(micros: u64) -> Instant {
    Instant::from_nanos(micros * 1_000)
}

fn sha256(payload: &[u8]) -> [u8; 32] {
    local_payload_digest(MediaKind::Audio, 1, 1, payload, 0, 0).sha256
}

fn input(hash: Option<[u8; 32]>) -> EncodedAudioDecodeInput {
    EncodedAudioDecodeInput {
        packet: AudioPacket {
            generation: 2,
            sequence: 7,
            captured_at_micros: 900,
            decoded_samples: 480,
            skip_start_samples: 0,
            skip_end_samples: 0,
            payload: vec![1, 2, 3],
        },
        assembled_at: at(100),
        released_at: at(140),
        assembled_at_micros: 100,
        assembled_payload_sha256: hash,
    }
}

#[test]
fn a_decoded_packet_carries_its_times() {
    let mut decoder = StreamAudioDecoder::default();
    let packet = begin_decoding(&input(Some(sha256(&[1, 2, 3]))), Duration::from_micros(4));
    assert_eq!(packet.matched, Some(true));
    assert_eq!(packet.hash_duration, Duration::from_micros(4));
    let event = decoder.finish(true, packet, at(150), at(170), Ok::<_, String>("samples"));
    let DecodedAudioEvent::Samples(samples) = event else {
        panic!("expected samples");
    };
    assert_eq!(samples.ordered_playout_duration, Some(Duration::from_micros(40)));
    assert_eq!(samples.decoder_queue_duration, Some(Duration::from_micros(10)));
    assert_eq!(samples.decode_duration, Duration::from_micros(20));
    assert_eq!((samples.sequence, samples.encoded_bytes, samples.samples), (7, 3, "samples"));
    assert_eq!(decoder.expected, Some(8));
    let tampered = begin_decoding(&input(Some(sha256(&[1, 2, 4]))), Duration::from_micros(4));
    assert_eq!(tampered.matched, Some(false));
    let unhashed = begin_decoding(&input(None), Duration::from_micros(4));
    assert_eq!((unhashed.matched, unhashed.hash_duration), (None, Duration::from_nanos(0)));
}

#[test]
fn a_failed_packet_ends_its_generation() {
    let mut decoder = StreamAudioDecoder::default();
    let packet = begin_decoding(&input(None), Duration::from_nanos(0));
    let event = decoder.finish::<()>(false, packet, at(1), at(2), Err("broken".to_owned()));
    assert!(matches!(
        event,
        DecodedAudioEvent::Failed { generation: 2, detail } if detail == "broken"
    ));
    assert_eq!(decoder.failed_generation, Some(2));
}

#[test]
fn silence_stands_for_lost_packets() {
    let timed = conceal(true, 2, 4, 500, 3, Some((at(10), at(25), 10)), at(30), ());
    assert_eq!(timed.assembled_at, at(10));
    assert_eq!(timed.ordered_playout_duration, Some(Duration::from_micros(15)));
    assert_eq!((timed.concealed_packets, timed.encoded_bytes), (3, 0));
    let untimed = conceal(true, 2, 4, 500, 3, None, at(30), ());
    assert_eq!((untimed.assembled_at, untimed.assembled_at_micros), (at(30), 0));
    assert_eq!(untimed.ordered_playout_duration, None);
}

fn frame() -> VideoFramePayload {
    VideoFramePayload {
        sequence: 5,
        captured_at_micros: 1,
        encoded_at_micros: 2,
        packetized_at_micros: 3,
        input_sequence: 9,
        keyframe: true,
        target_bitrate_bits_per_second: 10,
        estimated_capacity_bits_per_second: 20,
        payload: vec![8; 12],
    }
}

fn transport(hash: Option<[u8; 32]>) -> StreamTransportStatistics {
    StreamTransportStatistics {
        round_trip_time: Duration::from_micros(77),
        assembly: VideoAssemblyStats::default(),
        assembled_at: Some(at(50)),
        assembled_at_micros: 50,
        assembly_duration: Duration::from_micros(6),
        assembled_payload_sha256: hash,
    }
}

fn negotiated(bit_depth: VideoBitDepth) -> StreamProgress {
    StreamProgress::VideoNegotiated(NegotiatedAv1Configuration {
        width: 1,
        height: 1,
        frames_per_second: 1,
        mode: Av1Mode {
            chroma_subsampling: ChromaSubsampling::Yuv420,
            bit_depth,
        },
        maximum_bitrate_bits_per_second: 1,
    })
}

#[test]
fn colours_agree_with_the_negotiated_depth() {
    let mut decoder = StreamVideoDecoder::new(false);
    let bt709 = Some(Av1ColorDescription::Bt709Limited);
    let bt2020 = Some(Av1ColorDescription::Bt2020PqLimited);
    assert_eq!(
        decoder.require_color(bt709),
        Err(DecodedFrameFault::ColorContradictsDepth)
    );
    decoder.note(&negotiated(VideoBitDepth::Eight));
    decoder.note(&StreamProgress::WaitingForVideoPackets);
    assert_eq!(
        decoder.require_color(bt709),
        Ok(Av1ColorDescription::Bt709Limited)
    );
    assert!(decoder.require_color(bt2020).is_err());
    decoder.note(&negotiated(VideoBitDepth::Ten));
    assert!(decoder.require_color(bt709).is_err());
    assert!(decoder.require_color(bt2020).is_ok());
    assert_eq!(
        decoder.require_color(None),
        Err(DecodedFrameFault::UnsupportedColorMetadata)
    );
}

#[test]
fn a_decoded_frame_carries_what_is_known_of_it() {
    let decoder = StreamVideoDecoder::new(true);
    let times = DecodeTimes {
        hash_duration: Duration::from_micros(2),
        decode_started: at(60),
        decode_finished: at(75),
    };
    let copy = MarkerCopy {
        duration: Duration::from_micros(3),
        bytes: 64,
        applied: Some(9),
    };
    let color = Av1ColorDescription::Bt709Limited;
    let decoded = decoder.complete(
        &frame(),
        transport(Some(sha256(&[8; 12]))),
        times,
        Some(copy),
        color,
        "picture",
    );
    assert_eq!(decoded.decoder_queue_duration, Some(Duration::from_micros(10)));
    assert_eq!(decoded.decode_duration, Duration::from_micros(15));
    assert_eq!(decoded.decoded_at, Some(at(75)));
    assert_eq!(decoded.assembly_to_decoder_matched, Some(true));
    assert_eq!(decoded.diagnostic_marker_input_sequence, Some(9));
    assert_eq!((decoded.encoded_frame_bytes, decoded.frame), (12, "picture"));
    let plain = StreamVideoDecoder::new(false);
    let decoded = plain.complete(&frame(), transport(None), times, None, color, ());
    assert_eq!(decoded.decoded_at, None);
    assert_eq!(decoded.decoder_input_hash_duration, Duration::from_nanos(0));
    assert_eq!(decoded.diagnostic_copy_duration, None);
    let sample = VideoStreamSample::from_frame(&frame(), transport(None));
    assert_eq!(sample.encoded_frame_bytes, 12);
    assert_eq!(sample.round_trip_time, Duration::from_micros(77));
}

#[test]
fn a_changed_mark_shows_an_applied_input() {
    let mut decoder = StreamVideoDecoder::new(true);
    assert!(decoder.probe(0, 0));
    assert_eq!(decoder.observe(&[255, 0, 0], 8, 0), None);
    assert!(!decoder.probe(3, 4));
    assert!(decoder.probe(4, 4));
    assert_eq!(decoder.observe(&[255, 0, 128], 8, 4), None);
    assert!(decoder.probe(5, 4));
    assert_eq!(decoder.observe(&[255, 0, 255], 8, 4), Some(4));
    assert!(!decoder.probe(6, 4));
}

#[test]
fn the_sink_gives_the_newest_frame() {
    let mut sink = NativeVideoSink::new();
    assert!(sink.is_empty());
    assert_eq!(sink.take_latest(), None);
    for frame in 0..4 {
        sink.submit(frame);
    }
    assert_eq!(sink.take_latest(), Some(3));
    assert!(sink.is_empty());
}
