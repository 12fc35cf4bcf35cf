//! A running stream, driven message by message and tick by tick.

use rustconsole::player::input_pipeline::InputError;
use rustconsole::player::keyboard_leds::KeyboardLedError;
use rustconsole::player::payload_integrity::local_payload_digest;
use rustconsole::player::progress::StreamProgress;
use rustconsole::player::receiver::VIDEO_GENERATION;
use rustconsole::player::stream_control::{StreamEnd, StreamFault};
use rustconsole::player::stream_session::{StreamSession, TickStart};
use rustconsole::protocol::diagnostics::{MediaKind, PayloadDigest, RECORD_SIZE};
use rustconsole::protocol::features::InputEvent;
use rustconsole::protocol::wire::envelope::Body;
use rustconsole::protocol::wire::input_transition::Action;
use rustconsole::protocol::wire::{
    AudioStatus, AudioStreamState, ClockPong, Envelope, HostSessionControl, HostSessionControlKind,
    InputAck, KeyboardLeds, VideoReconfigurationCause, VideoStreamState, VideoStreamStatus,
};
use rustconsole::session::video_datagram::{packetize_video_frame, VideoFramePayload};
use rustconsole::time::{Duration, Instant};

fn at(millis: u64) -> Instant {
    Instant::from_nanos(10_000_000_000 + millis * 1_000_000)
}

fn session(diagnostics: bool) -> StreamSession {
    StreamSession::new(120, true, true, diagnostics, Duration::from_millis(10), at(0))
}

fn message(body: Body) -> Envelope {
    Envelope { body: Some(body) }
}

fn frame(sequence: u64, keyframe: bool) -> VideoFramePayload {
    VideoFramePayload {
        sequence,
        captured_at_micros: 1_000,
        encoded_at_micros: 1_100,
        packetized_at_micros: 1_200,
        input_sequence: 0,
        keyframe,
        target_bitrate_bits_per_second: 1_000_000,
        estimated_capacity_bits_per_second: 2_000_000,
        payload: vec![42; 100],
    }
}

fn arrive(session: &mut StreamSession, sequence: u64, keyframe: bool, millis: u64) {
    for datagram in packetize_video_frame(&frame(sequence, keyframe), 1_200).expect("datagrams") {
        session
            .receiver
            .datagram(&datagram, at(millis), Duration::from_millis(10), 0, millis * 1_000)
            .expect("a datagram of this stream");
    }
}

#[test]
fn the_first_frame_is_told_and_decoded() {
    let mut session = session(false);
    arrive(&mut session, 0, true, 1);
    let round = session.round(false, at(2), 2_000);
    let (decoded, arrival) = round.frame.expect("a frame");
    assert_eq!(decoded.sequence, 0);
    assert_eq!(arrival.round_trip_time, Duration::from_millis(10));
    assert_eq!(arrival.assembled_at, None);
    assert_eq!(arrival.assembled_at_micros, 2_000);
    assert_eq!(arrival.assembly.completed_frames, 1);
    assert!(round.progress.contains(&StreamProgress::FirstFrameAssembled {
        target_bitrate_bits_per_second: 1_000_000,
        estimated_capacity_bits_per_second: 2_000_000,
    }));
    assert!(!round.over);
    arrive(&mut session, 1, false, 3);
    let round = session.round(false, at(4), 4_000);
    assert!(round.frame.is_some());
    assert!(round.progress.is_empty());
}

#[test]
fn progress_is_told_every_quarter_of_a_second() {
    let mut session = session(true);
    let told = session.round(false, at(0), 0).progress;
    assert!(matches!(told[0], StreamProgress::AudioTransport(_)));
    assert!(matches!(told[1], StreamProgress::PayloadIntegrityCounters(_)));
    assert!(matches!(
        told[2],
        StreamProgress::DiagnosticQueues(queues) if queues.event_depth == 0
    ));
    assert_eq!(told.len(), 3);
    assert!(session.round(false, at(249), 0).progress.is_empty());
    assert_eq!(session.round(false, at(250), 0).progress.len(), 3);
}

#[test]
fn a_loss_is_answered_with_a_keyframe_request() {
    let mut session = session(false);
    arrive(&mut session, 0, true, 1);
    assert!(session.round(false, at(1), 0).frame.is_some());
    arrive(&mut session, 2, false, 2);
    assert!(session.round(false, at(2), 0).frame.is_none());
    assert!(session.end_tick(at(5), Duration::from_millis(10)).request_keyframe);
    arrive(&mut session, 3, false, 6);
    assert!(session.round(false, at(6), 0).frame.is_none());
    assert!(!session.end_tick(at(10), Duration::from_millis(10)).request_keyframe);
    assert!(session.end_tick(at(1_005), Duration::from_millis(10)).request_keyframe);
    arrive(&mut session, 4, true, 1_010);
    let round = session.round(false, at(1_020), 0);
    assert!(round.frame.is_some());
    assert!(round.progress.contains(&StreamProgress::KeyframeRecovered {
        duration: Duration::from_millis(1_015),
    }));
    assert_eq!(session.timers.keyframe_requests, 2);
    assert!(!session.end_tick(at(3_000), Duration::from_millis(10)).request_keyframe);
}

#[test]
fn a_frame_that_falls_out_of_the_queue_is_a_loss() {
    let mut session = session(false);
    for sequence in 0..3 {
        arrive(&mut session, sequence, sequence == 0, sequence);
    }
    assert!(session.receiver.recover);
    assert!(session.round(false, at(4), 0).frame.is_none());
    assert!(session.gate.request_keyframe && !session.receiver.recover);
}

#[test]
fn the_host_is_told_what_arrived() {
    let mut session = session(false);
    arrive(&mut session, 0, true, 1);
    assert_eq!(session.end_tick(at(499), Duration::from_millis(10)).report, None);
    let report = session
        .end_tick(at(500), Duration::from_millis(10))
        .report
        .expect("a report");
    assert_eq!(report.completed_frames, 1);
    assert_eq!(report.completed_payload_bytes, 100);
    assert_eq!(report.measurement_interval_micros, 500_000);
    assert_eq!(session.end_tick(at(501), Duration::from_millis(10)).report, None);
}

#[test]
fn messages_of_the_host_are_noted_and_told() {
    let mut session = session(true);
    let told = session.round(false, at(0), 0).progress.len();
    assert_eq!(told, 3);
    let release = message(Body::HostSessionControl(HostSessionControl {
        kind: HostSessionControlKind::ReleasePointerCapture.number(),
    }));
    assert_eq!(session.message(release, 10), Ok(None));
    let pong = ClockPong {
        sequence: 1,
        player_sent_at_micros: 100,
        host_received_at_micros: 1_150,
        host_sent_at_micros: 1_160,
    };
    assert_eq!(session.message(message(Body::ClockPong(pong)), 210), Ok(None));
    let ack = InputAck {
        through_sequence: 7,
        ..InputAck::default()
    };
    assert_eq!(session.message(message(Body::InputAck(ack)), 300), Ok(None));
    let lights = KeyboardLeds {
        generation: 1,
        sequence: 1,
        mask: 3,
    };
    assert_eq!(session.message(message(Body::KeyboardLeds(lights)), 400), Ok(None));
    let told = session.round(false, at(1), 0).progress;
    assert_eq!(told.len(), 4);
    assert_eq!(told[0], StreamProgress::ReleasePointerCapture);
    assert!(matches!(
        told[1],
        StreamProgress::ClockOffset(estimate)
            if estimate.offset_micros == 1_000 && estimate.uncertainty_micros == 50
    ));
    assert_eq!(
        told[2],
        StreamProgress::InputAcknowledged {
            ack,
            player_received_at_micros: 300
        }
    );
    assert_eq!(
        told[3],
        StreamProgress::KeyboardLeds {
            generation: 1,
            sequence: 1,
            mask: 3
        }
    );
    assert!(session.round(false, at(2), 0).progress.is_empty());
}

#[test]
fn a_message_can_end_the_stream() {
    let mut session = session(false);
    let state = VideoStreamState {
        status: VideoStreamStatus::ReconfigurationRequired.number(),
        cause: VideoReconfigurationCause::Color.number(),
    };
    assert_eq!(
        session.message(message(Body::VideoStreamState(state)), 0),
        Ok(Some(StreamEnd::ReconfigurationRequired(
            VideoReconfigurationCause::Color
        )))
    );
    let unspecified = VideoStreamState { cause: 0, ..state };
    assert_eq!(
        session.message(message(Body::VideoStreamState(unspecified)), 0),
        Err(StreamFault::InvalidVideoStreamState)
    );
    assert_eq!(
        session.message(Envelope { body: None }, 0),
        Err(StreamFault::UnexpectedResponse)
    );
    assert_eq!(
        session.message(
            message(Body::HostSessionControl(HostSessionControl { kind: 0 })),
            0
        ),
        Err(StreamFault::InvalidSessionControl)
    );
    let lights = KeyboardLeds {
        generation: 0,
        sequence: 1,
        mask: 3,
    };
    assert_eq!(
        session.message(message(Body::KeyboardLeds(lights)), 0),
        Err(StreamFault::KeyboardLeds(KeyboardLedError::InvalidState))
    );
    let mut other = StreamSession::new(60, false, false, false, Duration::from_millis(1), at(0));
    assert_eq!(
        other.message(
            message(Body::HostSessionControl(HostSessionControl { kind: 1 })),
            0
        ),
        Err(StreamFault::UnnegotiatedSessionControl)
    );
    let state = AudioStreamState::new(4, AudioStatus::Active, 0, String::new());
    assert_eq!(other.message(message(Body::AudioStreamState(state)), 0), Ok(None));
    assert_eq!(other.receiver.snapshot.audio.host.generation, 0);
}

#[test]
fn a_tick_starts_with_a_ping_or_the_end() {
    let mut plain = session(false);
    assert_eq!(plain.start_tick(false, at(0), 5), Ok(TickStart::Ping(None)));
    assert_eq!(
        plain.start_tick(true, at(0), 5),
        Ok(TickStart::End(StreamEnd::Stopped))
    );
    let mut session = session(true);
    let ping = |start| match start {
        Ok(TickStart::Ping(ping)) => ping.map(|ping| (ping.sequence, ping.player_sent_at_micros)),
        other => panic!("expected a ping, got {other:?}"),
    };
    assert_eq!(ping(session.start_tick(false, at(0), 5)), Some((1, 5)));
    assert_eq!(ping(session.start_tick(false, at(499), 6)), None);
    assert_eq!(ping(session.start_tick(false, at(500), 7)), Some((2, 7)));
    session.timers.clock_sequence = u64::MAX;
    assert_eq!(
        session.start_tick(false, at(1_000), 8),
        Err(StreamFault::ClockSequenceExhausted)
    );
}

#[test]
fn input_is_sent_in_order_and_noted_with_diagnostics() {
    let mut session = session(true);
    session.round(false, at(0), 0);
    let click = InputEvent::PointerButton {
        button: 1,
        pressed: true,
    };
    let motion = InputEvent::PointerMotion {
        delta_x: 3,
        delta_y: -4,
    };
    let step = session.send_input(click, 55);
    let transition = step.transition.expect("a transition");
    assert_eq!((transition.sequence, transition.player_sent_at_micros), (1, 55));
    session.input_sent(click, at(1), at(2), at(3));
    let step = session.send_input(motion, 60);
    assert_eq!(step.transition.map(|transition| transition.sequence), Some(2));
    assert!(step.pointer.is_some());
    session.input_sent(motion, at(4), at(5), at(6));
    assert_eq!(session.send_input(motion, 61).transition, None);
    assert_eq!(
        session.round(false, at(7), 0).progress,
        [StreamProgress::InputSent {
            sequence: 1,
            occurred_at: at(1),
            sent_at: at(2),
            send_completed_at: at(3),
            correlates_test_marker: true,
        }]
    );
    let last = session.release_all().transition.expect("a transition");
    assert_eq!((last.sequence, last.player_sent_at_micros), (3, 0));
    assert!(matches!(last.action, Some(Action::ReleaseAll(_))));
    session.input.input_sequence = u64::MAX;
    assert_eq!(
        session.release_all().error,
        Some(InputError::InputSequenceExhausted)
    );
}

#[test]
fn a_payload_that_both_sides_saw_is_told_once() {
    let mut session = session(true);
    session.round(false, at(0), 0);
    arrive(&mut session, 0, true, 1);
    let seen = local_payload_digest(MediaKind::Video, 0, 0, &[42; 100], 0, 0);
    let mut record = [0_u8; RECORD_SIZE];
    record[0] = 1;
    let mut host = PayloadDigest::decode(&record).expect("a record");
    host.kind = MediaKind::Video;
    host.generation = VIDEO_GENERATION;
    host.payload_size = seen.payload_size;
    host.sha256 = seen.sha256;
    session.host_digest(host);
    let round = session.round(false, at(2), 0);
    assert!(round.progress.iter().any(|told| matches!(
        told,
        StreamProgress::PayloadIntegrity(sample) if sample.matched && sample.sequence == 0
    )));
    let (_, arrival) = round.frame.expect("a frame");
    assert_eq!(arrival.assembled_payload_sha256, Some(seen.sha256));
    assert_eq!(arrival.assembled_at, Some(at(2)));
    assert!(session.round(false, at(3), 0).progress.is_empty());
}

#[test]
fn the_consumer_stops_when_nothing_more_can_come() {
    let mut session = session(false);
    arrive(&mut session, 0, true, 1);
    session.close();
    assert!(!session.round(true, at(2), 0).over);
    assert!(session.round(false, at(3), 0).over);
    let mut running = self::session(false);
    assert!(!running.round(false, at(1), 0).over);
    assert!(running.round(true, at(2), 0).over);
}
