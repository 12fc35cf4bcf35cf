//! Video frames in datagrams.

use rustconsole::session::video_assembly::{assembly_deadline, VideoFrameAssembler};
use rustconsole::session::video_datagram::{
    packetize_video_frame, VideoFramePayload, VIDEO_DATAGRAM_HEADER_SIZE,
};
use rustconsole::time::{Duration, Instant};

fn frame(sequence: u64, size: usize) -> VideoFramePayload {
    VideoFramePayload {
        sequence,
        captured_at_micros: 42,
        encoded_at_micros: 52,
        packetized_at_micros: 62,
        input_sequence: 7,
        keyframe: sequence == 1,
        target_bitrate_bits_per_second: 20_000_000,
        estimated_capacity_bits_per_second: 24_000_000,
        payload: (0..size).map(|value| value as u8).collect(),
    }
}

#[test]
fn packetization_round_trips_out_of_order() {
    let frame = frame(1, 2_000);
    let mut datagrams = packetize_video_frame(&frame, 1_200).unwrap();
    datagrams.reverse();
    let now = Instant::from_nanos(1_000_000);
    let mut assembler = VideoFrameAssembler::new(120);
    let mut assembled = None;
    for datagram in datagrams {
        assembled = assembler
            .push(&datagram, now, Duration::from_millis(5))
            .unwrap()
            .frame
            .or(assembled);
    }
    assert_eq!(assembled, Some(frame));
}

#[test]
fn third_sequence_discards_the_oldest_incomplete_frame() {
    let now = Instant::from_nanos(1_000_000);
    let mut assembler = VideoFrameAssembler::new(120);
    for sequence in 1..=3 {
        let datagram = packetize_video_frame(&frame(sequence, 2_000), 1_200)
            .unwrap()
            .remove(0);
        let result = assembler
            .push(&datagram, now, Duration::from_millis(5))
            .unwrap();
        assert_eq!(result.dependency_lost, sequence == 3);
    }
    assert_eq!(
        assembler.partial_sequences(),
        [2, 3]
    );
    assert_eq!(assembler.stats().incomplete_frames, 1);
}

#[test]
fn slow_ninety_one_chunk_frame_reports_progress_before_eviction() {
    let now = Instant::from_nanos(1_000_000);
    let datagram_size = 1_200;
    let chunk_capacity = datagram_size - VIDEO_DATAGRAM_HEADER_SIZE;
    let mut assembler = VideoFrameAssembler::new(120);
    let first = packetize_video_frame(&frame(1, chunk_capacity * 90 + 1), datagram_size)
        .unwrap()
        .remove(0);
    let progress = assembler
        .push(&first, now, Duration::from_millis(5))
        .unwrap()
        .progress
        .unwrap();
    assert_eq!(progress.received_chunks, 1);
    assert_eq!(progress.expected_chunks, 91);
    assert_eq!(progress.budget, Duration::from_nanos(24_999_999));

    for sequence in 2..=3 {
        let next = packetize_video_frame(&frame(sequence, 2_000), datagram_size)
            .unwrap()
            .remove(0);
        assembler
            .push(
                &next,
                now.after(Duration::from_millis(sequence * 8)),
                Duration::from_millis(5),
            )
            .unwrap();
    }
    assert_eq!(assembler.stats().incomplete_frames, 1);
    assert_eq!(assembler.stats().assembly_overflows, 1);
    assert_eq!(assembler.stats().lost_chunks, 90);
}

#[test]
fn skipped_complete_sequence_loses_decoder_dependency() {
    let now = Instant::from_nanos(1_000_000);
    let mut assembler = VideoFrameAssembler::new(120);
    let first = packetize_video_frame(&frame(1, 16), 1_200)
        .unwrap()
        .remove(0);
    let third = packetize_video_frame(&frame(3, 16), 1_200)
        .unwrap()
        .remove(0);

    assert!(
        !assembler
            .push(&first, now, Duration::from_millis(5))
            .unwrap()
            .dependency_lost
    );
    let result = assembler
        .push(&third, now, Duration::from_millis(5))
        .unwrap();
    assert_eq!(result.frame, Some(frame(3, 16)));
    assert!(result.dependency_lost);
}

#[test]
fn deadline_uses_three_frames_or_two_rtts_with_a_hard_cap() {
    assert_eq!(
        assembly_deadline(Duration::from_millis(8), Duration::from_millis(5)),
        Duration::from_millis(24)
    );
    assert_eq!(
        assembly_deadline(Duration::from_millis(8), Duration::from_millis(40)),
        Duration::from_millis(80)
    );
    assert_eq!(
        assembly_deadline(Duration::from_millis(8), Duration::from_millis(80)),
        Duration::from_millis(100)
    );
}

#[test]
fn statistics_count_expiry_overflow_and_late_chunks() {
    let now = Instant::from_nanos(1_000_000);
    let mut assembler = VideoFrameAssembler::new(120);
    for sequence in 1..=3 {
        let datagram = packetize_video_frame(&frame(sequence, 2_000), 1_200)
            .unwrap()
            .remove(0);
        assembler
            .push(&datagram, now, Duration::from_millis(5))
            .unwrap();
    }
    assert_eq!(assembler.stats().assembly_overflows, 1);
    assert_eq!(assembler.stats().lost_chunks, 1);

    let completed = packetize_video_frame(&frame(4, 16), 1_200)
        .unwrap()
        .remove(0);
    assembler
        .push(&completed, now, Duration::from_millis(5))
        .unwrap();
    assert_eq!(assembler.stats().completed_frames, 1);
    assert_eq!(assembler.stats().completed_payload_bytes, 16);
    assert_eq!(assembler.stats().last_completed_assembly_micros, 0);
    assert_eq!(assembler.stats().last_assembly_budget_micros, 24_999);
    assembler
        .push(&completed, now, Duration::from_millis(5))
        .unwrap();
    assert_eq!(assembler.stats().late_chunks, 1);

    let later = now.after(Duration::from_millis(101));
    let next = packetize_video_frame(&frame(5, 16), 1_200)
        .unwrap()
        .remove(0);
    assembler
        .push(&next, later, Duration::from_millis(5))
        .unwrap();
    assert_eq!(assembler.stats().lost_chunks, 3);
    assert_eq!(assembler.stats().incomplete_frames, 3);
}

#[test]
fn every_datagram_of_a_frame_tells_how_many_have_come() {
    let frame = frame(9, 5_000);
    let datagrams = packetize_video_frame(&frame, 1_200).unwrap();
    let now = Instant::from_nanos(1_000_000);
    let mut assembler = VideoFrameAssembler::new(60);
    let mut order: Vec<usize> = (0..datagrams.len()).collect();
    order.rotate_left(2);
    for (count, index) in order.iter().enumerate() {
        let result = assembler
            .push(&datagrams[*index], now, Duration::from_millis(5))
            .unwrap();
        let progress = result.progress.unwrap();
        assert_eq!(progress.received_chunks, count + 1);
        assert_eq!(progress.expected_chunks, 5);
        assert!(!result.dependency_lost);
        if count + 1 == order.len() {
            assert_eq!(result.frame, Some(frame.clone()));
        } else {
            assert_eq!(result.frame, None);
        }
    }
    assert_eq!(order.len(), 5);
}

#[test]
fn completed_frames_rise_whatever_comes_when() {
    let now = Instant::from_nanos(1_000_000);
    let mut assembler = VideoFrameAssembler::new(120);
    let mut completed = Vec::new();
    let first = packetize_video_frame(&frame(1, 2_000), 1_200).unwrap();
    let second = packetize_video_frame(&frame(2, 2_000), 1_200).unwrap();
    let third = packetize_video_frame(&frame(3, 2_000), 1_200).unwrap();
    for datagram in [
        &first[0], &second[0], &second[1], &first[1], &first[0], &third[1], &second[0], &third[0],
    ] {
        let result = assembler
            .push(datagram, now, Duration::from_millis(5))
            .unwrap();
        completed.extend(result.frame.map(|frame| frame.sequence));
    }
    assert_eq!(completed, [2, 3]);
}
