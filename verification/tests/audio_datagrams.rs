//! Audio packets in datagrams.

use rustconsole::protocol::audio::{AudioPacket, HEADER_SIZE};
use rustconsole::session::audio_assembly::{AudioAssembler, audio_wait};
use rustconsole::session::audio_datagram::packetize;
use rustconsole::time::Instant;

#[test]
fn extreme_sequences_do_not_overflow_or_reopen_completed_packets() {
    let now = Instant::from_nanos(1_000_000);
    let mut assembler = AudioAssembler::default();
    for generation in 1..4 {
        let mut source = packet(u64::MAX);
        source.generation = generation;
        let chunks = packetize(&source, 1200).unwrap();
        for chunk in &chunks {
            assembler.push(chunk, now);
        }
        assert!(assembler.push(&chunks[0], now).is_none());
    }
    assert_eq!(assembler.statistics().completed_packets, 3);
    assert_eq!(assembler.statistics().missing_packets, u64::MAX);
}
fn packet(sequence: u64) -> AudioPacket {
    AudioPacket {
        generation: 1,
        sequence,
        captured_at_micros: 1_000,
        decoded_samples: 480,
        skip_start_samples: 312,
        skip_end_samples: 0,
        payload: vec![42; 2500],
    }
}

#[test]
fn reordered_packets_are_not_lost_and_overlapping_fragments_are_rejected() {
    let now = Instant::from_nanos(1_000_000);
    let mut assembler = AudioAssembler::default();
    for seq in [0, 2, 1, 3, 4, 5] {
        for bytes in packetize(&packet(seq), 1200).unwrap() {
            assembler.push(&bytes, now);
        }
    }
    assert_eq!(assembler.statistics().missing_packets, 0);
    let chunks = packetize(&packet(6), 1200).unwrap();
    assembler.push(&chunks[0], now);
    let mut overlapping = chunks[1].clone();
    overlapping[44..46].copy_from_slice(&0_u16.to_be_bytes());
    assert!(assembler.push(&overlapping, now).is_none());
    assert!(!assembler.partial_sequences().contains(&6));
    assert_eq!(assembler.statistics().malformed_fragments, 1);
}

#[test]
fn fragmented_packets_round_trip_in_reverse_order_and_duplicates_are_ignored() {
    let now = Instant::from_nanos(1_000_000);
    let source = packet(0);
    let chunks = packetize(&source, 1200).unwrap();
    let mut assembler = AudioAssembler::default();
    let mut output = None;
    for chunk in chunks.iter().rev() {
        output = assembler.push(chunk, now).or(output);
    }
    assert_eq!(output, Some(source));
    assert!(assembler.push(&chunks[0], now).is_none());
    assert_eq!(assembler.statistics().completed_packets, 1);
    assert_eq!(assembler.statistics().duplicate_fragments, 1);
}

#[test]
fn expiry_overflow_generation_and_malformed_data_are_bounded() {
    let now = Instant::from_nanos(1_000_000);
    let mut assembler = AudioAssembler::default();
    for seq in 0..5 {
        assembler.push(&packetize(&packet(seq), 1200).unwrap()[0], now);
    }
    assert_eq!(assembler.partial_sequences().len(), 4);
    assert_eq!(assembler.statistics().overflow_packets, 1);
    assembler.expire(now.after(audio_wait()));
    assert!(assembler.partial_sequences().is_empty());
    assert_eq!(assembler.statistics().expired_packets, 4);
    assert!(
        assembler
            .push(&packetize(&packet(4), 1200).unwrap()[1], now.after(audio_wait()))
            .is_none()
    );
    assembler.generation(2);
    assert!(
        assembler
            .push(&packetize(&packet(6), 1200).unwrap()[0], now.after(audio_wait()))
            .is_none()
    );
    assembler.push(b"bad", now.after(audio_wait()));
    assert_eq!(assembler.statistics().malformed_fragments, 1);
    assert!(packetize(&packet(0), HEADER_SIZE).is_err());
    assert!(packetize(&packet(0), HEADER_SIZE + 1).is_err());
}

#[test]
fn a_fragment_of_a_completed_packet_counts_as_a_duplicate_alone() {
    let now = Instant::from_nanos(1_000_000);
    let chunks = packetize(&packet(3), 1200).unwrap();
    let mut assembler = AudioAssembler::default();
    let completed: Vec<bool> = [1, 2, 0]
        .iter()
        .map(|index: &usize| assembler.push(&chunks[*index], now).is_some())
        .collect();
    assert_eq!(completed, [false, false, true]);
    let mut expected = assembler.statistics();
    assert_eq!(expected.completed_packets, 1);
    assert_eq!(expected.payload_bytes, 2500);
    for chunk in &chunks {
        assert!(assembler.push(chunk, now.after(audio_wait())).is_none());
        expected.received_fragments += 1;
        expected.duplicate_fragments += 1;
        assert_eq!(assembler.statistics(), expected);
    }
}

#[test]
fn a_history_completes_no_packet_twice_and_its_generations_never_fall() {
    let now = Instant::from_nanos(1_000_000);
    let mut assembler = AudioAssembler::default();
    let mut completed = Vec::new();
    for (generation, sequence) in [(1, 0), (1, 2), (1, 0), (2, 0), (1, 3), (2, 9), (2, 0), (2, 5)] {
        let mut source = packet(sequence);
        source.generation = generation;
        source.payload = (0..2500_usize).map(|value| value as u8).collect();
        for chunk in packetize(&source, 1200).unwrap().iter().rev() {
            if let Some(packet) = assembler.push(chunk, now) {
                assert_eq!(packet.payload, source.payload);
                completed.push((packet.generation, packet.sequence));
            }
        }
        assembler.expire(now);
    }
    assert_eq!(completed, [(1, 0), (1, 2), (2, 0), (2, 9)]);
    assert_eq!(assembler.statistics().completed_packets, 4);
    assert_eq!(assembler.statistics().payload_bytes, 10_000);
}
