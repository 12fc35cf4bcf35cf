//! Records of payload digests.

use rustconsole::protocol::diagnostics::{MediaKind, PayloadDigest, RECORD_SIZE};

#[test]
fn payload_digest_has_a_fixed_round_trip() {
    let record = PayloadDigest {
        kind: MediaKind::Video,
        generation: 3,
        sequence: 4,
        payload_size: 5,
        hashed_at_micros: 6,
        producer_hash_duration_micros: 7,
        boundary_hash_duration_micros: 8,
        producer_dropped_records: 9,
        boundary_matched: true,
        sha256: [8; 32],
        encode_started_at_micros: 10,
        encoded_at_micros: 11,
        worker_queued_at_micros: 12,
        service_received_at_micros: 13,
        packetized_at_micros: 14,
        captured_at_micros: 9,
        mirror_decode_micros: 15,
        quality_present: true,
        quality_presentation_timestamp: -4,
        source_readback_micros: 16,
        decoded_readback_micros: 17,
        scoring_micros: 18,
        readback_bytes: 19,
        luma_psnr_millidecibels: 20,
        luma_mean_absolute_error_ppm: 21,
        packetization_completed_at_micros: 22,
        first_send_attempt_at_micros: 23,
        last_send_completed_at_micros: 24,
        capture_acquisition_micros: 25,
        cross_adapter_copy_micros: 26,
        color_conversion_micros: 27,
        encoder_call_micros: 28,
        audio_capture_buffer_frames: 29,
        audio_capture_discontinuities: 30,
        audio_invalid_capture_timestamps: 31,
        audio_device_reopens: 32,
        audio_encoder_resets: 33,
        audio_capture_queue_depth: 34,
        audio_capture_queue_capacity: 35,
        audio_capture_queue_drops: 36,
    };
    let bytes = record.encode();
    assert_eq!(bytes.len(), RECORD_SIZE);
    assert_eq!(PayloadDigest::decode(&bytes), Ok(record));
    assert!(PayloadDigest::decode(&bytes[..RECORD_SIZE - 1]).is_err());
    let mut unknown = bytes;
    unknown[0] = 0;
    assert!(PayloadDigest::decode(&unknown).is_err());
}
