//! What is measured of a session.

use rustconsole::protocol::av1::{ChromaSubsampling, VideoBitDepth};
use rustconsole::protocol::features::{FeatureId, NegotiatedFeature, ProtocolVersion};
use rustconsole::session::statistics::{
    AudioCodec, ClockOffsetEstimate, Distribution, FullFrameCopyStatistics, InvalidDistribution,
    NegotiatedConfiguration, PipelineQueue, QueueStatistics, SessionStatistics, VideoCodec,
};

#[test]
fn distribution_requires_samples_and_ordered_quantiles() {
    assert_eq!(
        Distribution::new(0, 1, 2, 3, 4),
        Err(InvalidDistribution::NoSamples)
    );
    assert_eq!(
        Distribution::new(4, 1, 3, 2, 4),
        Err(InvalidDistribution::QuantilesOutOfOrder)
    );

    let distribution = Distribution::new(4, 1, 2, 3, 4).unwrap();
    assert_eq!(distribution.sample_count(), 4);
    assert_eq!(distribution.median(), 1);
    assert_eq!(distribution.percentile_95(), 2);
    assert_eq!(distribution.percentile_99(), 3);
    assert_eq!(distribution.worst(), 4);
}

#[test]
fn queue_statistics_are_keyed_by_pipeline_boundary() {
    let mut statistics = SessionStatistics::default();
    statistics.queues.insert(
        PipelineQueue::DecodeToPresentation,
        QueueStatistics {
            capacity_items: 2,
            depth_items: 1,
            residence_micros: Some(Distribution::new(8, 400, 700, 900, 1_100).unwrap()),
            overflow_count: 3,
            dropped_items: 3,
        },
    );

    let queue = &statistics.queues[&PipelineQueue::DecodeToPresentation];
    assert_eq!(queue.capacity_items, 2);
    assert_eq!(queue.residence_micros.unwrap().percentile_99(), 900);
    assert_eq!(queue.overflow_count, queue.dropped_items);
}

#[test]
fn snapshot_keeps_negotiation_clock_uncertainty_and_copy_boundary() {
    let mut statistics = SessionStatistics {
        negotiated: Some(NegotiatedConfiguration {
            protocol: ProtocolVersion::current(),
            features: vec![NegotiatedFeature {
                id: FeatureId::new(1).unwrap(),
                version: 2,
            }],
            video_codec: VideoCodec::Av1,
            video_width: 2560,
            video_height: 1440,
            video_frames_per_second: 120,
            video_chroma_subsampling: ChromaSubsampling::Yuv420,
            video_bit_depth: VideoBitDepth::Ten,
            video_maximum_bitrate_bits_per_second: 80_000_000,
            audio_codec: AudioCodec::Opus,
            audio_sample_rate_hz: 48_000,
            audio_channels: 2,
        }),
        clock_offset: Some(ClockOffsetEstimate {
            offset_micros: -120,
            uncertainty_micros: 35,
        }),
        ..SessionStatistics::default()
    };
    statistics.full_frame_copies.insert(
        PipelineQueue::DecodeToPresentation,
        FullFrameCopyStatistics {
            copy_count: 3,
            copied_bytes: 33_177_600,
            duration_micros: Some(Distribution::new(3, 300, 400, 450, 500).unwrap()),
        },
    );

    let negotiated = statistics.negotiated.unwrap();
    assert_eq!(negotiated.video_frames_per_second, 120);
    assert_eq!(negotiated.video_bit_depth, VideoBitDepth::Ten);
    assert_eq!(negotiated.video_maximum_bitrate_bits_per_second, 80_000_000);
    assert_eq!(statistics.clock_offset.unwrap().uncertainty_micros, 35);
    assert_eq!(
        statistics.full_frame_copies[&PipelineQueue::DecodeToPresentation].copy_count,
        3
    );
}
