//! Platform-neutral snapshots for session and pipeline statistics.

use crate::protocol::av1::{ChromaSubsampling, VideoBitDepth};
use crate::protocol::features::{NegotiatedFeature, ProtocolVersion};
use std::cmp::Ordering;
use std::collections::BTreeMap;
use vstd::prelude::*;
use vstd::std_specs::cmp::PartialOrdSpec;

verus! {

/// Quantiles of a set of samples.
#[derive(Copy, Debug, PartialEq, Eq)]
pub struct Distribution<T: PartialOrd> {
    sample_count: u64,
    median: T,
    percentile_95: T,
    percentile_99: T,
    worst: T,
}

/// What a [`Distribution`] says.
pub struct DistributionModel<T> {
    pub sample_count: u64,
    pub median: T,
    pub percentile_95: T,
    pub percentile_99: T,
    pub worst: T,
}

#[derive(Clone, Copy, Debug, PartialEq, Eq, Structural)]
pub enum InvalidDistribution {
    NoSamples,
    QuantilesOutOfOrder,
}

impl<T: PartialOrd> View for Distribution<T> {
    type V = DistributionModel<T>;

    closed spec fn view(&self) -> DistributionModel<T> {
        DistributionModel {
            sample_count: self.sample_count,
            median: self.median,
            percentile_95: self.percentile_95,
            percentile_99: self.percentile_99,
            worst: self.worst,
        }
    }
}

/// Whether the order of `T` puts `left` above `right`.
pub open spec fn above<T: PartialOrd>(left: T, right: T) -> bool {
    left.partial_cmp_spec(&right) == Some(Ordering::Greater)
}

impl<T: PartialOrd> DistributionModel<T> {
    pub open spec fn in_order(self) -> bool {
        &&& !above(self.median, self.percentile_95)
        &&& !above(self.percentile_95, self.percentile_99)
        &&& !above(self.percentile_99, self.worst)
    }
}

impl<T: PartialOrd> Distribution<T> {
    /// There are samples, and their quantiles ascend where the order of `T` is
    /// known.
    #[verifier::type_invariant]
    spec fn is_valid(self) -> bool {
        &&& self.sample_count > 0
        &&& T::obeys_partial_cmp_spec() ==> self@.in_order()
    }
}

impl<T: Copy + PartialOrd> Clone for Distribution<T> {
    fn clone(&self) -> (distribution: Self)
        ensures
            distribution == *self,
    {
        *self
    }
}

impl<T: Copy + Ord> Distribution<T> {
    /// A distribution of at least one sample whose quantiles ascend.
    pub fn new(
        sample_count: u64,
        median: T,
        percentile_95: T,
        percentile_99: T,
        worst: T,
    ) -> (result: Result<Self, InvalidDistribution>)
        ensures
            ({
                let model = DistributionModel {
                    sample_count,
                    median,
                    percentile_95,
                    percentile_99,
                    worst,
                };
                match result {
                    Ok(distribution) => distribution@ == model && sample_count > 0 && (
                    T::obeys_partial_cmp_spec() ==> model.in_order()),
                    Err(InvalidDistribution::NoSamples) => sample_count == 0,
                    Err(InvalidDistribution::QuantilesOutOfOrder) => sample_count > 0 && (
                    T::obeys_partial_cmp_spec() ==> !model.in_order()),
                }
            }),
    {
        if sample_count == 0 {
            return Err(InvalidDistribution::NoSamples);
        }
        if median > percentile_95 || percentile_95 > percentile_99 || percentile_99 > worst {
            return Err(InvalidDistribution::QuantilesOutOfOrder);
        }
        Ok(Distribution { sample_count, median, percentile_95, percentile_99, worst })
    }

    #[must_use]
    pub fn sample_count(self) -> (value: u64)
        ensures
            value == self@.sample_count,
            value > 0,
    {
        proof {
            use_type_invariant(&self);
        }
        self.sample_count
    }

    #[must_use]
    pub fn median(self) -> (value: T)
        ensures
            value == self@.median,
            T::obeys_partial_cmp_spec() ==> !above(value, self@.percentile_95),
    {
        proof {
            use_type_invariant(&self);
        }
        self.median
    }

    #[must_use]
    pub fn percentile_95(self) -> (value: T)
        ensures
            value == self@.percentile_95,
            T::obeys_partial_cmp_spec() ==> !above(self@.median, value) && !above(value, self@.percentile_99),
    {
        proof {
            use_type_invariant(&self);
        }
        self.percentile_95
    }

    #[must_use]
    pub fn percentile_99(self) -> (value: T)
        ensures
            value == self@.percentile_99,
            T::obeys_partial_cmp_spec() ==> !above(self@.percentile_95, value) && !above(value, self@.worst),
    {
        proof {
            use_type_invariant(&self);
        }
        self.percentile_99
    }

    #[must_use]
    pub fn worst(self) -> (value: T)
        ensures
            value == self@.worst,
            T::obeys_partial_cmp_spec() ==> !above(self@.percentile_99, value),
    {
        proof {
            use_type_invariant(&self);
        }
        self.worst
    }
}

#[derive(Clone, Copy, Debug, PartialEq, Eq, Structural)]
pub enum VideoCodec {
    Av1,
}

#[derive(Clone, Copy, Debug, PartialEq, Eq, Structural)]
pub enum AudioCodec {
    Opus,
}

#[derive(Clone, Debug, PartialEq, Eq)]
pub struct NegotiatedConfiguration {
    pub protocol: ProtocolVersion,
    pub features: Vec<NegotiatedFeature>,
    pub video_codec: VideoCodec,
    pub video_width: u32,
    pub video_height: u32,
    pub video_frames_per_second: u16,
    pub video_chroma_subsampling: ChromaSubsampling,
    pub video_bit_depth: VideoBitDepth,
    pub video_maximum_bitrate_bits_per_second: u64,
    pub audio_codec: AudioCodec,
    pub audio_sample_rate_hz: u32,
    pub audio_channels: u8,
}

#[derive(Clone, Copy, Debug, PartialEq, Eq, PartialOrd, Ord)]
pub enum PipelineQueue {
    CaptureToColorConversion,
    ColorConversionToEncode,
    EncodeToTransport,
    ReceiveToFrameAssembly,
    FrameAssemblyToDecode,
    DecodeToPresentation,
    AudioCaptureToEncode,
    AudioReceiveToPlayback,
    InputReceiveToDriver,
}

#[derive(Clone, Debug, PartialEq, Eq)]
pub struct QueueStatistics {
    pub capacity_items: usize,
    pub depth_items: usize,
    pub residence_micros: Option<Distribution<u64>>,
    pub overflow_count: u64,
    pub dropped_items: u64,
}

#[derive(Clone, Debug, PartialEq, Eq)]
pub struct VideoStatistics {
    pub capture_interval_micros: Option<Distribution<u64>>,
    pub capture_duration_micros: Option<Distribution<u64>>,
    pub color_conversion_duration_micros: Option<Distribution<u64>>,
    pub encode_duration_micros: Option<Distribution<u64>>,
    pub encoded_frame_size_bytes: Option<Distribution<u64>>,
    pub bitrate_bits_per_second: Option<Distribution<u64>>,
    pub packetization_duration_micros: Option<Distribution<u64>>,
    pub estimated_network_transit_micros: Option<Distribution<u64>>,
    pub frame_assembly_duration_micros: Option<Distribution<u64>>,
    pub decode_duration_micros: Option<Distribution<u64>>,
    pub presentation_duration_micros: Option<Distribution<u64>>,
    pub sent_chunks: u64,
    pub lost_chunks: u64,
    pub late_chunks: u64,
    pub discarded_chunks: u64,
    pub requested_keyframes: u64,
    pub keyframe_recovery_micros: Option<Distribution<u64>>,
}

#[derive(Clone, Debug, PartialEq, Eq)]
pub struct AudioStatistics {
    pub buffer_depth_micros: Option<Distribution<u64>>,
    pub underrun_count: u64,
}

#[derive(Clone, Debug, PartialEq, Eq)]
pub struct InputStatistics {
    pub receive_to_driver_submit_micros: Option<Distribution<u64>>,
}

#[derive(Clone, Debug, PartialEq, Eq)]
pub struct SystemStatistics {
    pub cpu_load_basis_points: Option<Distribution<u32>>,
    pub gpu_load_basis_points: Option<Distribution<u32>>,
}

#[derive(Clone, Debug, PartialEq, Eq)]
pub struct FullFrameCopyStatistics {
    pub copy_count: u64,
    pub copied_bytes: u64,
    pub duration_micros: Option<Distribution<u64>>,
}

#[derive(Clone, Copy, Debug, PartialEq, Eq, Structural)]
pub struct ClockOffsetEstimate {
    pub offset_micros: i64,
    pub uncertainty_micros: u64,
}

#[derive(Clone, Debug, PartialEq, Eq)]
pub struct SessionStatistics {
    pub observed_for_micros: u64,
    pub negotiated: Option<NegotiatedConfiguration>,
    pub clock_offset: Option<ClockOffsetEstimate>,
    pub video: VideoStatistics,
    pub audio: AudioStatistics,
    pub input: InputStatistics,
    pub system: SystemStatistics,
    pub queues: BTreeMap<PipelineQueue, QueueStatistics>,
    pub full_frame_copies: BTreeMap<PipelineQueue, FullFrameCopyStatistics>,
}

impl QueueStatistics {
    /// A snapshot in which nothing was measured.
    pub open spec fn is_empty(self) -> bool {
        &&& self.capacity_items == 0
        &&& self.depth_items == 0
        &&& self.residence_micros is None
        &&& self.overflow_count == 0
        &&& self.dropped_items == 0
    }
}

impl Default for QueueStatistics {
    fn default() -> (statistics: Self)
        ensures
            statistics.is_empty(),
    {
        QueueStatistics {
            capacity_items: 0,
            depth_items: 0,
            residence_micros: None,
            overflow_count: 0,
            dropped_items: 0,
        }
    }
}

impl VideoStatistics {
    /// A snapshot in which nothing was measured.
    pub open spec fn is_empty(self) -> bool {
        &&& self.capture_interval_micros is None
        &&& self.capture_duration_micros is None
        &&& self.color_conversion_duration_micros is None
        &&& self.encode_duration_micros is None
        &&& self.encoded_frame_size_bytes is None
        &&& self.bitrate_bits_per_second is None
        &&& self.packetization_duration_micros is None
        &&& self.estimated_network_transit_micros is None
        &&& self.frame_assembly_duration_micros is None
        &&& self.decode_duration_micros is None
        &&& self.presentation_duration_micros is None
        &&& self.sent_chunks == 0
        &&& self.lost_chunks == 0
        &&& self.late_chunks == 0
        &&& self.discarded_chunks == 0
        &&& self.requested_keyframes == 0
        &&& self.keyframe_recovery_micros is None
    }
}

impl Default for VideoStatistics {
    fn default() -> (statistics: Self)
        ensures
            statistics.is_empty(),
    {
        VideoStatistics {
            capture_interval_micros: None,
            capture_duration_micros: None,
            color_conversion_duration_micros: None,
            encode_duration_micros: None,
            encoded_frame_size_bytes: None,
            bitrate_bits_per_second: None,
            packetization_duration_micros: None,
            estimated_network_transit_micros: None,
            frame_assembly_duration_micros: None,
            decode_duration_micros: None,
            presentation_duration_micros: None,
            sent_chunks: 0,
            lost_chunks: 0,
            late_chunks: 0,
            discarded_chunks: 0,
            requested_keyframes: 0,
            keyframe_recovery_micros: None,
        }
    }
}

impl AudioStatistics {
    /// A snapshot in which nothing was measured.
    pub open spec fn is_empty(self) -> bool {
        &&& self.buffer_depth_micros is None
        &&& self.underrun_count == 0
    }
}

impl Default for AudioStatistics {
    fn default() -> (statistics: Self)
        ensures
            statistics.is_empty(),
    {
        AudioStatistics {
            buffer_depth_micros: None,
            underrun_count: 0,
        }
    }
}

impl InputStatistics {
    /// A snapshot in which nothing was measured.
    pub open spec fn is_empty(self) -> bool {
        &&& self.receive_to_driver_submit_micros is None
    }
}

impl Default for InputStatistics {
    fn default() -> (statistics: Self)
        ensures
            statistics.is_empty(),
    {
        InputStatistics {
            receive_to_driver_submit_micros: None,
        }
    }
}

impl SystemStatistics {
    /// A snapshot in which nothing was measured.
    pub open spec fn is_empty(self) -> bool {
        &&& self.cpu_load_basis_points is None
        &&& self.gpu_load_basis_points is None
    }
}

impl Default for SystemStatistics {
    fn default() -> (statistics: Self)
        ensures
            statistics.is_empty(),
    {
        SystemStatistics {
            cpu_load_basis_points: None,
            gpu_load_basis_points: None,
        }
    }
}

impl FullFrameCopyStatistics {
    /// A snapshot in which nothing was measured.
    pub open spec fn is_empty(self) -> bool {
        &&& self.copy_count == 0
        &&& self.copied_bytes == 0
        &&& self.duration_micros is None
    }
}

impl Default for FullFrameCopyStatistics {
    fn default() -> (statistics: Self)
        ensures
            statistics.is_empty(),
    {
        FullFrameCopyStatistics {
            copy_count: 0,
            copied_bytes: 0,
            duration_micros: None,
        }
    }
}

impl SessionStatistics {
    /// A snapshot in which nothing was measured.
    pub open spec fn is_empty(self) -> bool {
        &&& self.observed_for_micros == 0
        &&& self.negotiated is None
        &&& self.clock_offset is None
        &&& self.video.is_empty()
        &&& self.audio.is_empty()
        &&& self.input.is_empty()
        &&& self.system.is_empty()
        &&& self.queues@ == Map::<PipelineQueue, QueueStatistics>::empty()
        &&& self.full_frame_copies@ == Map::<PipelineQueue, FullFrameCopyStatistics>::empty()
    }
}

impl Default for SessionStatistics {
    fn default() -> (statistics: Self)
        ensures
            statistics.is_empty(),
    {
        SessionStatistics {
            observed_for_micros: 0,
            negotiated: None,
            clock_offset: None,
            video: VideoStatistics::default(),
            audio: AudioStatistics::default(),
            input: InputStatistics::default(),
            system: SystemStatistics::default(),
            queues: BTreeMap::new(),
            full_frame_copies: BTreeMap::new(),
        }
    }
}

/// Of integers the quantiles are in order where none is above the next.
pub proof fn law_quantiles_of_integers_ascend(distribution: DistributionModel<u64>)
    ensures
        distribution.in_order() <==> distribution.median <= distribution.percentile_95
            <= distribution.percentile_99 <= distribution.worst,
{
}

/// Where nothing was measured, no distribution is there and every count is zero.
pub proof fn law_nothing_measured(
    queue: QueueStatistics,
    video: VideoStatistics,
    audio: AudioStatistics,
    input: InputStatistics,
)
    ensures
        queue.is_empty() <==> queue.residence_micros is None && queue.capacity_items
            + queue.depth_items + queue.overflow_count + queue.dropped_items == 0,
        video.is_empty() ==> video.sent_chunks + video.lost_chunks + video.late_chunks
            + video.discarded_chunks + video.requested_keyframes == 0,
        video.is_empty() ==> video.capture_interval_micros is None
            && video.capture_duration_micros is None && video.color_conversion_duration_micros
            is None && video.encode_duration_micros is None && video.encoded_frame_size_bytes
            is None && video.bitrate_bits_per_second is None,
        video.is_empty() ==> video.packetization_duration_micros is None
            && video.estimated_network_transit_micros is None
            && video.frame_assembly_duration_micros is None && video.decode_duration_micros is None
            && video.presentation_duration_micros is None && video.keyframe_recovery_micros is None,
        audio.is_empty() <==> audio.buffer_depth_micros is None && audio.underrun_count == 0,
        input.is_empty() <==> input.receive_to_driver_submit_micros is None,
{
}

} // verus!
