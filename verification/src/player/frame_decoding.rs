//! What becomes of a frame once it is decoded.

use crate::bytes::same;
use crate::digest;
use crate::digest::sha256;
use crate::player::diagnostic_marker;
use crate::player::diagnostic_marker::{diagnostic_marker_state, MarkerSearch};
use crate::player::progress::{StreamProgress, StreamProgressModel, StreamTransportStatistics};
use crate::protocol::av1::VideoBitDepth;
use crate::session::video_datagram::VideoFramePayload;
use crate::time::{Duration, Instant};
use vstd::prelude::*;

verus! {

/// Whether a payload is the one that was hashed, where one was.
pub open spec fn match_of(hash: Option<[u8; 32]>, payload: Seq<u8>) -> Option<bool> {
    match hash {
        Some(hash) => Some(hash@ == digest::sha256_of(payload)),
        None => None,
    }
}

/// Whether what the decoder is given is what was assembled, where that was
/// hashed.
pub fn decoder_input_matches(assembled_payload_sha256: Option<[u8; 32]>, payload: &[u8]) -> (
matched: Option<bool>)
    ensures
        matched == match_of(assembled_payload_sha256, payload@),
{
    match assembled_payload_sha256 {
        Some(hash) => {
            let decoder = sha256(payload);
            Some(same(hash.as_slice(), decoder.as_slice()))
        },
        None => None,
    }
}

/// How the colours of a decoded frame are meant.
#[derive(Clone, Copy, Debug, PartialEq, Eq, Structural)]
pub enum Av1ColorDescription {
    Bt709Limited,
    Bt2020PqLimited,
}

/// Eight bits come with BT.709, ten with BT.2020.
pub open spec fn is_color_of(depth: Option<VideoBitDepth>, color: Av1ColorDescription) -> bool {
    match depth {
        Some(VideoBitDepth::Eight) => color == Av1ColorDescription::Bt709Limited,
        Some(VideoBitDepth::Ten) => color == Av1ColorDescription::Bt2020PqLimited,
        None => false,
    }
}

/// Whether the colours of a frame are the ones of the negotiated bit depth.
pub fn color_agrees_with_depth(depth: Option<VideoBitDepth>, color: Av1ColorDescription) -> (
agrees: bool)
    ensures
        agrees == is_color_of(depth, color),
{
    match (depth, color) {
        (Some(VideoBitDepth::Eight), Av1ColorDescription::Bt709Limited) => true,
        (Some(VideoBitDepth::Ten), Av1ColorDescription::Bt2020PqLimited) => true,
        _ => false,
    }
}

/// Why a decoded frame is not shown.
#[derive(Clone, Copy, Debug, PartialEq, Eq, Structural)]
pub enum DecodedFrameFault {
    UnsupportedColorMetadata,
    ColorContradictsDepth,
}

/// A decoded frame, and everything that is known of how it came to be.
pub struct DecodedVideoFrame<Frame> {
    pub sequence: u64,
    pub encoded_frame_bytes: usize,
    pub captured_at_micros: u64,
    pub encoded_at_micros: u64,
    pub packetized_at_micros: u64,
    pub input_sequence: u64,
    pub assembled_at: Option<Instant>,
    pub assembled_at_micros: u64,
    pub assembly_duration: Duration,
    pub decoder_queue_duration: Option<Duration>,
    pub decode_duration: Duration,
    pub decoded_at: Option<Instant>,
    pub decoder_input_hash_duration: Duration,
    pub assembly_to_decoder_matched: Option<bool>,
    pub diagnostic_marker_input_sequence: Option<u64>,
    pub diagnostic_copy_duration: Option<Duration>,
    pub diagnostic_copy_bytes: u64,
    pub color_description: Av1ColorDescription,
    pub frame: Frame,
}

/// When the decoder had a frame.
#[derive(Clone, Copy, Debug, PartialEq, Eq, Structural)]
pub struct DecodeTimes {
    pub hash_duration: Duration,
    pub decode_started: Instant,
    pub decode_finished: Instant,
}

/// What was copied out of a frame to look for the mark.
#[derive(Clone, Copy, Debug, PartialEq, Eq, Structural)]
pub struct MarkerCopy {
    pub duration: Duration,
    pub bytes: u64,
    /// The input that the copy showed to be applied.
    pub applied: Option<u64>,
}

/// What a stream's video decoder remembers from frame to frame.
#[derive(Clone, Copy, Debug, PartialEq, Eq, Structural)]
pub struct StreamVideoDecoder {
    pub latency_diagnostics: bool,
    /// The depth that was negotiated, once it was.
    pub depth: Option<VideoBitDepth>,
    pub search: MarkerSearch,
}

impl StreamVideoDecoder {
    pub fn new(latency_diagnostics: bool) -> (decoder: Self)
        ensures
            decoder.latency_diagnostics == latency_diagnostics,
            decoder.depth is None,
            decoder.search == (MarkerSearch {
                marker: None,
                baseline_attempted: false,
                last_probe_sequence: 0,
                active_probe_sequence: 0,
                probe_attempts: 0,
            }),
    {
        StreamVideoDecoder { latency_diagnostics, depth: None, search: MarkerSearch::new() }
    }

    /// Notes what was negotiated.
    pub fn note(&mut self, progress: &StreamProgress)
        ensures
            *final(self) == (StreamVideoDecoder {
                depth: match progress@ {
                    StreamProgressModel::VideoNegotiated(configuration) => Some(
                        configuration.mode.bit_depth,
                    ),
                    _ => old(self).depth,
                },
                ..*old(self)
            }),
    {
        match progress {
            StreamProgress::VideoNegotiated(configuration) => {
                self.depth = Some(configuration.mode.bit_depth);
            },
            _ => {},
        }
    }

    /// Whether a decoded frame of these colours may be shown.
    pub open spec fn fault(self, color: Option<Av1ColorDescription>) -> Option<DecodedFrameFault> {
        match color {
            None => Some(DecodedFrameFault::UnsupportedColorMetadata),
            Some(color) => if is_color_of(self.depth, color) {
                None
            } else {
                Some(DecodedFrameFault::ColorContradictsDepth)
            },
        }
    }

    /// The colours of a decoded frame, where it may be shown.
    pub fn require_color(&self, color: Option<Av1ColorDescription>) -> (result: Result<
        Av1ColorDescription,
        DecodedFrameFault,
    >)
        ensures
            match self.fault(color) {
                Some(fault) => result == Err::<Av1ColorDescription, _>(fault),
                None => color is Some && result == Ok::<_, DecodedFrameFault>(color->0),
            },
    {
        match color {
            Some(color) => if color_agrees_with_depth(self.depth, color) {
                Ok(color)
            } else {
                Err(DecodedFrameFault::ColorContradictsDepth)
            },
            None => Err(DecodedFrameFault::UnsupportedColorMetadata),
        }
    }

    /// Whether to look for the mark in a frame.
    pub fn probe(&mut self, frame_input_sequence: u64, requested_sequence: u64) -> (probe: bool)
        ensures
            (final(self).search.probe_model(), probe) == old(self).search.probe_model().probed(
                old(self).latency_diagnostics,
                old(self).search.baseline_attempted,
                frame_input_sequence,
                requested_sequence,
            ),
            final(self).search.marker == old(self).search.marker,
            final(self).search.baseline_attempted == (old(self).search.baseline_attempted || probe),
            *final(self) == (StreamVideoDecoder { search: final(self).search, ..*old(self) }),
    {
        self.search.take(self.latency_diagnostics, frame_input_sequence, requested_sequence)
    }

    /// Notes the luma that was copied out of a frame: the input that it shows to
    /// be applied.
    pub fn observe(&mut self, samples: &[u16], bit_depth: u16, requested_sequence: u64) -> (applied:
        Option<u64>)
        ensures
            ({
                let (search, found) = old(self).search.observed(
                    diagnostic_marker::marker_of(samples@, bit_depth),
                    requested_sequence,
                );
                applied == found && *final(self) == (StreamVideoDecoder { search, ..*old(self) })
            }),
    {
        self.search.observe(diagnostic_marker_state(samples, bit_depth), requested_sequence)
    }

    /// The decoded frame with what is known of it.
    pub fn complete<Frame>(
        &self,
        encoded: &VideoFramePayload,
        transport: StreamTransportStatistics,
        times: DecodeTimes,
        copy: Option<MarkerCopy>,
        color_description: Av1ColorDescription,
        frame: Frame,
    ) -> (decoded: DecodedVideoFrame<Frame>)
        ensures
            decoded == (DecodedVideoFrame {
                sequence: encoded.sequence,
                encoded_frame_bytes: encoded.payload@.len() as usize,
                captured_at_micros: encoded.captured_at_micros,
                encoded_at_micros: encoded.encoded_at_micros,
                packetized_at_micros: encoded.packetized_at_micros,
                input_sequence: encoded.input_sequence,
                assembled_at: transport.assembled_at,
                assembled_at_micros: transport.assembled_at_micros,
                assembly_duration: transport.assembly_duration,
                decoder_queue_duration: match transport.assembled_at {
                    Some(assembled_at) => Some(times.decode_started.spec_since(assembled_at)),
                    None => None,
                },
                decode_duration: times.decode_finished.spec_since(times.decode_started),
                decoded_at: if self.latency_diagnostics {
                    Some(times.decode_finished)
                } else {
                    None
                },
                decoder_input_hash_duration: if transport.assembled_payload_sha256 is Some {
                    times.hash_duration
                } else {
                    Duration { nanos: 0 }
                },
                assembly_to_decoder_matched: match_of(
                    transport.assembled_payload_sha256,
                    encoded.payload@,
                ),
                diagnostic_marker_input_sequence: match copy {
                    Some(copy) => copy.applied,
                    None => None,
                },
                diagnostic_copy_duration: match copy {
                    Some(copy) => Some(copy.duration),
                    None => None,
                },
                diagnostic_copy_bytes: match copy {
                    Some(copy) => copy.bytes,
                    None => 0,
                },
                color_description,
                frame,
            }),
    {
        let (diagnostic_marker_input_sequence, diagnostic_copy_duration, diagnostic_copy_bytes): (
            Option<u64>,
            Option<Duration>,
            u64,
        ) = match copy {
            Some(copy) => (copy.applied, Some(copy.duration), copy.bytes),
            None => (None, None, 0),
        };
        DecodedVideoFrame {
            sequence: encoded.sequence,
            encoded_frame_bytes: encoded.payload.len(),
            captured_at_micros: encoded.captured_at_micros,
            encoded_at_micros: encoded.encoded_at_micros,
            packetized_at_micros: encoded.packetized_at_micros,
            input_sequence: encoded.input_sequence,
            assembled_at: transport.assembled_at,
            assembled_at_micros: transport.assembled_at_micros,
            assembly_duration: transport.assembly_duration,
            decoder_queue_duration: match transport.assembled_at {
                Some(assembled_at) => Some(
                    times.decode_started.saturating_duration_since(assembled_at),
                ),
                None => None,
            },
            decode_duration: times.decode_finished.saturating_duration_since(times.decode_started),
            decoded_at: if self.latency_diagnostics {
                Some(times.decode_finished)
            } else {
                None
            },
            decoder_input_hash_duration: if transport.assembled_payload_sha256.is_some() {
                times.hash_duration
            } else {
                Duration::from_nanos(0)
            },
            assembly_to_decoder_matched: decoder_input_matches(
                transport.assembled_payload_sha256,
                encoded.payload.as_slice(),
            ),
            diagnostic_marker_input_sequence,
            diagnostic_copy_duration,
            diagnostic_copy_bytes,
            color_description,
            frame,
        }
    }
}

/// Which color goes with which depth: the usual with eight bits, that of high
/// range with ten, and none before a depth is known.
pub proof fn law_colors_and_depths(decoder: StreamVideoDecoder, color: Option<Av1ColorDescription>)
    ensures
        decoder.fault(color) is None <==> {
            ||| color == Some(Av1ColorDescription::Bt709Limited) && decoder.depth == Some(
                VideoBitDepth::Eight,
            )
            ||| color == Some(Av1ColorDescription::Bt2020PqLimited) && decoder.depth == Some(
                VideoBitDepth::Ten,
            )
        },
        color is None <==> decoder.fault(color) == Some(
            DecodedFrameFault::UnsupportedColorMetadata,
        ),
{
}

/// A payload matches where a hash was noted for it and is its own.
pub proof fn law_payloads_that_match(hash: Option<[u8; 32]>, payload: Seq<u8>)
    ensures
        match_of(hash, payload) is None <==> hash is None,
        match_of(hash, payload) == Some(true) <==> (hash matches Some(noted) && noted@
            == digest::sha256_of(payload)),
{
}

} // verus!
