//! What a running stream tells of itself.

use crate::player::continuity::DecodeContinuity;
use crate::player::keyboard_leds::KeyboardLedSnapshot;
use crate::player::payload_integrity::{PayloadIntegrityCounters, PayloadIntegritySample};
use crate::player::receiver::{
    AudioTransportModel, AudioTransportSnapshot, Receiver, StreamSnapshot,
};
use crate::player::stream_control;
use crate::player::stream_control::{StreamEnd, PROGRESS_NANOS};
use crate::protocol::av1::NegotiatedAv1Configuration;
use crate::protocol::wire::InputAck;
use crate::session::authentication::SessionIdentity;
use crate::session::statistics::ClockOffsetEstimate;
use crate::session::video_assembly::{FrameAssemblyProgress, VideoAssemblyStats};
use crate::session::video_datagram::VideoFramePayload;
use crate::time::{Duration, Instant};
use vstd::prelude::*;

verus! {

/// How full the queues of a stream are, and what fell out of them.
#[derive(Clone, Copy, Debug, PartialEq, Eq, Structural)]
pub struct DiagnosticQueueSnapshot {
    pub video_depth: u64,
    pub video_drops: u64,
    pub audio_depth: u64,
    pub audio_drops: u64,
    pub event_depth: u64,
    pub event_drops: u64,
    pub digest_depth: u64,
    pub digest_drops: u64,
    pub keyframe_requests: u64,
}

#[derive(Clone, Debug, PartialEq)]
pub enum StreamProgress {
    AudioTransport(AudioTransportSnapshot),
    KeyboardLeds { generation: u64, sequence: u64, mask: u8 },
    NegotiatingVideo,
    VideoNegotiated(NegotiatedAv1Configuration),
    WaitingForVideoPackets,
    ReceivingVideoPackets { frame: FrameAssemblyProgress, totals: VideoAssemblyStats },
    FirstFrameAssembled {
        target_bitrate_bits_per_second: u64,
        estimated_capacity_bits_per_second: u64,
    },
    ReleasePointerCapture,
    ClockOffset(ClockOffsetEstimate),
    InputAcknowledged { ack: InputAck, player_received_at_micros: u64 },
    InputSent {
        sequence: u64,
        occurred_at: Instant,
        sent_at: Instant,
        send_completed_at: Instant,
        correlates_test_marker: bool,
    },
    PayloadIntegrity(PayloadIntegritySample),
    PayloadIntegrityCounters(PayloadIntegrityCounters),
    DiagnosticQueues(DiagnosticQueueSnapshot),
    KeyframeRecovered { duration: Duration },
}

/// The contents of a [`StreamProgress`].
#[verifier::ext_equal]
pub enum StreamProgressModel {
    AudioTransport(AudioTransportModel),
    KeyboardLeds { generation: u64, sequence: u64, mask: u8 },
    NegotiatingVideo,
    VideoNegotiated(NegotiatedAv1Configuration),
    WaitingForVideoPackets,
    ReceivingVideoPackets { frame: FrameAssemblyProgress, totals: VideoAssemblyStats },
    FirstFrameAssembled {
        target_bitrate_bits_per_second: u64,
        estimated_capacity_bits_per_second: u64,
    },
    ReleasePointerCapture,
    ClockOffset(ClockOffsetEstimate),
    InputAcknowledged { ack: InputAck, player_received_at_micros: u64 },
    InputSent {
        sequence: u64,
        occurred_at: Instant,
        sent_at: Instant,
        send_completed_at: Instant,
        correlates_test_marker: bool,
    },
    PayloadIntegrity(PayloadIntegritySample),
    PayloadIntegrityCounters(PayloadIntegrityCounters),
    DiagnosticQueues(DiagnosticQueueSnapshot),
    KeyframeRecovered { duration: Duration },
}

impl View for StreamProgress {
    type V = StreamProgressModel;

    open spec fn view(&self) -> StreamProgressModel {
        match self {
            StreamProgress::AudioTransport(value) => StreamProgressModel::AudioTransport(value@),
            StreamProgress::KeyboardLeds { generation, sequence, mask } => {
                StreamProgressModel::KeyboardLeds {
                    generation: *generation,
                    sequence: *sequence,
                    mask: *mask,
                }
            },
            StreamProgress::NegotiatingVideo => StreamProgressModel::NegotiatingVideo,
            StreamProgress::VideoNegotiated(value) => StreamProgressModel::VideoNegotiated(*value),
            StreamProgress::WaitingForVideoPackets => StreamProgressModel::WaitingForVideoPackets,
            StreamProgress::ReceivingVideoPackets { frame, totals } => {
                StreamProgressModel::ReceivingVideoPackets {
                    frame: *frame,
                    totals: *totals,
                }
            },
            StreamProgress::FirstFrameAssembled {
                target_bitrate_bits_per_second,
                estimated_capacity_bits_per_second,
            } => {
                StreamProgressModel::FirstFrameAssembled {
                    target_bitrate_bits_per_second: *target_bitrate_bits_per_second,
                    estimated_capacity_bits_per_second: *estimated_capacity_bits_per_second,
                }
            },
            StreamProgress::ReleasePointerCapture => StreamProgressModel::ReleasePointerCapture,
            StreamProgress::ClockOffset(value) => StreamProgressModel::ClockOffset(*value),
            StreamProgress::InputAcknowledged { ack, player_received_at_micros } => {
                StreamProgressModel::InputAcknowledged {
                    ack: *ack,
                    player_received_at_micros: *player_received_at_micros,
                }
            },
            StreamProgress::InputSent {
                sequence,
                occurred_at,
                sent_at,
                send_completed_at,
                correlates_test_marker,
            } => {
                StreamProgressModel::InputSent {
                    sequence: *sequence,
                    occurred_at: *occurred_at,
                    sent_at: *sent_at,
                    send_completed_at: *send_completed_at,
                    correlates_test_marker: *correlates_test_marker,
                }
            },
            StreamProgress::PayloadIntegrity(value) => {
                StreamProgressModel::PayloadIntegrity(*value)
            },
            StreamProgress::PayloadIntegrityCounters(value) => {
                StreamProgressModel::PayloadIntegrityCounters(*value)
            },
            StreamProgress::DiagnosticQueues(value) => {
                StreamProgressModel::DiagnosticQueues(*value)
            },
            StreamProgress::KeyframeRecovered { duration } => {
                StreamProgressModel::KeyframeRecovered {
                    duration: *duration,
                }
            },
        }
    }
}

/// Who takes the audio and the video of a stream.
pub struct StreamConsumers<Audio, Video> {
    pub audio: Audio,
    pub video: Video,
}

/// How a stream went.
#[derive(Clone, Copy, Debug, PartialEq, Eq)]
pub struct StreamHostResult {
    pub identity: SessionIdentity,
    pub end: StreamEnd,
}

/// How a frame arrived.
#[derive(Clone, Copy, Debug)]
pub struct StreamTransportStatistics {
    pub round_trip_time: Duration,
    pub assembly: VideoAssemblyStats,
    pub assembled_at: Option<Instant>,
    pub assembled_at_micros: u64,
    pub assembly_duration: Duration,
    pub assembled_payload_sha256: Option<[u8; 32]>,
}

/// What is shown of a frame and how it arrived.
#[derive(Clone, Copy, Debug, PartialEq, Eq, Structural)]
pub struct VideoStreamSample {
    pub encoded_frame_bytes: usize,
    pub target_bitrate_bits_per_second: u64,
    pub estimated_capacity_bits_per_second: u64,
    pub round_trip_time: Duration,
    pub lost_chunks: u64,
    pub late_chunks: u64,
    pub assembly_overflows: u64,
    pub completed_frames: u64,
    pub incomplete_frames: u64,
}

impl VideoStreamSample {
    #[must_use]
    pub fn from_frame(frame: &VideoFramePayload, transport: StreamTransportStatistics) -> (sample:
        Self)
        ensures
            sample == (VideoStreamSample {
                encoded_frame_bytes: frame.payload@.len() as usize,
                target_bitrate_bits_per_second: frame.target_bitrate_bits_per_second,
                estimated_capacity_bits_per_second: frame.estimated_capacity_bits_per_second,
                round_trip_time: transport.round_trip_time,
                lost_chunks: transport.assembly.lost_chunks,
                late_chunks: transport.assembly.late_chunks,
                assembly_overflows: transport.assembly.assembly_overflows,
                completed_frames: transport.assembly.completed_frames,
                incomplete_frames: transport.assembly.incomplete_frames,
            }),
    {
        VideoStreamSample {
            encoded_frame_bytes: frame.payload.len(),
            target_bitrate_bits_per_second: frame.target_bitrate_bits_per_second,
            estimated_capacity_bits_per_second: frame.estimated_capacity_bits_per_second,
            round_trip_time: transport.round_trip_time,
            lost_chunks: transport.assembly.lost_chunks,
            late_chunks: transport.assembly.late_chunks,
            assembly_overflows: transport.assembly.assembly_overflows,
            completed_frames: transport.assembly.completed_frames,
            incomplete_frames: transport.assembly.incomplete_frames,
        }
    }
}

/// What the queues of a stream hold; `event_depth` and `event_drops` are of the
/// queue of diagnostic events, which the receiver does not have.
pub fn diagnostic_queues(
    receiver: &Receiver,
    event_depth: u64,
    event_drops: u64,
    keyframe_requests: u64,
) -> (queues: DiagnosticQueueSnapshot)
    requires
        receiver@.well_formed(),
    ensures
        queues == (DiagnosticQueueSnapshot {
            video_depth: receiver@.frames.items.len() as u64,
            video_drops: receiver@.frames.dropped,
            audio_depth: receiver@.audio_events.items.len() as u64,
            audio_drops: receiver@.audio_events.dropped,
            event_depth,
            event_drops,
            digest_depth: match receiver@.payload_digests {
                Some(queue) => queue.items.len() as u64,
                None => 0,
            },
            digest_drops: match receiver@.payload_digests {
                Some(queue) => queue.dropped,
                None => 0,
            },
            keyframe_requests,
        }),
{
    let (digest_depth, digest_drops): (u64, u64) = match &receiver.payload_digests {
        Some(queue) => (queue.depth() as u64, queue.dropped()),
        None => (0, 0),
    };
    DiagnosticQueueSnapshot {
        video_depth: receiver.frames.depth() as u64,
        video_drops: receiver.frames.dropped(),
        audio_depth: receiver.audio_events.depth() as u64,
        audio_drops: receiver.audio_events.dropped(),
        event_depth,
        event_drops,
        digest_depth,
        digest_drops,
        keyframe_requests,
    }
}

/// What there is to do with a frame.
#[derive(Clone, Copy, Debug, PartialEq, Eq, Structural)]
pub struct FrameAdmission {
    /// Whether the frame is decoded.
    pub decode: bool,
    /// How long it took to recover, where this frame ends a recovery.
    pub recovered: Option<Duration>,
    /// Whether this is the first frame that is decoded.
    pub first: bool,
}

/// Which frames are decoded, and when a keyframe is wanted.
#[derive(Clone, Copy, Debug, PartialEq, Eq, Structural)]
pub struct FrameGate {
    pub continuity: DecodeContinuity,
    pub first: bool,
    pub request_keyframe: bool,
    pub recovery_started: Option<Instant>,
}

impl FrameGate {
    pub fn new() -> (gate: Self)
        ensures
            gate == (FrameGate {
                continuity: DecodeContinuity { last: None, ready: false },
                first: true,
                request_keyframe: false,
                recovery_started: None,
            }),
    {
        FrameGate {
            continuity: DecodeContinuity::default(),
            first: true,
            request_keyframe: false,
            recovery_started: None,
        }
    }

    /// With a loss of something that later frames depend on.
    pub open spec fn losing(self) -> FrameGate {
        FrameGate {
            continuity: DecodeContinuity { ready: false, ..self.continuity },
            request_keyframe: true,
            ..self
        }
    }

    /// Something is lost that later frames depend on.
    pub fn lost(&mut self)
        ensures
            *final(self) == old(self).losing(),
    {
        self.continuity.interrupt();
        self.request_keyframe = true;
    }

    /// With a keyframe asked for.
    pub open spec fn asking(self, now: Instant) -> FrameGate {
        FrameGate {
            request_keyframe: false,
            recovery_started: if self.recovery_started is None {
                Some(now)
            } else {
                self.recovery_started
            },
            ..self
        }
    }

    /// A keyframe was asked for.
    pub fn requested(&mut self, now: Instant)
        ensures
            *final(self) == old(self).asking(now),
    {
        self.request_keyframe = false;
        if self.recovery_started.is_none() {
            self.recovery_started = Some(now);
        }
    }

    /// What a frame makes of the state, and what there is to do with it.
    pub open spec fn admitted(self, sequence: u64, keyframe: bool, now: Instant) -> (
        FrameGate,
        FrameAdmission,
    ) {
        let continuity = self.continuity.after(sequence, keyframe);
        if !continuity.ready {
            (
                FrameGate { continuity, request_keyframe: true, ..self },
                FrameAdmission { decode: false, recovered: None, first: false },
            )
        } else {
            (
                FrameGate {
                    continuity,
                    first: false,
                    request_keyframe: self.request_keyframe && !keyframe,
                    recovery_started: if keyframe {
                        None
                    } else {
                        self.recovery_started
                    },
                },
                FrameAdmission {
                    decode: true,
                    recovered: match self.recovery_started {
                        Some(started) if keyframe => Some(now.spec_since(started)),
                        _ => None,
                    },
                    first: self.first,
                },
            )
        }
    }

    /// Notes a frame: what there is to do with it.
    pub fn pass(&mut self, sequence: u64, keyframe: bool, now: Instant) -> (admission:
        FrameAdmission)
        ensures
            (*final(self), admission) == old(self).admitted(sequence, keyframe, now),
    {
        if !self.continuity.accept(sequence, keyframe) {
            self.request_keyframe = true;
            return FrameAdmission { decode: false, recovered: None, first: false };
        }
        let mut recovered: Option<Duration> = None;
        if keyframe {
            self.request_keyframe = false;
            match self.recovery_started {
                Some(started) => {
                    recovered = Some(now.saturating_duration_since(started));
                },
                None => {},
            }
            self.recovery_started = None;
        }
        let first = self.first;
        self.first = false;
        FrameAdmission { decode: true, recovered, first }
    }
}

/// What was shown last.
#[derive(Clone, Copy, Debug, PartialEq, Eq, Structural)]
pub struct ProgressReporter {
    pub last_progress: Option<Instant>,
    pub reported_keyboard_leds: Option<KeyboardLedSnapshot>,
}

impl ProgressReporter {
    pub fn new() -> (reporter: Self)
        ensures
            reporter == (ProgressReporter { last_progress: None, reported_keyboard_leds: None }),
    {
        ProgressReporter { last_progress: None, reported_keyboard_leds: None }
    }

    /// The lights, where they have changed since they were last shown.
    pub fn keyboard_leds(&mut self, snapshot: &StreamSnapshot) -> (changed: Option<
        KeyboardLedSnapshot,
    >)
        ensures
            changed == if snapshot@.keyboard_leds == old(self).reported_keyboard_leds {
                None
            } else {
                snapshot@.keyboard_leds
            },
            *final(self) == (ProgressReporter {
                reported_keyboard_leds: snapshot@.keyboard_leds,
                ..*old(self)
            }),
    {
        let known = match (snapshot.keyboard_leds, self.reported_keyboard_leds) {
            (Some(current), Some(reported)) => current == reported,
            (None, None) => true,
            _ => false,
        };
        self.reported_keyboard_leds = snapshot.keyboard_leds;
        if known {
            None
        } else {
            snapshot.keyboard_leds
        }
    }

    /// Whether progress is to be shown now.
    pub fn due(&mut self, now: Instant) -> (due: bool)
        ensures
            due == stream_control::is_due(old(self).last_progress, now, PROGRESS_NANOS),
            *final(self) == if due {
                ProgressReporter { last_progress: Some(now), ..*old(self) }
            } else {
                *old(self)
            },
    {
        let due = match self.last_progress {
            Some(last) => now.saturating_duration_since(last).nanos >= PROGRESS_NANOS,
            None => true,
        };
        if due {
            self.last_progress = Some(now);
        }
        due
    }
}

/// A frame that ends a recovery is a keyframe, and no frame is decoded between a
/// loss and the next keyframe.
pub proof fn law_recovery_ends_with_a_keyframe(
    gate: FrameGate,
    sequence: u64,
    keyframe: bool,
    now: Instant,
)
    ensures
        gate.admitted(sequence, keyframe, now).1.recovered is Some ==> keyframe,
        !gate.continuity.ready && !keyframe ==> !gate.admitted(sequence, keyframe, now).1.decode
            && gate.admitted(sequence, keyframe, now).0.request_keyframe,
{
}

/// Which frames are decoded: a keyframe always, any other only right after one
/// that was. One that is not asks for a keyframe; a keyframe ends the asking and
/// the recovery, and tells how long that took.
pub proof fn law_which_frames_are_decoded(
    gate: FrameGate,
    sequence: u64,
    keyframe: bool,
    now: Instant,
)
    ensures
        ({
            let (after, admission) = gate.admitted(sequence, keyframe, now);
            &&& keyframe ==> admission.decode
            &&& !keyframe && admission.decode ==> gate.continuity.ready && (
            gate.continuity.last matches Some(last) ==> sequence == last + 1)
            &&& !keyframe && gate.continuity.ready && gate.continuity.last is Some
                && gate.continuity.last->0 + 1 == sequence ==> admission.decode
            &&& !admission.decode ==> after.request_keyframe && admission.recovered is None
                && !admission.first && after.first == gate.first && after.recovery_started
                == gate.recovery_started
            &&& admission.decode ==> admission.first == gate.first && !after.first
            &&& keyframe ==> !after.request_keyframe && after.recovery_started is None
            &&& !keyframe && admission.decode ==> after.request_keyframe == gate.request_keyframe
                && after.recovery_started == gate.recovery_started && admission.recovered is None
            &&& keyframe ==> (admission.recovered is Some <==> gate.recovery_started is Some)
            &&& keyframe ==> (gate.recovery_started matches Some(started) ==> (started.nanos
                <= now.nanos ==> (admission.recovered matches Some(took) && took.nanos == now.nanos
                - started.nanos)))
            &&& after.continuity.last == Some(sequence)
        }),
{
}

/// A loss asks for a keyframe, and no frame but one is decoded after it. A
/// keyframe that was asked for is not asked for again, and the recovery counts
/// from the first time.
pub proof fn law_losses_and_requests(gate: FrameGate, now: Instant)
    ensures
        gate.losing().request_keyframe,
        !gate.losing().continuity.ready,
        gate.losing().continuity.last == gate.continuity.last,
        gate.losing().first == gate.first,
        gate.losing().recovery_started == gate.recovery_started,
        !gate.asking(now).request_keyframe,
        gate.recovery_started is None ==> gate.asking(now).recovery_started == Some(now),
        gate.recovery_started is Some ==> gate.asking(now).recovery_started
            == gate.recovery_started,
        gate.asking(now).continuity == gate.continuity,
        gate.asking(now).first == gate.first,
{
}

} // verus!
